//! Base64 and UTF-8 conversions, and the base64-encoded share text that
//! travels in a response header next to a card image.

use base64::engine::general_purpose::STANDARD;
use base64::Engine;
use vstd::prelude::*;
use vstd::string::*;
use vstd::utf8::{decode_utf8, encode_utf8, valid_utf8};

verus! {

/// The character of a 6-bit value in the standard base64 alphabet
/// (`A`–`Z`, `a`–`z`, `0`–`9`, `+`, `/`).
pub open spec fn base64_digit(v: int) -> char {
    if v < 26 {
        (65 + v) as char
    } else if v < 52 {
        (97 + (v - 26)) as char
    } else if v < 62 {
        (48 + (v - 52)) as char
    } else if v == 62 {
        '+'
    } else {
        '/'
    }
}

/// Padded standard base64 (RFC 4648): each group of three bytes becomes
/// four characters of six bits each; a final group of one or two bytes is
/// filled out with zero bits and padded with `=` to four characters.
pub open spec fn base64_of(bytes: Seq<u8>) -> Seq<char>
    decreases bytes.len(),
{
    if bytes.len() == 0 {
        Seq::empty()
    } else if bytes.len() == 1 {
        seq![base64_digit((bytes[0] / 4) as int), base64_digit((bytes[0] % 4) * 16), '=', '=']
    } else if bytes.len() == 2 {
        seq![
            base64_digit((bytes[0] / 4) as int),
            base64_digit((bytes[0] % 4) * 16 + bytes[1] / 16),
            base64_digit((bytes[1] % 16) * 4),
            '=',
        ]
    } else {
        seq![
            base64_digit((bytes[0] / 4) as int),
            base64_digit((bytes[0] % 4) * 16 + bytes[1] / 16),
            base64_digit((bytes[1] % 16) * 4 + bytes[2] / 64),
            base64_digit((bytes[2] % 64) as int),
        ] + base64_of(bytes.skip(3))
    }
}

proof fn lemma_digit_injective(x: int, y: int)
    requires
        0 <= x < 64,
        0 <= y < 64,
        base64_digit(x) == base64_digit(y),
    ensures
        x == y,
{
}

proof fn lemma_digit_not_pad(x: int)
    requires
        0 <= x < 64,
    ensures
        base64_digit(x) != '=',
{
}

/// The shape of a base64 text: empty for no bytes; otherwise at least four
/// characters, the third and fourth being padding exactly as the byte count
/// leaves one or two bytes in the last group.
proof fn lemma_base64_shape(a: Seq<u8>)
    ensures
        a.len() == 0 ==> base64_of(a).len() == 0,
        a.len() > 0 ==> base64_of(a).len() >= 4,
        a.len() > 0 ==> (base64_of(a)[2] == '=' <==> a.len() == 1),
        a.len() > 0 ==> (base64_of(a)[3] == '=' <==> a.len() <= 2),
{
    if a.len() == 1 {
    } else if a.len() == 2 {
        lemma_digit_not_pad(((a[1] % 16) * 4) as int);
    } else if a.len() >= 3 {
        lemma_digit_not_pad(((a[1] % 16) * 4 + a[2] / 64) as int);
        lemma_digit_not_pad((a[2] % 64) as int);
    }
}

/// Different bytes have different base64 texts, so a text names at most one
/// sequence of bytes.
pub proof fn lemma_base64_injective(a: Seq<u8>, b: Seq<u8>)
    requires
        base64_of(a) == base64_of(b),
    ensures
        a == b,
    decreases a.len(),
{
    lemma_base64_shape(a);
    lemma_base64_shape(b);
    let e = base64_of(a);
    if a.len() == 0 {
        assert(b.len() == 0);
        assert(a =~= b);
    } else {
        assert(b.len() > 0);
        assert(e[0] == base64_digit((a[0] / 4) as int));
        assert(e[0] == base64_digit((b[0] / 4) as int));
        lemma_digit_injective((a[0] / 4) as int, (b[0] / 4) as int);
        if a.len() == 1 {
            assert(b.len() == 1);
            lemma_digit_injective(((a[0] % 4) * 16) as int, ((b[0] % 4) * 16) as int);
            assert(a[0] == b[0]);
            assert(a =~= b);
        } else if a.len() == 2 {
            assert(b.len() == 2);
            let xa: int = (a[0] % 4) * 16 + a[1] / 16;
            let xb: int = (b[0] % 4) * 16 + b[1] / 16;
            let ya: int = (a[1] % 16) * 4;
            let yb: int = (b[1] % 16) * 4;
            assert(e[1] == base64_digit(xa));
            assert(e[1] == base64_digit(xb));
            assert(e[2] == base64_digit(ya));
            assert(e[2] == base64_digit(yb));
            lemma_digit_injective(xa, xb);
            lemma_digit_injective(ya, yb);
            assert(a[0] == b[0]);
            assert(a[1] == b[1]);
            assert(a =~= b);
        } else {
            assert(b.len() >= 3);
            let xa: int = (a[0] % 4) * 16 + a[1] / 16;
            let xb: int = (b[0] % 4) * 16 + b[1] / 16;
            let ya: int = (a[1] % 16) * 4 + a[2] / 64;
            let yb: int = (b[1] % 16) * 4 + b[2] / 64;
            let za: int = (a[2] % 64) as int;
            let zb: int = (b[2] % 64) as int;
            assert(e[1] == base64_digit(xa));
            assert(e[1] == base64_digit(xb));
            assert(e[2] == base64_digit(ya));
            assert(e[2] == base64_digit(yb));
            assert(e[3] == base64_digit(za));
            assert(e[3] == base64_digit(zb));
            lemma_digit_injective(xa, xb);
            lemma_digit_injective(ya, yb);
            lemma_digit_injective(za, zb);
            assert(a[0] == b[0]);
            assert(a[1] == b[1]);
            assert(a[2] == b[2]);
            assert(e.skip(4) =~= base64_of(a.skip(3)));
            assert(e.skip(4) =~= base64_of(b.skip(3)));
            lemma_base64_injective(a.skip(3), b.skip(3));
            assert(a =~= b) by {
                assert forall|i: int| 0 <= i < a.len() implies a[i] == b[i] by {
                    if i >= 3 {
                        assert(a[i] == a.skip(3)[i - 3]);
                        assert(b[i] == b.skip(3)[i - 3]);
                    }
                }
            }
        }
    }
}

/// `STANDARD.encode(bytes)`: the padded standard base64 text of the bytes,
/// as [`base64_of`] states it. The crate panics only when the length of the
/// output overflows `usize`, which the bound on the input rules out.
#[verifier::external_body]
pub(crate) fn encode_base64(bytes: &[u8]) -> (r: String)
    requires
        bytes@.len() <= isize::MAX,
    ensures
        r@ == base64_of(bytes@),
{
    STANDARD.encode(bytes)
}

/// `STANDARD.decode(text)`: the bytes whose padded standard base64 text is
/// `text`. The engine requires canonical padding and refuses trailing bits,
/// so it accepts exactly the texts that [`base64_of`] gives, and `None` is
/// returned for every other text.
#[verifier::external_body]
pub(crate) fn decode_base64(text: &str) -> (r: Option<Vec<u8>>)
    ensures
        r matches Some(v) ==> text@ == base64_of(v@),
        (exists|b: Seq<u8>| text@ == #[trigger] base64_of(b)) ==> r is Some,
{
    STANDARD.decode(text).ok()
}

/// `String::from_utf8`: the text the bytes hold, `None` when they are not
/// valid UTF-8.
#[verifier::external_body]
pub(crate) fn string_from_utf8(bytes: Vec<u8>) -> (r: Option<String>)
    ensures
        r is Some <==> valid_utf8(bytes@),
        r matches Some(s) ==> s@ == decode_utf8(bytes@),
{
    String::from_utf8(bytes).ok()
}

/// The header value that carries a share sentence: the base64 of its UTF-8
/// bytes, so a multi-line, non-ASCII sentence fits in a header.
pub fn share_text_header(text: &str) -> (r: String)
    requires
        text.spec_bytes().len() <= isize::MAX,
    ensures
        r@ == base64_of(encode_utf8(text@)),
{
    encode_base64(text.as_bytes())
}

/// Reads the share sentence back from its header value: `None` when the
/// header is missing, is not base64, or does not hold UTF-8. A header made
/// by [`share_text_header`] gives back exactly the sentence it was made from.
pub fn decode_share_text(header: Option<&str>) -> (r: Option<String>)
    ensures
        header is None ==> r is None,
        header matches Some(h) ==> ((forall|b: Seq<u8>| h@ != #[trigger] base64_of(b)) ==> r is None),
        forall|b: Seq<u8>|
            header matches Some(h) && h@ == #[trigger] base64_of(b) ==> (if valid_utf8(b) {
                r matches Some(s) && s@ == decode_utf8(b)
            } else {
                r is None
            }),
        forall|t: Seq<char>|
            header matches Some(h) && h@ == #[trigger] base64_of(encode_utf8(t)) ==> (r matches Some(
                s,
            ) && s@ == t),
{
    proof {
        broadcast use vstd::utf8::group_utf8_lib;

    }
    match header {
        None => None,
        Some(h) => match decode_base64(h) {
            None => None,
            Some(bytes) => {
                proof {
                    assert forall|b: Seq<u8>| h@ == #[trigger] base64_of(b) implies b == bytes@ by {
                        lemma_base64_injective(b, bytes@);
                    }
                }
                string_from_utf8(bytes)
            },
        },
    }
}

/// A `data:` URL that shows PNG bytes directly as an image source.
pub fn png_data_url(bytes: &[u8]) -> (r: String)
    requires
        bytes@.len() <= isize::MAX,
    ensures
        r@ == "data:image/png;base64,"@ + base64_of(bytes@),
{
    let mut r = String::from_str("data:image/png;base64,");
    let b64 = encode_base64(bytes);
    r.append(b64.as_str());
    r
}

} // verus!
