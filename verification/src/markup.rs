//! Escaping text for HTML and SVG markup.

use vstd::prelude::*;
use vstd::string::*;

use crate::text::{chars_of, push_char};

verus! {

/// The escaped form of one character: the four markup-significant characters
/// become entities, every other character stands for itself.
pub open spec fn escape_char(c: char) -> Seq<char> {
    if c == '&' {
        seq!['&', 'a', 'm', 'p', ';']
    } else if c == '<' {
        seq!['&', 'l', 't', ';']
    } else if c == '>' {
        seq!['&', 'g', 't', ';']
    } else if c == '"' {
        seq!['&', 'q', 'u', 'o', 't', ';']
    } else {
        seq![c]
    }
}

/// `s` with `&`, `<`, `>` and `"` replaced by their entities.
pub open spec fn escaped(s: Seq<char>) -> Seq<char>
    decreases s.len(),
{
    if s.len() == 0 {
        Seq::empty()
    } else {
        escape_char(s[0]) + escaped(s.drop_first())
    }
}

/// Reads entities back: the inverse of [`escaped`].
pub open spec fn unescaped(t: Seq<char>) -> Seq<char>
    decreases t.len(),
{
    if t.len() == 0 {
        Seq::empty()
    } else if t.len() >= 5 && t.take(5) == escape_char('&') {
        seq!['&'] + unescaped(t.skip(5))
    } else if t.len() >= 4 && t.take(4) == escape_char('<') {
        seq!['<'] + unescaped(t.skip(4))
    } else if t.len() >= 4 && t.take(4) == escape_char('>') {
        seq!['>'] + unescaped(t.skip(4))
    } else if t.len() >= 6 && t.take(6) == escape_char('"') {
        seq!['"'] + unescaped(t.skip(6))
    } else {
        seq![t[0]] + unescaped(t.drop_first())
    }
}

/// Escaping distributes over concatenation.
pub proof fn lemma_escaped_concat(a: Seq<char>, b: Seq<char>)
    ensures
        escaped(a + b) == escaped(a) + escaped(b),
    decreases a.len(),
{
    if a.len() == 0 {
        assert(a + b =~= b);
        assert(escaped(a) + escaped(b) =~= escaped(b));
    } else {
        assert((a + b).drop_first() =~= a.drop_first() + b);
        lemma_escaped_concat(a.drop_first(), b);
        assert(escaped(a + b) =~= escape_char(a[0]) + escaped(a.drop_first() + b));
        assert(escaped(a) + escaped(b) =~= escape_char(a[0]) + (escaped(a.drop_first())
            + escaped(b)));
    }
}

proof fn lemma_escaped_push(a: Seq<char>, c: char)
    ensures
        escaped(a.push(c)) == escaped(a) + escape_char(c),
{
    lemma_escaped_concat(a, seq![c]);
    assert(a + seq![c] =~= a.push(c));
    assert(seq![c].drop_first() =~= Seq::<char>::empty());
    assert(escaped(Seq::<char>::empty()) == Seq::<char>::empty());
    assert(escaped(seq![c]) =~= escape_char(c) + escaped(Seq::<char>::empty()));
    assert(escaped(seq![c]) =~= escape_char(c));
}

/// Escaped text holds no `<`, `>` or `"`, so it cannot open or close a tag or
/// end an attribute value.
pub proof fn lemma_escaped_has_no_markup(s: Seq<char>)
    ensures
        forall|i: int|
            0 <= i < escaped(s).len() ==> escaped(s)[i] != '<' && escaped(s)[i] != '>'
                && escaped(s)[i] != '"',
    decreases s.len(),
{
    if s.len() > 0 {
        lemma_escaped_has_no_markup(s.drop_first());
        let e = escape_char(s[0]);
        let rest = escaped(s.drop_first());
        assert forall|i: int| 0 <= i < escaped(s).len() implies escaped(s)[i] != '<'
            && escaped(s)[i] != '>' && escaped(s)[i] != '"' by {
            if i < e.len() {
                assert(escaped(s)[i] == e[i]);
            } else {
                assert(escaped(s)[i] == rest[i - e.len()]);
            }
        }
    }
}

/// Escaping loses nothing: reading the entities back gives the original text.
pub proof fn lemma_unescape_escaped(s: Seq<char>)
    ensures
        unescaped(escaped(s)) == s,
    decreases s.len(),
{
    if s.len() == 0 {
        assert(escaped(s) =~= Seq::<char>::empty());
    } else {
        let c = s[0];
        let rest = s.drop_first();
        let e = escape_char(c);
        let t = escaped(s);
        lemma_unescape_escaped(rest);
        assert(t == e + escaped(rest));
        assert(t.skip(e.len() as int) =~= escaped(rest));
        let amp = escape_char('&');
        let lt = escape_char('<');
        let gt = escape_char('>');
        let quot = escape_char('"');
        if c == '&' {
            assert(t.take(5) =~= e);
        } else if c == '<' {
            assert(t.take(4) =~= e);
            assert(t[1] == 'l');
            assert(!(t.len() >= 5 && t.take(5) == amp)) by {
                if t.len() >= 5 && t.take(5) == amp {
                    assert(t.take(5)[1] == t[1]);
                }
            }
        } else if c == '>' {
            assert(t.take(4) =~= e);
            assert(t[1] == 'g');
            assert(!(t.len() >= 5 && t.take(5) == amp)) by {
                if t.len() >= 5 && t.take(5) == amp {
                    assert(t.take(5)[1] == t[1]);
                }
            }
            assert(!(t.len() >= 4 && t.take(4) == lt)) by {
                if t.len() >= 4 && t.take(4) == lt {
                    assert(t.take(4)[1] == t[1]);
                }
            }
        } else if c == '"' {
            assert(t.take(6) =~= e);
            assert(t[1] == 'q');
            assert(!(t.len() >= 5 && t.take(5) == amp)) by {
                if t.len() >= 5 && t.take(5) == amp {
                    assert(t.take(5)[1] == t[1]);
                }
            }
            assert(!(t.len() >= 4 && t.take(4) == lt)) by {
                if t.len() >= 4 && t.take(4) == lt {
                    assert(t.take(4)[1] == t[1]);
                }
            }
            assert(!(t.len() >= 4 && t.take(4) == gt)) by {
                if t.len() >= 4 && t.take(4) == gt {
                    assert(t.take(4)[1] == t[1]);
                }
            }
        } else {
            assert(t[0] == c);
            assert(!(t.len() >= 5 && t.take(5) == amp)) by {
                if t.len() >= 5 && t.take(5) == amp {
                    assert(t.take(5)[0] == t[0]);
                }
            }
            assert(!(t.len() >= 4 && t.take(4) == lt)) by {
                if t.len() >= 4 && t.take(4) == lt {
                    assert(t.take(4)[0] == t[0]);
                }
            }
            assert(!(t.len() >= 4 && t.take(4) == gt)) by {
                if t.len() >= 4 && t.take(4) == gt {
                    assert(t.take(4)[0] == t[0]);
                }
            }
            assert(!(t.len() >= 6 && t.take(6) == quot)) by {
                if t.len() >= 6 && t.take(6) == quot {
                    assert(t.take(6)[0] == t[0]);
                }
            }
            assert(t.drop_first() =~= escaped(rest));
        }
        assert(unescaped(t) =~= s);
    }
}

/// Two texts with the same escaped form are the same text.
pub proof fn lemma_escape_injective(a: Seq<char>, b: Seq<char>)
    requires
        escaped(a) == escaped(b),
    ensures
        a == b,
{
    lemma_unescape_escaped(a);
    lemma_unescape_escaped(b);
}

/// Text without markup-significant characters is left as it is.
pub proof fn lemma_escape_plain(s: Seq<char>)
    requires
        forall|i: int| 0 <= i < s.len() ==> s[i] != '&' && s[i] != '<' && s[i] != '>' && s[i] != '"',
    ensures
        escaped(s) == s,
    decreases s.len(),
{
    if s.len() > 0 {
        lemma_escape_plain(s.drop_first());
        assert(escaped(s) =~= s);
    }
}

/// Appends the escaped form of `s` to `out`.
pub fn push_escaped(out: &mut String, s: &str)
    ensures
        final(out)@ == old(out)@ + escaped(s@),
{
    let cs = chars_of(s);
    let mut i: usize = 0;
    while i < cs.len()
        invariant
            i <= cs.len(),
            cs@ == s@,
            out@ == old(out)@ + escaped(cs@.take(i as int)),
        decreases cs.len() - i,
    {
        let c = cs[i];
        proof {
            assert(cs@.take(i + 1) =~= cs@.take(i as int).push(c));
            lemma_escaped_push(cs@.take(i as int), c);
        }
        if c == '&' {
            out.append("&amp;");
        } else if c == '<' {
            out.append("&lt;");
        } else if c == '>' {
            out.append("&gt;");
        } else if c == '"' {
            out.append("&quot;");
        } else {
            push_char(out, c);
        }
        proof {
            reveal_strlit("&amp;");
            reveal_strlit("&lt;");
            reveal_strlit("&gt;");
            reveal_strlit("&quot;");
        }
        assert(out@ =~= old(out)@ + escaped(cs@.take(i + 1)));
        i = i + 1;
    }
    assert(cs@.take(cs.len() as int) =~= s@);
}

/// XML-escape text destined for an SVG `<text>` node or an HTML attribute.
pub fn esc(s: &str) -> (r: String)
    ensures
        r@ == escaped(s@),
{
    let mut r = String::new();
    push_escaped(&mut r, s);
    assert(r@ =~= escaped(s@));
    r
}

} // verus!
