//! Weight units and the grammar of weight specs such as `225lbs` or `100.5 kg`.

use vstd::prelude::*;
use vstd::string::*;

use crate::text::{
    all_ascii, ascii_lowered, chars_of, concat2, is_lowercase_ascii, lemma_trimmed_ascii,
    lowercase, string_of_range, to_lowercase, trim, trim_bounds, trim_end, trim_start, trimmed,
};

verus! {

/// The unit a lift was entered in.
#[derive(Debug, Clone, Copy, PartialEq, Eq)]
pub enum InputWeightType {
    Lbs,
    Kgs,
}

/// Display name of a unit (`Lbs` / `Kgs`).
pub open spec fn unit_name(u: InputWeightType) -> Seq<char> {
    match u {
        InputWeightType::Lbs => seq!['L', 'b', 's'],
        InputWeightType::Kgs => seq!['K', 'g', 's'],
    }
}

/// Lowercase suffix of a unit as it appears in links (`lbs` / `kgs`).
pub open spec fn unit_suffix(u: InputWeightType) -> Seq<char> {
    match u {
        InputWeightType::Lbs => seq!['l', 'b', 's'],
        InputWeightType::Kgs => seq!['k', 'g', 's'],
    }
}

impl InputWeightType {
    /// The unit's display name.
    pub fn name(&self) -> (r: &'static str)
        ensures
            r@ == unit_name(*self),
    {
        match self {
            InputWeightType::Lbs => {
                proof {
                    reveal_strlit("Lbs");
                }
                "Lbs"
            },
            InputWeightType::Kgs => {
                proof {
                    reveal_strlit("Kgs");
                }
                "Kgs"
            },
        }
    }

    /// The unit's lowercase suffix.
    pub fn suffix(&self) -> (r: &'static str)
        ensures
            r@ == unit_suffix(*self),
    {
        match self {
            InputWeightType::Lbs => {
                proof {
                    reveal_strlit("lbs");
                }
                "lbs"
            },
            InputWeightType::Kgs => {
                proof {
                    reveal_strlit("kgs");
                }
                "kgs"
            },
        }
    }

    /// Parses a display name (`Lbs` or `Kgs`, exactly).
    pub fn from_name(s: &str) -> (r: Option<InputWeightType>)
        ensures
            r == (if s@ == unit_name(InputWeightType::Lbs) {
                Some(InputWeightType::Lbs)
            } else if s@ == unit_name(InputWeightType::Kgs) {
                Some(InputWeightType::Kgs)
            } else {
                None
            }),
    {
        let cs = chars_of(s);
        proof {
            reveal_strlit("Lbs");
            reveal_strlit("Kgs");
            assert(cs@.subrange(0, cs.len() as int) =~= cs@);
            assert(seq!['L', 'b', 's'] =~= "Lbs"@);
            assert(seq!['K', 'g', 's'] =~= "Kgs"@);
        }
        if eq_range(&cs, 0, cs.len(), "Lbs") {
            Some(InputWeightType::Lbs)
        } else if eq_range(&cs, 0, cs.len(), "Kgs") {
            Some(InputWeightType::Kgs)
        } else {
            None
        }
    }
}

/// Whether `cs[lo..hi]` spells exactly `lit`.
pub fn eq_range(cs: &Vec<char>, lo: usize, hi: usize, lit: &str) -> (b: bool)
    requires
        lo <= hi <= cs.len(),
    ensures
        b == (cs@.subrange(lo as int, hi as int) == lit@),
{
    let l = chars_of(lit);
    if hi - lo != l.len() {
        return false;
    }
    let mut k: usize = 0;
    while k < l.len()
        invariant
            lo <= hi <= cs.len(),
            hi - lo == l.len(),
            l@ == lit@,
            k <= l.len(),
            forall|j: int| 0 <= j < k ==> cs@[lo + j] == l@[j],
        decreases l.len() - k,
    {
        if cs[lo + k] != l[k] {
            assert(cs@.subrange(lo as int, hi as int)[k as int] != lit@[k as int]);
            return false;
        }
        k = k + 1;
    }
    assert(cs@.subrange(lo as int, hi as int) =~= lit@);
    true
}

// ---------------------------------------------------------------------------
// The grammar
// ---------------------------------------------------------------------------

/// Characters that may appear in the amount: ASCII digits and `.`.
pub open spec fn is_amount_char(c: char) -> bool {
    ('0' <= c && c <= '9') || c == '.'
}

/// Length of the longest prefix of `s` made of amount characters.
pub open spec fn amount_len(s: Seq<char>) -> nat
    decreases s.len(),
{
    if s.len() > 0 && is_amount_char(s[0]) {
        1 + amount_len(s.drop_first())
    } else {
        0
    }
}

/// A string of digits and dots that reads as a decimal number: at most one
/// `.` and at least one digit (`5`, `5.`, `.5`, `5.25`; not `.` or `1.2.3`).
pub open spec fn is_decimal_number(num: Seq<char>) -> bool {
    &&& forall|i: int, j: int|
        0 <= i < num.len() && 0 <= j < num.len() && num[i] == '.' && num[j] == '.' ==> i == j
    &&& exists|i: int| 0 <= i < num.len() && '0' <= num[i] && num[i] <= '9'
}

/// The number has a digit other than zero, so its value is above zero.
pub open spec fn has_nonzero_digit(num: Seq<char>) -> bool {
    exists|i: int| 0 <= i < num.len() && '1' <= num[i] && num[i] <= '9'
}

/// The unit a unit word names, if any; an empty word means pounds.
pub open spec fn unit_of_word(w: Seq<char>) -> Option<InputWeightType> {
    if w == Seq::<char>::empty() || w == seq!['l', 'b'] || w == seq!['l', 'b', 's'] || w == seq![
        'p',
        'o',
        'u',
        'n',
        'd',
    ] || w == seq!['p', 'o', 'u', 'n', 'd', 's'] {
        Some(InputWeightType::Lbs)
    } else if w == seq!['k', 'g'] || w == seq!['k', 'g', 's'] || w == seq!['k', 'i', 'l', 'o']
        || w == seq!['k', 'i', 'l', 'o', 's'] || w == seq!['k', 'i', 'l', 'o', 'g', 'r', 'a', 'm']
        || w == seq!['k', 'i', 'l', 'o', 'g', 'r', 'a', 'm', 's'] {
        Some(InputWeightType::Kgs)
    } else {
        None
    }
}

/// Splits an already lowercased spec into its amount and unit: the amount is
/// the leading run of digits and dots, the unit is the rest without white space.
pub open spec fn spec_parts(s: Seq<char>) -> (Seq<char>, Option<InputWeightType>) {
    let k = amount_len(s) as int;
    (s.take(k), unit_of_word(trimmed(s.skip(k))))
}

/// The parse of an already trimmed and lowercased spec: `None` unless the
/// amount reads as a number and the unit word is known.
pub open spec fn parse_lowered_spec(s: Seq<char>) -> Option<(Seq<char>, InputWeightType)> {
    let (num, unit) = spec_parts(s);
    if is_decimal_number(num) && unit is Some {
        Some((num, unit->0))
    } else {
        None
    }
}

/// The parse of a spec as typed: trimmed, lowercased, then split.
pub open spec fn parse_spec_chars(spec: Seq<char>) -> Option<(Seq<char>, InputWeightType)> {
    parse_lowered_spec(lowercase(trimmed(spec)))
}

/// The parse of a spec typed in ASCII: trimmed, the letters lowercased,
/// then split.
pub open spec fn parse_ascii_spec(spec: Seq<char>) -> Option<(Seq<char>, InputWeightType)> {
    parse_lowered_spec(ascii_lowered(trimmed(spec)))
}

/// The parse the share permalink accepts: as [`parse_spec_chars`], and the
/// amount must be above zero.
pub open spec fn parse_weight_chars(spec: Seq<char>) -> Option<(Seq<char>, InputWeightType)> {
    match parse_spec_chars(spec) {
        Some((num, unit)) => if has_nonzero_digit(num) {
            Some((num, unit))
        } else {
            None
        },
        None => None,
    }
}

fn amount_prefix_len(cs: &Vec<char>) -> (k: usize)
    ensures
        k == amount_len(cs@),
        k <= cs.len(),
{
    let mut i: usize = 0;
    assert(cs@.skip(0) =~= cs@);
    while i < cs.len() && (('0' <= cs[i] && cs[i] <= '9') || cs[i] == '.')
        invariant
            i <= cs.len(),
            amount_len(cs@) == i + amount_len(cs@.skip(i as int)),
        decreases cs.len() - i,
    {
        assert(cs@.skip(i as int).drop_first() =~= cs@.skip(i + 1));
        i = i + 1;
    }
    i
}

fn is_decimal_range(cs: &Vec<char>, lo: usize, hi: usize) -> (b: bool)
    requires
        lo <= hi <= cs.len(),
    ensures
        b == is_decimal_number(cs@.subrange(lo as int, hi as int)),
{
    let ghost num = cs@.subrange(lo as int, hi as int);
    let mut dot: Option<usize> = None;
    let mut digit: Option<usize> = None;
    let mut i = lo;
    while i < hi
        invariant
            lo <= i <= hi <= cs.len(),
            num == cs@.subrange(lo as int, hi as int),
            match dot {
                Some(d) => lo <= d < i && cs@[d as int] == '.' && forall|j: int|
                    lo <= j < i && cs@[j] == '.' ==> j == d,
                None => forall|j: int| lo <= j < i ==> cs@[j] != '.',
            },
            match digit {
                Some(d) => lo <= d < i && '0' <= cs@[d as int] && cs@[d as int] <= '9',
                None => forall|j: int| lo <= j < i ==> !('0' <= cs@[j] && cs@[j] <= '9'),
            },
        decreases hi - i,
    {
        let c = cs[i];
        if c == '.' {
            if let Some(d) = dot {
                assert(num[d - lo] == '.' && num[i - lo] == '.');
                return false;
            }
            dot = Some(i);
        } else if '0' <= c && c <= '9' {
            digit = Some(i);
        }
        i = i + 1;
    }
    match digit {
        Some(d) => {
            assert(num[d - lo] == cs@[d as int]);
            assert forall|a: int, b: int|
                0 <= a < num.len() && 0 <= b < num.len() && num[a] == '.' && num[b]
                    == '.' implies a == b by {
                assert(num[a] == cs@[lo + a]);
                assert(num[b] == cs@[lo + b]);
            }
            true
        },
        None => {
            assert(!(exists|j: int| 0 <= j < num.len() && '0' <= num[j] && num[j] <= '9')) by {
                assert forall|j: int| 0 <= j < num.len() implies !('0' <= num[j] && num[j]
                    <= '9') by {
                    assert(num[j] == cs@[lo + j]);
                }
            }
            false
        },
    }
}

fn has_nonzero_range(cs: &Vec<char>, lo: usize, hi: usize) -> (b: bool)
    requires
        lo <= hi <= cs.len(),
    ensures
        b == has_nonzero_digit(cs@.subrange(lo as int, hi as int)),
{
    let ghost num = cs@.subrange(lo as int, hi as int);
    let mut i = lo;
    while i < hi
        invariant
            lo <= i <= hi <= cs.len(),
            num == cs@.subrange(lo as int, hi as int),
            forall|j: int| lo <= j < i ==> !('1' <= cs@[j] && cs@[j] <= '9'),
        decreases hi - i,
    {
        if '1' <= cs[i] && cs[i] <= '9' {
            assert(num[i - lo] == cs@[i as int]);
            return true;
        }
        i = i + 1;
    }
    assert forall|j: int| 0 <= j < num.len() implies !('1' <= num[j] && num[j] <= '9') by {
        assert(num[j] == cs@[lo + j]);
    }
    false
}

fn unit_of_range(cs: &Vec<char>, lo: usize, hi: usize) -> (r: Option<InputWeightType>)
    requires
        lo <= hi <= cs.len(),
    ensures
        r == unit_of_word(cs@.subrange(lo as int, hi as int)),
{
    proof {
        reveal_strlit("");
        reveal_strlit("lb");
        reveal_strlit("lbs");
        reveal_strlit("pound");
        reveal_strlit("pounds");
        reveal_strlit("kg");
        reveal_strlit("kgs");
        reveal_strlit("kilo");
        reveal_strlit("kilos");
        reveal_strlit("kilogram");
        reveal_strlit("kilograms");
    }
    let ghost w = cs@.subrange(lo as int, hi as int);
    assert(Seq::<char>::empty() =~= ""@);
    assert(seq!['l', 'b'] =~= "lb"@);
    assert(seq!['l', 'b', 's'] =~= "lbs"@);
    assert(seq!['p', 'o', 'u', 'n', 'd'] =~= "pound"@);
    assert(seq!['p', 'o', 'u', 'n', 'd', 's'] =~= "pounds"@);
    assert(seq!['k', 'g'] =~= "kg"@);
    assert(seq!['k', 'g', 's'] =~= "kgs"@);
    assert(seq!['k', 'i', 'l', 'o'] =~= "kilo"@);
    assert(seq!['k', 'i', 'l', 'o', 's'] =~= "kilos"@);
    assert(seq!['k', 'i', 'l', 'o', 'g', 'r', 'a', 'm'] =~= "kilogram"@);
    assert(seq!['k', 'i', 'l', 'o', 'g', 'r', 'a', 'm', 's'] =~= "kilograms"@);
    if eq_range(cs, lo, hi, "") || eq_range(cs, lo, hi, "lb") || eq_range(cs, lo, hi, "lbs")
        || eq_range(cs, lo, hi, "pound") || eq_range(cs, lo, hi, "pounds") {
        Some(InputWeightType::Lbs)
    } else if eq_range(cs, lo, hi, "kg") || eq_range(cs, lo, hi, "kgs") || eq_range(
        cs,
        lo,
        hi,
        "kilo",
    ) || eq_range(cs, lo, hi, "kilos") || eq_range(cs, lo, hi, "kilogram") || eq_range(
        cs,
        lo,
        hi,
        "kilograms",
    ) {
        Some(InputWeightType::Kgs)
    } else {
        None
    }
}

/// Parses an already trimmed and lowercased spec into its amount text and unit.
pub fn parse_lowered(s: &str) -> (r: Option<(String, InputWeightType)>)
    ensures
        match r {
            Some((num, unit)) => parse_lowered_spec(s@) == Some((num@, unit)),
            None => parse_lowered_spec(s@) is None,
        },
{
    let cs = chars_of(s);
    let k = amount_prefix_len(&cs);
    let n = cs.len();
    // The unit word: the rest after the amount, without surrounding white space.
    let rest = string_of_range(&cs, k, n);
    let rest_cs = chars_of(rest.as_str());
    let (lo, hi) = trim_bounds(&rest_cs);
    assert(cs@.skip(k as int) =~= cs@.subrange(k as int, n as int));
    let unit = unit_of_range(&rest_cs, lo, hi);
    assert(cs@.take(k as int) =~= cs@.subrange(0, k as int));
    if is_decimal_range(&cs, 0, k) {
        match unit {
            Some(u) => Some((string_of_range(&cs, 0, k), u)),
            None => None,
        }
    } else {
        None
    }
}

/// Splits a share spec like `225lbs` / `100 kg` into its amount text and the
/// unit's display name (`Lbs` or `Kgs`); `None` when either part is garbage.
pub fn parse_spec(spec: &str) -> (r: Option<(String, String)>)
    ensures
        match parse_spec_chars(spec@) {
            Some((num, unit)) => r matches Some((n, u)) && n@ == num && u@ == unit_name(unit),
            None => r is None,
        },
        all_ascii(spec@) ==> parse_spec_chars(spec@) == parse_ascii_spec(spec@),
        forall|a: Seq<char>, w: Seq<char>|
            #[trigger] (a + w) == spec@ && (forall|i: int|
                0 <= i < a.len() ==> is_amount_char(#[trigger] a[i])) && is_decimal_number(a)
                && pound_word(w) ==> (r matches Some((n, u)) && n@ == a && u@ == "Lbs"@),
        forall|a: Seq<char>, w: Seq<char>|
            #[trigger] (a + w) == spec@ && (forall|i: int|
                0 <= i < a.len() ==> is_amount_char(#[trigger] a[i])) && is_decimal_number(a)
                && kilo_word(w) ==> (r matches Some((n, u)) && n@ == a && u@ == "Kgs"@),
{
    let t = trim(spec);
    proof {
        if all_ascii(spec@) {
            lemma_trimmed_ascii(spec@);
        }
    }
    let s = to_lowercase(t.as_str());
    let r = match parse_lowered(s.as_str()) {
        Some((num, unit)) => Some((num, String::from_str(unit.name()))),
        None => None,
    };
    proof {
        reveal_strlit("Lbs");
        reveal_strlit("Kgs");
        assert forall|a: Seq<char>, w: Seq<char>|
            #[trigger] (a + w) == spec@ && (forall|i: int|
                0 <= i < a.len() ==> is_amount_char(#[trigger] a[i])) && is_decimal_number(a) && (
            pound_word(w) || kilo_word(w)) implies (r matches Some((n, u)) && n@ == a && (pound_word(
            w,
        ) ==> u@ == "Lbs"@) && (kilo_word(w) ==> u@ == "Kgs"@)) by {
            lemma_unit_words(a, w);
            assert(forall|i: int| 0 <= i < w.len() ==> 'a' <= #[trigger] w[i] && w[i] <= 'z');
            lemma_amount_word_split(a, w);
            assert(t@ == spec@);
            assert(s@ == t@);
        }
    }
    r
}

/// A parsed weight spec: the amount as written (digits and at most one dot,
/// above zero) and its unit.
pub struct WeightSpec {
    pub amount: String,
    pub unit: InputWeightType,
}

/// The link token of an amount and unit: the amount's text followed by the
/// unit suffix.
pub open spec fn link_token(amount: Seq<char>, unit: InputWeightType) -> Seq<char> {
    amount + unit_suffix(unit)
}

/// An amount as a link token carries it: digits and at most one dot, with a
/// digit other than zero.
pub open spec fn is_token_amount(amount: Seq<char>) -> bool {
    &&& forall|i: int| 0 <= i < amount.len() ==> is_amount_char(#[trigger] amount[i])
    &&& is_decimal_number(amount)
    &&& has_nonzero_digit(amount)
}

/// Parses a permalink spec like `225lbs`, `225lb`, `100kg`, `100kgs` into an
/// amount and unit. A bare number means pounds. `None` on garbage or on an
/// amount that is zero. The amount stays in its decimal text; reading it as a
/// binary float is left to the caller. A link token made by [`spec_token`]
/// reads back as its own amount and unit.
pub fn parse_weight_spec(spec: &str) -> (r: Option<WeightSpec>)
    ensures
        match parse_weight_chars(spec@) {
            Some((num, unit)) => r matches Some(w) && w.amount@ == num && w.unit == unit,
            None => r is None,
        },
        forall|a: Seq<char>, u: InputWeightType|
            #[trigger] link_token(a, u) == spec@ && is_token_amount(a) ==> (r matches Some(w)
                && w.amount@ == a && w.unit == u),
        all_ascii(spec@) ==> parse_spec_chars(spec@) == parse_ascii_spec(spec@),
        forall|a: Seq<char>, w: Seq<char>|
            #[trigger] (a + w) == spec@ && is_token_amount(a) && pound_word(w) ==> (r matches Some(
                x,
            ) && x.amount@ == a && x.unit == InputWeightType::Lbs),
        forall|a: Seq<char>, w: Seq<char>|
            #[trigger] (a + w) == spec@ && is_token_amount(a) && kilo_word(w) ==> (r matches Some(
                x,
            ) && x.amount@ == a && x.unit == InputWeightType::Kgs),
{
    let t = trim(spec);
    proof {
        if all_ascii(spec@) {
            lemma_trimmed_ascii(spec@);
        }
    }
    let s = to_lowercase(t.as_str());
    let r = match parse_lowered(s.as_str()) {
        Some((num, unit)) => {
            let cs = chars_of(num.as_str());
            assert(cs@.subrange(0, cs.len() as int) =~= cs@);
            if has_nonzero_range(&cs, 0, cs.len()) {
                Some(WeightSpec { amount: num, unit })
            } else {
                None
            }
        },
        None => None,
    };
    proof {
        assert forall|a: Seq<char>, u: InputWeightType|
            #[trigger] link_token(a, u) == spec@ && is_token_amount(a) implies (r matches Some(w)
                && w.amount@ == a && w.unit == u) by {
            lemma_token_reads_back(a, u);
            assert(t@ == spec@);
            assert(forall|i: int| 0 <= i < t@.len() ==> #[trigger] is_lowercase_ascii(t@[i]));
            assert(s@ == t@);
        }
        assert forall|a: Seq<char>, w: Seq<char>|
            #[trigger] (a + w) == spec@ && is_token_amount(a) && (pound_word(w) || kilo_word(w))
                implies (r matches Some(x) && x.amount@ == a && (pound_word(w) ==> x.unit
                == InputWeightType::Lbs) && (kilo_word(w) ==> x.unit == InputWeightType::Kgs)) by {
            lemma_unit_words(a, w);
            assert(forall|i: int| 0 <= i < w.len() ==> 'a' <= #[trigger] w[i] && w[i] <= 'z');
            lemma_amount_word_split(a, w);
            assert(t@ == spec@);
            assert(s@ == t@);
        }
    }
    r
}

/// Compact link token for a weight: the amount's text followed by the unit
/// suffix, e.g. `225lbs` / `100.5kgs`.
pub fn spec_token(amount: &str, unit: &InputWeightType) -> (r: String)
    ensures
        r@ == link_token(amount@, *unit),
{
    concat2(amount, unit.suffix())
}

/// An amount followed by a plain unit word, with nothing around it, keeps
/// its characters through trimming and lowercasing, and splits into the
/// amount and the word.
proof fn lemma_amount_word_split(a: Seq<char>, w: Seq<char>)
    requires
        a.len() > 0,
        forall|i: int| 0 <= i < a.len() ==> is_amount_char(#[trigger] a[i]),
        forall|i: int| 0 <= i < w.len() ==> 'a' <= #[trigger] w[i] && w[i] <= 'z',
    ensures
        trimmed(a + w) == a + w,
        forall|i: int| 0 <= i < (a + w).len() ==> #[trigger] is_lowercase_ascii((a + w)[i]),
        ascii_lowered(a + w) == a + w,
        spec_parts(a + w) == (a, unit_of_word(w)),
{
    let s = a + w;
    if w.len() > 0 {
        assert(!is_amount_char(w[0]));
    }
    lemma_amount_len_concat(a, w);
    assert(amount_len(w) == 0);
    assert(s.take(a.len() as int) =~= a);
    assert(s.skip(a.len() as int) =~= w);
    if w.len() > 0 {
        assert(trim_start(w) == w);
        assert(trim_end(w) == w);
    }
    assert(trimmed(w) == w);
    assert(s[0] == a[0]);
    assert(trim_start(s) == s);
    if w.len() > 0 {
        assert(s.last() == w.last());
    } else {
        assert(s.last() == a.last());
    }
    assert(trim_end(s) == s);
    assert forall|i: int| 0 <= i < s.len() implies #[trigger] is_lowercase_ascii(s[i]) by {
        if i < a.len() {
            assert(s[i] == a[i]);
        } else {
            assert(s[i] == w[i - a.len()]);
        }
    }
    assert(ascii_lowered(s) =~= s);
}

/// The words that name pounds after an amount: none at all, `lb`, `lbs`,
/// `pound`, `pounds`.
pub open spec fn pound_word(w: Seq<char>) -> bool {
    ||| w == Seq::<char>::empty()
    ||| w == seq!['l', 'b']
    ||| w == seq!['l', 'b', 's']
    ||| w == seq!['p', 'o', 'u', 'n', 'd']
    ||| w == seq!['p', 'o', 'u', 'n', 'd', 's']
}

/// The words that name kilograms after an amount: `kg`, `kgs`, `kilo`,
/// `kilos`, `kilogram`, `kilograms`.
pub open spec fn kilo_word(w: Seq<char>) -> bool {
    ||| w == seq!['k', 'g']
    ||| w == seq!['k', 'g', 's']
    ||| w == seq!['k', 'i', 'l', 'o']
    ||| w == seq!['k', 'i', 'l', 'o', 's']
    ||| w == seq!['k', 'i', 'l', 'o', 'g', 'r', 'a', 'm']
    ||| w == seq!['k', 'i', 'l', 'o', 'g', 'r', 'a', 'm', 's']
}

/// The unit words a weight spec accepts: nothing, `lb`, `lbs`, `pound` or
/// `pounds` after an amount mean pounds; `kg`, `kgs`, `kilo`, `kilos`,
/// `kilogram` or `kilograms` mean kilograms. Any decimal amount followed
/// directly by one of them parses as that amount in that unit.
pub proof fn lemma_unit_words(a: Seq<char>, w: Seq<char>)
    requires
        forall|i: int| 0 <= i < a.len() ==> is_amount_char(#[trigger] a[i]),
        is_decimal_number(a),
    ensures
        pound_word(w) ==> parse_lowered_spec(a + w) == Some(
            (a, InputWeightType::Lbs),
        ) && parse_ascii_spec(a + w) == Some((a, InputWeightType::Lbs)),
        kilo_word(w) ==> parse_lowered_spec(a + w)
            == Some((a, InputWeightType::Kgs)) && parse_ascii_spec(a + w) == Some(
            (a, InputWeightType::Kgs),
        ),
{
    if unit_of_word(w) is Some {
        assert(forall|i: int| 0 <= i < w.len() ==> 'a' <= #[trigger] w[i] && w[i] <= 'z');
        lemma_amount_word_split(a, w);
    }
}

proof fn lemma_amount_len_concat(a: Seq<char>, b: Seq<char>)
    requires
        forall|i: int| 0 <= i < a.len() ==> is_amount_char(a[i]),
    ensures
        amount_len(a + b) == a.len() + amount_len(b),
    decreases a.len(),
{
    if a.len() == 0 {
        assert(a + b =~= b);
    } else {
        assert((a + b)[0] == a[0]);
        assert((a + b).drop_first() =~= a.drop_first() + b);
        lemma_amount_len_concat(a.drop_first(), b);
    }
}

/// A link token made by [`spec_token`] from a decimal amount reads back as
/// the same amount and unit: it has no surrounding white space, lowercasing
/// leaves it as it is, and its parse gives the amount and unit.
pub proof fn lemma_token_reads_back(amount: Seq<char>, unit: InputWeightType)
    requires
        forall|i: int| 0 <= i < amount.len() ==> is_amount_char(#[trigger] amount[i]),
        is_decimal_number(amount),
    ensures
        trimmed(link_token(amount, unit)) == link_token(amount, unit),
        forall|i: int|
            0 <= i < link_token(amount, unit).len() ==> #[trigger] is_lowercase_ascii(
                link_token(amount, unit)[i],
            ),
        parse_lowered_spec(link_token(amount, unit)) == Some((amount, unit)),
{
    let suffix = unit_suffix(unit);
    let s = amount + suffix;
    lemma_amount_len_concat(amount, suffix);
    assert(amount_len(suffix) == 0);
    assert(s.take(amount.len() as int) =~= amount);
    assert(s.skip(amount.len() as int) =~= suffix);
    assert(trim_start(suffix) == suffix);
    assert(trimmed(suffix) == suffix);
    match unit {
        InputWeightType::Lbs => assert(unit_of_word(suffix) == Some(InputWeightType::Lbs)),
        InputWeightType::Kgs => assert(unit_of_word(suffix) == Some(InputWeightType::Kgs)),
    }
    assert(amount.len() > 0);
    assert(s[0] == amount[0]);
    assert(is_amount_char(amount[0]));
    assert(trim_start(s) == s);
    assert(s.last() == 's');
    assert(trim_end(s) == s);
    assert forall|i: int| 0 <= i < s.len() implies #[trigger] is_lowercase_ascii(s[i]) by {
        if i < amount.len() {
            assert(s[i] == amount[i]);
            assert(is_amount_char(amount[i]));
        } else {
            assert(s[i] == suffix[i - amount.len()]);
        }
    }
}

} // verus!
