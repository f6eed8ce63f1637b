//! Emoji icons: searching the emoji index, picking up to two icon tokens,
//! and turning codepoint tokens into glyphs.

use vstd::prelude::*;
use vstd::string::*;

use crate::interface::EmojiEntry;
use crate::text::{
    chars_of, contains, contains_chars, lowercase, push_char, string_of_range, to_lowercase,
    trim, trim_bounds, trimmed,
};
use crate::tokens::{
    is_plus, join_plus, join_with_plus, lemma_split_join, lemma_split_nonempty, non_blank, non_empty, plus_pieces, split_by,
    split_where, views,
};

verus! {

// ---------------------------------------------------------------------------
// Searching the index
// ---------------------------------------------------------------------------

/// Whether an entry matches a (trimmed, lowercased) search term: every entry
/// matches the empty term, otherwise its lowercased name must contain it.
pub open spec fn entry_matches(e: EmojiEntry, term: Seq<char>) -> bool {
    term.len() == 0 || contains(lowercase(e.name@), term)
}

/// The entries that match `term`, in index order.
pub open spec fn matching(es: Seq<EmojiEntry>, term: Seq<char>) -> Seq<EmojiEntry>
    decreases es.len(),
{
    if es.len() == 0 {
        Seq::empty()
    } else if entry_matches(es.last(), term) {
        matching(es.drop_last(), term).push(es.last())
    } else {
        matching(es.drop_last(), term)
    }
}

/// The first `n` elements of `s` (all of `s` when it is shorter).
pub open spec fn first_n<A>(s: Seq<A>, n: int) -> Seq<A> {
    if n >= s.len() {
        s
    } else {
        s.take(n)
    }
}

/// How many results a search returns: 48 unless asked, never above 200.
pub open spec fn search_limit(limit: Option<usize>) -> int {
    let l = match limit {
        Some(l) => l as int,
        None => 48,
    };
    if l < 200 {
        l
    } else {
        200
    }
}

/// The result of searching `index` for `q`: the matches of the trimmed,
/// lowercased query, at most [`search_limit`] of them, in index order.
pub open spec fn search_result(index: Seq<EmojiEntry>, q: Seq<char>, limit: Option<usize>) -> Seq<
    EmojiEntry,
> {
    first_n(matching(index, lowercase(trimmed(q))), search_limit(limit))
}

proof fn lemma_matching_members(es: Seq<EmojiEntry>, term: Seq<char>)
    ensures
        matching(es, term).len() <= es.len(),
        forall|i: int|
            0 <= i < matching(es, term).len() ==> entry_matches(
                #[trigger] matching(es, term)[i],
                term,
            ) && es.contains(matching(es, term)[i]),
    decreases es.len(),
{
    if es.len() > 0 {
        let front = es.drop_last();
        lemma_matching_members(front, term);
        let m = matching(es, term);
        assert forall|i: int| 0 <= i < m.len() implies entry_matches(#[trigger] m[i], term)
            && es.contains(m[i]) by {
            if i < matching(front, term).len() {
                assert(m[i] == matching(front, term)[i]);
                let w = choose|j: int| 0 <= j < front.len() && front[j] == m[i];
                assert(es[w] == front[w]);
            } else {
                assert(m[i] == es.last());
                assert(es[es.len() - 1] == es.last());
            }
        }
    }
}

/// A search never returns more than its limit (and never more than 200),
/// and returns only entries of the index that match the query.
pub proof fn lemma_search_results(index: Seq<EmojiEntry>, q: Seq<char>, limit: Option<usize>)
    ensures
        search_result(index, q, limit).len() <= search_limit(limit) <= 200,
        forall|i: int|
            0 <= i < search_result(index, q, limit).len() ==> entry_matches(
                #[trigger] search_result(index, q, limit)[i],
                lowercase(trimmed(q)),
            ) && index.contains(search_result(index, q, limit)[i]),
{
    let term = lowercase(trimmed(q));
    let m = matching(index, term);
    lemma_matching_members(index, term);
    let r = search_result(index, q, limit);
    assert forall|i: int| 0 <= i < r.len() implies entry_matches(#[trigger] r[i], term)
        && index.contains(r[i]) by {
        assert(r[i] == m[i]);
    }
}

/// The test a search applies to an entry: its lowercased name contains the
/// whole query, or the query is empty.
pub open spec fn name_contains(term: Seq<char>) -> spec_fn(EmojiEntry) -> bool {
    |e: EmojiEntry| term.len() == 0 || contains(lowercase(e.name@), term)
}

proof fn lemma_matching_is_filter(es: Seq<EmojiEntry>, term: Seq<char>)
    ensures
        matching(es, term) == es.filter(name_contains(term)),
    decreases es.len(),
{
    reveal_with_fuel(Seq::filter, 1);
    if es.len() > 0 {
        lemma_matching_is_filter(es.drop_last(), term);
        assert(name_contains(term)(es.last()) == entry_matches(es.last(), term));
    }
}

/// What a search returns, by substring containment: the entries of the index
/// whose lowercased name contains the whole trimmed, lowercased query (every
/// entry for a blank query), in index order, cut at the limit. So each
/// result contains the full query, and no entry that contains it is left out
/// while there is room.
pub proof fn lemma_search_is_substring_filter(
    index: Seq<EmojiEntry>,
    q: Seq<char>,
    limit: Option<usize>,
)
    ensures
        ({
            let term = lowercase(trimmed(q));
            let hits = index.filter(name_contains(term));
            let lim = search_limit(limit);
            search_result(index, q, limit) == if hits.len() <= lim {
                hits
            } else {
                hits.take(lim)
            }
        }),
        forall|i: int|
            0 <= i < search_result(index, q, limit).len() ==> (lowercase(trimmed(q)).len() == 0
                || contains(
                lowercase(#[trigger] search_result(index, q, limit)[i].name@),
                lowercase(trimmed(q)),
            )),
        forall|j: int|
            0 <= j < index.len() && contains(
                lowercase(#[trigger] index[j].name@),
                lowercase(trimmed(q)),
            ) && search_result(index, q, limit).len() < search_limit(limit) ==> search_result(
                index,
                q,
                limit,
            ).contains(index[j]),
{
    let term = lowercase(trimmed(q));
    broadcast use vstd::seq_lib::group_filter_ensures;

    let pred = name_contains(term);
    lemma_matching_is_filter(index, term);
    let hits = index.filter(pred);
    let r = search_result(index, q, limit);
    assert forall|i: int| 0 <= i < r.len() implies (term.len() == 0 || contains(
        lowercase(#[trigger] r[i].name@),
        term,
    )) by {
        assert(r[i] == hits[i]);
        assert(hits.contains(hits[i]));
        assert(pred(hits[i]));
    }
    assert forall|j: int|
        0 <= j < index.len() && contains(lowercase(#[trigger] index[j].name@), term) && r.len()
            < search_limit(limit) implies r.contains(index[j]) by {
        assert(pred(index[j]));
        assert(index.contains(index[j]));
        assert(hits.contains(index[j]));
    }
}

/// Name substring search over the emoji index.
pub fn search(index: &Vec<EmojiEntry>, q: &str, limit: Option<usize>) -> (r: Vec<EmojiEntry>)
    ensures
        r@ == search_result(index@, q@, limit),
{
    let t = trim(q);
    let term = to_lowercase(t.as_str());
    let term_cs = chars_of(term.as_str());
    let lim: usize = match limit {
        Some(l) => if l < 200 {
            l
        } else {
            200
        },
        None => 48,
    };
    let ghost tm = term@;
    let mut r: Vec<EmojiEntry> = Vec::new();
    let mut i: usize = 0;
    assert(index@.take(0) =~= Seq::<EmojiEntry>::empty());
    while i < index.len()
        invariant
            i <= index.len(),
            tm == term@,
            term_cs@ == tm,
            tm == lowercase(trimmed(q@)),
            lim == search_limit(limit),
            r@ == first_n(matching(index@.take(i as int), tm), lim as int),
            r.len() <= lim,
        decreases index.len() - i,
    {
        let ghost m = matching(index@.take(i as int), tm);
        let e = &index[i];
        assert(index@.take(i + 1).drop_last() =~= index@.take(i as int));
        assert(index@.take(i + 1).last() == *e);
        if r.len() < lim {
            let hit = if term_cs.len() == 0 {
                true
            } else {
                let name = to_lowercase(e.name.as_str());
                let name_cs = chars_of(name.as_str());
                contains_chars(&name_cs, &term_cs)
            };
            assert(hit == entry_matches(*e, tm));
            if hit {
                r.push(e.duplicate());
            }
        } else {
            proof {
                if entry_matches(*e, tm) {
                    assert(m.push(*e).take(lim as int) =~= m.take(lim as int));
                }
            }
        }
        i = i + 1;
    }
    assert(index@.take(index.len() as int) =~= index@);
    r
}

// ---------------------------------------------------------------------------
// Codepoint tokens and glyphs
// ---------------------------------------------------------------------------

/// The value of a hexadecimal digit, or -1 for any other character.
pub open spec fn hex_digit_value(c: char) -> int {
    if '0' <= c && c <= '9' {
        c as int - '0' as int
    } else if 'a' <= c && c <= 'f' {
        c as int - 'a' as int + 10
    } else if 'A' <= c && c <= 'F' {
        c as int - 'A' as int + 10
    } else {
        -1
    }
}

/// A non-empty run of hexadecimal digits.
pub open spec fn is_hex_text(t: Seq<char>) -> bool {
    t.len() > 0 && forall|i: int| 0 <= i < t.len() ==> hex_digit_value(t[i]) >= 0
}

/// The number the hexadecimal digits denote.
pub open spec fn hex_value(t: Seq<char>) -> nat
    decreases t.len(),
{
    if t.len() == 0 {
        0
    } else {
        hex_value(t.drop_last()) * 16 + hex_digit_value(t.last()) as nat
    }
}

/// Unicode scalar values: the numbers a `char` can hold.
pub open spec fn is_scalar_value(v: u32) -> bool {
    v < 0xd800 || (0xe000 <= v && v <= 0x10ffff)
}

/// `char::from_u32`: the character with that scalar value, `None` for
/// surrogates and values above `0x10FFFF`.
#[verifier::external_body]
fn char_from_u32(v: u32) -> (r: Option<char>)
    ensures
        r == (if is_scalar_value(v) {
            Some(v as char)
        } else {
            None
        }),
{
    char::from_u32(v)
}

/// What `u32::from_str_radix(t, 16)` gives: the value of a non-empty run of
/// hex digits that fits 32 bits, else nothing.
pub open spec fn hex_u32(t: Seq<char>) -> Option<u32> {
    if is_hex_text(t) && hex_value(t) <= u32::MAX {
        Some(hex_value(t) as u32)
    } else {
        None
    }
}

proof fn lemma_hex_value_prefix(t: Seq<char>, k: int)
    requires
        0 <= k <= t.len(),
        forall|i: int| 0 <= i < t.len() ==> hex_digit_value(t[i]) >= 0,
    ensures
        hex_value(t.take(k)) <= hex_value(t),
    decreases t.len(),
{
    if k < t.len() {
        assert(t.drop_last().take(k) =~= t.take(k));
        lemma_hex_value_prefix(t.drop_last(), k);
    } else {
        assert(t.take(k) =~= t);
    }
}

fn hex_digit(c: char) -> (d: Option<u64>)
    ensures
        match d {
            Some(v) => hex_digit_value(c) >= 0 && v == hex_digit_value(c),
            None => hex_digit_value(c) < 0,
        },
{
    if '0' <= c && c <= '9' {
        Some((c as u64) - 48)
    } else if 'a' <= c && c <= 'f' {
        Some((c as u64) - 87)
    } else if 'A' <= c && c <= 'F' {
        Some((c as u64) - 55)
    } else {
        None
    }
}

/// Reads `cs[lo..hi]` as a hexadecimal `u32`.
pub fn parse_hex_u32(cs: &Vec<char>, lo: usize, hi: usize) -> (r: Option<u32>)
    requires
        lo <= hi <= cs.len(),
    ensures
        r == hex_u32(cs@.subrange(lo as int, hi as int)),
{
    let ghost t = cs@.subrange(lo as int, hi as int);
    if lo == hi {
        return None;
    }
    let mut acc: u64 = 0;
    let mut i = lo;
    assert(t.take(0) =~= Seq::<char>::empty());
    while i < hi
        invariant
            lo <= i <= hi <= cs.len(),
            lo < hi,
            t == cs@.subrange(lo as int, hi as int),
            acc == hex_value(t.take(i - lo)),
            acc <= u32::MAX,
            forall|j: int| 0 <= j < i - lo ==> hex_digit_value(t[j]) >= 0,
        decreases hi - i,
    {
        assert(t[i - lo] == cs@[i as int]);
        assert(t.take(i - lo + 1).drop_last() =~= t.take(i - lo));
        assert(t.take(i - lo + 1).last() == t[i - lo]);
        match hex_digit(cs[i]) {
            None => {
                return None;
            },
            Some(d) => {
                let next = acc * 16 + d;
                if next > 0xffff_ffff {
                    proof {
                        if is_hex_text(t) {
                            lemma_hex_value_prefix(t, i - lo + 1);
                        }
                    }
                    return None;
                }
                acc = next;
            },
        }
        i = i + 1;
    }
    assert(t.take(hi - lo) =~= t);
    Some(acc as u32)
}

/// The glyph a codepoint token stands for: the character whose value the
/// trimmed token spells in hex, or nothing when it spells no character.
pub open spec fn token_glyph(tok: Seq<char>) -> Seq<char> {
    match hex_u32(trimmed(tok)) {
        Some(v) => if is_scalar_value(v) {
            seq![v as char]
        } else {
            Seq::empty()
        },
        None => Seq::empty(),
    }
}

/// The glyphs of a list of tokens, in order.
pub open spec fn glyphs_of(toks: Seq<Seq<char>>) -> Seq<char>
    decreases toks.len(),
{
    if toks.len() == 0 {
        Seq::empty()
    } else {
        glyphs_of(toks.drop_last()) + token_glyph(toks.last())
    }
}

/// `+` joins emoji of an icon spec, `_` the codepoints of one emoji.
pub open spec fn icon_separators() -> Seq<char> {
    seq!['+', '_']
}

/// The glyphs an icon spec (`1f34c`, `1f1e9_1f1ea+1f9d1`) stands for.
pub open spec fn icon_glyphs(spec: Seq<char>) -> Seq<char> {
    glyphs_of(split_by(spec, |c: char| icon_separators().contains(c)))
}

/// Turns an icon spec into native emoji glyphs for preview.
pub fn emoji_glyphs(spec: &str) -> (r: String)
    ensures
        r@ == icon_glyphs(spec@),
{
    let mut seps: Vec<char> = Vec::new();
    seps.push('+');
    seps.push('_');
    assert(seps@ =~= icon_separators());
    let toks = split_where(spec, &seps);
    let ghost ts = views(toks@);
    assert(ts == split_by(spec@, |c: char| icon_separators().contains(c)));
    let mut r = String::new();
    let mut i: usize = 0;
    while i < toks.len()
        invariant
            i <= toks.len(),
            ts == views(toks@),
            r@ == glyphs_of(ts.take(i as int)),
        decreases toks.len() - i,
    {
        assert(ts.take(i + 1).drop_last() =~= ts.take(i as int));
        assert(ts.take(i + 1).last() == toks@[i as int]@);
        let cs = chars_of(toks[i].as_str());
        let (lo, hi) = trim_bounds(&cs);
        let ghost before = r@;
        match parse_hex_u32(&cs, lo, hi) {
            Some(v) => match char_from_u32(v) {
                Some(c) => {
                    push_char(&mut r, c);
                },
                None => {},
            },
            None => {},
        }
        assert(r@ =~= glyphs_of(ts.take(i + 1)));
        i = i + 1;
    }
    assert(ts.take(toks.len() as int) =~= ts);
    r
}

/// Sanitizes an emoji token into a codepoint file name part: trimmed and
/// lowercased; only hex digits and `_` are allowed (so no path traversal).
pub open spec fn codepoint_of(token: Seq<char>) -> Option<Seq<char>> {
    let cp = lowercase(trimmed(token));
    if is_codepoint_text(cp) {
        Some(cp)
    } else {
        None
    }
}

/// Only hex digits and `_`, and at least one character.
pub open spec fn is_codepoint_text(cp: Seq<char>) -> bool {
    cp.len() > 0 && forall|i: int| 0 <= i < cp.len() ==> hex_digit_value(cp[i]) >= 0 || cp[i] == '_'
}

/// Whether an already trimmed and lowercased token is a safe codepoint.
pub fn is_codepoint(cp: &str) -> (b: bool)
    ensures
        b == is_codepoint_text(cp@),
{
    let cs = chars_of(cp);
    if cs.len() == 0 {
        return false;
    }
    let mut i: usize = 0;
    while i < cs.len()
        invariant
            i <= cs.len(),
            cs@ == cp@,
            cs.len() > 0,
            forall|j: int| 0 <= j < i ==> hex_digit_value(cs@[j]) >= 0 || cs@[j] == '_',
        decreases cs.len() - i,
    {
        let c = cs[i];
        match hex_digit(c) {
            Some(_) => {},
            None => {
                if c != '_' {
                    assert(!(hex_digit_value(cp@[i as int]) >= 0 || cp@[i as int] == '_'));
                    return false;
                }
            },
        }
        i = i + 1;
    }
    true
}

/// The sanitized codepoint of an emoji token, or `None` if it is unsafe.
pub fn codepoint_token(token: &str) -> (r: Option<String>)
    ensures
        match codepoint_of(token@) {
            Some(cp) => r matches Some(s) && s@ == cp,
            None => r is None,
        },
{
    let t = trim(token);
    let cp = to_lowercase(t.as_str());
    if is_codepoint(cp.as_str()) {
        Some(cp)
    } else {
        None
    }
}

// ---------------------------------------------------------------------------
// Icon specs: up to two `+`-joined tokens
// ---------------------------------------------------------------------------

/// The tokens of an icon spec as the picker sees them: the non-empty pieces
/// between `+` signs.
pub open spec fn picker_tokens(icon: Seq<char>) -> Seq<Seq<char>> {
    non_empty(plus_pieces(icon))
}

/// The icon after choosing `cp` in the picker: appended when it is new and
/// fewer than two are chosen, otherwise the icon is left as it is.
pub open spec fn icon_after_add(icon: Seq<char>, cp: Seq<char>) -> Seq<char> {
    let toks = picker_tokens(icon);
    if !toks.contains(cp) && toks.len() < 2 {
        join_plus(toks.push(cp))
    } else {
        icon
    }
}

/// The non-empty strings among `v`, in order.
fn keep_non_empty(v: &Vec<String>) -> (r: Vec<String>)
    ensures
        views(r@) == non_empty(views(v@)),
{
    let mut r: Vec<String> = Vec::new();
    let mut i: usize = 0;
    while i < v.len()
        invariant
            i <= v.len(),
            views(r@) == non_empty(views(v@).take(i as int)),
        decreases v.len() - i,
    {
        assert(views(v@).take(i + 1).drop_last() =~= views(v@).take(i as int));
        assert(views(v@).take(i + 1).last() == v@[i as int]@);
        let ghost before = views(r@);
        if v[i].as_str().unicode_len() > 0 {
            r.push(v[i].clone());
            assert(views(r@) =~= before.push(v@[i as int]@));
        }
        i = i + 1;
    }
    assert(views(v@).take(v.len() as int) =~= views(v@));
    r
}

fn position_of(v: &Vec<String>, s: &str) -> (r: bool)
    ensures
        r == views(v@).contains(s@),
{
    let mut i: usize = 0;
    while i < v.len()
        invariant
            i <= v.len(),
            forall|j: int| 0 <= j < i ==> v@[j]@ != s@,
        decreases v.len() - i,
    {
        if v[i].as_str().unicode_len() == s.unicode_len() {
            let a = chars_of(v[i].as_str());
            let b = chars_of(s);
            let mut k: usize = 0;
            let mut same = true;
            while k < a.len()
                invariant
                    a@ == v@[i as int]@,
                    b@ == s@,
                    a.len() == b.len(),
                    k <= a.len(),
                    same == (forall|j: int| 0 <= j < k ==> a@[j] == b@[j]),
                decreases a.len() - k,
            {
                if a[k] != b[k] {
                    same = false;
                }
                k = k + 1;
            }
            if same {
                assert(a@ =~= b@);
                assert(views(v@)[i as int] == s@);
                return true;
            }
            assert(a@[k as int] != b@[k as int] || exists|j: int| 0 <= j < a.len() && a@[j] != b@[j]);
        }
        i = i + 1;
    }
    assert forall|j: int| 0 <= j < views(v@).len() implies views(v@)[j] != s@ by {
        assert(views(v@)[j] == v@[j]@);
    }
    false
}

/// Adds the codepoint `cp` to an icon spec (up to two, `+`-joined).
pub fn add_icon_token(icon: &str, cp: &str) -> (r: String)
    ensures
        r@ == icon_after_add(icon@, cp@),
{
    let mut seps: Vec<char> = Vec::new();
    seps.push('+');
    assert(seps@ =~= seq!['+']);
    let pieces = split_where(icon, &seps);
    assert forall|c: char| #[trigger] seps@.contains(c) == is_plus(c) by {
        if c == '+' {
            assert(seps@[0] == c);
        }
    }
    assert((|c: char| seps@.contains(c)) =~= (|c: char| is_plus(c)));
    let mut toks = keep_non_empty(&pieces);
    assert(views(toks@) == picker_tokens(icon@));
    if !position_of(&toks, cp) && toks.len() < 2 {
        let ghost before = views(toks@);
        toks.push(String::from_str(cp));
        assert(views(toks@) =~= before.push(cp@));
        join_with_plus(&toks)
    } else {
        String::from_str(icon)
    }
}

/// Choosing an emoji in the picker keeps the icon well formed: its tokens
/// after the choice are the tokens before, plus the new codepoint when it was
/// not there yet and fewer than two were chosen. So an icon never holds more
/// than two tokens, nor one token twice, once it starts with at most two
/// distinct ones.
pub proof fn lemma_add_icon_tokens(icon: Seq<char>, cp: Seq<char>)
    requires
        cp.len() > 0,
        forall|i: int| 0 <= i < cp.len() ==> cp[i] != '+',
    ensures
        picker_tokens(icon_after_add(icon, cp)) == (if !picker_tokens(icon).contains(cp)
            && picker_tokens(icon).len() < 2 {
            picker_tokens(icon).push(cp)
        } else {
            picker_tokens(icon)
        }),
{
    let toks = picker_tokens(icon);
    if !toks.contains(cp) && toks.len() < 2 {
        lemma_pieces_plain(plus_pieces(icon), icon);
        let ts = toks.push(cp);
        assert forall|k: int| 0 <= k < ts.len() implies ts[k].len() > 0 by {
            if k < toks.len() {
                lemma_non_empty_elements(plus_pieces(icon), k);
            }
        }
        assert forall|k: int, i: int| 0 <= k < ts.len() && 0 <= i < ts[k].len() implies ts[k][i]
            != '+' by {
            if k < toks.len() {
                lemma_non_empty_elements(plus_pieces(icon), k);
            }
        }
        lemma_split_join(ts);
    }
}

proof fn lemma_non_empty_elements(ps: Seq<Seq<char>>, k: int)
    requires
        0 <= k < non_empty(ps).len(),
    ensures
        non_empty(ps)[k].len() > 0,
        ps.contains(non_empty(ps)[k]),
    decreases ps.len(),
{
    if ps.len() > 0 {
        let front = ps.drop_last();
        if ps.last().len() > 0 && k == non_empty(ps).len() - 1 {
            assert(ps[ps.len() - 1] == ps.last());
        } else {
            lemma_non_empty_elements(front, k);
            let w = choose|j: int| 0 <= j < front.len() && front[j] == non_empty(ps)[k];
            assert(ps[w] == front[w]);
        }
    }
}

proof fn lemma_pieces_plain(ps: Seq<Seq<char>>, icon: Seq<char>)
    requires
        ps == plus_pieces(icon),
    ensures
        forall|k: int, i: int|
            0 <= k < ps.len() && 0 <= i < ps[k].len() ==> ps[k][i] != '+',
    decreases icon.len(),
{
    if icon.len() > 0 {
        let t = plus_pieces(icon.drop_last());
        lemma_pieces_plain(t, icon.drop_last());
        lemma_split_nonempty(icon.drop_last(), |c: char| is_plus(c));
        let c = icon.last();
        if c == '+' {
            assert(ps == t.push(Seq::<char>::empty()));
            assert forall|k: int, i: int| 0 <= k < ps.len() && 0 <= i < ps[k].len() implies ps[k][i]
                != '+' by {
                if k < t.len() {
                    assert(ps[k] == t[k]);
                }
            }
        } else {
            assert(ps == t.update(t.len() - 1, t.last().push(c)));
            assert forall|k: int, i: int| 0 <= k < ps.len() && 0 <= i < ps[k].len() implies ps[k][i]
                != '+' by {
                if k < t.len() - 1 {
                    assert(ps[k] == t[k]);
                } else {
                    assert(ps[k] == t.last().push(c));
                    if i < t.last().len() {
                        assert(ps[k][i] == t[t.len() - 1][i]);
                    }
                }
            }
        }
    }
}

/// Up to two icon tokens of an optional spec, skipping blank pieces; each is
/// handed on as written (untrimmed).
pub open spec fn card_icon_tokens(spec: Option<Seq<char>>) -> Seq<Seq<char>> {
    let pieces = match spec {
        Some(s) => plus_pieces(s),
        None => plus_pieces(Seq::empty()),
    };
    first_n(non_blank(pieces), 2)
}

/// The icon tokens a share card shows (at most two).
pub fn icon_tokens(spec: Option<&str>) -> (r: Vec<String>)
    ensures
        views(r@) == card_icon_tokens(
            match spec {
                Some(s) => Some(s@),
                None => None,
            },
        ),
{
    let s: &str = match spec {
        Some(s) => s,
        None => "",
    };
    proof {
        reveal_strlit("");
        if spec is None {
            assert(s@ =~= Seq::<char>::empty());
        }
    }
    let mut seps: Vec<char> = Vec::new();
    seps.push('+');
    assert(seps@ =~= seq!['+']);
    let pieces = split_where(s, &seps);
    assert forall|c: char| #[trigger] seps@.contains(c) == is_plus(c) by {
        if c == '+' {
            assert(seps@[0] == c);
        }
    }
    assert((|c: char| seps@.contains(c)) =~= (|c: char| is_plus(c)));
    let ghost ps = views(pieces@);
    assert(ps == plus_pieces(s@));
    let mut r: Vec<String> = Vec::new();
    let mut i: usize = 0;
    while i < pieces.len()
        invariant
            i <= pieces.len(),
            ps == views(pieces@),
            views(r@) == first_n(non_blank(ps.take(i as int)), 2),
            r.len() <= 2,
        decreases pieces.len() - i,
    {
        assert(ps.take(i + 1).drop_last() =~= ps.take(i as int));
        assert(ps.take(i + 1).last() == pieces@[i as int]@);
        let ghost nb = non_blank(ps.take(i as int));
        if r.len() < 2 {
            let cs = chars_of(pieces[i].as_str());
            let (lo, hi) = trim_bounds(&cs);
            if lo < hi {
                let ghost before = views(r@);
                r.push(pieces[i].clone());
                assert(views(r@) =~= before.push(pieces@[i as int]@));
            }
        } else {
            proof {
                if trimmed(pieces@[i as int]@).len() > 0 {
                    assert(nb.push(pieces@[i as int]@).take(2) =~= nb.take(2));
                }
            }
        }
        i = i + 1;
    }
    assert(ps.take(pieces.len() as int) =~= ps);
    r
}

} // verus!
