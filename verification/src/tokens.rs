//! Splitting text into tokens at separator characters, and joining tokens.

use vstd::prelude::*;
use vstd::string::*;

use crate::text::{chars_of, push_char, trimmed};

verus! {

/// The pieces of `s` between separators (`str::split`): always at least one
/// piece, empty pieces included.
pub open spec fn split_by(s: Seq<char>, sep: spec_fn(char) -> bool) -> Seq<Seq<char>>
    decreases s.len(),
{
    if s.len() == 0 {
        seq![Seq::<char>::empty()]
    } else {
        let t = split_by(s.drop_last(), sep);
        if sep(s.last()) {
            t.push(Seq::<char>::empty())
        } else {
            t.update(t.len() - 1, t.last().push(s.last()))
        }
    }
}

/// The character is `+`.
pub open spec fn is_plus(c: char) -> bool {
    c == '+'
}

/// The pieces of `s` between `+` signs.
pub open spec fn plus_pieces(s: Seq<char>) -> Seq<Seq<char>> {
    split_by(s, |c: char| is_plus(c))
}

/// The tokens joined with `+` between them.
pub open spec fn join_plus(ts: Seq<Seq<char>>) -> Seq<char>
    decreases ts.len(),
{
    if ts.len() == 0 {
        Seq::empty()
    } else if ts.len() == 1 {
        ts[0]
    } else {
        join_plus(ts.drop_last()) + seq!['+'] + ts.last()
    }
}

/// The pieces that are not empty, in order.
pub open spec fn non_empty(ts: Seq<Seq<char>>) -> Seq<Seq<char>>
    decreases ts.len(),
{
    if ts.len() == 0 {
        Seq::empty()
    } else if ts.last().len() > 0 {
        non_empty(ts.drop_last()).push(ts.last())
    } else {
        non_empty(ts.drop_last())
    }
}

/// The pieces that hold something besides white space, in order.
pub open spec fn non_blank(ts: Seq<Seq<char>>) -> Seq<Seq<char>>
    decreases ts.len(),
{
    if ts.len() == 0 {
        Seq::empty()
    } else if trimmed(ts.last()).len() > 0 {
        non_blank(ts.drop_last()).push(ts.last())
    } else {
        non_blank(ts.drop_last())
    }
}

/// The views of a vector of strings.
pub open spec fn views(v: Seq<String>) -> Seq<Seq<char>> {
    v.map_values(|s: String| s@)
}

/// Splitting always gives at least one piece (the empty text gives one
/// empty piece).
pub proof fn lemma_split_nonempty(s: Seq<char>, sep: spec_fn(char) -> bool)
    ensures
        split_by(s, sep).len() >= 1,
    decreases s.len(),
{
    if s.len() > 0 {
        lemma_split_nonempty(s.drop_last(), sep);
    }
}

/// Splits `s` at every character for which `is_sep` holds.
pub fn split_where(s: &str, seps: &Vec<char>) -> (r: Vec<String>)
    ensures
        views(r@) == split_by(s@, |c: char| seps@.contains(c)),
{
    let ghost sep = |c: char| seps@.contains(c);
    let cs = chars_of(s);
    let mut done: Vec<String> = Vec::new();
    let mut cur = String::new();
    let mut i: usize = 0;
    assert(cs@.take(0) =~= Seq::<char>::empty());
    assert(views(done@).push(cur@) =~= seq![Seq::<char>::empty()]);
    while i < cs.len()
        invariant
            i <= cs.len(),
            cs@ == s@,
            sep == (|c: char| seps@.contains(c)),
            views(done@).push(cur@) == split_by(cs@.take(i as int), sep),
        decreases cs.len() - i,
    {
        let c = cs[i];
        assert(cs@.take(i + 1).drop_last() =~= cs@.take(i as int));
        assert(cs@.take(i + 1).last() == c);
        let mut is_sep = false;
        let mut k: usize = 0;
        while k < seps.len()
            invariant
                k <= seps.len(),
                is_sep == (exists|j: int| 0 <= j < k && seps@[j] == c),
            decreases seps.len() - k,
        {
            if seps[k] == c {
                is_sep = true;
            }
            k = k + 1;
        }
        assert(is_sep == seps@.contains(c));
        let ghost before = views(done@);
        let ghost cur_before = cur@;
        if is_sep {
            let piece = cur;
            done.push(piece);
            cur = String::new();
            assert(views(done@) =~= before.push(cur_before));
            assert(views(done@).push(cur@) =~= split_by(cs@.take(i + 1), sep));
        } else {
            push_char(&mut cur, c);
            assert(views(done@) =~= before);
            assert(views(done@).push(cur@) =~= split_by(cs@.take(i + 1), sep));
        }
        i = i + 1;
    }
    assert(cs@.take(cs.len() as int) =~= s@);
    let last = cur;
    let ghost before = views(done@);
    done.push(last);
    assert(views(done@) =~= before.push(last@));
    done
}

/// Splitting a piece with no separator in it just extends the last piece.
pub proof fn lemma_split_append_plain(x: Seq<char>, b: Seq<char>, sep: spec_fn(char) -> bool)
    requires
        forall|i: int| 0 <= i < b.len() ==> !sep(b[i]),
    ensures
        split_by(x + b, sep) == {
            let t = split_by(x, sep);
            t.update(t.len() - 1, t.last() + b)
        },
    decreases b.len(),
{
    lemma_split_nonempty(x, sep);
    let t = split_by(x, sep);
    if b.len() == 0 {
        assert(x + b =~= x);
        assert(t.last() + b =~= t.last());
        assert(t.update(t.len() - 1, t.last() + b) =~= t);
    } else {
        let b2 = b.drop_last();
        lemma_split_append_plain(x, b2, sep);
        assert((x + b).drop_last() =~= x + b2);
        assert((x + b).last() == b.last());
        assert(t.last() + b2.push(b.last()) =~= (t.last() + b2).push(b.last()));
        assert(b2.push(b.last()) =~= b);
        assert(split_by(x + b, sep) =~= t.update(t.len() - 1, t.last() + b));
    }
}

/// Splitting what was joined with `+` gives back the tokens, when they are
/// non-empty and hold no `+` themselves.
pub proof fn lemma_split_join(ts: Seq<Seq<char>>)
    requires
        forall|k: int| 0 <= k < ts.len() ==> ts[k].len() > 0,
        forall|k: int, i: int| 0 <= k < ts.len() && 0 <= i < ts[k].len() ==> ts[k][i] != '+',
    ensures
        non_empty(plus_pieces(join_plus(ts))) == ts,
    decreases ts.len(),
{
    let sep = |c: char| is_plus(c);
    if ts.len() == 0 {
        assert(join_plus(ts) =~= Seq::<char>::empty());
        assert(non_empty(seq![Seq::<char>::empty()]) =~= Seq::<Seq<char>>::empty()) by {
            assert(seq![Seq::<char>::empty()].drop_last() =~= Seq::<Seq<char>>::empty());
            assert(non_empty(Seq::<Seq<char>>::empty()) == Seq::<Seq<char>>::empty());
            assert(seq![Seq::<char>::empty()].last().len() == 0);
        }
        assert(ts =~= Seq::<Seq<char>>::empty());
    } else if ts.len() == 1 {
        let b = ts[0];
        lemma_split_append_plain(Seq::empty(), b, sep);
        assert(Seq::<char>::empty() + b =~= b);
        assert(split_by(b, sep) =~= seq![b]);
        assert(seq![b].drop_last() =~= Seq::<Seq<char>>::empty());
        assert(non_empty(Seq::<Seq<char>>::empty()) == Seq::<Seq<char>>::empty());
        assert(seq![b].last() == b);
        assert(Seq::<Seq<char>>::empty().push(b) =~= seq![b]);
        assert(non_empty(seq![b]) =~= seq![b]);
        assert(ts =~= seq![b]);
    } else {
        let front = ts.drop_last();
        let b = ts.last();
        let a = join_plus(front);
        lemma_split_join(front);
        lemma_split_nonempty(a, sep);
        let x = a + seq!['+'];
        assert(x.drop_last() =~= a);
        assert(split_by(x, sep) == split_by(a, sep).push(Seq::<char>::empty()));
        lemma_split_append_plain(x, b, sep);
        assert(join_plus(ts) == x + b);
        let t = split_by(x, sep);
        assert(Seq::<char>::empty() + b =~= b);
        assert(split_by(x + b, sep) =~= split_by(a, sep).push(b));
        assert(split_by(a, sep).push(b).drop_last() =~= split_by(a, sep));
        assert(non_empty(split_by(a, sep).push(b)) =~= front.push(b));
        assert(front.push(b) =~= ts);
    }
}

/// Joins the tokens with `+` between them.
pub fn join_with_plus(ts: &Vec<String>) -> (r: String)
    ensures
        r@ == join_plus(views(ts@)),
{
    let mut r = String::new();
    let mut i: usize = 0;
    while i < ts.len()
        invariant
            i <= ts.len(),
            r@ == join_plus(views(ts@).take(i as int)),
        decreases ts.len() - i,
    {
        let ghost prev = views(ts@).take(i as int);
        assert(views(ts@).take(i + 1).drop_last() =~= prev);
        assert(views(ts@).take(i + 1).last() == ts@[i as int]@);
        if i > 0 {
            push_char(&mut r, '+');
        }
        r.append(ts[i].as_str());
        proof {
            if i == 0 {
                assert(prev =~= Seq::<Seq<char>>::empty());
                assert(join_plus(prev) =~= Seq::<char>::empty());
                assert(views(ts@).take(1) =~= seq![ts@[0]@]);
            }
        }
        assert(r@ =~= join_plus(views(ts@).take(i + 1)));
        i = i + 1;
    }
    assert(views(ts@).take(ts.len() as int) =~= views(ts@));
    r
}

} // verus!
