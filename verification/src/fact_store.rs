//! Fair selection of a measure across several stores ("fact stores").
//!
//! A pick is drawn uniformly from `0..total`, where `total` is the number of
//! measures over all stores; the store whose range of picks holds it is chosen,
//! so each store is chosen in proportion to its size and the overall draw is
//! uniform across every measure.

use rand::Rng;
use vstd::prelude::*;
use vstd::set_lib::{lemma_int_range, set_int_range};

verus! {

/// `rand::thread_rng().gen_range(0..n)`: some index below `n`, drawn at random.
/// Only the range is claimed; which index comes back is left to chance.
#[verifier::external_body]
pub(crate) fn random_below(n: usize) -> (r: usize)
    requires
        n > 0,
    ensures
        r < n,
{
    rand::thread_rng().gen_range(0..n)
}

/// Number of measures held by the stores before store `i`.
pub open spec fn prefix_total(counts: Seq<usize>, i: int) -> int
    decreases i,
{
    if i <= 0 {
        0
    } else {
        prefix_total(counts, i - 1) + counts[i - 1]
    }
}

/// Number of measures held by all the stores.
pub open spec fn total(counts: Seq<usize>) -> int {
    prefix_total(counts, counts.len() as int)
}

/// Pick `p` lands in store `i`: the picks of store `i` are
/// `prefix_total(i) .. prefix_total(i + 1)`.
pub open spec fn lands_in(counts: Seq<usize>, p: int, i: int) -> bool {
    0 <= i < counts.len() && prefix_total(counts, i) <= p < prefix_total(counts, i + 1)
}

/// Totals only grow along the stores.
pub proof fn lemma_prefix_monotone(counts: Seq<usize>, i: int, j: int)
    requires
        0 <= i <= j <= counts.len(),
    ensures
        prefix_total(counts, i) <= prefix_total(counts, j),
    decreases j - i,
{
    if i < j {
        lemma_prefix_monotone(counts, i, j - 1);
    }
}

/// Every pick below the total lands in exactly one store.
pub proof fn lemma_pick_lands_in_one_store(counts: Seq<usize>, p: int)
    requires
        0 <= p < total(counts),
    ensures
        exists|i: int| lands_in(counts, p, i),
        forall|i: int, j: int| lands_in(counts, p, i) && lands_in(counts, p, j) ==> i == j,
{
    lemma_pick_lands_below(counts, p, counts.len() as int);
    assert forall|i: int, j: int| lands_in(counts, p, i) && lands_in(counts, p, j) implies i
        == j by {
        if i < j {
            lemma_prefix_monotone(counts, i + 1, j);
        } else if j < i {
            lemma_prefix_monotone(counts, j + 1, i);
        }
    }
}

proof fn lemma_pick_lands_below(counts: Seq<usize>, p: int, n: int)
    requires
        0 <= n <= counts.len(),
        0 <= p < prefix_total(counts, n),
    ensures
        exists|i: int| 0 <= i < n && lands_in(counts, p, i),
    decreases n,
{
    if p >= prefix_total(counts, n - 1) {
        assert(lands_in(counts, p, n - 1));
    } else {
        lemma_pick_lands_below(counts, p, n - 1);
    }
}

/// Store `i` receives exactly `counts[i]` of the `total` picks. With the pick
/// drawn uniformly, a store is chosen with probability `counts[i] / total`,
/// and then one of its `counts[i]` measures uniformly: every measure has the
/// same chance `1 / total`.
pub proof fn lemma_store_share(counts: Seq<usize>, i: int)
    requires
        0 <= i < counts.len(),
    ensures
        Set::new(|p: int| 0 <= p < total(counts) && lands_in(counts, p, i)).finite(),
        Set::new(|p: int| 0 <= p < total(counts) && lands_in(counts, p, i)).len() == counts[i],
{
    let lo = prefix_total(counts, i);
    let hi = prefix_total(counts, i + 1);
    lemma_prefix_monotone(counts, 0, i);
    lemma_prefix_monotone(counts, i + 1, counts.len() as int);
    assert(Set::new(|p: int| 0 <= p < total(counts) && lands_in(counts, p, i)) =~= set_int_range(
        lo,
        hi,
    ));
    lemma_int_range(lo, hi);
}

/// The store that pick `pick` lands in, walking the stores in order and
/// taking each store's count off the pick; `None` when the pick is beyond
/// every store.
pub fn pick_store(counts: &Vec<usize>, pick: usize) -> (r: Option<usize>)
    ensures
        match r {
            Some(i) => lands_in(counts@, pick as int, i as int),
            None => pick >= total(counts@),
        },
{
    let mut rem = pick;
    let mut i: usize = 0;
    while i < counts.len()
        invariant
            i <= counts.len(),
            rem + prefix_total(counts@, i as int) == pick,
        decreases counts.len() - i,
    {
        if rem < counts[i] {
            return Some(i);
        }
        rem = rem - counts[i];
        i = i + 1;
    }
    None
}

/// Adds up the counts of all stores.
pub fn total_count(counts: &Vec<usize>) -> (t: usize)
    requires
        total(counts@) <= usize::MAX,
    ensures
        t == total(counts@),
{
    let mut t: usize = 0;
    let mut i: usize = 0;
    while i < counts.len()
        invariant
            i <= counts.len(),
            t == prefix_total(counts@, i as int),
            total(counts@) <= usize::MAX,
        decreases counts.len() - i,
    {
        proof {
            lemma_prefix_monotone(counts@, i + 1, counts.len() as int);
        }
        t = t + counts[i];
        i = i + 1;
    }
    t
}

/// Picks a store at random, weighted by how many measures each holds: `None`
/// when the stores hold nothing at all; otherwise the store that a pick
/// drawn below the total lands in (see [`lemma_store_share`] for why that is
/// fair), which is a store that holds measures.
pub fn random_store(counts: &Vec<usize>) -> (r: Option<usize>)
    requires
        total(counts@) <= usize::MAX,
    ensures
        r is None <==> total(counts@) == 0,
        r matches Some(i) ==> i < counts.len() && counts@[i as int] > 0,
        r matches Some(i) ==> exists|p: int|
            0 <= p < total(counts@) && #[trigger] lands_in(counts@, p, i as int),
{
    let t = total_count(counts);
    if t == 0 {
        return None;
    }
    let pick = random_below(t);
    let r = pick_store(counts, pick);
    r
}

/// A random position in a store of `len` measures; `None` when it is empty.
pub fn random_position(len: usize) -> (r: Option<usize>)
    ensures
        r is None <==> len == 0,
        r matches Some(i) ==> i < len,
{
    if len == 0 {
        None
    } else {
        Some(random_below(len))
    }
}

} // verus!
