//! Sampling algorithms over index spaces, driven by rand's thread-local
//! generator.

use crate::config::distinct_values;
use rand::Rng;
use std::collections::HashSet;
use vstd::prelude::*;

verus! {

broadcast use vstd::std_specs::hash::group_hash_axioms;

/// rand's thread-local generator, carried through as an opaque value.
#[verifier::external_type_specification]
#[verifier::external_body]
pub struct ExThreadRng(rand::rngs::ThreadRng);

/// Relies on `rand::thread_rng`: a handle on the calling thread's generator.
#[verifier::external_body]
pub(crate) fn thread_rng() -> rand::rngs::ThreadRng {
    rand::thread_rng()
}

/// Relies on `rand::Rng::gen_range` over `0..=hi`: the value lies in the
/// range, which is never empty.
#[verifier::external_body]
fn draw_up_to(rng: &mut rand::rngs::ThreadRng, hi: u64) -> (r: u64)
    ensures
        r <= hi,
{
    rng.gen_range(0..=hi)
}

/// A value drawn from `lo..=hi`.
pub fn draw_in_range(rng: &mut rand::rngs::ThreadRng, lo: i64, hi: i64) -> (r: i64)
    requires
        lo <= hi,
    ensures
        lo <= r <= hi,
{
    let span = (hi as i128 - lo as i128) as u64;
    let off = draw_up_to(rng, span);
    (lo as i128 + off as i128) as i64
}

/// An index drawn from `0..len`.
pub fn draw_index(rng: &mut rand::rngs::ThreadRng, len: usize) -> (r: usize)
    requires
        len > 0,
    ensures
        r < len,
{
    draw_up_to(rng, (len - 1) as u64) as usize
}

/// `k` values drawn independently from `lo..=hi`, in draw order.
pub fn generate_range_with_duplicates(rng: &mut rand::rngs::ThreadRng, lo: i64, hi: i64, k: usize) -> (r: Vec<i64>)
    requires
        lo <= hi,
    ensures
        r.len() == k,
        forall|i: int| 0 <= i < k ==> lo <= #[trigger] r[i] <= hi,
{
    let mut r: Vec<i64> = Vec::with_capacity(k);
    for _i in 0..k
        invariant
            lo <= hi,
            r.len() == _i,
            forall|j: int| 0 <= j < r.len() ==> lo <= #[trigger] r[j] <= hi,
    {
        r.push(draw_in_range(rng, lo, hi));
    }
    r
}

/// `k` values drawn independently from the list, in draw order.
pub fn generate_custom_with_duplicates(rng: &mut rand::rngs::ThreadRng, list: &Vec<i64>, k: usize) -> (r: Vec<i64>)
    requires
        list.len() > 0,
    ensures
        r.len() == k,
        forall|i: int| 0 <= i < k ==> list@.contains(#[trigger] r[i]),
{
    let mut r: Vec<i64> = Vec::with_capacity(k);
    for _i in 0..k
        invariant
            list.len() > 0,
            r.len() == _i,
            forall|j: int| 0 <= j < r.len() ==> list@.contains(#[trigger] r[j]),
    {
        let idx = draw_index(rng, list.len());
        assert(list@[idx as int] == list[idx as int]);
        r.push(list[idx]);
    }
    r
}

/// Distinct indices below `bound`.
pub open spec fn distinct_below(s: Seq<u64>, bound: int) -> bool {
    &&& s.no_duplicates()
    &&& forall|i: int| 0 <= i < s.len() ==> (#[trigger] s[i]) < bound
}

/// A uniformly shuffled arrangement of `0..n` (Fisher–Yates), cut to its
/// first `k` entries.
pub fn shuffled_prefix(rng: &mut rand::rngs::ThreadRng, n: usize, k: usize) -> (r: Vec<u64>)
    requires
        k <= n,
    ensures
        r.len() == k,
        distinct_below(r@, n as int),
{
    let mut p: Vec<u64> = Vec::with_capacity(n);
    for i in 0..n
        invariant
            p.len() == i,
            forall|j: int| 0 <= j < i ==> #[trigger] p[j] == j,
    {
        p.push(i as u64);
    }
    assert(distinct_below(p@, n as int));
    let mut i: usize = n;
    while i > 1
        invariant
            i <= n,
            p.len() == n,
            distinct_below(p@, n as int),
        decreases i,
    {
        i = i - 1;
        let j = draw_up_to(rng, i as u64) as usize;
        let a = p[i];
        let b = p[j];
        let ghost before = p@;
        p.set(i, b);
        p.set(j, a);
        assert(forall|x: int| 0 <= x < n && x != i && x != j ==> p@[x] == before[x]);
    }
    p.truncate(k);
    p
}

/// `k` distinct values drawn from `0..=top` (Floyd's method): each of the `k`
/// steps draws once and keeps the draw, or the step's own ceiling where the
/// draw was kept before. The order is that of insertion.
pub fn sample_by_set(rng: &mut rand::rngs::ThreadRng, top: u64, k: usize) -> (r: Vec<u64>)
    requires
        k <= top + 1,
    ensures
        r.len() == k,
        distinct_below(r@, top + 1),
{
    let mut seen: HashSet<u64> = HashSet::with_capacity(k);
    let mut r: Vec<u64> = Vec::with_capacity(k);
    for step in 0..k
        invariant
            k <= top + 1,
            r.len() == step,
            distinct_below(r@, top + 1 - k + step),
            forall|x: u64| seen@.contains(x) <==> r@.contains(x),
    {
        let ceiling = top - (k - 1 - step) as u64;
        let t = draw_up_to(rng, ceiling);
        let pick = if seen.contains(&t) {
            ceiling
        } else {
            t
        };
        assert(!r@.contains(pick)) by {
            if r@.contains(pick) {
                let w = choose|w: int| 0 <= w < r.len() && r@[w] == pick;
                assert(r@[w] < top + 1 - k + step);
            }
        }
        seen.insert(pick);
        let ghost before = r@;
        r.push(pick);
        assert(forall|x: u64| r@.contains(x) <==> (before.contains(x) || x == pick)) by {
            assert(forall|w: int| 0 <= w < before.len() ==> r@[w] == before[w]);
            assert(r@[before.len() as int] == pick);
        }
    }
    r
}


/// A request for `k` of `n` values counts as dense, and is served by
/// shuffling, when `k / n` exceeds `DENSE_NUMERATOR / DENSE_DENOMINATOR`;
/// sparser requests are served by the set method.
pub const DENSE_NUMERATOR: i128 = 1;
pub const DENSE_DENOMINATOR: i128 = 2;

/// Whether `k` of `n` values is a dense request.
pub fn is_dense(k: usize, n: i128) -> (r: bool)
    requires
        0 <= n <= 0x1_0000_0000_0000_0000,
    ensures
        r == (k * DENSE_DENOMINATOR > n * DENSE_NUMERATOR),
{
    (k as i128) * DENSE_DENOMINATOR > n * DENSE_NUMERATOR
}

/// The values `lo + offs[i]`.
fn values_at_offsets(lo: i64, hi: i64, offs: &Vec<u64>) -> (r: Vec<i64>)
    requires
        lo <= hi,
        distinct_below(offs@, hi - lo + 1),
    ensures
        r.len() == offs.len(),
        forall|i: int| 0 <= i < r.len() ==> lo <= #[trigger] r[i] <= hi,
        r@.no_duplicates(),
{
    let mut r: Vec<i64> = Vec::with_capacity(offs.len());
    for i in 0..offs.len()
        invariant
            lo <= hi,
            distinct_below(offs@, hi - lo + 1),
            r.len() == i,
            forall|j: int| 0 <= j < i ==> #[trigger] r[j] == lo + offs@[j],
    {
        assert(offs@[i as int] < hi - lo + 1);
        r.push((lo as i128 + offs[i] as i128) as i64);
    }
    assert(r@.no_duplicates()) by {
        assert forall|a: int, b: int| 0 <= a < r.len() && 0 <= b < r.len() && a != b implies r@[a] != r@[b] by {
            assert(offs@[a] != offs@[b]);
        }
    }
    r
}

/// The list entries at the given indices.
fn values_at_indices(list: &Vec<i64>, idx: &Vec<u64>) -> (r: Vec<i64>)
    requires
        distinct_below(idx@, list.len() as int),
    ensures
        r.len() == idx.len(),
        forall|i: int| 0 <= i < r.len() ==> list@.contains(#[trigger] r[i]),
        list@.no_duplicates() ==> r@.no_duplicates(),
{
    let mut r: Vec<i64> = Vec::with_capacity(idx.len());
    for i in 0..idx.len()
        invariant
            distinct_below(idx@, list.len() as int),
            r.len() == i,
            forall|j: int| 0 <= j < i ==> #[trigger] r[j] == list@[idx@[j] as int],
    {
        assert(idx@[i as int] < list.len());
        r.push(list[idx[i] as usize]);
    }
    assert forall|i: int| 0 <= i < r.len() implies list@.contains(#[trigger] r[i]) by {
        assert(idx@[i] < list.len());
        assert(r[i] == list@[idx@[i] as int]);
    }
    proof {
        if list@.no_duplicates() {
            assert forall|a: int, b: int| 0 <= a < r.len() && 0 <= b < r.len() && a != b implies r@[a] != r@[b] by {
                assert(idx@[a] != idx@[b]);
                assert(idx@[a] < list.len() && idx@[b] < list.len());
            }
        }
    }
    r
}

/// `k` distinct values of `lo..=hi` in shuffled order.
pub fn generate_range_by_shuffle(rng: &mut rand::rngs::ThreadRng, lo: i64, hi: i64, k: usize) -> (r: Vec<i64>)
    requires
        lo <= hi,
        k <= hi - lo + 1 <= usize::MAX,
    ensures
        r.len() == k,
        forall|i: int| 0 <= i < k ==> lo <= #[trigger] r[i] <= hi,
        r@.no_duplicates(),
{
    let n = (hi as i128 - lo as i128 + 1) as usize;
    let offs = shuffled_prefix(rng, n, k);
    values_at_offsets(lo, hi, &offs)
}

/// `k` distinct values of `lo..=hi` by the set method; their order is not
/// meaningful.
pub fn generate_range_by_set(rng: &mut rand::rngs::ThreadRng, lo: i64, hi: i64, k: usize) -> (r: Vec<i64>)
    requires
        lo <= hi,
        k <= hi - lo + 1,
    ensures
        r.len() == k,
        forall|i: int| 0 <= i < k ==> lo <= #[trigger] r[i] <= hi,
        r@.no_duplicates(),
{
    let top = (hi as i128 - lo as i128) as u64;
    let offs = sample_by_set(rng, top, k);
    values_at_offsets(lo, hi, &offs)
}

/// `k` distinct values of `lo..=hi`, by shuffling for a dense request over a
/// range that can be laid out in memory, and by the set method otherwise.
pub fn generate_range_without_duplicates(rng: &mut rand::rngs::ThreadRng, lo: i64, hi: i64, k: usize) -> (r: Vec<i64>)
    requires
        lo <= hi,
        k <= hi - lo + 1,
    ensures
        r.len() == k,
        forall|i: int| 0 <= i < k ==> lo <= #[trigger] r[i] <= hi,
        r@.no_duplicates(),
{
    let n = hi as i128 - lo as i128 + 1;
    if is_dense(k, n) && n <= usize::MAX as i128 {
        generate_range_by_shuffle(rng, lo, hi, k)
    } else {
        generate_range_by_set(rng, lo, hi, k)
    }
}

/// `k` of the given distinct values, in shuffled order.
fn shuffle_distinct(rng: &mut rand::rngs::ThreadRng, values: &Vec<i64>, k: usize) -> (r: Vec<i64>)
    requires
        values@.no_duplicates(),
        k <= values.len(),
    ensures
        r.len() == k,
        forall|i: int| 0 <= i < k ==> values@.contains(#[trigger] r[i]),
        r@.no_duplicates(),
{
    let idx = shuffled_prefix(rng, values.len(), k);
    values_at_indices(values, &idx)
}

/// `k` of the given distinct values by the set method.
fn pick_distinct_by_set(rng: &mut rand::rngs::ThreadRng, values: &Vec<i64>, k: usize) -> (r: Vec<i64>)
    requires
        values@.no_duplicates(),
        0 < values.len(),
        k <= values.len(),
    ensures
        r.len() == k,
        forall|i: int| 0 <= i < k ==> values@.contains(#[trigger] r[i]),
        r@.no_duplicates(),
{
    let idx = sample_by_set(rng, (values.len() - 1) as u64, k);
    values_at_indices(values, &idx)
}

/// `k` distinct values of the list, in shuffled order.
pub fn generate_custom_by_shuffle(rng: &mut rand::rngs::ThreadRng, list: &Vec<i64>, k: usize) -> (r: Vec<i64>)
    requires
        k <= list@.to_set().len(),
    ensures
        r.len() == k,
        forall|i: int| 0 <= i < k ==> list@.contains(#[trigger] r[i]),
        r@.no_duplicates(),
{
    let values = distinct_values(list);
    shuffle_distinct(rng, &values, k)
}

/// `k` distinct values of the list by the set method; their order is not
/// meaningful.
pub fn generate_custom_by_set(rng: &mut rand::rngs::ThreadRng, list: &Vec<i64>, k: usize) -> (r: Vec<i64>)
    requires
        0 < list.len(),
        k <= list@.to_set().len(),
    ensures
        r.len() == k,
        forall|i: int| 0 <= i < k ==> list@.contains(#[trigger] r[i]),
        r@.no_duplicates(),
{
    let values = distinct_values(list);
    assert(values@.contains(list@[0]));
    pick_distinct_by_set(rng, &values, k)
}

/// `k` distinct values of the list, by shuffling for a dense request and by
/// the set method otherwise; density is judged against the number of
/// distinct values.
pub fn generate_custom_without_duplicates(rng: &mut rand::rngs::ThreadRng, list: &Vec<i64>, k: usize) -> (r: Vec<i64>)
    requires
        0 < list.len(),
        k <= list@.to_set().len(),
    ensures
        r.len() == k,
        forall|i: int| 0 <= i < k ==> list@.contains(#[trigger] r[i]),
        r@.no_duplicates(),
{
    let values = distinct_values(list);
    assert(values@.contains(list@[0]));
    if is_dense(k, values.len() as i128) {
        shuffle_distinct(rng, &values, k)
    } else {
        pick_distinct_by_set(rng, &values, k)
    }
}

} // verus!
