//! Mathematical model of the individual sorting passes.
//!
//! A pass is a bounded mutation sweep over a sequence of `u64` values.  The
//! spec functions here define exactly what one pass computes; the lemmas
//! establish the facts every pass preserves (length, multiset of values) and
//! the staging invariants that drive the partial-correctness and termination
//! arguments of the sorters.

use vstd::prelude::*;

verus! {

/// The whole sequence is in ascending order.
pub open spec fn sorted(s: Seq<u64>) -> bool {
    forall|i: int, j: int| 0 <= i <= j < s.len() ==> s[i] <= s[j]
}

/// The sequence with the elements at positions `i` and `j` exchanged.
pub open spec fn swapped(s: Seq<u64>, i: int, j: int) -> Seq<u64> {
    s.update(i, s[j]).update(j, s[i])
}

/// One left-to-right compare-and-swap sweep performing `k` comparisons: the
/// pairs (0,1), (1,2), ..., (k-1,k) are visited in order and exchanged
/// whenever the left element is strictly greater than the right one.
pub open spec fn sweep(s: Seq<u64>, k: int) -> Seq<u64>
    recommends
        0 <= k < s.len(),
    decreases k,
{
    if k <= 0 {
        s
    } else {
        let t = sweep(s, k - 1);
        if t[k - 1] > t[k] {
            swapped(t, k - 1, k)
        } else {
            t
        }
    }
}

/// Exchanging two elements keeps the multiset of values.
pub proof fn lemma_swapped_multiset(s: Seq<u64>, i: int, j: int)
    requires
        0 <= i < s.len(),
        0 <= j < s.len(),
    ensures
        swapped(s, i, j).to_multiset() == s.to_multiset(),
{
    broadcast use vstd::seq_lib::to_multiset_update;
    broadcast use vstd::seq_lib::to_multiset_contains;

    let t = s.update(i, s[j]);
    assert(t[j] == s[j]);
    assert(s.contains(s[i]));
    assert(t.to_multiset() == s.to_multiset().insert(s[j]).remove(s[i]));
    assert(swapped(s, i, j).to_multiset() == t.to_multiset().insert(s[i]).remove(t[j]));
    assert(s.to_multiset().count(s[i]) > 0);
    assert(swapped(s, i, j).to_multiset() =~= s.to_multiset());
}

/// A sweep keeps the length.
pub proof fn lemma_sweep_len(s: Seq<u64>, k: int)
    requires
        k < s.len(),
    ensures
        sweep(s, k).len() == s.len(),
    decreases k,
{
    if k > 0 {
        lemma_sweep_len(s, k - 1);
    }
}

/// A sweep keeps the multiset of values.
pub proof fn lemma_sweep_multiset(s: Seq<u64>, k: int)
    requires
        k < s.len(),
    ensures
        sweep(s, k).to_multiset() == s.to_multiset(),
    decreases k,
{
    if k > 0 {
        lemma_sweep_multiset(s, k - 1);
        lemma_sweep_len(s, k - 1);
        let t = sweep(s, k - 1);
        if t[k - 1] > t[k] {
            lemma_swapped_multiset(t, k - 1, k);
        }
    }
}

/// A sweep of `k` comparisons never touches positions above `k`.
pub proof fn lemma_sweep_above(s: Seq<u64>, k: int)
    requires
        k < s.len(),
    ensures
        forall|j: int| k < j < s.len() ==> sweep(s, k)[j] == s[j],
    decreases k,
{
    if k > 0 {
        lemma_sweep_above(s, k - 1);
        lemma_sweep_len(s, k - 1);
    }
}

/// After a sweep of `k` comparisons, position `k` holds a maximum of the
/// touched prefix: no earlier position exceeds it.
pub proof fn lemma_sweep_last_max(s: Seq<u64>, k: int)
    requires
        0 <= k < s.len(),
    ensures
        forall|j: int| 0 <= j <= k ==> sweep(s, k)[j] <= sweep(s, k)[k],
    decreases k,
{
    if k > 0 {
        lemma_sweep_last_max(s, k - 1);
        lemma_sweep_len(s, k - 1);
        lemma_sweep_above(s, k - 1);
    }
}

/// A bound on every element of the touched prefix survives a sweep: the
/// sweep only rearranges that prefix.
pub proof fn lemma_sweep_bounded(s: Seq<u64>, k: int, b: u64)
    requires
        0 <= k < s.len(),
        forall|i: int| 0 <= i <= k ==> s[i] <= b,
    ensures
        forall|i: int| 0 <= i <= k ==> sweep(s, k)[i] <= b,
    decreases k,
{
    if k > 0 {
        lemma_sweep_bounded(s, k - 1, b);
        lemma_sweep_len(s, k - 1);
        lemma_sweep_above(s, k - 1);
        let t = sweep(s, k - 1);
        assert(t[k] == s[k]);
        if t[k - 1] > t[k] {
            let u = swapped(t, k - 1, k);
            assert forall|i: int| 0 <= i <= k implies u[i] <= b by {
                if i == k {
                    assert(u[i] == t[k - 1]);
                } else if i == k - 1 {
                    assert(u[i] == t[k]);
                } else {
                    assert(u[i] == t[i]);
                }
            }
        }
    }
}

/// The last `c` positions are in ascending order among themselves.
pub open spec fn suffix_sorted(s: Seq<u64>, c: int) -> bool {
    forall|i: int, j: int| 0 <= i <= j < s.len() && s.len() - c <= i ==> s[i] <= s[j]
}

/// No element before the last `c` positions exceeds any element inside them.
pub open spec fn suffix_maximal(s: Seq<u64>, c: int) -> bool {
    forall|i: int, j: int| 0 <= i < s.len() - c && s.len() - c <= j < s.len() ==> s[i] <= s[j]
}

/// The bubble staging invariant after `c` completed passes: the last `c`
/// elements are the `c` largest values, already in their final order.
pub open spec fn bubble_staged(s: Seq<u64>, c: int) -> bool {
    suffix_sorted(s, c) && suffix_maximal(s, c)
}

/// The first `c` positions are in ascending order among themselves.
pub open spec fn prefix_sorted(s: Seq<u64>, c: int) -> bool {
    forall|i: int, j: int| 0 <= i <= j < s.len() && j < c ==> s[i] <= s[j]
}

/// No element in the first `c` positions exceeds any element after them.
pub open spec fn prefix_minimal(s: Seq<u64>, c: int) -> bool {
    forall|i: int, j: int| 0 <= i < c && c <= j < s.len() ==> s[i] <= s[j]
}

/// The selection staging invariant after `c` completed placements: the first
/// `c` elements are the `c` smallest values, already in ascending order.
pub open spec fn selection_staged(s: Seq<u64>, c: int) -> bool {
    prefix_sorted(s, c) && prefix_minimal(s, c)
}

/// Once at least `len - 1` positions are staged at the tail, the whole
/// sequence is sorted.
pub proof fn lemma_bubble_staged_sorted(s: Seq<u64>, c: int)
    requires
        c >= s.len() - 1,
        bubble_staged(s, c),
    ensures
        sorted(s),
{
}

/// Once at least `len - 1` positions are staged at the head, the whole
/// sequence is sorted.
pub proof fn lemma_selection_staged_sorted(s: Seq<u64>, c: int)
    requires
        c >= s.len() - 1,
        selection_staged(s, c),
    ensures
        sorted(s),
{
}

/// One more bubble sweep extends the staged tail by one: sweeping the
/// remaining window pushes its maximum to the window's end.
pub proof fn lemma_sweep_advances_stage(s: Seq<u64>, c: int)
    requires
        0 <= c < s.len(),
        bubble_staged(s, c),
    ensures
        bubble_staged(sweep(s, s.len() - c - 1), c + 1),
{
    let k = s.len() - c - 1;
    let t = sweep(s, k);
    lemma_sweep_len(s, k);
    lemma_sweep_above(s, k);
    lemma_sweep_last_max(s, k);
    assert forall|i: int, j: int|
        0 <= i < s.len() - (c + 1) && s.len() - (c + 1) <= j < s.len() implies t[i] <= t[j] by {
        if j > k {
            assert(t[j] == s[j]);
            lemma_sweep_bounded(s, k, s[j]);
        }
    }
    assert forall|i: int, j: int|
        0 <= i <= j < s.len() && s.len() - (c + 1) <= i implies t[i] <= t[j] by {
        if i > k {
            assert(t[i] == s[i]);
            assert(t[j] == s[j]);
        } else if j > k {
            assert(t[j] == s[j]);
            lemma_sweep_bounded(s, k, s[j]);
        }
    }
}

/// The redo-style bubble pass with `p` inner sweeps, run front to back: the
/// `i`-th inner sweep performs `len - 1 - i` comparisons.  Re-running all
/// earlier sweeps from the current data every call keeps each animation
/// frame a self-consistent partial bubble-sort state.
pub open spec fn redo_sweeps(s: Seq<u64>, p: int) -> Seq<u64>
    recommends
        0 <= p < s.len() || p == 0,
    decreases p,
{
    if p <= 0 {
        s
    } else {
        sweep(redo_sweeps(s, p - 1), s.len() - p)
    }
}

/// A redo-style bubble pass keeps the length.
pub proof fn lemma_redo_sweeps_len(s: Seq<u64>, p: int)
    requires
        p < s.len() || p == 0,
    ensures
        redo_sweeps(s, p).len() == s.len(),
    decreases p,
{
    if p > 0 {
        lemma_redo_sweeps_len(s, p - 1);
        lemma_sweep_len(redo_sweeps(s, p - 1), s.len() - p);
    }
}

/// A redo-style bubble pass keeps the multiset of values.
pub proof fn lemma_redo_sweeps_multiset(s: Seq<u64>, p: int)
    requires
        p < s.len() || p == 0,
    ensures
        redo_sweeps(s, p).to_multiset() == s.to_multiset(),
    decreases p,
{
    if p > 0 {
        lemma_redo_sweeps_multiset(s, p - 1);
        lemma_redo_sweeps_len(s, p - 1);
        lemma_sweep_multiset(redo_sweeps(s, p - 1), s.len() - p);
    }
}

/// Whatever the input, a redo-style bubble pass of `p` sweeps leaves the
/// last `p` elements staged: it re-establishes the bubble invariant from
/// scratch on every call.
pub proof fn lemma_redo_sweeps_staged(s: Seq<u64>, p: int)
    requires
        0 <= p < s.len() || p == 0,
    ensures
        bubble_staged(redo_sweeps(s, p), p),
    decreases p,
{
    if p > 0 {
        lemma_redo_sweeps_staged(s, p - 1);
        lemma_redo_sweeps_len(s, p - 1);
        lemma_sweep_advances_stage(redo_sweeps(s, p - 1), p - 1);
    }
}

/// A position holding a minimum of the range from `lo` on, with every
/// position between `lo` and it strictly greater: the first minimum.
pub open spec fn first_min(s: Seq<u64>, lo: int, m: int) -> bool {
    &&& lo <= m < s.len()
    &&& forall|k: int| lo <= k < s.len() ==> s[m] <= s[k]
    &&& forall|k: int| lo <= k < m ==> s[k] > s[m]
}

/// The index of the first minimum of the range from `lo` to the end.
pub open spec fn min_index(s: Seq<u64>, lo: int) -> int
    recommends
        0 <= lo < s.len(),
    decreases s.len() - lo,
{
    if lo >= s.len() - 1 {
        lo
    } else {
        let m = min_index(s, lo + 1);
        if s[m] < s[lo] {
            m
        } else {
            lo
        }
    }
}

/// `min_index` indeed picks the first minimum.
pub proof fn lemma_min_index_first_min(s: Seq<u64>, lo: int)
    requires
        0 <= lo < s.len(),
    ensures
        first_min(s, lo, min_index(s, lo)),
    decreases s.len() - lo,
{
    if lo < s.len() - 1 {
        lemma_min_index_first_min(s, lo + 1);
    }
}

/// There is only one first minimum of a range.
pub proof fn lemma_first_min_unique(s: Seq<u64>, lo: int, m1: int, m2: int)
    requires
        first_min(s, lo, m1),
        first_min(s, lo, m2),
    ensures
        m1 == m2,
{
    if m1 < m2 {
        assert(s[m1] > s[m2]);
        assert(s[m2] >= s[m1]);
    }
    if m2 < m1 {
        assert(s[m2] > s[m1]);
        assert(s[m1] >= s[m2]);
    }
}

/// One more selection placement extends the staged head by one: swapping the
/// first minimum of the unstaged range into position `c`.
pub proof fn lemma_select_advances_stage(s: Seq<u64>, c: int)
    requires
        0 <= c < s.len(),
        selection_staged(s, c),
    ensures
        selection_staged(swapped(s, min_index(s, c), c), c + 1),
{
    lemma_min_index_first_min(s, c);
    let m = min_index(s, c);
    let t = swapped(s, m, c);
    assert forall|i: int, j: int|
        0 <= i <= j < t.len() && j < c + 1 implies t[i] <= t[j] by {
        if j == c && i < c {
            assert(t[i] == s[i]);
            assert(t[j] == s[m]);
        }
    }
    assert forall|i: int, j: int|
        0 <= i < c + 1 && c + 1 <= j < t.len() implies t[i] <= t[j] by {
        if j == m {
            assert(t[j] == s[c]);
        } else {
            assert(t[j] == s[j]);
        }
        if i < c {
            assert(t[i] == s[i]);
        } else {
            assert(t[i] == s[m]);
        }
    }
}

/// The selection pass with `p` placements, run front to back: the `i`-th
/// placement swaps the first minimum of the range from `i` on into position
/// `i`.  Like the redo-style bubble pass it recomputes the earlier
/// placements from the current data on every call.
pub open spec fn select_passes(s: Seq<u64>, p: int) -> Seq<u64>
    recommends
        0 <= p < s.len() || p == 0,
    decreases p,
{
    if p <= 0 {
        s
    } else {
        let t = select_passes(s, p - 1);
        swapped(t, min_index(t, p - 1), p - 1)
    }
}

/// A selection pass keeps the length.
pub proof fn lemma_select_passes_len(s: Seq<u64>, p: int)
    requires
        p < s.len() || p == 0,
    ensures
        select_passes(s, p).len() == s.len(),
    decreases p,
{
    if p > 0 {
        lemma_select_passes_len(s, p - 1);
        lemma_min_index_first_min(select_passes(s, p - 1), p - 1);
    }
}

/// A selection pass keeps the multiset of values.
pub proof fn lemma_select_passes_multiset(s: Seq<u64>, p: int)
    requires
        p < s.len() || p == 0,
    ensures
        select_passes(s, p).to_multiset() == s.to_multiset(),
    decreases p,
{
    if p > 0 {
        lemma_select_passes_multiset(s, p - 1);
        lemma_select_passes_len(s, p - 1);
        let t = select_passes(s, p - 1);
        lemma_min_index_first_min(t, p - 1);
        lemma_swapped_multiset(t, min_index(t, p - 1), p - 1);
    }
}

/// Whatever the input, a selection pass of `p` placements leaves the first
/// `p` elements staged: it re-establishes the selection invariant from
/// scratch on every call.
pub proof fn lemma_select_passes_staged(s: Seq<u64>, p: int)
    requires
        0 <= p < s.len() || p == 0,
    ensures
        selection_staged(select_passes(s, p), p),
    decreases p,
{
    if p > 0 {
        lemma_select_passes_staged(s, p - 1);
        lemma_select_passes_len(s, p - 1);
        lemma_select_advances_stage(select_passes(s, p - 1), p - 1);
    }
}

} // verus!
