//! The stepwise sorter: one sequence, one step counter, one algorithm
//! variant, advanced by exactly one pass per `advance` call.

use vstd::prelude::*;

use crate::passes::bubble_staged;
use crate::passes::first_min;
use crate::passes::lemma_first_min_unique;
use crate::passes::lemma_min_index_first_min;
use crate::passes::lemma_redo_sweeps_len;
use crate::passes::lemma_redo_sweeps_multiset;
use crate::passes::lemma_redo_sweeps_staged;
use crate::passes::lemma_select_passes_len;
use crate::passes::lemma_select_passes_multiset;
use crate::passes::lemma_select_passes_staged;
use crate::passes::lemma_sweep_advances_stage;
use crate::passes::lemma_sweep_len;
use crate::passes::lemma_sweep_multiset;
use crate::passes::min_index;
use crate::passes::redo_sweeps;
use crate::passes::select_passes;
use crate::passes::selection_staged;
use crate::passes::sweep;

verus! {

/// The algorithm variant a sorter animates.  The names are the chart labels
/// of the animation; each variant's actual pass is documented here, as the
/// labels predate the pass definitions and do not all match textbook usage.
#[derive(Clone, Copy, PartialEq, Eq, Structural, Debug)]
pub enum Algorithm {
    /// One incremental bubble sweep per call, over a window that shrinks
    /// from the right by one position each call.
    Insertion,
    /// A redo-style bubble pass per call: on the call numbered `s` it
    /// re-runs the first `s` shrinking sweeps from the current data.
    Bubble,
    /// A selection pass per call: on the call numbered `s` it re-runs the
    /// first `s` minimum placements from the current data.
    Selection,
}

/// A sorter that holds one sequence and advances it one pass per call.
///
/// The step counter starts at 0, rises by exactly 1 per `advance` call and
/// caps at the sequence length, after which `advance` is a no-op.  The
/// sequence is only ever rearranged: its length and its multiset of values
/// never change.
pub struct StepwiseSorter {
    /// The algorithm variant this sorter animates.
    pub algorithm: Algorithm,
    /// The sequence being sorted in place.
    pub data: Vec<u64>,
    /// The number of completed passes, capped at `data.len()`.
    pub step: usize,
}

impl StepwiseSorter {
    /// The structural invariant: the step counter never exceeds the length,
    /// and the data shows the staging each variant guarantees.  The
    /// incremental variant carries its staging across calls, so it is staged
    /// at `step`; the redo variants re-establish theirs during each call, so
    /// after a call with counter `s` they are staged at `s`, one behind the
    /// incremented counter.
    pub open spec fn wf(&self) -> bool {
        &&& self.step <= self.data.len()
        &&& match self.algorithm {
            Algorithm::Insertion => bubble_staged(self.data@, self.step as int),
            Algorithm::Bubble => self.step == 0 || bubble_staged(
                self.data@,
                self.step as int - 1,
            ),
            Algorithm::Selection => self.step == 0 || selection_staged(
                self.data@,
                self.step as int - 1,
            ),
        }
    }

    /// The sequence after one pass of `algorithm` on `data` with the step
    /// counter at `step`, for `step < data.len()`.
    pub open spec fn pass_result(algorithm: Algorithm, data: Seq<u64>, step: int) -> Seq<u64> {
        match algorithm {
            Algorithm::Insertion => sweep(data, data.len() - step - 1),
            Algorithm::Bubble => redo_sweeps(data, step),
            Algorithm::Selection => select_passes(data, step),
        }
    }

    /// Create a sorter at step 0 over the given sequence.
    pub fn new(algorithm: Algorithm, data: Vec<u64>) -> (sorter: StepwiseSorter)
        ensures
            sorter.algorithm == algorithm,
            sorter.data == data,
            sorter.step == 0,
            sorter.wf(),
    {
        StepwiseSorter { algorithm, data, step: 0 }
    }

    /// Perform exactly one pass and advance the step counter, unless the
    /// counter has reached the length, in which case nothing changes.
    pub fn advance(&mut self)
        requires
            old(self).wf(),
        ensures
            final(self).wf(),
            advanced_from(*old(self), *final(self)),
    {
        let len = self.data.len();
        if self.step < len {
            let ghost pre = self.data@;
            let ghost s = self.step as int;
            match self.algorithm {
                Algorithm::Insertion => {
                    sweep_vec(&mut self.data, len - self.step - 1);
                    proof {
                        lemma_sweep_len(pre, len - s - 1);
                        lemma_sweep_multiset(pre, len - s - 1);
                        lemma_sweep_advances_stage(pre, s);
                    }
                },
                Algorithm::Bubble => {
                    let ghost alg = self.algorithm;
                    let ghost st = self.step;
                    let mut i: usize = 0;
                    while i < self.step
                        invariant
                            i <= st,
                            st < len,
                            self.step == st,
                            self.algorithm == alg,
                            len == pre.len(),
                            self.data@.len() == len,
                            self.data@ == redo_sweeps(pre, i as int),
                        decreases st - i,
                    {
                        sweep_vec(&mut self.data, len - 1 - i);
                        proof {
                            lemma_sweep_len(redo_sweeps(pre, i as int), len - 1 - i);
                        }
                        i = i + 1;
                    }
                    proof {
                        lemma_redo_sweeps_len(pre, s);
                        lemma_redo_sweeps_multiset(pre, s);
                        lemma_redo_sweeps_staged(pre, s);
                    }
                },
                Algorithm::Selection => {
                    let ghost alg = self.algorithm;
                    let ghost st = self.step;
                    let mut left: usize = 0;
                    while left < self.step
                        invariant
                            left <= st,
                            st < len,
                            self.step == st,
                            self.algorithm == alg,
                            len == pre.len(),
                            self.data@.len() == len,
                            self.data@ == select_passes(pre, left as int),
                        decreases st - left,
                    {
                        let m = find_min_from(&self.data, left);
                        let low = self.data[m];
                        let high = self.data[left];
                        self.data.set(m, high);
                        self.data.set(left, low);
                        left = left + 1;
                    }
                    proof {
                        lemma_select_passes_len(pre, s);
                        lemma_select_passes_multiset(pre, s);
                        lemma_select_passes_staged(pre, s);
                    }
                },
            }
            self.step = self.step + 1;
        }
    }
}

/// The relation between a sorter's state before and after one `advance`
/// call: the algorithm never changes, the sequence keeps its length and its
/// multiset of values, below the cap the counter rises by exactly 1 and the
/// sequence becomes the variant's pass result, and at the cap nothing
/// changes.
pub open spec fn advanced_from(pre: StepwiseSorter, post: StepwiseSorter) -> bool {
    &&& post.algorithm == pre.algorithm
    &&& post.data@.len() == pre.data@.len()
    &&& post.data@.to_multiset() == pre.data@.to_multiset()
    &&& pre.step < pre.data.len() ==> {
        &&& post.step == pre.step + 1
        &&& post.data@ == StepwiseSorter::pass_result(pre.algorithm, pre.data@, pre.step as int)
    }
    &&& pre.step >= pre.data.len() ==> post == pre
}

/// One in-place compare-and-swap sweep of `k` comparisons over the vector.
fn sweep_vec(data: &mut Vec<u64>, k: usize)
    requires
        k < old(data).len(),
    ensures
        final(data)@ == sweep(old(data)@, k as int),
        final(data)@.len() == old(data)@.len(),
{
    let ghost pre = data@;
    let mut i: usize = 0;
    while i < k
        invariant
            i <= k,
            k < pre.len(),
            data@.len() == pre.len(),
            data@ == sweep(pre, i as int),
        decreases k - i,
    {
        proof {
            lemma_sweep_len(pre, i as int);
        }
        let left = data[i];
        let right = data[i + 1];
        if left > right {
            data.set(i, right);
            data.set(i + 1, left);
        }
        proof {
            lemma_sweep_len(pre, i + 1);
        }
        i = i + 1;
    }
}

/// Find the index of the first minimum of `data` in the range from `lo` on.
fn find_min_from(data: &Vec<u64>, lo: usize) -> (m: usize)
    requires
        lo < data.len(),
    ensures
        m as int == min_index(data@, lo as int),
        first_min(data@, lo as int, m as int),
{
    let mut m: usize = lo;
    let mut right: usize = lo + 1;
    while right < data.len()
        invariant
            lo <= m < right <= data.len(),
            forall|k: int| lo <= k < right ==> data@[m as int] <= data@[k],
            forall|k: int| lo <= k < m ==> data@[k] > data@[m as int],
        decreases data.len() - right,
    {
        if data[right] < data[m] {
            m = right;
        }
        right = right + 1;
    }
    proof {
        lemma_min_index_first_min(data@, lo as int);
        lemma_first_min_unique(data@, lo as int, m as int, min_index(data@, lo as int));
    }
    m
}

} // verus!
