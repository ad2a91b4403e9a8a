//! The guarantees of the stepwise sorters, stated over a run model.
//!
//! `run_data` and `run_step` give the exact state of a sorter after any
//! number of `advance` calls from a fresh start; `lemma_advance_matches_run`
//! ties one `advance` call to that model, so the laws proved here hold of
//! the executable sorters by induction over the calls.

use vstd::prelude::*;

use crate::passes::bubble_staged;
use crate::passes::lemma_bubble_staged_sorted;
use crate::passes::lemma_redo_sweeps_len;
use crate::passes::lemma_redo_sweeps_multiset;
use crate::passes::lemma_redo_sweeps_staged;
use crate::passes::lemma_select_passes_len;
use crate::passes::lemma_select_passes_multiset;
use crate::passes::lemma_select_passes_staged;
use crate::passes::lemma_selection_staged_sorted;
use crate::passes::lemma_sweep_advances_stage;
use crate::passes::lemma_sweep_len;
use crate::passes::lemma_sweep_multiset;
use crate::passes::selection_staged;
use crate::passes::sorted;
use crate::sorter::advanced_from;
use crate::sorter::Algorithm;
use crate::sorter::StepwiseSorter;

verus! {

/// The sequence held by a sorter of the given variant after `n` `advance`
/// calls from step 0 over `init`.
pub open spec fn run_data(algorithm: Algorithm, init: Seq<u64>, n: int) -> Seq<u64>
    recommends
        n >= 0,
    decreases n,
{
    if n <= 0 {
        init
    } else {
        let prev = run_data(algorithm, init, n - 1);
        if n - 1 < init.len() {
            StepwiseSorter::pass_result(algorithm, prev, n - 1)
        } else {
            prev
        }
    }
}

/// The step counter after `n` `advance` calls from step 0 over `init`: it
/// matches the number of calls until it caps at the length.
pub open spec fn run_step(init: Seq<u64>, n: int) -> int
    recommends
        n >= 0,
{
    if n <= init.len() {
        n
    } else {
        init.len() as int
    }
}

/// A run never changes the length of the sequence.
pub proof fn lemma_run_len(algorithm: Algorithm, init: Seq<u64>, n: int)
    requires
        n >= 0,
    ensures
        run_data(algorithm, init, n).len() == init.len(),
    decreases n,
{
    if n > 0 {
        lemma_run_len(algorithm, init, n - 1);
        let prev = run_data(algorithm, init, n - 1);
        if n - 1 < init.len() {
            match algorithm {
                Algorithm::Insertion => lemma_sweep_len(prev, prev.len() - (n - 1) - 1),
                Algorithm::Bubble => lemma_redo_sweeps_len(prev, n - 1),
                Algorithm::Selection => lemma_select_passes_len(prev, n - 1),
            }
        }
    }
}

/// One `advance` call takes a sorter whose state matches the run model at
/// `n` calls to the state the model gives at `n + 1` calls: the model
/// describes the executable sorters exactly.
pub proof fn lemma_advance_matches_run(
    algorithm: Algorithm,
    init: Seq<u64>,
    n: int,
    pre: StepwiseSorter,
    post: StepwiseSorter,
)
    requires
        n >= 0,
        advanced_from(pre, post),
        pre.algorithm == algorithm,
        pre.data@ == run_data(algorithm, init, n),
        pre.step == run_step(init, n),
    ensures
        post.data@ == run_data(algorithm, init, n + 1),
        post.step == run_step(init, n + 1),
{
    lemma_run_len(algorithm, init, n);
}

/// Permutation invariant: however many `advance` calls a sorter has seen,
/// its sequence is a permutation of the initial one — no value is created,
/// destroyed or duplicated.
pub proof fn lemma_permutation(algorithm: Algorithm, init: Seq<u64>, n: int)
    requires
        n >= 0,
    ensures
        run_data(algorithm, init, n).to_multiset() == init.to_multiset(),
    decreases n,
{
    if n > 0 {
        lemma_permutation(algorithm, init, n - 1);
        lemma_run_len(algorithm, init, n - 1);
        let prev = run_data(algorithm, init, n - 1);
        if n - 1 < init.len() {
            match algorithm {
                Algorithm::Insertion => lemma_sweep_multiset(prev, prev.len() - (n - 1) - 1),
                Algorithm::Bubble => lemma_redo_sweeps_multiset(prev, n - 1),
                Algorithm::Selection => lemma_select_passes_multiset(prev, n - 1),
            }
        }
    }
}

/// Monotone progress: the step counter never decreases, rises by exactly 1
/// per call while below the length, and stays put once it has reached it.
pub proof fn lemma_monotone_progress(init: Seq<u64>, n: int)
    requires
        n >= 0,
    ensures
        run_step(init, n) <= run_step(init, n + 1) <= run_step(init, n) + 1,
        run_step(init, n) < init.len() ==> run_step(init, n + 1) == run_step(init, n) + 1,
        run_step(init, n) == init.len() ==> run_step(init, n + 1) == run_step(init, n),
{
}

/// The staging each variant maintains across a whole run: the incremental
/// bubble variant is staged at the step counter; the redo variants, which
/// rebuild their staging during each call, are staged one behind it.
pub proof fn lemma_run_staged(algorithm: Algorithm, init: Seq<u64>, n: int)
    requires
        n >= 0,
    ensures
        algorithm == Algorithm::Insertion ==> bubble_staged(
            run_data(algorithm, init, n),
            run_step(init, n),
        ),
        algorithm == Algorithm::Bubble && n >= 1 ==> bubble_staged(
            run_data(algorithm, init, n),
            run_step(init, n) - 1,
        ),
        algorithm == Algorithm::Selection && n >= 1 ==> selection_staged(
            run_data(algorithm, init, n),
            run_step(init, n) - 1,
        ),
    decreases n,
{
    if n > 0 {
        lemma_run_staged(algorithm, init, n - 1);
        lemma_run_len(algorithm, init, n - 1);
        let prev = run_data(algorithm, init, n - 1);
        if n - 1 < init.len() {
            match algorithm {
                Algorithm::Insertion => lemma_sweep_advances_stage(prev, n - 1),
                Algorithm::Bubble => lemma_redo_sweeps_staged(prev, n - 1),
                Algorithm::Selection => lemma_select_passes_staged(prev, n - 1),
            }
        }
    }
}

/// Partial correctness of the incremental bubble variant: after any number
/// of calls, the last `step` elements are the `step` largest values of the
/// sequence, already in their final ascending positions.
pub proof fn lemma_bubble_partial(init: Seq<u64>, n: int)
    requires
        n >= 0,
    ensures
        bubble_staged(run_data(Algorithm::Insertion, init, n), run_step(init, n)),
{
    lemma_run_staged(Algorithm::Insertion, init, n);
}

/// Partial correctness of the selection variant: after any number of calls,
/// the first `step - 1` positions hold the smallest values of the sequence
/// in ascending order.  The staging is one behind the step counter because
/// the call numbered `s` performs `s` placements; the very first call
/// places nothing, so nothing is staged at that point.
pub proof fn lemma_selection_partial(init: Seq<u64>, n: int)
    requires
        n >= 1,
    ensures
        selection_staged(run_data(Algorithm::Selection, init, n), run_step(init, n) - 1),
{
    lemma_run_staged(Algorithm::Selection, init, n);
}

/// Past the cap, further calls change nothing.
pub proof fn lemma_run_stable(algorithm: Algorithm, init: Seq<u64>, n: int)
    requires
        n >= init.len(),
    ensures
        run_data(algorithm, init, n) == run_data(algorithm, init, init.len() as int),
        run_step(init, n) == init.len(),
    decreases n,
{
    if n > init.len() {
        lemma_run_stable(algorithm, init, n - 1);
    }
}

/// Termination: `init.len()` calls drive the step counter to the length and
/// leave the sequence fully sorted, whichever the variant; every further
/// call is a no-op on both the sequence and the counter.
pub proof fn lemma_termination(algorithm: Algorithm, init: Seq<u64>, n: int)
    requires
        n >= init.len(),
    ensures
        run_step(init, n) == init.len(),
        sorted(run_data(algorithm, init, n)),
        run_data(algorithm, init, n) == run_data(algorithm, init, init.len() as int),
{
    lemma_run_stable(algorithm, init, n);
    lemma_run_staged(algorithm, init, n);
    let data = run_data(algorithm, init, n);
    lemma_run_len(algorithm, init, n);
    match algorithm {
        Algorithm::Insertion => lemma_bubble_staged_sorted(data, run_step(init, n)),
        Algorithm::Bubble => {
            if init.len() >= 1 {
                lemma_bubble_staged_sorted(data, run_step(init, n) - 1);
            }
        },
        Algorithm::Selection => {
            if init.len() >= 1 {
                lemma_selection_staged_sorted(data, run_step(init, n) - 1);
            }
        },
    }
}

/// Determinism: two sorters of the same variant built over identical
/// initial sequences and driven by the same number of calls hold identical
/// sequences and counters — the state after `n` calls is a function of the
/// variant and the initial sequence alone.
pub proof fn lemma_deterministic(algorithm: Algorithm, init1: Seq<u64>, init2: Seq<u64>, n: int)
    requires
        init1 == init2,
        n >= 0,
    ensures
        run_data(algorithm, init1, n) == run_data(algorithm, init2, n),
        run_step(init1, n) == run_step(init2, n),
{
}

} // verus!
