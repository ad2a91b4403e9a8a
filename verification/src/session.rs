//! The visualizer session: three sorters over one shared initial dataset,
//! advanced together on each tick, read through immutable snapshots, and
//! stopped by the input boundary through a single running flag.

use vstd::prelude::*;

use crate::sorter::advanced_from;
use crate::sorter::Algorithm;
use crate::sorter::StepwiseSorter;

verus! {

/// The fixed initial dataset every sorter of a session starts from.
pub open spec fn initial_data() -> Seq<u64> {
    seq![8u64, 3u64, 7u64, 1u64, 6u64, 2u64, 5u64, 9u64, 4u64]
}

impl Algorithm {
    /// The chart label of this variant.
    pub open spec fn label_spec(self) -> Seq<char> {
        match self {
            Algorithm::Insertion => "Insertion"@,
            Algorithm::Bubble => "Bubble"@,
            Algorithm::Selection => "Selection"@,
        }
    }

    /// The chart label of this variant, for the render boundary.
    pub fn label(&self) -> (r: String)
        ensures
            r@ == self.label_spec(),
    {
        broadcast use vstd::string::to_string_from_display_ensures_for_str;

        match self {
            Algorithm::Insertion => "Insertion".to_string(),
            Algorithm::Bubble => "Bubble".to_string(),
            Algorithm::Selection => "Selection".to_string(),
        }
    }
}

/// An immutable read of one sorter, taken per rendered frame: the variant
/// (whose label titles the chart), a copy of the sequence, and the step
/// count.
pub struct Snapshot {
    /// The variant the snapshot was taken from.
    pub algorithm: Algorithm,
    /// A copy of the sorter's sequence at the time of the snapshot.
    pub data: Vec<u64>,
    /// The sorter's step count at the time of the snapshot.
    pub step: usize,
}

/// The application state: one sorter per algorithm variant, all started
/// from the same dataset so their progress is visually comparable, and the
/// running flag the control loop reads.
pub struct App {
    /// Cleared by `stop`; the control loop exits once this is false.
    pub running: bool,
    /// The sorter animated under the `Insertion` label.
    pub insertion: StepwiseSorter,
    /// The sorter animated under the `Bubble` label.
    pub bubble: StepwiseSorter,
    /// The sorter animated under the `Selection` label.
    pub selection: StepwiseSorter,
}

impl App {
    /// The structural invariant: each sorter is well formed and carries the
    /// variant it is animated under.
    pub open spec fn wf(&self) -> bool {
        &&& self.insertion.wf()
        &&& self.insertion.algorithm == Algorithm::Insertion
        &&& self.bubble.wf()
        &&& self.bubble.algorithm == Algorithm::Bubble
        &&& self.selection.wf()
        &&& self.selection.algorithm == Algorithm::Selection
    }

    /// A session at its initial state: running, every sorter at step 0 over
    /// the shared initial dataset.
    pub open spec fn initial(self) -> bool {
        &&& self.running
        &&& self.insertion.step == 0 && self.insertion.data@ == initial_data()
        &&& self.bubble.step == 0 && self.bubble.data@ == initial_data()
        &&& self.selection.step == 0 && self.selection.data@ == initial_data()
    }

    /// Construct a session over the fixed initial dataset.
    pub fn new() -> (app: App)
        ensures
            app.wf(),
            app.initial(),
    {
        App::default()
    }

    /// Advance the `Insertion` sorter by one pass.
    pub fn sort_insertion(&mut self)
        requires
            old(self).wf(),
        ensures
            final(self).wf(),
            advanced_from(old(self).insertion, final(self).insertion),
            final(self).bubble == old(self).bubble,
            final(self).selection == old(self).selection,
            final(self).running == old(self).running,
    {
        self.insertion.advance();
    }

    /// Advance the `Bubble` sorter by one pass.
    pub fn sort_bubble(&mut self)
        requires
            old(self).wf(),
        ensures
            final(self).wf(),
            advanced_from(old(self).bubble, final(self).bubble),
            final(self).insertion == old(self).insertion,
            final(self).selection == old(self).selection,
            final(self).running == old(self).running,
    {
        self.bubble.advance();
    }

    /// Advance the `Selection` sorter by one pass.
    pub fn sort_selection(&mut self)
        requires
            old(self).wf(),
        ensures
            final(self).wf(),
            advanced_from(old(self).selection, final(self).selection),
            final(self).insertion == old(self).insertion,
            final(self).bubble == old(self).bubble,
            final(self).running == old(self).running,
    {
        self.selection.advance();
    }

    /// Handle one tick: advance every sorter by one pass, in the fixed
    /// display order.
    pub fn tick(&mut self)
        requires
            old(self).wf(),
        ensures
            final(self).wf(),
            advanced_from(old(self).insertion, final(self).insertion),
            advanced_from(old(self).bubble, final(self).bubble),
            advanced_from(old(self).selection, final(self).selection),
            final(self).running == old(self).running,
    {
        self.sort_insertion();
        self.sort_bubble();
        self.sort_selection();
    }

    /// Request termination: clear the running flag.  No operation of a
    /// session sets the flag back to true, so the effect is permanent.
    pub fn stop(&mut self)
        ensures
            !final(self).running,
            final(self).insertion == old(self).insertion,
            final(self).bubble == old(self).bubble,
            final(self).selection == old(self).selection,
    {
        self.running = false;
    }

    /// Whether the session is still running.
    pub fn is_running(&self) -> (r: bool)
        ensures
            r == self.running,
    {
        self.running
    }

    /// An immutable read of the sorter animated under the given variant.
    pub fn snapshot(&self, which: Algorithm) -> (snap: Snapshot)
        requires
            self.wf(),
        ensures
            snap.algorithm == which,
            snap.data@ == self.sorter_of(which).data@,
            snap.step == self.sorter_of(which).step,
    {
        let sorter = match which {
            Algorithm::Insertion => &self.insertion,
            Algorithm::Bubble => &self.bubble,
            Algorithm::Selection => &self.selection,
        };
        Snapshot { algorithm: which, data: copy_values(&sorter.data), step: sorter.step }
    }

    /// The sorter animated under the given variant.
    pub open spec fn sorter_of(self, which: Algorithm) -> StepwiseSorter {
        match which {
            Algorithm::Insertion => self.insertion,
            Algorithm::Bubble => self.bubble,
            Algorithm::Selection => self.selection,
        }
    }

    /// Snapshots of all sorters, in the fixed display order.
    pub fn snapshot_all(&self) -> (snaps: Vec<Snapshot>)
        requires
            self.wf(),
        ensures
            snaps.len() == 3,
            snaps[0].algorithm == Algorithm::Insertion,
            snaps[1].algorithm == Algorithm::Bubble,
            snaps[2].algorithm == Algorithm::Selection,
            forall|i: int|
                0 <= i < 3 ==> #[trigger] snaps[i].data@ == self.sorter_of(
                    snaps[i].algorithm,
                ).data@ && snaps[i].step == self.sorter_of(snaps[i].algorithm).step,
    {
        let mut snaps: Vec<Snapshot> = Vec::new();
        snaps.push(self.snapshot(Algorithm::Insertion));
        snaps.push(self.snapshot(Algorithm::Bubble));
        snaps.push(self.snapshot(Algorithm::Selection));
        snaps
    }
}

impl Default for App {
    /// A session over the fixed initial dataset, running, every sorter at
    /// step 0.
    fn default() -> (app: App)
        ensures
            app.wf(),
            app.initial(),
    {
        App {
            running: true,
            insertion: StepwiseSorter::new(Algorithm::Insertion, initial_values()),
            bubble: StepwiseSorter::new(Algorithm::Bubble, initial_values()),
            selection: StepwiseSorter::new(Algorithm::Selection, initial_values()),
        }
    }
}

/// Build one copy of the fixed initial dataset.
fn initial_values() -> (v: Vec<u64>)
    ensures
        v@ == initial_data(),
{
    let mut v: Vec<u64> = Vec::new();
    v.push(8);
    v.push(3);
    v.push(7);
    v.push(1);
    v.push(6);
    v.push(2);
    v.push(5);
    v.push(9);
    v.push(4);
    proof {
        assert(v@ =~= initial_data());
    }
    v
}

/// Copy a vector of values element by element.
fn copy_values(data: &Vec<u64>) -> (out: Vec<u64>)
    ensures
        out@ == data@,
{
    let mut out: Vec<u64> = Vec::new();
    let mut i: usize = 0;
    while i < data.len()
        invariant
            i <= data.len(),
            out@ == data@.subrange(0, i as int),
        decreases data.len() - i,
    {
        out.push(data[i]);
        proof {
            assert(out@ =~= data@.subrange(0, i + 1));
        }
        i = i + 1;
    }
    proof {
        assert(out@ =~= data@);
    }
    out
}

} // verus!
