//! The task model: one dispatchable unit of work, owning outright the
//! unit(s) it operates on while in flight.
//!
//! A task is consumed by execution and exchanged for a new one at the
//! scheduler; there is no task identity beyond its payload.  The view
//! `TaskV` abstracts the owned vectors to sequences so that the
//! scheduler's contracts and laws can speak of tasks mathematically.

use vstd::prelude::*;
use crate::units::{SimulationUnit, BinningUnit, AccumulationUnit, ConversionUnit};
use crate::units::{all_zero, deposit_units, accumulate_units};

verus! {

/// One unit of work, owning the units it references while in flight.
pub enum Task {
    /// Nothing is currently dispatchable: wait briefly and ask again.
    Idle,
    /// Run the light-transport simulation, filling the unit's batch.
    Simulate(SimulationUnit),
    /// Deposit every sample of each source unit into the target.
    Bin(BinningUnit, Vec<SimulationUnit>),
    /// Fold each source's buffer into the target's running sum, then
    /// clear the sources.
    Accumulate(AccumulationUnit, Vec<BinningUnit>),
    /// Produce a display-ready image from the source's running sum.
    Convert(ConversionUnit, AccumulationUnit),
}

/// Mathematical view of a task.
#[verifier::ext_equal]
pub enum TaskV {
    Idle,
    Simulate(SimulationUnit),
    Bin(BinningUnit, Seq<SimulationUnit>),
    Accumulate(AccumulationUnit, Seq<BinningUnit>),
    Convert(ConversionUnit, AccumulationUnit),
}

impl View for Task {
    type V = TaskV;

    open spec fn view(&self) -> TaskV {
        match self {
            Task::Idle => TaskV::Idle,
            Task::Simulate(u) => TaskV::Simulate(*u),
            Task::Bin(b, s) => TaskV::Bin(*b, s@),
            Task::Accumulate(a, s) => TaskV::Accumulate(*a, s@),
            Task::Convert(c, a) => TaskV::Convert(*c, *a),
        }
    }
}

impl Task {
    /// True of the variant that produces an image when executed.
    pub open spec fn spec_is_convert(&self) -> bool {
        self@ is Convert
    }

    /// Executable test for the variant that produces an image.
    #[verifier::when_used_as_spec(spec_is_convert)]
    pub fn is_convert(&self) -> (r: bool)
        ensures
            r == self.spec_is_convert(),
    {
        match self {
            Task::Convert(_, _) => true,
            _ => false,
        }
    }
}

/// The identities of the simulation units a task owns.
pub open spec fn sim_ids(units: Seq<SimulationUnit>) -> Seq<int> {
    units.map_values(|u: SimulationUnit| u.id as int)
}

/// The identities of the binning units a task owns.
pub open spec fn bin_ids(units: Seq<BinningUnit>) -> Seq<int> {
    units.map_values(|u: BinningUnit| u.id as int)
}

/// Simulation-unit identities owned by a task.
pub open spec fn task_sim_ids(t: TaskV) -> Seq<int> {
    match t {
        TaskV::Simulate(u) => seq![u.id as int],
        TaskV::Bin(_, s) => sim_ids(s),
        _ => seq![],
    }
}

/// Binning-unit identities owned by a task.
pub open spec fn task_bin_ids(t: TaskV) -> Seq<int> {
    match t {
        TaskV::Bin(b, _) => seq![b.id as int],
        TaskV::Accumulate(_, s) => bin_ids(s),
        _ => seq![],
    }
}

/// How many simulation units a task owns.
pub open spec fn task_sim_count(t: TaskV) -> nat {
    task_sim_ids(t).len()
}

/// How many binning units a task owns.
pub open spec fn task_bin_count(t: TaskV) -> nat {
    task_bin_ids(t).len()
}

/// How many accumulation units a task owns.
pub open spec fn task_accum_count(t: TaskV) -> nat {
    match t {
        TaskV::Accumulate(_, _) => 1,
        TaskV::Convert(_, _) => 1,
        _ => 0,
    }
}

/// How many conversion units a task owns.
pub open spec fn task_conv_count(t: TaskV) -> nat {
    match t {
        TaskV::Convert(_, _) => 1,
        _ => 0,
    }
}

/// True of a finished task whose consumed inputs have been cleared:
/// a binned simulation batch is empty again, an accumulated binning
/// buffer is all-zero again.
pub open spec fn cleaned(t: TaskV) -> bool {
    match t {
        TaskV::Bin(_, s) => forall|j: int|
            0 <= j < s.len() ==> (#[trigger] s[j]).samples@.len() == 0,
        TaskV::Accumulate(_, s) => forall|j: int|
            0 <= j < s.len() ==> all_zero((#[trigger] s[j]).buffer@),
        _ => true,
    }
}

/// Every sample of every source of a `Bin` task names a cell inside
/// the target's buffer.  The conversion into device space that fills
/// the batches is responsible for this.
pub open spec fn samples_in_range(t: TaskV) -> bool {
    match t {
        TaskV::Bin(b, s) => forall|j: int, i: int|
            0 <= j < s.len() && 0 <= i < s[j].samples@.len() ==> (#[trigger] s[j].samples@[i]).cell
                < b.buffer@.len(),
        _ => true,
    }
}

/// Every source buffer of an `Accumulate` task has the target's
/// length.  Holds of every task the scheduler dispatches, since all
/// long-lived buffers share one length.
pub open spec fn buffers_aligned(t: TaskV) -> bool {
    match t {
        TaskV::Accumulate(a, s) => forall|j: int|
            0 <= j < s.len() ==> (#[trigger] s[j]).buffer@.len() == a.buffer@.len(),
        _ => true,
    }
}

/// Relates a dispatched task to the same task after a worker executed
/// it: identities are kept, buffer lengths are kept, consumed inputs
/// are cleared, and the data stages change buffers exactly as the
/// verified buffer work describes.  A `Simulate` batch is refilled
/// with whatever the stochastic simulation produced.
pub open spec fn completes(pre: TaskV, post: TaskV) -> bool {
    match (pre, post) {
        (TaskV::Idle, TaskV::Idle) => true,
        (TaskV::Simulate(u), TaskV::Simulate(u2)) => u2.id == u.id,
        (TaskV::Bin(b, s), TaskV::Bin(b2, s2)) => {
            &&& b2.id == b.id
            &&& b2.buffer@ == deposit_units(b.buffer@, s)
            &&& b2.buffer@.len() == b.buffer@.len()
            &&& s2.len() == s.len()
            &&& forall|j: int|
                0 <= j < s.len() ==> (#[trigger] s2[j]).id == s[j].id && s2[j].samples@.len() == 0
        },
        (TaskV::Accumulate(a, s), TaskV::Accumulate(a2, s2)) => {
            &&& a2.id == a.id
            &&& a2.buffer@ == accumulate_units(a.buffer@, s)
            &&& a2.buffer@.len() == a.buffer@.len()
            &&& s2.len() == s.len()
            &&& forall|j: int|
                0 <= j < s.len() ==> (#[trigger] s2[j]).id == s[j].id && s2[j].buffer@.len()
                    == s[j].buffer@.len() && all_zero(s2[j].buffer@)
        },
        (TaskV::Convert(c, a), TaskV::Convert(c2, a2)) => c2 == c && a2 == a,
        _ => false,
    }
}

} // verus!
