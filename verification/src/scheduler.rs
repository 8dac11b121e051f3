//! The scheduler: owns the pools of idle units and decides, given a
//! just-completed task, which task to hand out next.
//!
//! All pool bookkeeping is mutual-exclusion territory; the one public
//! operation, [`Scheduler::complete_and_get_next`], first folds the
//! finished task's units back into the pools and then dispatches the
//! next task under a fixed, downstream-first priority: convert before
//! accumulate before bin before simulate, so that finishing images and
//! freeing capacity takes precedence over generating more raw samples.
//! The contract pins the whole exchange down as a pure function of the
//! scheduler's abstract state, [`Pools`]; the laws the scheduler obeys
//! are proved from it in [`crate::laws`].

use vstd::prelude::*;
use crate::units::{SimulationUnit, BinningUnit, AccumulationUnit, ConversionUnit};
use crate::units::{all_zero, new_buffer};
use crate::task::{Task, TaskV, task_sim_ids, task_bin_ids, task_accum_count, task_conv_count};
use crate::task::{sim_ids, bin_ids, cleaned};

verus! {

/// Abstract snapshot of the scheduler: the idle units of each kind,
/// split by whether they hold pending data, whether the running sum
/// holds unconverted contributions, and the fixed capacities decided
/// at construction.
#[verifier::ext_equal]
pub struct Pools {
    /// Simulation units with no unconsumed samples.
    pub empty_sim: Seq<SimulationUnit>,
    /// Simulation units holding samples not yet binned.
    pub done_sim: Seq<SimulationUnit>,
    /// Binning units with all-zero buffers.
    pub empty_bin: Seq<BinningUnit>,
    /// Binning units holding samples not yet accumulated.
    pub done_bin: Seq<BinningUnit>,
    /// The accumulation unit, when idle.
    pub accum: Option<AccumulationUnit>,
    /// The conversion unit, when idle.
    pub conv: Option<ConversionUnit>,
    /// Whether the running sum holds contributions that no `Convert`
    /// has picked up yet.
    pub accum_pending: bool,
    /// Total number of simulation units in the system.
    pub sim_capacity: nat,
    /// Total number of binning units in the system.
    pub bin_capacity: nat,
    /// Length every binning and accumulation buffer keeps for life.
    pub buffer_len: nat,
}

impl Pools {
    /// How many simulation units are idle, filled or not.
    pub open spec fn idle_sim_count(self) -> nat {
        self.empty_sim.len() + self.done_sim.len()
    }

    /// How many binning units are idle, filled or not.
    pub open spec fn idle_bin_count(self) -> nat {
        self.empty_bin.len() + self.done_bin.len()
    }

    /// How many accumulation units are idle.
    pub open spec fn idle_accum_count(self) -> nat {
        if self.accum is Some {
            1
        } else {
            0
        }
    }

    /// How many conversion units are idle.
    pub open spec fn idle_conv_count(self) -> nat {
        if self.conv is Some {
            1
        } else {
            0
        }
    }

    /// Identities of all idle simulation units.
    pub open spec fn pool_sim_ids(self) -> Seq<int> {
        sim_ids(self.empty_sim) + sim_ids(self.done_sim)
    }

    /// Identities of all idle binning units.
    pub open spec fn pool_bin_ids(self) -> Seq<int> {
        bin_ids(self.empty_bin) + bin_ids(self.done_bin)
    }

    /// The pools' own invariant: identities are distinct and within
    /// capacity, recycled units are clean, and every long-lived buffer
    /// keeps its fixed length.
    pub open spec fn wf(self) -> bool {
        &&& self.pool_sim_ids().no_duplicates()
        &&& forall|x: int| self.pool_sim_ids().contains(x) ==> 0 <= x < self.sim_capacity
        &&& self.pool_bin_ids().no_duplicates()
        &&& forall|x: int| self.pool_bin_ids().contains(x) ==> 0 <= x < self.bin_capacity
        &&& forall|i: int|
            0 <= i < self.empty_sim.len() ==> (#[trigger] self.empty_sim[i]).samples@.len() == 0
        &&& forall|i: int|
            0 <= i < self.empty_bin.len() ==> all_zero((#[trigger] self.empty_bin[i]).buffer@)
                && self.empty_bin[i].buffer@.len() == self.buffer_len
        &&& forall|i: int|
            0 <= i < self.done_bin.len() ==> (#[trigger] self.done_bin[i]).buffer@.len()
                == self.buffer_len
        &&& self.accum is Some ==> self.accum.unwrap().buffer@.len() == self.buffer_len
    }

    /// True of a task whose units can coexist with the pools: its
    /// identities are distinct, within capacity and disjoint from
    /// every idle unit's, and its buffers have the fixed length.  Both
    /// a task this scheduler just dispatched and the same task after
    /// execution fit, since execution keeps identities and lengths.
    pub open spec fn fits(self, t: TaskV) -> bool {
        &&& task_sim_ids(t).no_duplicates()
        &&& forall|x: int|
            task_sim_ids(t).contains(x) ==> 0 <= x < self.sim_capacity
                && !self.pool_sim_ids().contains(x)
        &&& task_bin_ids(t).no_duplicates()
        &&& forall|x: int|
            task_bin_ids(t).contains(x) ==> 0 <= x < self.bin_capacity
                && !self.pool_bin_ids().contains(x)
        &&& task_accum_count(t) + self.idle_accum_count() <= 1
        &&& task_conv_count(t) + self.idle_conv_count() <= 1
        &&& match t {
            TaskV::Bin(b, _) => b.buffer@.len() == self.buffer_len,
            TaskV::Accumulate(a, s) => a.buffer@.len() == self.buffer_len && forall|j: int|
                0 <= j < s.len() ==> (#[trigger] s[j]).buffer@.len() == self.buffer_len,
            TaskV::Convert(_, a) => a.buffer@.len() == self.buffer_len,
            _ => true,
        }
    }

    /// What the scheduler accepts as a completion report: a fitting
    /// task whose consumed inputs were cleared by execution.
    pub open spec fn accepts(self, t: TaskV) -> bool {
        self.fits(t) && cleaned(t)
    }

    /// The pools after a finished task's units have been folded back:
    /// a simulated unit is ready to bin, binned sources are clean and
    /// reusable, a freshly binned target is ready to accumulate,
    /// accumulated sources are clean and reusable, and an `Accumulate`
    /// marks the running sum as holding unconverted contributions.
    pub open spec fn integrate(self, t: TaskV) -> Pools {
        match t {
            TaskV::Idle => self,
            TaskV::Simulate(u) => Pools { done_sim: self.done_sim.push(u), ..self },
            TaskV::Bin(b, s) => Pools {
                empty_sim: self.empty_sim + s,
                done_bin: self.done_bin.push(b),
                ..self
            },
            TaskV::Accumulate(a, s) => Pools {
                empty_bin: self.empty_bin + s,
                accum: Some(a),
                accum_pending: true,
                ..self
            },
            TaskV::Convert(c, a) => Pools { conv: Some(c), accum: Some(a), ..self },
        }
    }

    /// Bin only once this many simulation units are ready, so a
    /// binning pass amortises over a worthwhile batch.
    pub open spec fn bin_batch_threshold(self) -> nat {
        if self.sim_capacity / 2 >= 1 {
            self.sim_capacity / 2
        } else {
            1
        }
    }

    /// The conversion unit is idle and the running sum holds
    /// contributions no image shows yet.
    pub open spec fn convert_ready(self) -> bool {
        self.conv is Some && self.accum is Some && self.accum_pending
    }

    /// The accumulation unit is idle and at least one binning unit
    /// holds samples ready to fold in.
    pub open spec fn accumulate_ready(self) -> bool {
        self.accum is Some && self.done_bin.len() > 0
    }

    /// A binning unit is idle and a worthwhile batch of simulation
    /// units is ready.
    pub open spec fn bin_ready(self) -> bool {
        self.empty_bin.len() > 0 && self.done_sim.len() >= self.bin_batch_threshold()
    }

    /// A simulation unit is idle and empty.
    pub open spec fn simulate_ready(self) -> bool {
        self.empty_sim.len() > 0
    }

    /// The task dispatched from this snapshot, under the fixed
    /// downstream-first priority.  `Accumulate` and `Bin` batch every
    /// currently ready source unit.
    pub open spec fn next_task(self) -> TaskV {
        if self.convert_ready() {
            TaskV::Convert(self.conv.unwrap(), self.accum.unwrap())
        } else if self.accumulate_ready() {
            TaskV::Accumulate(self.accum.unwrap(), self.done_bin)
        } else if self.bin_ready() {
            TaskV::Bin(self.empty_bin.last(), self.done_sim)
        } else if self.simulate_ready() {
            TaskV::Simulate(self.empty_sim.last())
        } else {
            TaskV::Idle
        }
    }

    /// The pools after the dispatched task's units have left.
    pub open spec fn after_dispatch(self) -> Pools {
        if self.convert_ready() {
            Pools { conv: None, accum: None, accum_pending: false, ..self }
        } else if self.accumulate_ready() {
            Pools { accum: None, done_bin: Seq::empty(), ..self }
        } else if self.bin_ready() {
            Pools { empty_bin: self.empty_bin.drop_last(), done_sim: Seq::empty(), ..self }
        } else if self.simulate_ready() {
            Pools { empty_sim: self.empty_sim.drop_last(), ..self }
        } else {
            self
        }
    }

    /// The pools after one whole exchange: integrate, then dispatch.
    pub open spec fn step_state(self, t: TaskV) -> Pools {
        self.integrate(t).after_dispatch()
    }

    /// The task handed out by one whole exchange.
    pub open spec fn step_task(self, t: TaskV) -> TaskV {
        self.integrate(t).next_task()
    }
}

/// Owns the pools of idle units.  The single point of mutual
/// exclusion: an embedding puts one `Scheduler` behind a lock and
/// every worker exchanges tasks through it.
pub struct Scheduler {
    empty_simulation_units: Vec<SimulationUnit>,
    done_simulation_units: Vec<SimulationUnit>,
    empty_binning_units: Vec<BinningUnit>,
    done_binning_units: Vec<BinningUnit>,
    accumulation_unit: Option<AccumulationUnit>,
    conversion_unit: Option<ConversionUnit>,
    accumulation_pending: bool,
    simulation_capacity: usize,
    binning_capacity: usize,
    buffer_length: usize,
}

impl View for Scheduler {
    type V = Pools;

    closed spec fn view(&self) -> Pools {
        Pools {
            empty_sim: self.empty_simulation_units@,
            done_sim: self.done_simulation_units@,
            empty_bin: self.empty_binning_units@,
            done_bin: self.done_binning_units@,
            accum: self.accumulation_unit,
            conv: self.conversion_unit,
            accum_pending: self.accumulation_pending,
            sim_capacity: self.simulation_capacity as nat,
            bin_capacity: self.binning_capacity as nat,
            buffer_len: self.buffer_length as nat,
        }
    }
}

/// Move the unit out of an idle slot, leaving the slot empty.
fn take_slot<T>(slot: &mut Option<T>) -> (r: Option<T>)
    ensures
        r == *old(slot),
        *final(slot) is None,
{
    let mut tmp: Option<T> = None;
    core::mem::swap(slot, &mut tmp);
    tmp
}

impl Scheduler {
    /// Allocate every unit the pipeline will ever use: `sim_cap`
    /// simulation units, `bin_cap` binning units, one accumulation
    /// unit and one conversion unit, every buffer sized for a `width`
    /// by `height` image with three channels, and all units idle and
    /// clean.
    pub fn with_capacities(sim_cap: usize, bin_cap: usize, width: usize, height: usize) -> (s:
        Scheduler)
        requires
            width * height * 3 <= usize::MAX,
        ensures
            s@.wf(),
            s@.sim_capacity == sim_cap,
            s@.bin_capacity == bin_cap,
            s@.buffer_len == width * height * 3,
            s@.empty_sim.len() == sim_cap,
            s@.done_sim.len() == 0,
            s@.empty_bin.len() == bin_cap,
            s@.done_bin.len() == 0,
            s@.accum is Some,
            s@.conv is Some,
            !s@.accum_pending,
    {
        let buffer_length = width * height * 3;
        let mut sims: Vec<SimulationUnit> = Vec::new();
        let mut i: usize = 0;
        while i < sim_cap
            invariant
                0 <= i <= sim_cap,
                sims@.len() == i,
                forall|k: int|
                    0 <= k < i ==> (#[trigger] sims@[k]).id == k && sims@[k].samples@.len() == 0,
            decreases sim_cap - i,
        {
            sims.push(SimulationUnit { id: i, samples: Vec::new() });
            i = i + 1;
        }
        let mut bins: Vec<BinningUnit> = Vec::new();
        let mut j: usize = 0;
        while j < bin_cap
            invariant
                0 <= j <= bin_cap,
                bins@.len() == j,
                forall|k: int|
                    0 <= k < j ==> (#[trigger] bins@[k]).id == k && all_zero(bins@[k].buffer@)
                        && bins@[k].buffer@.len() == buffer_length,
            decreases bin_cap - j,
        {
            bins.push(BinningUnit { id: j, buffer: new_buffer(buffer_length) });
            j = j + 1;
        }
        let s = Scheduler {
            empty_simulation_units: sims,
            done_simulation_units: Vec::new(),
            empty_binning_units: bins,
            done_binning_units: Vec::new(),
            accumulation_unit: Some(AccumulationUnit { id: 0, buffer: new_buffer(buffer_length) }),
            conversion_unit: Some(ConversionUnit { id: 0 }),
            accumulation_pending: false,
            simulation_capacity: sim_cap,
            binning_capacity: bin_cap,
            buffer_length,
        };
        proof {
            let p = s@;
            assert(sim_ids(p.done_sim) =~= Seq::<int>::empty());
            assert(bin_ids(p.done_bin) =~= Seq::<int>::empty());
            assert(p.pool_sim_ids() =~= sim_ids(p.empty_sim));
            assert(p.pool_bin_ids() =~= bin_ids(p.empty_bin));
            assert forall|x: int| p.pool_sim_ids().contains(x) implies 0 <= x < p.sim_capacity by {
                let k = choose|k: int| 0 <= k < p.pool_sim_ids().len() && p.pool_sim_ids()[k] == x;
                assert(p.empty_sim[k].id == k);
            }
            assert forall|x: int| p.pool_bin_ids().contains(x) implies 0 <= x < p.bin_capacity by {
                let k = choose|k: int| 0 <= k < p.pool_bin_ids().len() && p.pool_bin_ids()[k] == x;
                assert(p.empty_bin[k].id == k);
            }
        }
        s
    }

    /// One simulation lane and one binning lane per worker, plus a
    /// second set of simulation units so binning can batch while other
    /// lanes keep simulating; a single accumulation and conversion
    /// unit arbitrate the downstream stages.
    pub fn new(concurrency: usize, width: usize, height: usize) -> (s: Scheduler)
        requires
            1 <= concurrency,
            concurrency * 2 <= usize::MAX,
            width * height * 3 <= usize::MAX,
        ensures
            s@.wf(),
            s@.sim_capacity == concurrency * 2,
            s@.bin_capacity == concurrency,
            s@.buffer_len == width * height * 3,
            s@.empty_sim.len() == concurrency * 2,
            s@.done_sim.len() == 0,
            s@.empty_bin.len() == concurrency,
            s@.done_bin.len() == 0,
            s@.accum is Some,
            s@.conv is Some,
            !s@.accum_pending,
    {
        Scheduler::with_capacities(concurrency * 2, concurrency, width, height)
    }

    /// Number of idle simulation units with no unconsumed samples.
    pub fn empty_simulation_count(&self) -> (n: usize)
        ensures
            n == self@.empty_sim.len(),
    {
        self.empty_simulation_units.len()
    }

    /// Number of idle simulation units holding samples to bin.
    pub fn ready_simulation_count(&self) -> (n: usize)
        ensures
            n == self@.done_sim.len(),
    {
        self.done_simulation_units.len()
    }

    /// Number of idle binning units with all-zero buffers.
    pub fn empty_binning_count(&self) -> (n: usize)
        ensures
            n == self@.empty_bin.len(),
    {
        self.empty_binning_units.len()
    }

    /// Number of idle binning units holding samples to accumulate.
    pub fn ready_binning_count(&self) -> (n: usize)
        ensures
            n == self@.done_bin.len(),
    {
        self.done_binning_units.len()
    }

    /// Whether the accumulation unit is idle.
    pub fn accumulation_idle(&self) -> (r: bool)
        ensures
            r == (self@.accum is Some),
    {
        self.accumulation_unit.is_some()
    }

    /// Whether the conversion unit is idle.
    pub fn conversion_idle(&self) -> (r: bool)
        ensures
            r == (self@.conv is Some),
    {
        self.conversion_unit.is_some()
    }

    /// Whether the running sum holds contributions not yet converted.
    pub fn has_unconverted_contributions(&self) -> (r: bool)
        ensures
            r == self@.accum_pending,
    {
        self.accumulation_pending
    }

    /// The batch size the binning stage waits for.
    pub fn bin_batch_threshold(&self) -> (t: usize)
        ensures
            t == self@.bin_batch_threshold(),
    {
        let half = self.simulation_capacity / 2;
        if half >= 1 {
            half
        } else {
            1
        }
    }

    /// The one scheduler operation.  Folds the finished task's units
    /// back into the idle pools, then dispatches the next task under
    /// the downstream-first priority, transferring ownership of the
    /// dispatched units to the caller.  Never blocks: when nothing is
    /// dispatchable it returns `Task::Idle` as a back-pressure signal.
    ///
    /// The whole exchange is the pure function `step_state` /
    /// `step_task` of the abstract pools; every law in [`crate::laws`]
    /// follows from that.  Reports that would break the pools'
    /// invariant — a unit the scheduler already holds, an overfull
    /// pool, an uncleared source — are outside the contract, as such a
    /// state is an unrecoverable programming error.
    /// Fold a finished task's units back into the idle pools without
    /// dispatching: the shutdown path, where workers still return
    /// what they hold but no new work goes out.
    pub fn complete(&mut self, finished: Task)
        requires
            old(self)@.wf(),
            old(self)@.accepts(finished@),
        ensures
            final(self)@ == old(self)@.integrate(finished@),
    {
        let ghost fv = finished@;
        match finished {
            Task::Idle => {},
            Task::Simulate(u) => {
                self.done_simulation_units.push(u);
            },
            Task::Bin(b, mut bin_sources) => {
                self.empty_simulation_units.append(&mut bin_sources);
                self.done_binning_units.push(b);
            },
            Task::Accumulate(a, mut accum_sources) => {
                self.empty_binning_units.append(&mut accum_sources);
                self.accumulation_unit = Some(a);
                self.accumulation_pending = true;
            },
            Task::Convert(c, a) => {
                self.conversion_unit = Some(c);
                self.accumulation_unit = Some(a);
            },
        }
        proof {
            assert(self@ =~~= old(self)@.integrate(fv));
        }
    }

    pub fn complete_and_get_next(&mut self, finished: Task) -> (next: Task)
        requires
            old(self)@.wf(),
            old(self)@.accepts(finished@),
        ensures
            final(self)@ == old(self)@.step_state(finished@),
            next@ == old(self)@.step_task(finished@),
    {
        let ghost fv = finished@;
        self.complete(finished);
        let ghost mid = old(self)@.integrate(fv);
        if self.conversion_unit.is_some() && self.accumulation_unit.is_some()
            && self.accumulation_pending {
            let c = take_slot(&mut self.conversion_unit).unwrap();
            let a = take_slot(&mut self.accumulation_unit).unwrap();
            self.accumulation_pending = false;
            proof {
                assert(self@ =~~= mid.after_dispatch());
            }
            Task::Convert(c, a)
        } else if self.accumulation_unit.is_some() && self.done_binning_units.len() > 0 {
            let a = take_slot(&mut self.accumulation_unit).unwrap();
            let mut ready: Vec<BinningUnit> = Vec::new();
            core::mem::swap(&mut self.done_binning_units, &mut ready);
            proof {
                assert(self@ =~~= mid.after_dispatch());
                assert(TaskV::Accumulate(a, ready@) =~~= mid.next_task());
            }
            Task::Accumulate(a, ready)
        } else if self.empty_binning_units.len() > 0 && self.done_simulation_units.len()
            >= self.bin_batch_threshold() {
            let b = self.empty_binning_units.pop().unwrap();
            let mut ready: Vec<SimulationUnit> = Vec::new();
            core::mem::swap(&mut self.done_simulation_units, &mut ready);
            proof {
                assert(self@ =~~= mid.after_dispatch());
                assert(TaskV::Bin(b, ready@) =~~= mid.next_task());
            }
            Task::Bin(b, ready)
        } else if self.empty_simulation_units.len() > 0 {
            let u = self.empty_simulation_units.pop().unwrap();
            proof {
                assert(self@ =~~= mid.after_dispatch());
            }
            Task::Simulate(u)
        } else {
            proof {
                assert(self@ =~~= mid.after_dispatch());
            }
            Task::Idle
        }
    }
}

} // verus!
