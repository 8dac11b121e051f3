//! The control core an embedding wraps: the scheduler plus the stop
//! signal, and the data stages of task execution.
//!
//! An embedding runs one worker loop per processor core; each loop
//! exchanges its finished task here.  Cancellation is cooperative and
//! happens only at task boundaries: a stop request never interrupts a
//! running task, it only makes every later exchange return `None`, so
//! a worker stops at most one task-duration after the signal.  Work a
//! worker cannot do here — the stochastic light-transport simulation,
//! the tone mapping, the idle sleep — stays with the embedding, which
//! hands plain sample batches in and takes plain buffers out.

use vstd::prelude::*;
use crate::task::{Task, TaskV, completes, samples_in_range, buffers_aligned};
use crate::scheduler::{Scheduler, Pools};
use crate::units::{execute_bin_task, execute_accumulate_task};

verus! {

/// Execute the data-movement stages of a task in place: a `Bin`
/// deposits and clears its sources, an `Accumulate` folds in and
/// zeroes its sources.  The other variants are left for the
/// embedding: `Simulate` and `Convert` are stochastic and
/// image-space work, `Idle` is a bounded sleep.
pub fn execute_data_stages(task: Task) -> (done: Task)
    requires
        samples_in_range(task@),
        buffers_aligned(task@),
    ensures
        completes(task@, done@),
{
    let ghost tv = task@;
    match task {
        Task::Bin(mut target, mut sources) => {
            proof {
                assert(tv == TaskV::Bin(target, sources@));
                assert forall|j: int, i: int|
                    0 <= j < sources@.len() && 0 <= i < sources@[j].samples@.len() implies (
                #[trigger] sources@[j].samples@[i]).cell < target.buffer@.len() by {
                    assert(tv matches TaskV::Bin(b, s) && s[j].samples@[i].cell
                        < b.buffer@.len());
                }
            }
            execute_bin_task(&mut target, &mut sources);
            Task::Bin(target, sources)
        },
        Task::Accumulate(mut target, mut sources) => {
            proof {
                assert(tv == TaskV::Accumulate(target, sources@));
                assert forall|j: int|
                    0 <= j < sources@.len() implies (#[trigger] sources@[j]).buffer@.len()
                    == target.buffer@.len() by {
                    assert(tv matches TaskV::Accumulate(a, s) && s[j].buffer@.len()
                        == a.buffer@.len());
                }
            }
            execute_accumulate_task(&mut target, &mut sources);
            Task::Accumulate(target, sources)
        },
        other => other,
    }
}

/// The verified heart of the application facade: the scheduler and
/// the single-shot stop signal, stripped of the threads and channels
/// an embedding puts around them.
pub struct App {
    scheduler: Scheduler,
    stop_requested: bool,
}

impl App {
    /// The scheduler's abstract pools.
    pub closed spec fn pools(&self) -> Pools {
        self.scheduler@
    }

    /// Whether a stop has been requested.
    pub closed spec fn stop_seen(&self) -> bool {
        self.stop_requested
    }

    /// A fresh pipeline: all units idle, no stop requested, pool
    /// capacities derived from the number of workers.
    pub fn new(concurrency: usize, width: usize, height: usize) -> (a: App)
        requires
            1 <= concurrency,
            concurrency * 2 <= usize::MAX,
            width * height * 3 <= usize::MAX,
        ensures
            a.pools().wf(),
            !a.stop_seen(),
            a.pools().sim_capacity == concurrency * 2,
            a.pools().bin_capacity == concurrency,
            a.pools().buffer_len == width * height * 3,
            a.pools().empty_sim.len() == concurrency * 2,
            a.pools().done_sim.len() == 0,
            a.pools().empty_bin.len() == concurrency,
            a.pools().done_bin.len() == 0,
            a.pools().accum is Some,
            a.pools().conv is Some,
            !a.pools().accum_pending,
    {
        App { scheduler: Scheduler::new(concurrency, width, height), stop_requested: false }
    }

    /// Request a stop.  Single-shot: every later exchange hands out
    /// no further work, so no new image is produced more than one
    /// task-duration later per worker.
    pub fn request_stop(&mut self)
        ensures
            final(self).stop_seen(),
            final(self).pools() == old(self).pools(),
    {
        self.stop_requested = true;
    }

    /// A worker's exchange.  Before a stop is seen this is the
    /// scheduler's own exchange; afterwards the finished task's units
    /// are still folded back into the pools, but no new task goes
    /// out: `None` tells the worker to terminate.
    pub fn complete_and_get_next(&mut self, finished: Task) -> (next: Option<Task>)
        requires
            old(self).pools().wf(),
            old(self).pools().accepts(finished@),
        ensures
            final(self).stop_seen() == old(self).stop_seen(),
            old(self).stop_seen() ==> next is None && final(self).pools() == old(
                self,
            ).pools().integrate(finished@),
            !old(self).stop_seen() ==> final(self).pools() == old(self).pools().step_state(
                finished@,
            ) && match next {
                Some(t) => t@ == old(self).pools().step_task(finished@),
                None => false,
            },
    {
        if self.stop_requested {
            self.scheduler.complete(finished);
            None
        } else {
            Some(self.scheduler.complete_and_get_next(finished))
        }
    }
}

} // verus!
