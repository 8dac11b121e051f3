//! The laws the scheduler obeys, proved from the contracts of
//! [`crate::scheduler::Scheduler::complete_and_get_next`] alone.
//!
//! The system as a whole is a scheduler snapshot together with the
//! tasks currently in flight, one per worker.  A worker's exchange
//! replaces its in-flight task `ts[i]` by the dispatched task and
//! moves the pools from `p` to `p.step_state(ts[i])`; every law here
//! says what such an exchange preserves.

use vstd::prelude::*;
use crate::units::{all_zero, accumulate_units};
use crate::task::{TaskV, task_sim_ids, task_bin_ids, task_sim_count, task_bin_count};
use crate::task::{task_accum_count, task_conv_count, sim_ids, bin_ids, completes};
use crate::units::{SimulationUnit, BinningUnit};
use crate::scheduler::Pools;

verus! {

/// Total of a per-task measure over the tasks in flight.
pub open spec fn tasks_total(ts: Seq<TaskV>, f: spec_fn(TaskV) -> nat) -> nat
    decreases ts.len(),
{
    if ts.len() == 0 {
        0
    } else {
        tasks_total(ts.drop_last(), f) + f(ts.last())
    }
}

/// Simulation units held by one task, as a measure.
pub open spec fn sim_measure() -> spec_fn(TaskV) -> nat {
    |t: TaskV| task_sim_count(t)
}

/// Binning units held by one task, as a measure.
pub open spec fn bin_measure() -> spec_fn(TaskV) -> nat {
    |t: TaskV| task_bin_count(t)
}

/// Accumulation units held by one task, as a measure.
pub open spec fn accum_measure() -> spec_fn(TaskV) -> nat {
    |t: TaskV| task_accum_count(t)
}

/// Conversion units held by one task, as a measure.
pub open spec fn conv_measure() -> spec_fn(TaskV) -> nat {
    |t: TaskV| task_conv_count(t)
}

/// Replacing one in-flight task changes a total exactly by the
/// difference of the two tasks' measures.
pub proof fn lemma_tasks_total_update(ts: Seq<TaskV>, f: spec_fn(TaskV) -> nat, i: int, t2: TaskV)
    requires
        0 <= i < ts.len(),
    ensures
        tasks_total(ts.update(i, t2), f) + f(ts[i]) == tasks_total(ts, f) + f(t2),
    decreases ts.len(),
{
    let up = ts.update(i, t2);
    if i == ts.len() - 1 {
        assert(up.drop_last() =~= ts.drop_last());
        assert(up.last() == t2);
    } else {
        assert(up.drop_last() =~= ts.drop_last().update(i, t2));
        assert(up.last() == ts.last());
        lemma_tasks_total_update(ts.drop_last(), f, i, t2);
        assert(ts.drop_last()[i] == ts[i]);
    }
}

/// A total is at least any one task's measure.
pub proof fn lemma_tasks_total_lower_bound(ts: Seq<TaskV>, f: spec_fn(TaskV) -> nat, i: int)
    requires
        0 <= i < ts.len(),
    ensures
        tasks_total(ts, f) >= f(ts[i]),
    decreases ts.len(),
{
    if i < ts.len() - 1 {
        lemma_tasks_total_lower_bound(ts.drop_last(), f, i);
        assert(ts.drop_last()[i] == ts[i]);
    }
}

/// One exchange conserves, for every unit kind, the number of units
/// held by the pools and the two tasks involved.  The two single-slot
/// kinds ask that the report not hold a second copy of a unit the
/// scheduler already has.
pub proof fn lemma_step_counts(p: Pools, t: TaskV)
    requires
        task_accum_count(t) + p.idle_accum_count() <= 1,
        task_conv_count(t) + p.idle_conv_count() <= 1,
    ensures
        p.step_state(t).idle_sim_count() + task_sim_count(p.step_task(t)) == p.idle_sim_count()
            + task_sim_count(t),
        p.step_state(t).idle_bin_count() + task_bin_count(p.step_task(t)) == p.idle_bin_count()
            + task_bin_count(t),
        p.step_state(t).idle_accum_count() + task_accum_count(p.step_task(t))
            == p.idle_accum_count() + task_accum_count(t),
        p.step_state(t).idle_conv_count() + task_conv_count(p.step_task(t)) == p.idle_conv_count()
            + task_conv_count(t),
{
    let q = p.integrate(t);
    if q.convert_ready() {
        assert(q.after_dispatch().idle_accum_count() == 0);
        assert(q.after_dispatch().idle_conv_count() == 0);
    } else if q.accumulate_ready() {
        assert(q.after_dispatch().idle_accum_count() == 0);
    } else if q.bin_ready() {
    } else if q.simulate_ready() {
    } else {
    }
}

/// The shutdown path conserves units too: folding a finished task
/// back without dispatching anything moves every unit it held into
/// the idle pools.
pub proof fn lemma_integrate_counts(p: Pools, t: TaskV)
    requires
        task_accum_count(t) + p.idle_accum_count() <= 1,
        task_conv_count(t) + p.idle_conv_count() <= 1,
    ensures
        p.integrate(t).idle_sim_count() == p.idle_sim_count() + task_sim_count(t),
        p.integrate(t).idle_bin_count() == p.idle_bin_count() + task_bin_count(t),
        p.integrate(t).idle_accum_count() == p.idle_accum_count() + task_accum_count(t),
        p.integrate(t).idle_conv_count() == p.idle_conv_count() + task_conv_count(t),
{
}

/// Pool conservation: for every unit kind, the idle count plus the
/// in-flight count across all live tasks equals the capacity fixed at
/// startup.
pub open spec fn conserved(p: Pools, in_flight: Seq<TaskV>) -> bool {
    &&& p.idle_sim_count() + tasks_total(in_flight, sim_measure()) == p.sim_capacity
    &&& p.idle_bin_count() + tasks_total(in_flight, bin_measure()) == p.bin_capacity
    &&& p.idle_accum_count() + tasks_total(in_flight, accum_measure()) == 1
    &&& p.idle_conv_count() + tasks_total(in_flight, conv_measure()) == 1
}

/// Conservation holds at startup, when no task is in flight and every
/// unit sits idle in its pool.
pub proof fn lemma_conserved_at_startup(p: Pools)
    requires
        p.empty_sim.len() == p.sim_capacity,
        p.done_sim.len() == 0,
        p.empty_bin.len() == p.bin_capacity,
        p.done_bin.len() == 0,
        p.accum is Some,
        p.conv is Some,
    ensures
        conserved(p, Seq::empty()),
{
}

/// A worker that starts its loop holds no units yet: its in-flight
/// slot is `Idle`, which changes no total.
pub proof fn lemma_idle_holds_nothing(ts: Seq<TaskV>)
    requires
        forall|i: int| 0 <= i < ts.len() ==> ts[i] is Idle,
    ensures
        tasks_total(ts, sim_measure()) == 0,
        tasks_total(ts, bin_measure()) == 0,
        tasks_total(ts, accum_measure()) == 0,
        tasks_total(ts, conv_measure()) == 0,
    decreases ts.len(),
{
    if ts.len() > 0 {
        lemma_idle_holds_nothing(ts.drop_last());
    }
}

/// Executing a task changes no unit count: completion keeps each
/// unit, only its contents change.
pub proof fn lemma_execution_keeps_counts(pre: TaskV, post: TaskV)
    requires
        completes(pre, post),
    ensures
        task_sim_count(post) == task_sim_count(pre),
        task_bin_count(post) == task_bin_count(pre),
        task_accum_count(post) == task_accum_count(pre),
        task_conv_count(post) == task_conv_count(pre),
{
}

/// Pool conservation law: one worker's exchange at the scheduler
/// preserves conservation, whatever the interleaving chose.
pub proof fn lemma_pool_conservation(p: Pools, in_flight: Seq<TaskV>, i: int)
    requires
        conserved(p, in_flight),
        0 <= i < in_flight.len(),
    ensures
        conserved(p.step_state(in_flight[i]), in_flight.update(i, p.step_task(in_flight[i]))),
{
    let t = in_flight[i];
    let t2 = p.step_task(t);
    lemma_tasks_total_lower_bound(in_flight, accum_measure(), i);
    lemma_tasks_total_lower_bound(in_flight, conv_measure(), i);
    lemma_step_counts(p, t);
    lemma_tasks_total_update(in_flight, sim_measure(), i, t2);
    lemma_tasks_total_update(in_flight, bin_measure(), i, t2);
    lemma_tasks_total_update(in_flight, accum_measure(), i, t2);
    lemma_tasks_total_update(in_flight, conv_measure(), i, t2);
}

/// Priority law: whenever, after folding the finished task back in, a
/// conversion unit is idle and the running sum holds unconverted
/// contributions, the dispatched task is `Convert` — regardless of
/// what else is simultaneously dispatchable.
pub proof fn lemma_priority_convert(p: Pools, t: TaskV)
    requires
        p.integrate(t).convert_ready(),
    ensures
        p.step_task(t) is Convert,
{
}

/// The remaining priority order: `Accumulate` beats `Bin` beats
/// `Simulate` beats `Idle`, each dispatched exactly when every stage
/// above it is not ready and it is.
pub proof fn lemma_priority_order(p: Pools, t: TaskV)
    ensures
        !p.integrate(t).convert_ready() && p.integrate(t).accumulate_ready() ==> p.step_task(t)
            is Accumulate,
        !p.integrate(t).convert_ready() && !p.integrate(t).accumulate_ready() && p.integrate(
            t,
        ).bin_ready() ==> p.step_task(t) is Bin,
        !p.integrate(t).convert_ready() && !p.integrate(t).accumulate_ready() && !p.integrate(
            t,
        ).bin_ready() && p.integrate(t).simulate_ready() ==> p.step_task(t) is Simulate,
        !p.integrate(t).convert_ready() && !p.integrate(t).accumulate_ready() && !p.integrate(
            t,
        ).bin_ready() && !p.integrate(t).simulate_ready() ==> p.step_task(t) is Idle,
{
}

/// Mapping to identities distributes over concatenation.
proof fn lemma_sim_ids_concat(a: Seq<SimulationUnit>, b: Seq<SimulationUnit>)
    ensures
        sim_ids(a + b) == sim_ids(a) + sim_ids(b),
{
    assert(sim_ids(a + b) =~= sim_ids(a) + sim_ids(b));
}

/// Mapping to identities distributes over concatenation.
proof fn lemma_bin_ids_concat(a: Seq<BinningUnit>, b: Seq<BinningUnit>)
    ensures
        bin_ids(a + b) == bin_ids(a) + bin_ids(b),
{
    assert(bin_ids(a + b) =~= bin_ids(a) + bin_ids(b));
}

/// Mapping to identities commutes with push.
proof fn lemma_sim_ids_push(a: Seq<SimulationUnit>, u: SimulationUnit)
    ensures
        sim_ids(a.push(u)) == sim_ids(a).push(u.id as int),
{
    assert(sim_ids(a.push(u)) =~= sim_ids(a).push(u.id as int));
}

/// Mapping to identities commutes with push.
proof fn lemma_bin_ids_push(a: Seq<BinningUnit>, u: BinningUnit)
    ensures
        bin_ids(a.push(u)) == bin_ids(a).push(u.id as int),
{
    assert(bin_ids(a.push(u)) =~= bin_ids(a).push(u.id as int));
}

/// Simulation identities held by one task, as an id measure.
pub open spec fn sim_id_measure() -> spec_fn(TaskV) -> Seq<int> {
    |t: TaskV| task_sim_ids(t)
}

/// Binning identities held by one task, as an id measure.
pub open spec fn bin_id_measure() -> spec_fn(TaskV) -> Seq<int> {
    |t: TaskV| task_bin_ids(t)
}

/// All identities held by the tasks in flight, under an id measure.
pub open spec fn tasks_ids(ts: Seq<TaskV>, f: spec_fn(TaskV) -> Seq<int>) -> Seq<int>
    decreases ts.len(),
{
    if ts.len() == 0 {
        Seq::empty()
    } else {
        tasks_ids(ts.drop_last(), f) + f(ts.last())
    }
}

/// Every simulation-unit identity in the system: idle or in flight.
pub open spec fn sys_sim_ids(p: Pools, ts: Seq<TaskV>) -> Seq<int> {
    p.pool_sim_ids() + tasks_ids(ts, sim_id_measure())
}

/// Every binning-unit identity in the system: idle or in flight.
pub open spec fn sys_bin_ids(p: Pools, ts: Seq<TaskV>) -> Seq<int> {
    p.pool_bin_ids() + tasks_ids(ts, bin_id_measure())
}

/// Exclusivity invariant: no unit identity occurs twice anywhere in
/// the system, and at most one party holds the accumulation unit, and
/// the conversion unit.
pub open spec fn exclusive(p: Pools, ts: Seq<TaskV>) -> bool {
    &&& sys_sim_ids(p, ts).no_duplicates()
    &&& sys_bin_ids(p, ts).no_duplicates()
    &&& p.idle_accum_count() + tasks_total(ts, accum_measure()) <= 1
    &&& p.idle_conv_count() + tasks_total(ts, conv_measure()) <= 1
}

/// Tasks that hold no identities contribute none.
proof fn lemma_no_ids_held(ts: Seq<TaskV>, f: spec_fn(TaskV) -> Seq<int>)
    requires
        forall|i: int| 0 <= i < ts.len() ==> f(#[trigger] ts[i]) == Seq::<int>::empty(),
    ensures
        tasks_ids(ts, f) == Seq::<int>::empty(),
    decreases ts.len(),
{
    if ts.len() > 0 {
        lemma_no_ids_held(ts.drop_last(), f);
        assert(tasks_ids(ts, f) =~= Seq::<int>::empty());
    }
}

/// Exclusivity holds at startup: every unit idle under a distinct
/// identity, every worker's in-flight slot still `Idle`.
pub proof fn lemma_exclusive_at_startup(p: Pools, ts: Seq<TaskV>)
    requires
        p.wf(),
        p.accum is Some,
        p.conv is Some,
        forall|i: int| 0 <= i < ts.len() ==> #[trigger] ts[i] is Idle,
    ensures
        exclusive(p, ts),
{
    assert forall|i: int| 0 <= i < ts.len() implies sim_id_measure()(#[trigger] ts[i])
        == Seq::<int>::empty() by {
        assert(task_sim_ids(ts[i]) =~= Seq::<int>::empty());
    }
    assert forall|i: int| 0 <= i < ts.len() implies bin_id_measure()(#[trigger] ts[i])
        == Seq::<int>::empty() by {
        assert(task_bin_ids(ts[i]) =~= Seq::<int>::empty());
    }
    lemma_no_ids_held(ts, sim_id_measure());
    lemma_no_ids_held(ts, bin_id_measure());
    lemma_idle_holds_nothing(ts);
    assert(sys_sim_ids(p, ts) =~= p.pool_sim_ids());
    assert(sys_bin_ids(p, ts) =~= p.pool_bin_ids());
}

/// Two sequences with the same multiset are duplicate-free together.
proof fn lemma_same_multiset_no_duplicates(s1: Seq<int>, s2: Seq<int>)
    requires
        s1.to_multiset() == s2.to_multiset(),
        s1.no_duplicates(),
    ensures
        s2.no_duplicates(),
{
    broadcast use vstd::seq_lib::group_to_multiset_ensures;

    s1.lemma_multiset_has_no_duplicates();
    s2.lemma_multiset_has_no_duplicates_conv();
}

/// Folding a finished task back in only moves identities: the pools
/// gain exactly the identities the task held.
proof fn lemma_integrate_ids(p: Pools, t: TaskV)
    ensures
        p.integrate(t).pool_sim_ids().to_multiset() == (p.pool_sim_ids()
            + task_sim_ids(t)).to_multiset(),
        p.integrate(t).pool_bin_ids().to_multiset() == (p.pool_bin_ids()
            + task_bin_ids(t)).to_multiset(),
{
    broadcast use vstd::seq_lib::lemma_multiset_commutative;
    broadcast use vstd::seq_lib::group_to_multiset_ensures;
    broadcast use vstd::multiset::group_multiset_axioms;

    let q = p.integrate(t);
    match t {
        TaskV::Idle => {
            assert(p.pool_sim_ids() + task_sim_ids(t) =~= p.pool_sim_ids());
            assert(p.pool_bin_ids() + task_bin_ids(t) =~= p.pool_bin_ids());
        },
        TaskV::Simulate(u) => {
            lemma_sim_ids_push(p.done_sim, u);
            assert(task_sim_ids(t) =~= Seq::empty().push(u.id as int));
            assert(q.pool_sim_ids().to_multiset() =~= (p.pool_sim_ids()
                + task_sim_ids(t)).to_multiset());
            assert(p.pool_bin_ids() + task_bin_ids(t) =~= p.pool_bin_ids());
        },
        TaskV::Bin(b, s) => {
            lemma_sim_ids_concat(p.empty_sim, s);
            assert(q.pool_sim_ids() =~= (sim_ids(p.empty_sim) + sim_ids(s)) + sim_ids(
                p.done_sim,
            ));
            assert(q.pool_sim_ids().to_multiset() =~= (p.pool_sim_ids()
                + task_sim_ids(t)).to_multiset());
            lemma_bin_ids_push(p.done_bin, b);
            assert(task_bin_ids(t) =~= Seq::empty().push(b.id as int));
            assert(q.pool_bin_ids().to_multiset() =~= (p.pool_bin_ids()
                + task_bin_ids(t)).to_multiset());
        },
        TaskV::Accumulate(a, s) => {
            assert(p.pool_sim_ids() + task_sim_ids(t) =~= p.pool_sim_ids());
            lemma_bin_ids_concat(p.empty_bin, s);
            assert(q.pool_bin_ids() =~= (bin_ids(p.empty_bin) + bin_ids(s)) + bin_ids(
                p.done_bin,
            ));
            assert(q.pool_bin_ids().to_multiset() =~= (p.pool_bin_ids()
                + task_bin_ids(t)).to_multiset());
        },
        TaskV::Convert(c, a) => {
            assert(p.pool_sim_ids() + task_sim_ids(t) =~= p.pool_sim_ids());
            assert(p.pool_bin_ids() + task_bin_ids(t) =~= p.pool_bin_ids());
        },
    }
}

/// Dispatching only moves identities: the dispatched task carries out
/// exactly the identities the pools lose.
proof fn lemma_dispatch_ids(q: Pools)
    ensures
        (q.after_dispatch().pool_sim_ids() + task_sim_ids(q.next_task())).to_multiset()
            == q.pool_sim_ids().to_multiset(),
        (q.after_dispatch().pool_bin_ids() + task_bin_ids(q.next_task())).to_multiset()
            == q.pool_bin_ids().to_multiset(),
{
    broadcast use vstd::seq_lib::lemma_multiset_commutative;
    broadcast use vstd::seq_lib::group_to_multiset_ensures;
    broadcast use vstd::multiset::group_multiset_axioms;

    let r = q.after_dispatch();
    let t = q.next_task();
    if q.convert_ready() {
        assert(r.pool_sim_ids() + task_sim_ids(t) =~= q.pool_sim_ids());
        assert(r.pool_bin_ids() + task_bin_ids(t) =~= q.pool_bin_ids());
    } else if q.accumulate_ready() {
        assert(r.pool_sim_ids() + task_sim_ids(t) =~= q.pool_sim_ids());
        assert(bin_ids(r.done_bin) =~= Seq::<int>::empty());
        assert(r.pool_bin_ids() =~= bin_ids(q.empty_bin));
        assert(task_bin_ids(t) == bin_ids(q.done_bin));
        assert(r.pool_bin_ids() + task_bin_ids(t) =~= q.pool_bin_ids());
    } else if q.bin_ready() {
        assert(sim_ids(r.done_sim) =~= Seq::<int>::empty());
        assert(r.pool_sim_ids() =~= sim_ids(q.empty_sim));
        assert(task_sim_ids(t) == sim_ids(q.done_sim));
        assert(r.pool_sim_ids() + task_sim_ids(t) =~= q.pool_sim_ids());
        lemma_bin_ids_push(q.empty_bin.drop_last(), q.empty_bin.last());
        assert(q.empty_bin.drop_last().push(q.empty_bin.last()) =~= q.empty_bin);
        assert(task_bin_ids(t) =~= Seq::empty().push(q.empty_bin.last().id as int));
        assert((r.pool_bin_ids() + task_bin_ids(t)).to_multiset()
            =~= q.pool_bin_ids().to_multiset());
    } else if q.simulate_ready() {
        lemma_sim_ids_push(q.empty_sim.drop_last(), q.empty_sim.last());
        assert(q.empty_sim.drop_last().push(q.empty_sim.last()) =~= q.empty_sim);
        assert(task_sim_ids(t) =~= Seq::empty().push(q.empty_sim.last().id as int));
        assert((r.pool_sim_ids() + task_sim_ids(t)).to_multiset()
            =~= q.pool_sim_ids().to_multiset());
        assert(r.pool_bin_ids() + task_bin_ids(t) =~= q.pool_bin_ids());
    } else {
        assert(r.pool_sim_ids() + task_sim_ids(t) =~= q.pool_sim_ids());
        assert(r.pool_bin_ids() + task_bin_ids(t) =~= q.pool_bin_ids());
    }
}

/// One exchange permutes identities: pools plus dispatched task hold
/// exactly what pools plus finished task held.
pub proof fn lemma_step_ids(p: Pools, t: TaskV)
    ensures
        (p.step_state(t).pool_sim_ids() + task_sim_ids(p.step_task(t))).to_multiset() == (
        p.pool_sim_ids() + task_sim_ids(t)).to_multiset(),
        (p.step_state(t).pool_bin_ids() + task_bin_ids(p.step_task(t))).to_multiset() == (
        p.pool_bin_ids() + task_bin_ids(t)).to_multiset(),
{
    lemma_integrate_ids(p, t);
    lemma_dispatch_ids(p.integrate(t));
}

/// Replacing one in-flight task exchanges exactly the identities of
/// the two tasks.
proof fn lemma_tasks_ids_update(ts: Seq<TaskV>, f: spec_fn(TaskV) -> Seq<int>, i: int, t2: TaskV)
    requires
        0 <= i < ts.len(),
    ensures
        tasks_ids(ts.update(i, t2), f).to_multiset().add(f(ts[i]).to_multiset()) == tasks_ids(
            ts,
            f,
        ).to_multiset().add(f(t2).to_multiset()),
    decreases ts.len(),
{
    broadcast use vstd::seq_lib::lemma_multiset_commutative;
    broadcast use vstd::multiset::group_multiset_axioms;

    let up = ts.update(i, t2);
    if i == ts.len() - 1 {
        assert(up.drop_last() =~= ts.drop_last());
        assert(up.last() == t2);
        assert(tasks_ids(up, f).to_multiset().add(f(ts[i]).to_multiset()) =~= tasks_ids(
            ts,
            f,
        ).to_multiset().add(f(t2).to_multiset()));
    } else {
        assert(up.drop_last() =~= ts.drop_last().update(i, t2));
        assert(up.last() == ts.last());
        lemma_tasks_ids_update(ts.drop_last(), f, i, t2);
        assert(ts.drop_last()[i] == ts[i]);
        let base = tasks_ids(ts.drop_last(), f).to_multiset();
        let base2 = tasks_ids(up.drop_last(), f).to_multiset();
        let lastm = f(ts.last()).to_multiset();
        assert(tasks_ids(up, f).to_multiset() == base2.add(lastm));
        assert(tasks_ids(ts, f).to_multiset() == base.add(lastm));
        assert forall|x: int|
            #![trigger tasks_ids(up, f).to_multiset().add(f(ts[i]).to_multiset()).count(x)]
            tasks_ids(up, f).to_multiset().add(f(ts[i]).to_multiset()).count(x) == tasks_ids(
                ts,
                f,
            ).to_multiset().add(f(t2).to_multiset()).count(x) by {
            assert(base2.add(f(ts[i]).to_multiset()).count(x) == base.add(
                f(t2).to_multiset(),
            ).count(x));
        }
        assert(tasks_ids(up, f).to_multiset().add(f(ts[i]).to_multiset()) =~= tasks_ids(
            ts,
            f,
        ).to_multiset().add(f(t2).to_multiset()));
    }
}

/// Exclusivity law: one worker's exchange at the scheduler preserves
/// exclusivity, whatever the interleaving chose.
pub proof fn lemma_exclusivity(p: Pools, ts: Seq<TaskV>, i: int)
    requires
        exclusive(p, ts),
        0 <= i < ts.len(),
    ensures
        exclusive(p.step_state(ts[i]), ts.update(i, p.step_task(ts[i]))),
{
    broadcast use vstd::seq_lib::lemma_multiset_commutative;
    broadcast use vstd::multiset::group_multiset_axioms;

    let t = ts[i];
    let t2 = p.step_task(t);
    let p2 = p.step_state(t);
    let ts2 = ts.update(i, t2);
    lemma_tasks_total_lower_bound(ts, accum_measure(), i);
    lemma_tasks_total_lower_bound(ts, conv_measure(), i);
    lemma_step_counts(p, t);
    lemma_tasks_total_update(ts, accum_measure(), i, t2);
    lemma_tasks_total_update(ts, conv_measure(), i, t2);
    lemma_step_ids(p, t);
    lemma_tasks_ids_update(ts, sim_id_measure(), i, t2);
    lemma_tasks_ids_update(ts, bin_id_measure(), i, t2);
    assert forall|x: int|
        #![trigger sys_sim_ids(p2, ts2).to_multiset().count(x)]
        sys_sim_ids(p2, ts2).to_multiset().count(x) == sys_sim_ids(p, ts).to_multiset().count(
            x,
        ) by {
        assert((p2.pool_sim_ids() + task_sim_ids(t2)).to_multiset().count(x) == (p.pool_sim_ids()
            + task_sim_ids(t)).to_multiset().count(x));
        assert(tasks_ids(ts2, sim_id_measure()).to_multiset().add(
            task_sim_ids(ts[i]).to_multiset(),
        ).count(x) == tasks_ids(ts, sim_id_measure()).to_multiset().add(
            task_sim_ids(t2).to_multiset(),
        ).count(x));
    }
    assert forall|x: int|
        #![trigger sys_bin_ids(p2, ts2).to_multiset().count(x)]
        sys_bin_ids(p2, ts2).to_multiset().count(x) == sys_bin_ids(p, ts).to_multiset().count(
            x,
        ) by {
        assert((p2.pool_bin_ids() + task_bin_ids(t2)).to_multiset().count(x) == (p.pool_bin_ids()
            + task_bin_ids(t)).to_multiset().count(x));
        assert(tasks_ids(ts2, bin_id_measure()).to_multiset().add(
            task_bin_ids(ts[i]).to_multiset(),
        ).count(x) == tasks_ids(ts, bin_id_measure()).to_multiset().add(
            task_bin_ids(t2).to_multiset(),
        ).count(x));
    }
    assert(sys_sim_ids(p2, ts2).to_multiset() =~= sys_sim_ids(p, ts).to_multiset());
    assert(sys_bin_ids(p2, ts2).to_multiset() =~= sys_bin_ids(p, ts).to_multiset());
    lemma_same_multiset_no_duplicates(sys_sim_ids(p, ts), sys_sim_ids(p2, ts2));
    lemma_same_multiset_no_duplicates(sys_bin_ids(p, ts), sys_bin_ids(p2, ts2));
}

/// The identities of one in-flight task sit inside the system's.
proof fn lemma_tasks_ids_single_bound(ts: Seq<TaskV>, f: spec_fn(TaskV) -> Seq<int>, i: int, x: int)
    requires
        0 <= i < ts.len(),
    ensures
        tasks_ids(ts, f).to_multiset().count(x) >= f(ts[i]).to_multiset().count(x),
    decreases ts.len(),
{
    broadcast use vstd::seq_lib::lemma_multiset_commutative;
    broadcast use vstd::multiset::group_multiset_axioms;

    if i < ts.len() - 1 {
        lemma_tasks_ids_single_bound(ts.drop_last(), f, i, x);
        assert(ts.drop_last()[i] == ts[i]);
    }
}

/// The identities of two in-flight tasks sit side by side inside the
/// system's.
proof fn lemma_tasks_ids_pair_bound(
    ts: Seq<TaskV>,
    f: spec_fn(TaskV) -> Seq<int>,
    i: int,
    j: int,
    x: int,
)
    requires
        0 <= i < j < ts.len(),
    ensures
        tasks_ids(ts, f).to_multiset().count(x) >= f(ts[i]).to_multiset().count(x) + f(
            ts[j],
        ).to_multiset().count(x),
    decreases ts.len(),
{
    broadcast use vstd::seq_lib::lemma_multiset_commutative;
    broadcast use vstd::multiset::group_multiset_axioms;

    if j == ts.len() - 1 {
        lemma_tasks_ids_single_bound(ts.drop_last(), f, i, x);
        assert(ts.drop_last()[i] == ts[i]);
    } else {
        lemma_tasks_ids_pair_bound(ts.drop_last(), f, i, j, x);
        assert(ts.drop_last()[i] == ts[i]);
        assert(ts.drop_last()[j] == ts[j]);
    }
}

/// Element-disjointness gives index-disjointness.
proof fn lemma_contains_disjoint(a: Seq<int>, b: Seq<int>)
    requires
        forall|x: int| b.contains(x) ==> !a.contains(x),
    ensures
        a.disjoint(b),
{
    assert forall|i: int, j: int| 0 <= i < a.len() && 0 <= j < b.len() implies a[i] != b[j] by {
        if a[i] == b[j] {
            assert(b.contains(b[j]));
            assert(a.contains(a[i]));
        }
    }
}

/// An element of a concatenation comes from one of the parts.
proof fn lemma_concat_contains(a: Seq<int>, b: Seq<int>, x: int)
    requires
        (a + b).contains(x),
    ensures
        a.contains(x) || b.contains(x),
{
    let k = choose|k: int| 0 <= k < (a + b).len() && (a + b)[k] == x;
    if k < a.len() {
        assert(a[k] == x);
    } else {
        assert(b[k - a.len()] == x);
    }
}

/// A concatenation is duplicate-free exactly when both parts are and
/// they are disjoint.
proof fn lemma_concat_no_duplicates(a: Seq<int>, b: Seq<int>)
    ensures
        (a + b).no_duplicates() <==> (a.no_duplicates() && b.no_duplicates() && a.disjoint(b)),
{
    let c = a + b;
    if a.no_duplicates() && b.no_duplicates() && a.disjoint(b) {
        assert forall|i: int, j: int|
            0 <= i < c.len() && 0 <= j < c.len() && i != j implies c[i] != c[j] by {
            if i < a.len() && j < a.len() {
                assert(c[i] == a[i] && c[j] == a[j]);
            } else if i < a.len() {
                assert(c[i] == a[i] && c[j] == b[j - a.len()]);
            } else if j < a.len() {
                assert(c[i] == b[i - a.len()] && c[j] == a[j]);
            } else {
                assert(c[i] == b[i - a.len()] && c[j] == b[j - a.len()]);
            }
        }
    }
    if c.no_duplicates() {
        assert forall|i: int, j: int|
            0 <= i < a.len() && 0 <= j < a.len() && i != j implies a[i] != a[j] by {
            assert(c[i] == a[i] && c[j] == a[j]);
        }
        assert forall|i: int, j: int|
            0 <= i < b.len() && 0 <= j < b.len() && i != j implies b[i] != b[j] by {
            assert(c[a.len() + i] == b[i] && c[a.len() + j] == b[j]);
        }
        assert forall|i: int, j: int| 0 <= i < a.len() && 0 <= j < b.len() implies a[i] != b[j] by {
            assert(c[i] == a[i] && c[a.len() + j] == b[j]);
        }
    }
}

/// Well-formedness law: an exchange with an acceptable completion
/// report keeps the pools well-formed, and the dispatched task fits
/// the pools it leaves behind — in particular, the scheduler never
/// hands out a unit it still holds, and never dispatches from an
/// empty pool.
pub proof fn lemma_step_preserves_wf(p: Pools, t: TaskV)
    requires
        p.wf(),
        p.accepts(t),
    ensures
        p.step_state(t).wf(),
        p.step_state(t).fits(p.step_task(t)),
{
    broadcast use vstd::seq_lib::lemma_multiset_commutative;
    broadcast use vstd::seq_lib::group_to_multiset_ensures;
    broadcast use vstd::multiset::group_multiset_axioms;

    let q = p.integrate(t);
    let r = q.after_dispatch();
    let nx = q.next_task();
    lemma_integrate_ids(p, t);
    lemma_dispatch_ids(q);

    // Identity bookkeeping for the integration half.
    lemma_contains_disjoint(p.pool_sim_ids(), task_sim_ids(t));
    lemma_concat_no_duplicates(p.pool_sim_ids(), task_sim_ids(t));
    lemma_same_multiset_no_duplicates(p.pool_sim_ids() + task_sim_ids(t), q.pool_sim_ids());
    lemma_contains_disjoint(p.pool_bin_ids(), task_bin_ids(t));
    lemma_concat_no_duplicates(p.pool_bin_ids(), task_bin_ids(t));
    lemma_same_multiset_no_duplicates(p.pool_bin_ids() + task_bin_ids(t), q.pool_bin_ids());
    assert forall|x: int| q.pool_sim_ids().contains(x) implies 0 <= x < q.sim_capacity by {
        assert(q.pool_sim_ids().to_multiset().count(x) > 0);
        assert((p.pool_sim_ids() + task_sim_ids(t)).contains(x));
        lemma_concat_contains(p.pool_sim_ids(), task_sim_ids(t), x);
    }
    assert forall|x: int| q.pool_bin_ids().contains(x) implies 0 <= x < q.bin_capacity by {
        assert(q.pool_bin_ids().to_multiset().count(x) > 0);
        assert((p.pool_bin_ids() + task_bin_ids(t)).contains(x));
        lemma_concat_contains(p.pool_bin_ids(), task_bin_ids(t), x);
    }

    // Contents and buffer lengths for the integration half.
    match t {
        TaskV::Idle => {},
        TaskV::Simulate(u) => {},
        TaskV::Bin(b, s) => {
            assert forall|i: int|
                0 <= i < q.empty_sim.len() implies (#[trigger] q.empty_sim[i]).samples@.len()
                == 0 by {
                if i < p.empty_sim.len() {
                    assert(q.empty_sim[i] == p.empty_sim[i]);
                } else {
                    assert(q.empty_sim[i] == s[i - p.empty_sim.len()]);
                }
            }
        },
        TaskV::Accumulate(a, s) => {
            assert forall|i: int|
                0 <= i < q.empty_bin.len() implies all_zero((#[trigger] q.empty_bin[i]).buffer@)
                && q.empty_bin[i].buffer@.len() == q.buffer_len by {
                if i < p.empty_bin.len() {
                    assert(q.empty_bin[i] == p.empty_bin[i]);
                } else {
                    assert(q.empty_bin[i] == s[i - p.empty_bin.len()]);
                }
            }
        },
        TaskV::Convert(c, a) => {},
    }
    assert(q.wf());

    // Identity bookkeeping for the dispatch half.
    lemma_same_multiset_no_duplicates(q.pool_sim_ids(), r.pool_sim_ids() + task_sim_ids(nx));
    lemma_concat_no_duplicates(r.pool_sim_ids(), task_sim_ids(nx));
    lemma_same_multiset_no_duplicates(q.pool_bin_ids(), r.pool_bin_ids() + task_bin_ids(nx));
    lemma_concat_no_duplicates(r.pool_bin_ids(), task_bin_ids(nx));
    assert forall|x: int| (r.pool_sim_ids() + task_sim_ids(nx)).contains(x) implies 0 <= x
        < q.sim_capacity by {
        assert((r.pool_sim_ids() + task_sim_ids(nx)).to_multiset().count(x) > 0);
        assert(q.pool_sim_ids().contains(x));
    }
    assert forall|x: int| r.pool_sim_ids().contains(x) implies 0 <= x < r.sim_capacity by {
        let k = choose|k: int| 0 <= k < r.pool_sim_ids().len() && r.pool_sim_ids()[k] == x;
        assert((r.pool_sim_ids() + task_sim_ids(nx))[k] == x);
        assert((r.pool_sim_ids() + task_sim_ids(nx)).contains(x));
    }
    assert forall|x: int| task_sim_ids(nx).contains(x) implies 0 <= x < r.sim_capacity
        && !r.pool_sim_ids().contains(x) by {
        let k = choose|k: int| 0 <= k < task_sim_ids(nx).len() && task_sim_ids(nx)[k] == x;
        assert((r.pool_sim_ids() + task_sim_ids(nx))[r.pool_sim_ids().len() + k] == x);
        assert((r.pool_sim_ids() + task_sim_ids(nx)).contains(x));
    }
    assert forall|x: int| (r.pool_bin_ids() + task_bin_ids(nx)).contains(x) implies 0 <= x
        < q.bin_capacity by {
        assert((r.pool_bin_ids() + task_bin_ids(nx)).to_multiset().count(x) > 0);
        assert(q.pool_bin_ids().contains(x));
    }
    assert forall|x: int| r.pool_bin_ids().contains(x) implies 0 <= x < r.bin_capacity by {
        let k = choose|k: int| 0 <= k < r.pool_bin_ids().len() && r.pool_bin_ids()[k] == x;
        assert((r.pool_bin_ids() + task_bin_ids(nx))[k] == x);
        assert((r.pool_bin_ids() + task_bin_ids(nx)).contains(x));
    }
    assert forall|x: int| task_bin_ids(nx).contains(x) implies 0 <= x < r.bin_capacity
        && !r.pool_bin_ids().contains(x) by {
        let k = choose|k: int| 0 <= k < task_bin_ids(nx).len() && task_bin_ids(nx)[k] == x;
        assert((r.pool_bin_ids() + task_bin_ids(nx))[r.pool_bin_ids().len() + k] == x);
        assert((r.pool_bin_ids() + task_bin_ids(nx)).contains(x));
    }

    // Contents and buffer lengths for the dispatch half.
    if q.convert_ready() {
    } else if q.accumulate_ready() {
    } else if q.bin_ready() {
        assert(q.empty_bin[q.empty_bin.len() - 1].buffer@.len() == q.buffer_len);
    } else if q.simulate_ready() {
    } else {
    }
    assert(r.wf());
    assert(r.fits(nx));
}

/// Executing a dispatched task yields an acceptable completion
/// report: execution keeps every unit and every buffer length, and
/// clears what it consumes.
pub proof fn lemma_execution_keeps_acceptance(p: Pools, pre: TaskV, post: TaskV)
    requires
        p.fits(pre),
        completes(pre, post),
    ensures
        p.accepts(post),
{
    match (pre, post) {
        (TaskV::Bin(b, s), TaskV::Bin(b2, s2)) => {
            assert(task_sim_ids(post) =~= task_sim_ids(pre));
            assert(task_bin_ids(post) =~= task_bin_ids(pre));
        },
        (TaskV::Accumulate(a, s), TaskV::Accumulate(a2, s2)) => {
            assert(task_sim_ids(post) =~= task_sim_ids(pre));
            assert(task_bin_ids(post) =~= task_bin_ids(pre));
        },
        (TaskV::Simulate(u), TaskV::Simulate(u2)) => {
            assert(task_sim_ids(post) =~= task_sim_ids(pre));
            assert(task_bin_ids(post) =~= task_bin_ids(pre));
        },
        _ => {
            assert(task_sim_ids(post) =~= task_sim_ids(pre));
            assert(task_bin_ids(post) =~= task_bin_ids(pre));
        },
    }
}

/// No two concurrently-held tasks reference the same unit instance:
/// under exclusivity, a unit identity held by one task is held by no
/// other.
pub proof fn lemma_no_shared_unit(p: Pools, ts: Seq<TaskV>, i: int, j: int, x: int)
    requires
        exclusive(p, ts),
        0 <= i < ts.len(),
        0 <= j < ts.len(),
        i != j,
    ensures
        !(task_sim_ids(ts[i]).contains(x) && task_sim_ids(ts[j]).contains(x)),
        !(task_bin_ids(ts[i]).contains(x) && task_bin_ids(ts[j]).contains(x)),
{
    broadcast use vstd::seq_lib::lemma_multiset_commutative;
    broadcast use vstd::seq_lib::group_to_multiset_ensures;
    broadcast use vstd::multiset::group_multiset_axioms;

    let lo = if i < j {
        i
    } else {
        j
    };
    let hi = if i < j {
        j
    } else {
        i
    };
    if task_sim_ids(ts[i]).contains(x) && task_sim_ids(ts[j]).contains(x) {
        lemma_tasks_ids_pair_bound(ts, sim_id_measure(), lo, hi, x);
        sys_sim_ids(p, ts).lemma_multiset_has_no_duplicates();
        assert(sys_sim_ids(p, ts).to_multiset().count(x) >= 2);
        assert(sys_sim_ids(p, ts).to_multiset().count(x) > 0);
        assert(false);
    }
    if task_bin_ids(ts[i]).contains(x) && task_bin_ids(ts[j]).contains(x) {
        lemma_tasks_ids_pair_bound(ts, bin_id_measure(), lo, hi, x);
        sys_bin_ids(p, ts).lemma_multiset_has_no_duplicates();
        assert(sys_bin_ids(p, ts).to_multiset().count(x) >= 2);
        assert(sys_bin_ids(p, ts).to_multiset().count(x) > 0);
        assert(false);
    }
}

/// Total deposited into one cell across a sequence of binning
/// buffers.
pub open spec fn cell_total(units: Seq<BinningUnit>, i: int) -> int
    decreases units.len(),
{
    if units.len() == 0 {
        0
    } else {
        cell_total(units.drop_last(), i) + units.last().buffer@[i]
    }
}

/// A cell total is never negative: amounts are unsigned.
pub proof fn lemma_cell_total_nonneg(units: Seq<BinningUnit>, i: int)
    ensures
        cell_total(units, i) >= 0,
    decreases units.len(),
{
    if units.len() > 0 {
        lemma_cell_total_nonneg(units.drop_last(), i);
    }
}

/// Conservation under accumulate: wherever the clamped additions
/// never clamp, each cell of the running sum grows by exactly the
/// total the source buffers held — every contribution reflected
/// once.  Together with the zeroing of the sources this pins the
/// `Accumulate` stage down.
pub proof fn lemma_accumulate_total(buf: Seq<u64>, units: Seq<BinningUnit>, i: int)
    requires
        0 <= i < buf.len(),
        forall|j: int| 0 <= j < units.len() ==> (#[trigger] units[j]).buffer@.len() == buf.len(),
        buf[i] + cell_total(units, i) <= u64::MAX,
    ensures
        accumulate_units(buf, units)[i] == buf[i] + cell_total(units, i),
    decreases units.len(),
{
    if units.len() > 0 {
        crate::units::lemma_accumulate_units_len(buf, units.drop_last());
        lemma_cell_total_nonneg(units.drop_last(), i);
        assert(units.last().buffer@[i] >= 0);
        lemma_accumulate_total(buf, units.drop_last(), i);
        assert(accumulate_units(buf, units)[i] == crate::units::sat_add_spec(
            accumulate_units(buf, units.drop_last())[i],
            units.last().buffer@[i],
        ));
    }
}

/// The pools after `n` single-threaded exchanges that always hand
/// back the task just dispatched, unexecuted or executed — the kinds
/// dispatched are the same either way.
pub open spec fn drain_state(p: Pools, t: TaskV, n: nat) -> Pools
    decreases n,
{
    if n == 0 {
        p
    } else {
        drain_state(p, t, (n - 1) as nat).step_state(drain_task(p, t, (n - 1) as nat))
    }
}

/// The task in hand after `n` such exchanges.
pub open spec fn drain_task(p: Pools, t: TaskV, n: nat) -> TaskV
    decreases n,
{
    if n == 0 {
        t
    } else {
        drain_state(p, t, (n - 1) as nat).step_task(drain_task(p, t, (n - 1) as nat))
    }
}

/// An all-idle start: every unit clean in its pool, nothing pending.
pub open spec fn all_idle(p: Pools) -> bool {
    &&& p.empty_sim.len() == p.sim_capacity
    &&& p.done_sim.len() == 0
    &&& p.empty_bin.len() == p.bin_capacity
    &&& p.done_bin.len() == 0
    &&& p.accum is Some
    &&& p.conv is Some
    &&& !p.accum_pending
}

/// While the binning batch is still filling, draining from an
/// all-idle start dispatches one `Simulate` per exchange.
proof fn lemma_drain_simulates(p: Pools, i: nat)
    requires
        all_idle(p),
        1 <= p.sim_capacity,
        1 <= p.bin_capacity,
        1 <= i <= p.bin_batch_threshold(),
    ensures
        drain_task(p, TaskV::Idle, i) is Simulate,
        drain_state(p, TaskV::Idle, i).empty_sim.len() == p.sim_capacity - i,
        drain_state(p, TaskV::Idle, i).done_sim.len() == i - 1,
        drain_state(p, TaskV::Idle, i).empty_bin == p.empty_bin,
        drain_state(p, TaskV::Idle, i).done_bin.len() == 0,
        drain_state(p, TaskV::Idle, i).accum is Some,
        drain_state(p, TaskV::Idle, i).conv is Some,
        !drain_state(p, TaskV::Idle, i).accum_pending,
        drain_state(p, TaskV::Idle, i).sim_capacity == p.sim_capacity,
        drain_state(p, TaskV::Idle, i).bin_capacity == p.bin_capacity,
    decreases i,
{
    assert(p.bin_batch_threshold() <= p.sim_capacity);
    if i == 1 {
        let q = p.integrate(TaskV::Idle);
        assert(q == p);
        assert(!q.convert_ready());
        assert(!q.accumulate_ready());
        assert(!q.bin_ready());
        assert(q.simulate_ready());
    } else {
        lemma_drain_simulates(p, (i - 1) as nat);
        let s = drain_state(p, TaskV::Idle, (i - 1) as nat);
        let t = drain_task(p, TaskV::Idle, (i - 1) as nat);
        let q = s.integrate(t);
        assert(q.done_sim.len() == i - 1);
        assert(q.empty_sim.len() == p.sim_capacity - (i - 1));
        assert(!q.convert_ready());
        assert(!q.accumulate_ready());
        assert(!q.bin_ready());
        assert(q.simulate_ready());
    }
}

/// Liveness: drained single-threadedly from an all-idle start, the
/// scheduler dispatches a `Convert` — and so produces an image —
/// within a number of exchanges bounded by the pool capacity: one
/// `Simulate` per exchange until the binning batch is full, then
/// `Bin`, then `Accumulate`, then `Convert`.
pub proof fn lemma_liveness(p: Pools)
    requires
        all_idle(p),
        1 <= p.sim_capacity,
        1 <= p.bin_capacity,
    ensures
        drain_task(p, TaskV::Idle, p.bin_batch_threshold() + 3) is Convert,
        p.bin_batch_threshold() + 3 <= p.sim_capacity + 3,
{
    let thr = p.bin_batch_threshold();
    lemma_drain_simulates(p, thr);
    let s1 = drain_state(p, TaskV::Idle, thr);
    let t1 = drain_task(p, TaskV::Idle, thr);
    let q1 = s1.integrate(t1);
    assert(q1.done_sim.len() == thr);
    assert(!q1.convert_ready());
    assert(!q1.accumulate_ready());
    assert(q1.bin_ready());
    let t2 = drain_task(p, TaskV::Idle, thr + 1);
    let s2 = drain_state(p, TaskV::Idle, thr + 1);
    assert(t2 is Bin);
    assert(s2.done_bin.len() == 0 && s2.accum is Some && s2.conv is Some && !s2.accum_pending);
    let q2 = s2.integrate(t2);
    assert(q2.done_bin.len() == 1);
    assert(!q2.convert_ready());
    assert(q2.accumulate_ready());
    let t3 = drain_task(p, TaskV::Idle, thr + 2);
    let s3 = drain_state(p, TaskV::Idle, thr + 2);
    assert(t3 is Accumulate);
    assert(s3.conv is Some && s3.accum is None);
    let q3 = s3.integrate(t3);
    assert(q3.accum is Some && q3.accum_pending);
    assert(q3.convert_ready());
    assert(drain_task(p, TaskV::Idle, thr + 3) is Convert);
}

} // verus!
