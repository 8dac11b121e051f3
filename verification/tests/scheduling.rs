//! Scheduler behaviour: priority order, batching, back-pressure.

use robigo_luculenta::scheduler::Scheduler;
use robigo_luculenta::task::Task;

#[test]
fn initial_dispatch_is_simulate() {
    let mut s = Scheduler::with_capacities(4, 2, 4, 2);
    let t = s.complete_and_get_next(Task::Idle);
    assert!(matches!(t, Task::Simulate(_)));
    assert_eq!(s.empty_simulation_count(), 3);
    assert_eq!(s.ready_simulation_count(), 0);
}

#[test]
fn scenario_two_simulates_then_bin() {
    // Capacities {Simulation: 4, Binning: 2, Accumulation: 1,
    // Conversion: 1}; the binning batch threshold is 2.
    let mut s = Scheduler::with_capacities(4, 2, 4, 2);
    let t1 = s.complete_and_get_next(Task::Idle);
    assert!(matches!(t1, Task::Simulate(_)));
    // Completing the first simulation yields another Simulate: only
    // one batch is ready, the binning stage still waits.
    let t2 = s.complete_and_get_next(t1);
    assert!(matches!(t2, Task::Simulate(_)));
    // After two completed simulations the next dispatch is Bin, with
    // both completed units as sources.
    let t3 = s.complete_and_get_next(t2);
    match t3 {
        Task::Bin(_, ref sources) => assert_eq!(sources.len(), 2),
        _ => panic!("expected a Bin task"),
    }
    assert_eq!(s.ready_simulation_count(), 0);
    assert_eq!(s.empty_binning_count(), 1);
}

#[test]
fn bin_waits_for_full_batch() {
    // Simulation capacity 6: the binning stage waits for 3 batches.
    let mut s = Scheduler::with_capacities(6, 3, 2, 2);
    assert_eq!(s.bin_batch_threshold(), 3);
    let mut t = s.complete_and_get_next(Task::Idle);
    for _ in 0..2 {
        assert!(matches!(t, Task::Simulate(_)));
        t = s.complete_and_get_next(t);
    }
    // Two batches are ready: still Simulate.
    assert!(matches!(t, Task::Simulate(_)));
    t = s.complete_and_get_next(t);
    match t {
        Task::Bin(_, ref sources) => assert_eq!(sources.len(), 3),
        _ => panic!("expected a Bin task"),
    }
}

#[test]
fn exchange_reaches_convert_within_bound() {
    // Single-threaded draining from an all-idle pool reaches a
    // Convert within bin_batch_threshold + 3 exchanges.
    let mut s = Scheduler::with_capacities(4, 2, 2, 2);
    let bound = s.bin_batch_threshold() + 3;
    let mut t = s.complete_and_get_next(Task::Idle);
    let mut exchanges = 1;
    let mut kinds = Vec::new();
    while !t.is_convert() {
        assert!(exchanges < bound, "no Convert within {} exchanges", bound);
        kinds.push(kind_name(&t));
        t = s.complete_and_get_next(t);
        exchanges += 1;
    }
    assert_eq!(exchanges, bound);
    assert_eq!(kinds, vec!["Simulate", "Simulate", "Bin", "Accumulate"]);
}

#[test]
fn convert_has_priority() {
    // Drive the pipeline until contributions are pending; even with
    // simulation work simultaneously dispatchable, the next dispatch
    // is Convert.
    let mut s = Scheduler::with_capacities(4, 2, 2, 2);
    let mut t = s.complete_and_get_next(Task::Idle);
    while !matches!(t, Task::Accumulate(_, _)) {
        t = s.complete_and_get_next(t);
    }
    // Completing the Accumulate marks unconverted contributions; the
    // conversion unit is idle, so Convert wins over everything else.
    let next = s.complete_and_get_next(t);
    assert!(s.has_unconverted_contributions() == false);
    assert!(matches!(next, Task::Convert(_, _)));
    assert!(s.empty_simulation_count() > 0, "simulation work was also dispatchable");
}

#[test]
fn idle_when_all_units_in_flight() {
    // One simulation unit, one binning unit; a second worker asking
    // for work while the only simulation unit is in flight gets the
    // Idle back-pressure signal.
    let mut s = Scheduler::with_capacities(1, 1, 2, 2);
    let first = s.complete_and_get_next(Task::Idle);
    assert!(matches!(first, Task::Simulate(_)));
    let second = s.complete_and_get_next(Task::Idle);
    assert!(matches!(second, Task::Idle));
}

#[test]
fn distinct_workers_get_distinct_units() {
    // Exclusivity: two concurrently dispatched tasks never reference
    // the same unit instance.
    let mut s = Scheduler::with_capacities(3, 1, 2, 2);
    let a = s.complete_and_get_next(Task::Idle);
    let b = s.complete_and_get_next(Task::Idle);
    let c = s.complete_and_get_next(Task::Idle);
    let ids: Vec<usize> = [&a, &b, &c]
        .iter()
        .map(|t| match t {
            Task::Simulate(u) => u.id,
            _ => panic!("expected Simulate tasks"),
        })
        .collect();
    assert_ne!(ids[0], ids[1]);
    assert_ne!(ids[0], ids[2]);
    assert_ne!(ids[1], ids[2]);
}

#[test]
fn pool_conservation_under_draining() {
    // For every unit kind, idle + in-flight stays equal to the
    // capacity across a long run of exchanges.
    let mut s = Scheduler::with_capacities(4, 2, 2, 2);
    let mut t = s.complete_and_get_next(Task::Idle);
    for _ in 0..50 {
        let (sim_in_flight, bin_in_flight, accum_in_flight, conv_in_flight) = count_units(&t);
        assert_eq!(s.empty_simulation_count() + s.ready_simulation_count() + sim_in_flight, 4);
        assert_eq!(s.empty_binning_count() + s.ready_binning_count() + bin_in_flight, 2);
        assert_eq!(if s.accumulation_idle() { 1 } else { 0 } + accum_in_flight, 1);
        assert_eq!(if s.conversion_idle() { 1 } else { 0 } + conv_in_flight, 1);
        t = s.complete_and_get_next(t);
    }
}

fn count_units(t: &Task) -> (usize, usize, usize, usize) {
    match t {
        Task::Idle => (0, 0, 0, 0),
        Task::Simulate(_) => (1, 0, 0, 0),
        Task::Bin(_, sources) => (sources.len(), 1, 0, 0),
        Task::Accumulate(_, sources) => (0, sources.len(), 1, 0),
        Task::Convert(_, _) => (0, 0, 1, 1),
    }
}

fn kind_name(t: &Task) -> &'static str {
    match t {
        Task::Idle => "Idle",
        Task::Simulate(_) => "Simulate",
        Task::Bin(_, _) => "Bin",
        Task::Accumulate(_, _) => "Accumulate",
        Task::Convert(_, _) => "Convert",
    }
}
