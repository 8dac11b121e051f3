//! Buffer work of the data stages, and the facade's stop behaviour.

use robigo_luculenta::facade::{execute_data_stages, App};
use robigo_luculenta::task::Task;
use robigo_luculenta::units::{
    execute_accumulate_task, execute_bin_task, new_buffer, sat_add, AccumulationUnit, BinningUnit,
    Sample, SimulationUnit,
};

#[test]
fn bin_deposits_additively_and_clears_sources() {
    let mut target = BinningUnit { id: 0, buffer: new_buffer(4) };
    let mut sources = vec![
        SimulationUnit {
            id: 0,
            samples: vec![
                Sample { cell: 0, amount: 5 },
                Sample { cell: 3, amount: 7 },
                Sample { cell: 0, amount: 1 },
            ],
        },
        SimulationUnit { id: 1, samples: vec![Sample { cell: 2, amount: 4 }] },
    ];
    execute_bin_task(&mut target, &mut sources);
    assert_eq!(target.buffer, vec![6, 0, 4, 7]);
    assert_eq!(sources.len(), 2);
    assert!(sources.iter().all(|u| u.samples.is_empty()));
}

#[test]
fn accumulate_reflects_totals_once_and_zeroes_sources() {
    let mut target = AccumulationUnit { id: 0, buffer: vec![1, 2, 3] };
    let mut sources = vec![
        BinningUnit { id: 0, buffer: vec![10, 20, 30] },
        BinningUnit { id: 1, buffer: vec![1, 1, 1] },
    ];
    execute_accumulate_task(&mut target, &mut sources);
    // Every source total is reflected exactly once in the running sum.
    assert_eq!(target.buffer, vec![12, 23, 34]);
    // Every source buffer is entirely zeroed, its length kept.
    for source in &sources {
        assert_eq!(source.buffer, vec![0, 0, 0]);
    }
}

#[test]
fn clamped_addition_clamps_at_the_top() {
    assert_eq!(sat_add(2, 3), 5);
    assert_eq!(sat_add(u64::MAX, 1), u64::MAX);
    assert_eq!(sat_add(u64::MAX - 1, 1), u64::MAX);
    let mut target = AccumulationUnit { id: 0, buffer: vec![u64::MAX - 1] };
    let mut sources = vec![BinningUnit { id: 0, buffer: vec![5] }];
    execute_accumulate_task(&mut target, &mut sources);
    assert_eq!(target.buffer, vec![u64::MAX]);
}

#[test]
fn data_stages_leave_other_tasks_unchanged() {
    let done = execute_data_stages(Task::Idle);
    assert!(matches!(done, Task::Idle));
    let unit = SimulationUnit { id: 3, samples: vec![Sample { cell: 0, amount: 9 }] };
    let done = execute_data_stages(Task::Simulate(unit));
    match done {
        Task::Simulate(u) => {
            assert_eq!(u.id, 3);
            assert_eq!(u.samples.len(), 1);
        },
        _ => panic!("expected a Simulate task"),
    }
}

#[test]
fn data_stages_execute_bin() {
    let target = BinningUnit { id: 0, buffer: new_buffer(2) };
    let sources = vec![SimulationUnit { id: 0, samples: vec![Sample { cell: 1, amount: 8 }] }];
    let done = execute_data_stages(Task::Bin(target, sources));
    match done {
        Task::Bin(b, s) => {
            assert_eq!(b.buffer, vec![0, 8]);
            assert!(s[0].samples.is_empty());
        },
        _ => panic!("expected a Bin task"),
    }
}

#[test]
fn new_buffer_is_zeroed() {
    let v = new_buffer(6);
    assert_eq!(v, vec![0, 0, 0, 0, 0, 0]);
}

#[test]
fn facade_hands_out_work_until_stopped() {
    let mut app = App::new(1, 2, 2);
    let first = app.complete_and_get_next(Task::Idle);
    assert!(matches!(first, Some(Task::Simulate(_))));
    app.request_stop();
    // After the stop no new task goes out, whatever is handed back;
    // the worker terminates at the next task boundary.
    let next = app.complete_and_get_next(first.unwrap());
    assert!(next.is_none());
    let again = app.complete_and_get_next(Task::Idle);
    assert!(again.is_none());
}
