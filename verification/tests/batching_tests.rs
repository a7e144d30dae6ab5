use sale_actions::batching::make_batches;
use sale_actions::scheduler::{SchedEvent, SchedState, sched_step};

#[test]
fn batches_fill_then_flush_remainder() {
    let batches = make_batches(vec![1, 2, 3, 4, 5, 6, 7], 3);
    assert_eq!(batches, vec![vec![1, 2, 3], vec![4, 5, 6], vec![7]]);
}

#[test]
fn batches_of_one_keep_order() {
    let batches = make_batches(vec![10, 20, 30], 1);
    assert_eq!(batches, vec![vec![10], vec![20], vec![30]]);
}

#[test]
fn empty_input_flushes_nothing() {
    let batches: Vec<Vec<u64>> = make_batches(vec![], 4);
    assert!(batches.is_empty());
}

#[test]
fn exact_multiple_has_no_partial_batch() {
    let batches = make_batches(vec![1, 2, 3, 4], 2);
    assert_eq!(batches, vec![vec![1, 2], vec![3, 4]]);
}

#[test]
fn batch_sizes_do_not_change_content() {
    let items: Vec<u32> = (0..17).collect();
    for size in 1..6usize {
        let flat: Vec<u32> = make_batches(items.clone(), size).into_iter().flatten().collect();
        assert_eq!(flat, items);
    }
}

#[test]
fn scheduler_happy_loop() {
    let s = sched_step(SchedState::Starting, SchedEvent::StoreReachable);
    assert_eq!(s, SchedState::RunningPass);
    let s = sched_step(s, SchedEvent::PassComplete);
    assert_eq!(s, SchedState::Sleeping);
    let s = sched_step(s, SchedEvent::SleepElapsed);
    assert_eq!(s, SchedState::RunningPass);
}

#[test]
fn scheduler_unreachable_store_terminates() {
    let s = sched_step(SchedState::Starting, SchedEvent::StoreUnreachable);
    assert_eq!(s, SchedState::Terminated);
    assert_eq!(sched_step(s, SchedEvent::StoreReachable), SchedState::Terminated);
    assert_eq!(sched_step(s, SchedEvent::SleepElapsed), SchedState::Terminated);
}

#[test]
fn scheduler_ignores_unrelated_events() {
    assert_eq!(
        sched_step(SchedState::RunningPass, SchedEvent::SleepElapsed),
        SchedState::RunningPass
    );
    assert_eq!(
        sched_step(SchedState::Sleeping, SchedEvent::PassComplete),
        SchedState::Sleeping
    );
}
