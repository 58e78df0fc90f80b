use eepsort::collect::{collect_results, collect_step};
use eepsort::delay::{delay_of, delays_of, next_action, WorkerAction};
use std::sync::mpsc;

/// Sends each value on a fresh channel in the order given, closes it, and runs
/// the collector over what arrives, as the sort does after joining its workers.
fn drain(order: &[i64]) -> Vec<i64> {
    let (tx, rx) = mpsc::channel();
    for &v in order {
        tx.send(Some(v)).unwrap();
    }
    drop(tx);
    let mut results = vec![];
    while let Ok(m) = rx.recv() {
        if !collect_step(&mut results, m) {
            break;
        }
    }
    results
}

/// The order in which workers with these delays finish: by delay, ties in
/// input order.
fn finish_order(values: &[i64]) -> Vec<i64> {
    let delays = delays_of(&values.to_vec()).expect("valid input");
    let mut idx: Vec<usize> = (0..values.len()).collect();
    idx.sort_by_key(|&i| delays[i]);
    idx.into_iter().map(|i| values[i]).collect()
}

#[test]
fn delay_is_the_value_in_nanoseconds() {
    assert_eq!(delay_of(0), Some(0));
    assert_eq!(delay_of(12783), Some(12783));
    assert_eq!(delay_of(i64::MAX), Some(i64::MAX as u64));
}

#[test]
fn negative_value_is_rejected() {
    assert_eq!(delay_of(-1), None);
    assert_eq!(delays_of(&vec![-1]), None);
    assert_eq!(delays_of(&vec![4, -1, 2]), None);
    assert_eq!(delays_of(&vec![i64::MIN]), None);
}

#[test]
fn delays_keep_input_order() {
    assert_eq!(delays_of(&vec![6, 10, 8]), Some(vec![6u64, 10, 8]));
}

#[test]
fn empty_input_gives_empty_output() {
    assert_eq!(delays_of(&vec![]), Some(vec![]));
    assert_eq!(collect_results(&vec![]), Vec::<i64>::new());
    assert_eq!(drain(&[]), Vec::<i64>::new());
}

#[test]
fn single_zero_element() {
    assert_eq!(delays_of(&vec![0]), Some(vec![0u64]));
    assert_eq!(next_action(0, 0), WorkerAction::Emit);
    assert_eq!(drain(&finish_order(&[0])), vec![0]);
}

#[test]
fn worker_waits_again_for_the_shortfall() {
    assert_eq!(next_action(100, 40), WorkerAction::Sleep(60));
    assert_eq!(next_action(100, 99), WorkerAction::Sleep(1));
    assert_eq!(next_action(u64::MAX, 0), WorkerAction::Sleep(u64::MAX));
}

#[test]
fn worker_emits_once_the_delay_has_passed() {
    assert_eq!(next_action(100, 100), WorkerAction::Emit);
    assert_eq!(next_action(100, 250), WorkerAction::Emit);
    assert_eq!(next_action(5, u128::MAX), WorkerAction::Emit);
}

#[test]
fn collect_step_appends_or_stops() {
    let mut results = vec![1i64];
    assert!(collect_step(&mut results, Some(7)));
    assert_eq!(results, vec![1, 7]);
    assert!(!collect_step(&mut results, None));
    assert_eq!(results, vec![1, 7]);
}

#[test]
fn collector_keeps_arrival_order() {
    assert_eq!(collect_results(&vec![Some(9), Some(2), Some(5)]), vec![9, 2, 5]);
}

#[test]
fn collector_stops_at_end_marker() {
    assert_eq!(collect_results(&vec![Some(1), None, Some(2)]), vec![1]);
    assert_eq!(collect_results(&vec![None, Some(3)]), Vec::<i64>::new());
}

#[test]
fn output_is_a_permutation_of_the_input() {
    let arrived = [562i64, 6, 1269, 10, 6];
    let mut out = drain(&arrived);
    assert_eq!(out.len(), arrived.len());
    out.sort();
    assert_eq!(out, vec![6, 6, 10, 562, 1269]);
}

#[test]
fn duplicates_are_all_kept() {
    let out = drain(&finish_order(&[5, 5, 3]));
    assert_eq!(out, vec![3, 5, 5]);
}

#[test]
fn spaced_input_comes_out_sorted() {
    let numbers: Vec<i64> = vec![6, 10, 8, 273, 562, 1269, 1237, 1471, 1236, 12783];
    let out = drain(&finish_order(&numbers));
    assert_eq!(out, vec![6, 8, 10, 273, 562, 1236, 1237, 1269, 1471, 12783]);
}
