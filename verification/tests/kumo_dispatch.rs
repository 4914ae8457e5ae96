//! Work queues and one-time initialization.

use kumo_userland::kumo_dispatch::{
    after_empty, ConcurrentQueue, Once, OnceEvent, OnceState, OnceStep, SerialQueue, SubmitError,
    WaitStep, WorkerError,
};
use std::cell::Cell;

type Job = fn(usize) -> usize;

fn double(value: usize) -> usize {
    value * 2
}

#[test]
fn once_runs_one_initializer_for_competing_callers() {
    let mut once = OnceState::Unstarted;
    assert_eq!(once.advance(OnceEvent::Look { caller: 1 }), OnceStep::Run);
    assert_eq!(once.advance(OnceEvent::Look { caller: 2 }), OnceStep::Wait);
    assert_eq!(
        once.advance(OnceEvent::Finish { caller: 2, result: 999 }),
        OnceStep::Wait
    );
    assert_eq!(
        once.advance(OnceEvent::Finish { caller: 1, result: 42 }),
        OnceStep::Return(42)
    );
    assert_eq!(
        once.advance(OnceEvent::Look { caller: 2 }),
        OnceStep::Return(42)
    );
    assert_eq!(once, OnceState::Complete { result: 42 });
}

#[test]
fn once_returns_the_first_result_to_later_callers() {
    let mut once = Once::new();
    assert!(!once.is_completed());
    assert_eq!(once.call_once(double, 21), 42);
    assert_eq!(once.call_once(double, 99), 42);
    assert!(once.is_completed());
}

#[test]
fn async_work_runs_fifo_on_one_worker() {
    let shared_log = Cell::new(0usize);
    let record = |digit: usize| {
        shared_log.set(shared_log.get() * 10 + digit);
        digit
    };
    let mut queue = SerialQueue::<_, 4>::new();
    for digit in [1, 2, 3] {
        queue.submit_async(record, digit).unwrap();
    }
    let worker = queue.worker().unwrap();
    assert_eq!(worker.run_n(&mut queue, 3), vec![1, 2, 3]);
    assert_eq!(shared_log.get(), 123);
    assert!(queue.is_empty());
}

#[test]
fn full_queue_rejects_without_reordering() {
    let mut queue = SerialQueue::<Job, 2>::new();
    queue.submit_async(double, 1).unwrap();
    queue.submit_async(double, 2).unwrap();
    assert_eq!(queue.submit_async(double, 3), Err(SubmitError::Full));
    let worker = queue.worker().unwrap();
    assert_eq!(worker.try_run_one(&mut queue), Some(2));
    assert_eq!(worker.try_run_one(&mut queue), Some(4));
    assert_eq!(worker.try_run_one(&mut queue), None);
}

#[test]
fn only_one_serial_worker_can_be_claimed() {
    let mut queue = SerialQueue::<Job, 1>::new();
    let worker = queue.worker().unwrap();
    assert!(matches!(queue.worker(), Err(WorkerError::AlreadyClaimed)));
    queue.release(worker);
    assert!(queue.worker().is_ok());
}

#[test]
fn concurrent_workers_execute_jobs_together() {
    let mut queue = ConcurrentQueue::<Job, 2>::new();
    queue.submit_async(double, 1).unwrap();
    queue.submit_async(double, 2).unwrap();
    let first = queue.worker();
    let second = queue.worker();
    assert_eq!(second.run_one(&mut queue), 2);
    assert_eq!(first.run_one(&mut queue), 4);
    assert!(queue.is_empty());
}

#[test]
fn concurrent_queue_preserves_bounded_backpressure() {
    let mut queue = ConcurrentQueue::<Job, 1>::new();
    queue.submit_async(double, 5).unwrap();
    assert_eq!(queue.submit_async(double, 6), Err(SubmitError::Full));
    assert_eq!(queue.submit_sync(double, 6), Err(SubmitError::Full));
    assert_eq!(queue.worker().try_run_one(&mut queue), Some(10));
    assert!(queue.is_empty());
}

#[test]
fn concurrent_sync_returns_a_peer_workers_result() {
    let mut queue = ConcurrentQueue::<Job, 1>::new();
    assert_eq!(queue.submit_sync(double, 21), Ok(42));
    assert!(queue.is_empty());
}

#[test]
fn synchronous_submit_returns_the_worker_result() {
    let mut queue = SerialQueue::<Job, 2>::new();
    let worker = queue.worker().unwrap();
    queue.submit_async(double, 1).unwrap();
    assert_eq!(queue.submit_sync(&worker, double, 21), Ok(42));
    assert!(queue.is_empty());
}

#[test]
fn zero_capacity_queue_is_total_and_always_full() {
    let mut queue = SerialQueue::<Job, 0>::new();
    assert_eq!(queue.capacity(), 0);
    assert_eq!(queue.submit_async(double, 1), Err(SubmitError::Full));
    assert!(queue.is_empty());
}

#[test]
fn slots_are_reused_in_order() {
    let mut queue = SerialQueue::<Job, 2>::new();
    let worker = queue.worker().unwrap();
    for round in 0..5 {
        queue.submit_async(double, round).unwrap();
        queue.submit_async(double, round + 10).unwrap();
        assert_eq!(queue.len(), 2);
        assert_eq!(worker.run_one(&mut queue), round * 2);
        assert_eq!(worker.run_one(&mut queue), (round + 10) * 2);
    }
}

#[test]
fn a_worker_parks_only_on_an_unchanged_queue() {
    assert_eq!(after_empty(3, 3), WaitStep::Park);
    assert_eq!(after_empty(3, 4), WaitStep::Retry);
}

#[test]
fn waiting_work_runs_before_a_synchronous_result() {
    let shared_log = Cell::new(0usize);
    let record = |digit: usize| {
        shared_log.set(shared_log.get() * 10 + digit);
        digit
    };
    let mut serial = SerialQueue::<_, 4>::new();
    let worker = serial.worker().unwrap();
    serial.submit_async(record, 1).unwrap();
    serial.submit_async(record, 2).unwrap();
    assert_eq!(serial.submit_sync(&worker, record, 3), Ok(3));
    let mut concurrent = ConcurrentQueue::<_, 4>::new();
    concurrent.submit_async(record, 4).unwrap();
    assert_eq!(concurrent.submit_sync(record, 5), Ok(5));
    assert_eq!(shared_log.get(), 12345);
}

#[test]
fn each_queue_has_a_worker_of_its_own() {
    let mut one = SerialQueue::<Job, 1>::new();
    let mut other = SerialQueue::<Job, 1>::new();
    let first = one.worker().unwrap();
    let second = other.worker().unwrap();
    assert!(one.worker().is_err() && other.worker().is_err());
    one.release(first);
    let again = one.worker().unwrap();
    assert!(other.worker().is_err());
    other.submit_async(double, 4).unwrap();
    assert_eq!(second.run_one(&mut other), 8);
    assert_eq!(again.try_run_one(&mut one), None);
}

#[test]
fn call_once_runs_only_the_first_initializer() {
    let runs = Cell::new(0usize);
    let strangers = Cell::new(0usize);
    let mut once = Once::new();
    let first = |value: usize| {
        runs.set(runs.get() + 1);
        value * 2
    };
    let second = |_value: usize| {
        strangers.set(strangers.get() + 1);
        7
    };
    assert!(!once.is_completed());
    assert_eq!(once.call_once(first, 21), 42);
    assert_eq!(once.call_once(second, 99), 42);
    assert_eq!(once.call_once(first, 1), 42);
    assert!(once.is_completed());
    assert_eq!(runs.get(), 1);
    assert_eq!(strangers.get(), 0);
}

#[test]
fn refused_work_is_not_run() {
    let runs = Cell::new(0usize);
    let count = |value: usize| {
        runs.set(runs.get() + 1);
        value
    };
    let mut serial = SerialQueue::<_, 1>::new();
    let worker = serial.worker().unwrap();
    serial.submit_async(count, 1).unwrap();
    assert_eq!(serial.submit_async(count, 2), Err(SubmitError::Full));
    assert_eq!(serial.submit_sync(&worker, count, 3), Err(SubmitError::Full));
    let mut concurrent = ConcurrentQueue::<_, 1>::new();
    concurrent.submit_async(count, 4).unwrap();
    assert_eq!(concurrent.submit_async(count, 5), Err(SubmitError::Full));
    assert_eq!(concurrent.submit_sync(count, 6), Err(SubmitError::Full));
    assert_eq!(runs.get(), 0);
}
