//! The checks and reports of the two-thread program.

use kumo_userland::threads::{
    balanced, canary, canary_is_intact, fairness_report, faults, handover_report, log_digit,
    peer_of, queue_report, round_mark, thread_number, PeerWatch, CANARY, CARRIED, ROUNDS,
};

#[test]
fn the_lowest_bit_is_the_thread() {
    assert_eq!(thread_number(7), 1);
    assert_eq!(thread_number(4), 0);
    assert_eq!(peer_of(0), 1);
    assert_eq!(peer_of(1), 0);
}

#[test]
fn a_foreign_pattern_is_noticed() {
    let mine = canary(0);
    let theirs = canary(1);
    assert_eq!(mine.len(), CANARY);
    assert_eq!(mine[63], 189);
    assert_eq!(theirs[63], 23);
    assert!(mine.iter().zip(&theirs).all(|(a, b)| a != b));
    assert!(canary_is_intact(&mine, 0));
    assert!(!canary_is_intact(&theirs, 0));
    assert_eq!(faults(&mine, CARRIED, 0), 0);
    assert_eq!(faults(&mine, CARRIED, 1), 2);
    assert_eq!(faults(&theirs, CARRIED, 0), 1);
}

#[test]
fn rounds_are_marked_by_thread_and_number() {
    assert_eq!(round_mark(0, 0), b"A0 ");
    assert_eq!(round_mark(1, 12), b"B12 ");
}

#[test]
fn the_handover_report_passes_only_whole_runs() {
    assert_eq!(
        handover_report(12, ROUNDS, ROUNDS, 0),
        b"\nthreads: handoffs=12 A=6 B=6 stack+reg faults=0 -> OK: two threads, one address space, futex handoff\n"
    );
    assert_eq!(
        handover_report(11, 6, 5, 0),
        b"\nthreads: handoffs=11 A=6 B=5 stack+reg faults=0 -> FAIL\n"
    );
    assert!(handover_report(12, 6, 6, 1).ends_with(b"-> FAIL\n"));
}

#[test]
fn balance_allows_twice_the_work_and_no_more() {
    assert!(balanced(10, 20, 8, 8));
    assert!(balanced(20, 10, 8, 8));
    assert!(!balanced(10, 21, 8, 8));
    assert!(!balanced(0, 0, 8, 8));
    assert!(!balanced(10, 10, 7, 8));
    assert!(balanced(u32::MAX, u32::MAX, 8, 8));
    assert_eq!(
        fairness_report(3, 4, 8, 9),
        b"threads: fair epochs A=8 B=9 work A=3 B=4 -> OK: equal-priority compute peers made even progress\n"
    );
    assert!(fairness_report(1, 9, 8, 8).ends_with(b" -> FAIL: unfair compute progress\n"));
}

#[test]
fn the_log_shows_the_order_of_the_jobs() {
    let mut log = 0;
    for digit in [1, 2, 3, 4] {
        log = log_digit(log, digit);
    }
    assert_eq!(log, 1234);
    assert_eq!(log_digit(u32::MAX, 1), u32::MAX);
    assert_eq!(
        queue_report(0, log, 40, true),
        b"threads: serial async log=1234 sync=40 -> OK: FIFO queue and synchronous completion\n"
    );
    assert!(queue_report(0, log, 40, false).ends_with(b" -> FAIL: serial queue\n"));
}

#[test]
fn a_moved_counter_is_one_more_epoch() {
    let mut watch = PeerWatch { last: 5, epochs: 0 };
    assert!(!watch.observe(5));
    assert!(watch.observe(9));
    assert!(!watch.observe(9));
    assert_eq!(watch.epochs, 1);
}
