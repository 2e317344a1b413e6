use kernel_core::pid_seq::remove_pid;
use kernel_core::scheduler::{RRScheduler, Scheduler};

#[test]
fn round_robin_selects_in_arrival_order() {
    let mut s = RRScheduler::new(2, 8);
    assert_eq!(s.select(), None);
    s.insert(5);
    s.insert(2);
    s.insert(7);
    assert_eq!(s.select(), Some(5));
    // Selecting leaves the pid in place.
    assert_eq!(s.select(), Some(5));
    s.remove(5);
    assert_eq!(s.select(), Some(2));
    s.insert(5);
    s.remove(2);
    assert_eq!(s.select(), Some(7));
    s.remove(7);
    assert_eq!(s.select(), Some(5));
    s.remove(5);
    assert_eq!(s.select(), None);
}

#[test]
fn round_robin_counts_the_slice_down() {
    let mut s = RRScheduler::new(2, 4);
    s.insert(1);
    s.remove(1);
    assert!(!s.tick(1));
    assert!(s.tick(1));
    // A used-up slice stays used up until the process is inserted again.
    assert!(s.tick(1));
    s.insert(1);
    s.remove(1);
    assert!(!s.tick(1));
}

#[test]
fn round_robin_keeps_an_unfinished_slice() {
    let mut s = RRScheduler::new(3, 4);
    s.insert(0);
    s.remove(0);
    assert!(!s.tick(0));
    s.insert(0);
    s.remove(0);
    assert!(!s.tick(0));
    assert!(s.tick(0));
}

#[test]
fn round_robin_has_no_slice_for_unknown_pids() {
    let mut s = RRScheduler::new(3, 2);
    assert!(s.tick(0));
    assert!(s.tick(9));
    s.insert(9);
    assert_eq!(s.select(), Some(9));
    s.remove(9);
    assert!(s.tick(9));
}

#[test]
fn round_robin_ignores_priorities() {
    let mut s = RRScheduler::new(3, 4);
    s.insert(0);
    s.insert(1);
    s.set_priority(1, 255);
    assert_eq!(s.select(), Some(0));
}

#[test]
fn round_robin_keeps_the_priorities_it_is_given() {
    let mut s = RRScheduler::new(3, 4);
    assert_eq!(s.priority_of(1), None);
    s.set_priority(1, 200);
    s.set_priority(9, 3);
    assert_eq!(s.priority_of(1), Some(200));
    assert_eq!(s.priority_of(9), Some(3));
    assert_eq!(s.priority_of(0), None);
    // The last priority given counts, and nothing else touches it.
    s.set_priority(1, 0);
    s.insert(1);
    assert!(!s.tick(1));
    s.remove(1);
    assert_eq!(s.priority_of(1), Some(0));
    assert_eq!(s.priority_of(9), Some(3));
}

#[test]
fn remove_pid_takes_every_occurrence_out() {
    let mut v = vec![3, 1, 3, 2];
    remove_pid(&mut v, 3);
    assert_eq!(v, vec![1, 2]);
    remove_pid(&mut v, 9);
    assert_eq!(v, vec![1, 2]);
    let mut e: Vec<usize> = Vec::new();
    remove_pid(&mut e, 0);
    assert!(e.is_empty());
}
