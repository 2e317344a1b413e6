use kernel_core::process_manager::{new_vec_default, Context, ProcessManager, Status};
use kernel_core::scheduler::RRScheduler;
use std::cell::RefCell;
use std::rc::Rc;

#[derive(Debug, PartialEq)]
struct Regs(u32);

impl Context for Regs {
    fn switch_to(&mut self, _target: &mut Self) {}
}

type ExitLog = Rc<RefCell<Vec<usize>>>;

fn manager(
    slots: usize,
) -> (ProcessManager<RRScheduler, Regs, impl Fn(usize)>, ExitLog) {
    let log: ExitLog = Rc::new(RefCell::new(Vec::new()));
    let sink = log.clone();
    let manager = ProcessManager::new(RRScheduler::new(3, slots), slots, move |pid: usize| {
        sink.borrow_mut().push(pid)
    });
    (manager, log)
}

#[test]
fn new_manager_has_empty_slots() {
    let (m, log) = manager(4);
    assert_eq!(m.max_proc_num(), 4);
    assert_eq!(m.get_time(), 0);
    for pid in 0..4 {
        assert_eq!(m.get_status(pid), None);
    }
    assert_eq!(m.get_status(4), None);
    assert_eq!(m.alloc_pid(), Some(0));
    assert!(log.borrow().is_empty());
}

#[test]
fn new_vec_default_fills_with_defaults() {
    let v: Vec<Option<u8>> = new_vec_default(3);
    assert_eq!(v, vec![None, None, None]);
    let w: Vec<usize> = new_vec_default(0);
    assert!(w.is_empty());
}

#[test]
fn added_process_is_ready_and_scheduled() {
    let (mut m, _) = manager(4);
    let a = m.add(Regs(10));
    assert_eq!(a, 0);
    assert_eq!(m.get_status(a), Some(Status::Ready));
    let b = m.add(Regs(11));
    assert_eq!(b, 1);
    assert_eq!(m.get_status(b), Some(Status::Ready));
    // Both are with the scheduler, in the order in which they came.
    assert_eq!(m.run(0), Some((0, Regs(10))));
    assert_eq!(m.run(1), Some((1, Regs(11))));
    assert_eq!(m.run(2), None);
}

#[test]
fn add_takes_the_lowest_empty_slot() {
    let (mut m, _) = manager(3);
    assert_eq!(m.add(Regs(0)), 0);
    assert_eq!(m.add(Regs(1)), 1);
    assert_eq!(m.add(Regs(2)), 2);
    assert_eq!(m.alloc_pid(), None);
    m.exit(1, 0);
    m.remove(1);
    assert_eq!(m.alloc_pid(), Some(1));
    assert_eq!(m.add(Regs(3)), 1);
    assert_eq!(m.get_status(1), Some(Status::Ready));
}

#[test]
fn only_ready_processes_are_scheduled() {
    let (mut m, _) = manager(5);
    let ready = m.add(Regs(0));
    let sleeping = m.add(Regs(1));
    let waiting = m.add(Regs(2));
    let exited = m.add(Regs(3));
    let running = m.add(Regs(4));
    m.sleep(sleeping, 0);
    m.wait(waiting, ready);
    m.exit(exited, 1);
    let context = m.dispatch(running, 0);
    assert_eq!(context, Regs(4));
    assert_eq!(m.get_status(running), Some(Status::Running(0)));
    // The scheduler offers the one ready process and nothing after it.
    assert_eq!(m.run(1), Some((ready, Regs(0))));
    assert_eq!(m.run(2), None);
}

#[test]
fn sleep_without_timer_then_wakeup() {
    let (mut m, _) = manager(2);
    let a = m.add(Regs(0));
    m.sleep(a, 0);
    assert_eq!(m.get_status(a), Some(Status::Sleeping));
    for _ in 0..10 {
        m.tick(1);
    }
    assert_eq!(m.get_status(a), Some(Status::Sleeping));
    assert_eq!(m.run(0), None);
    m.wakeup(a);
    assert_eq!(m.get_status(a), Some(Status::Ready));
    assert_eq!(m.run(0), Some((a, Regs(0))));
}

#[test]
fn wakeup_of_a_ready_process_changes_nothing() {
    let (mut m, _) = manager(2);
    let a = m.add(Regs(0));
    m.wakeup(a);
    m.wakeup(a);
    assert_eq!(m.get_status(a), Some(Status::Ready));
    assert_eq!(m.run(0), Some((a, Regs(0))));
    assert_eq!(m.run(0), None);
}

#[test]
fn sleep_ends_at_its_tick_and_not_before() {
    let (mut m, _) = manager(2);
    let a = m.add(Regs(0));
    m.sleep(a, 4);
    for _ in 0..3 {
        m.tick(1);
        assert_eq!(m.get_status(a), Some(Status::Sleeping));
    }
    m.tick(1);
    assert_eq!(m.get_status(a), Some(Status::Ready));
    assert_eq!(m.get_time(), 4);
    assert_eq!(m.run(0), Some((a, Regs(0))));
}

#[test]
fn timers_fire_each_at_its_own_tick() {
    let (mut m, _) = manager(3);
    let a = m.add(Regs(0));
    let b = m.add(Regs(1));
    let c = m.add(Regs(2));
    m.sleep(a, 2);
    m.sleep(b, 1);
    m.sleep(c, 2);
    m.tick(0);
    assert_eq!(m.get_status(a), Some(Status::Sleeping));
    assert_eq!(m.get_status(b), Some(Status::Ready));
    assert_eq!(m.get_status(c), Some(Status::Sleeping));
    m.tick(0);
    assert_eq!(m.get_status(a), Some(Status::Ready));
    assert_eq!(m.get_status(c), Some(Status::Ready));
    // Woken in the order in which the wakeups were due and pushed.
    assert_eq!(m.run(0).map(|r| r.0), Some(b));
    assert_eq!(m.run(0).map(|r| r.0), Some(a));
    assert_eq!(m.run(0).map(|r| r.0), Some(c));
}

#[test]
fn wakeup_for_an_exited_or_removed_process_is_dropped() {
    let (mut m, log) = manager(2);
    let a = m.add(Regs(0));
    let b = m.add(Regs(1));
    m.sleep(a, 1);
    m.sleep(b, 2);
    m.exit(a, 3);
    m.exit(b, 4);
    m.remove(b);
    m.tick(0);
    m.tick(0);
    assert_eq!(m.get_status(a), Some(Status::Exited(3)));
    assert_eq!(m.get_status(b), None);
    assert_eq!(*log.borrow(), vec![a, b]);
}

#[test]
fn wait_then_exit_wakes_the_waiter() {
    let (mut m, log) = manager(3);
    let a = m.add(Regs(0));
    let b = m.add(Regs(1));
    m.wait(a, b);
    assert_eq!(m.get_status(a), Some(Status::Waiting(b)));
    m.exit(b, 7);
    assert_eq!(m.get_status(a), Some(Status::Ready));
    assert_eq!(m.get_status(b), Some(Status::Exited(7)));
    // A is with the scheduler once, and the exit handler ran once, for B.
    assert_eq!(m.run(0), Some((a, Regs(0))));
    assert_eq!(m.run(0), None);
    assert_eq!(*log.borrow(), vec![b]);
}

#[test]
fn exit_wakes_every_waiter_in_order() {
    let (mut m, log) = manager(4);
    let target = m.add(Regs(0));
    let w1 = m.add(Regs(1));
    let w2 = m.add(Regs(2));
    let w3 = m.add(Regs(3));
    m.wait(w2, target);
    m.wait(w1, target);
    m.wait(w3, target);
    m.exit(target, 9);
    assert_eq!(*log.borrow(), vec![target]);
    assert_eq!(m.run(0).map(|r| r.0), Some(w2));
    assert_eq!(m.run(0).map(|r| r.0), Some(w1));
    assert_eq!(m.run(0).map(|r| r.0), Some(w3));
    assert_eq!(m.run(0), None);
}

#[test]
fn a_waiter_that_stops_waiting_is_not_woken_later() {
    let (mut m, _) = manager(3);
    let a = m.add(Regs(0));
    let b = m.add(Regs(1));
    m.wait(a, b);
    m.wakeup(a);
    m.sleep(a, 0);
    m.exit(b, 0);
    assert_eq!(m.get_status(a), Some(Status::Sleeping));
}

#[test]
fn a_waiter_that_exits_leaves_the_queue() {
    let (mut m, log) = manager(3);
    let a = m.add(Regs(0));
    let b = m.add(Regs(1));
    m.wait(a, b);
    m.exit(a, 1);
    m.exit(b, 2);
    assert_eq!(m.get_status(a), Some(Status::Exited(1)));
    assert_eq!(m.get_status(b), Some(Status::Exited(2)));
    assert_eq!(*log.borrow(), vec![a, b]);
}

#[test]
fn remove_empties_the_slot_of_an_exited_process() {
    let (mut m, _) = manager(2);
    let a = m.add(Regs(0));
    m.exit(a, 5);
    assert_eq!(m.get_status(a), Some(Status::Exited(5)));
    m.remove(a);
    assert_eq!(m.get_status(a), None);
}

#[test]
fn run_then_stop_gives_the_process_back_once() {
    let (mut m, log) = manager(2);
    let a = m.add(Regs(42));
    let (pid, context) = m.run(3).unwrap();
    assert_eq!(pid, a);
    assert_eq!(context, Regs(42));
    assert_eq!(m.get_status(a), Some(Status::Running(3)));
    assert_eq!(m.run(3), None);
    m.stop(pid, context);
    assert_eq!(m.get_status(a), Some(Status::Ready));
    assert_eq!(m.run(1), Some((a, Regs(42))));
    assert_eq!(m.run(1), None);
    assert!(log.borrow().is_empty());
}

#[test]
fn status_of_a_running_process_is_staged_until_stop() {
    let (mut m, _) = manager(2);
    let a = m.add(Regs(0));
    let (pid, context) = m.run(0).unwrap();
    m.sleep(a, 0);
    assert_eq!(m.get_status(a), Some(Status::Running(0)));
    m.stop(pid, context);
    assert_eq!(m.get_status(a), Some(Status::Sleeping));
    assert_eq!(m.run(0), None);
    m.wakeup(a);
    assert_eq!(m.run(0).map(|r| r.0), Some(a));
}

#[test]
fn exit_of_a_running_process_is_finished_at_stop() {
    let (mut m, log) = manager(3);
    let a = m.add(Regs(0));
    let b = m.add(Regs(1));
    m.wait(b, a);
    let (pid, context) = m.run(0).unwrap();
    assert_eq!(pid, a);
    m.exit(a, 6);
    assert_eq!(m.get_status(a), Some(Status::Running(0)));
    assert_eq!(m.get_status(b), Some(Status::Waiting(a)));
    assert!(log.borrow().is_empty());
    m.stop(pid, context);
    assert_eq!(m.get_status(a), Some(Status::Exited(6)));
    assert_eq!(m.get_status(b), Some(Status::Ready));
    assert_eq!(*log.borrow(), vec![a]);
    m.remove(a);
    assert_eq!(m.get_status(a), None);
}

#[test]
fn a_running_waiter_is_woken_before_it_stops() {
    let (mut m, _) = manager(3);
    let a = m.add(Regs(0));
    let b = m.add(Regs(1));
    let (pid, context) = m.run(0).unwrap();
    assert_eq!(pid, a);
    m.wait(a, b);
    m.exit(b, 0);
    m.stop(pid, context);
    assert_eq!(m.get_status(a), Some(Status::Ready));
    assert_eq!(m.run(0).map(|r| r.0), Some(a));
}

#[test]
fn set_status_moves_between_scheduler_and_queues() {
    let (mut m, _) = manager(3);
    let a = m.add(Regs(0));
    let b = m.add(Regs(1));
    m.set_status(a, Status::Waiting(b));
    assert_eq!(m.get_status(a), Some(Status::Waiting(b)));
    assert_eq!(m.run(0).map(|r| r.0), Some(b));
    m.set_status(a, Status::Ready);
    assert_eq!(m.run(0).map(|r| r.0), Some(a));
}

#[test]
fn tick_reports_the_end_of_the_time_slice() {
    let (mut m, _) = manager(2);
    let a = m.add(Regs(0));
    let (pid, _context) = m.run(0).unwrap();
    assert_eq!(pid, a);
    // The round-robin scheduler was made with slices of 3 ticks.
    assert!(!m.tick(a));
    assert!(!m.tick(a));
    assert!(m.tick(a));
    assert_eq!(m.get_time(), 3);
}

#[test]
fn set_priority_changes_no_status() {
    let (mut m, _) = manager(2);
    let a = m.add(Regs(0));
    m.set_priority(a, 200);
    assert_eq!(m.get_status(a), Some(Status::Ready));
    assert_eq!(m.run(0).map(|r| r.0), Some(a));
}

#[test]
fn a_tick_is_wakeups_then_accounting() {
    let (mut m, _) = manager(2);
    let a = m.add(Regs(0));
    let b = m.add(Regs(1));
    m.sleep(b, 1);
    let (pid, _context) = m.run(0).unwrap();
    assert_eq!(pid, a);
    m.wake_due();
    assert_eq!(m.get_time(), 1);
    assert_eq!(m.get_status(b), Some(Status::Ready));
    assert!(!m.account_tick(a));
    assert!(!m.account_tick(a));
    assert!(m.account_tick(a));
    // Accounting moves no clock.
    assert_eq!(m.get_time(), 1);
}

#[test]
fn waiting_twice_for_the_same_process_queues_once() {
    let (mut m, _) = manager(3);
    let a = m.add(Regs(0));
    let b = m.add(Regs(1));
    m.wait(a, b);
    m.wait(a, b);
    m.exit(b, 0);
    assert_eq!(m.get_status(a), Some(Status::Ready));
    assert_eq!(m.run(0).map(|r| r.0), Some(a));
    assert_eq!(m.run(0), None);
}

#[test]
fn a_waiter_that_waits_for_another_leaves_the_first_queue() {
    let (mut m, _) = manager(3);
    let a = m.add(Regs(0));
    let b = m.add(Regs(1));
    let c = m.add(Regs(2));
    m.wait(a, b);
    m.wait(a, c);
    m.exit(b, 0);
    assert_eq!(m.get_status(a), Some(Status::Waiting(c)));
    m.exit(c, 0);
    assert_eq!(m.get_status(a), Some(Status::Ready));
}

#[test]
fn a_process_that_waits_for_itself_can_still_exit() {
    let (mut m, log) = manager(2);
    let a = m.add(Regs(0));
    m.wait(a, a);
    assert_eq!(m.get_status(a), Some(Status::Waiting(a)));
    m.exit(a, 3);
    assert_eq!(m.get_status(a), Some(Status::Exited(3)));
    assert_eq!(*log.borrow(), vec![a]);
    m.remove(a);
    assert_eq!(m.get_status(a), None);
}

#[test]
fn waiting_for_an_empty_slot_lasts_until_a_process_there_exits() {
    let (mut m, _) = manager(3);
    let a = m.add(Regs(0));
    m.wait(a, 2);
    assert_eq!(m.get_status(a), Some(Status::Waiting(2)));
    let b = m.add(Regs(1));
    let c = m.add(Regs(2));
    assert_eq!((b, c), (1, 2));
    m.exit(c, 0);
    assert_eq!(m.get_status(a), Some(Status::Ready));
}

#[test]
fn a_pending_exit_can_be_overwritten_before_the_stop() {
    let (mut m, log) = manager(2);
    let a = m.add(Regs(0));
    let (pid, context) = m.run(0).unwrap();
    m.exit(a, 1);
    m.sleep(a, 0);
    m.stop(pid, context);
    assert_eq!(m.get_status(a), Some(Status::Sleeping));
    assert!(log.borrow().is_empty());
}

#[test]
fn manager_tells_which_status_can_be_set() {
    let (mut m, _) = manager(2);
    let a = m.add(Regs(0));
    assert!(m.can_set_status(a, Status::Sleeping));
    assert!(m.can_set_status(a, Status::Ready));
    assert!(m.can_set_status(a, Status::Exited(1)));
    assert!(m.can_set_status(a, Status::Waiting(1)));
    // There is no slot 2, no process 1, and only run() makes a process running.
    assert!(!m.can_set_status(a, Status::Waiting(2)));
    assert!(!m.can_set_status(1, Status::Ready));
    assert!(!m.can_set_status(7, Status::Ready));
    assert!(!m.can_set_status(a, Status::Running(0)));
    m.exit(a, 0);
    assert!(!m.can_set_status(a, Status::Ready));
}
