//! What holds of every process table across its operations.

use vstd::prelude::*;
use crate::event_hub::{due_count, lemma_due_count_sorted, lemma_push_sorted};
use crate::process_manager::{Context, Event, ExitCode, Pid, Process, ProcessManager, Status};
use crate::process_model::{
    lemma_cleanup, lemma_fire, lemma_fire_due_other, lemma_fire_due_target, lemma_first_free,
    lemma_sorted_drop_first, lemma_tick, lemma_transition_wf, lemma_wake_waiters,
    lemma_wf_table_same_slots, lemma_with_slot_wf, ManagerState,
};
use crate::scheduler::Scheduler;

verus! {

/// A process that was just added is ready, and is in the set of ready
/// processes, which is what the scheduler holds.
pub proof fn law_added_process_is_ready<C>(s: ManagerState<C>, context: C)
    requires
        s.wf(),
        s.has_free_slot(),
    ensures
        s.add(context).wf(),
        s.add(context).status(s.first_free() as Pid) == Some(Status::Ready),
        s.add(context).ready_set().contains(s.first_free() as Pid),
        forall|q: Pid|
            q != s.first_free() ==> (#[trigger] s.add(context).status(q)) == s.status(q),
{
    lemma_first_free(s);
    let pid = s.first_free() as Pid;
    lemma_with_slot_wf(s, pid, s.add(context).procs[pid as int]);
    assert(s.add(context).is_ready(pid));
}

/// Between calls the scheduler holds exactly the processes whose status is
/// `Ready`: none that runs, sleeps, waits or has exited, and no empty slot.
pub proof fn law_scheduler_holds_the_ready<S: Scheduler, C: Context, H: Fn(Pid)>(
    manager: &ProcessManager<S, C, H>,
)
    requires
        manager.inv(),
    ensures
        forall|pid: Pid|
            manager.scheduled().contains(pid) <==> #[trigger] manager@.status(pid) == Some(
                Status::Ready,
            ),
{
    assert forall|pid: Pid|
        manager.scheduled().contains(pid) <==> #[trigger] manager@.status(pid) == Some(
            Status::Ready,
        ) by {
        assert(manager@.ready_set().contains(pid) <==> manager@.is_ready(pid));
    }
}

/// A process that sleeps without a timer sleeps, and a wakeup makes it ready.
/// For a running process the same holds of the status that it takes on when
/// it is stopped.
pub proof fn law_sleep_then_wakeup<C>(s: ManagerState<C>, pid: Pid)
    requires
        s.wf(),
        s.can_set_status(pid, Status::Sleeping),
    ensures
        s.sleep(pid, 0).wf(),
        s.sleep(pid, 0).proc(pid).effective() == Status::Sleeping,
        s.sleep(pid, 0).wakeup(pid).wf(),
        s.sleep(pid, 0).wakeup(pid).proc(pid).effective() == Status::Ready,
        !(s.proc(pid).status is Running) ==> s.sleep(pid, 0).status(pid) == Some(Status::Sleeping)
            && s.sleep(pid, 0).wakeup(pid).status(pid) == Some(Status::Ready),
{
    lemma_transition_wf(s, pid, Status::Sleeping);
    let slept = s.sleep(pid, 0);
    assert(slept == s.transition(pid, Status::Sleeping));
    assert(s.proc(pid).wf(pid));
    lemma_transition_wf(slept, pid, Status::Ready);
}

/// Whether exactly one pending event wakes `pid`, at `deadline`.
spec fn sole_wakeup(timers: Seq<(nat, Event)>, pid: Pid, deadline: nat) -> bool {
    exists|at: int|
        0 <= at < timers.len() && #[trigger] timers[at] == (deadline, Event::Wakeup(pid)) && forall|
            i: int,
        |
            0 <= i < timers.len() && i != at ==> (#[trigger] timers[i]).1 != Event::Wakeup(pid)
}

/// A tick before the deadline leaves a sleeping process asleep and its
/// wakeup pending.
proof fn lemma_tick_before_deadline<C>(s: ManagerState<C>, pid: Pid, deadline: nat)
    requires
        s.wf(),
        s.status(pid) == Some(Status::Sleeping),
        sole_wakeup(s.hub.timers, pid, deadline),
        deadline > s.hub.now + 1,
    ensures
        s.tick().wf(),
        s.tick().status(pid) == Some(Status::Sleeping),
        sole_wakeup(s.tick().hub.timers, pid, deadline),
        s.tick().hub.now == s.hub.now + 1,
{
    let ticked = s.with_hub(s.hub.tick());
    let timers = s.hub.timers;
    let due = due_count(timers, s.hub.now + 1) as int;
    lemma_wf_table_same_slots(s, ticked);
    lemma_tick(s);
    lemma_due_count_sorted(timers, s.hub.now + 1);
    let at = choose|at: int|
        0 <= at < timers.len() && #[trigger] timers[at] == (deadline, Event::Wakeup(pid)) && forall|
            i: int,
        |
            0 <= i < timers.len() && i != at ==> (#[trigger] timers[i]).1 != Event::Wakeup(pid);
    assert(timers[at].0 > s.hub.now + 1);
    assert(at >= due);
    lemma_fire_due_other(ticked, pid);
    let rest = s.tick().hub.timers;
    assert(rest[at - due] == timers[at]);
    assert forall|i: int| 0 <= i < rest.len() && i != at - due implies (#[trigger] rest[i]).1
        != Event::Wakeup(pid) by {
        assert(rest[i] == timers[i + due]);
    }
}

/// The tick at the deadline makes the sleeping process ready.
proof fn lemma_tick_at_deadline<C>(s: ManagerState<C>, pid: Pid, deadline: nat)
    requires
        s.wf(),
        s.status(pid) == Some(Status::Sleeping),
        sole_wakeup(s.hub.timers, pid, deadline),
        deadline == s.hub.now + 1,
    ensures
        s.tick().wf(),
        s.tick().status(pid) == Some(Status::Ready),
        s.tick().hub.now == s.hub.now + 1,
{
    let ticked = s.with_hub(s.hub.tick());
    let timers = s.hub.timers;
    lemma_wf_table_same_slots(s, ticked);
    lemma_tick(s);
    lemma_due_count_sorted(timers, s.hub.now + 1);
    let at = choose|at: int|
        0 <= at < timers.len() && #[trigger] timers[at] == (deadline, Event::Wakeup(pid)) && forall|
            i: int,
        |
            0 <= i < timers.len() && i != at ==> (#[trigger] timers[i]).1 != Event::Wakeup(pid);
    assert(timers[at].0 <= s.hub.now + 1);
    lemma_fire_due_target(ticked, pid, at);
}

/// Through every tick before the deadline the sleeping process stays asleep.
proof fn lemma_asleep_before_deadline<C>(s: ManagerState<C>, pid: Pid, deadline: nat, k: nat)
    requires
        s.wf(),
        s.status(pid) == Some(Status::Sleeping),
        sole_wakeup(s.hub.timers, pid, deadline),
        s.hub.now + k < deadline,
    ensures
        s.ticks(k).wf(),
        s.ticks(k).status(pid) == Some(Status::Sleeping),
        sole_wakeup(s.ticks(k).hub.timers, pid, deadline),
        s.ticks(k).hub.now == s.hub.now + k,
    decreases k,
{
    if k > 0 {
        lemma_asleep_before_deadline(s, pid, deadline, (k - 1) as nat);
        lemma_tick_before_deadline(s.ticks((k - 1) as nat), pid, deadline);
    }
}

/// A process that goes to sleep for `n` ticks, and that no other pending
/// wakeup names, is asleep after each of the first `n - 1` ticks and ready
/// after the `n`-th.
pub proof fn law_sleep_then_ticks<C>(s: ManagerState<C>, pid: Pid, n: nat)
    requires
        s.wf(),
        s.can_set_status(pid, Status::Sleeping),
        !(s.proc(pid).status is Running),
        n > 0,
        forall|i: int| 0 <= i < s.hub.timers.len() ==> (#[trigger] s.hub.timers[i]).1 != Event::Wakeup(pid),
    ensures
        forall|k: nat| k < n ==> (#[trigger] s.sleep(pid, n).ticks(k)).status(pid) == Some(Status::Sleeping),
        s.sleep(pid, n).ticks(n).status(pid) == Some(Status::Ready),
        s.sleep(pid, n).ticks(n).wf(),
        s.sleep(pid, n).ticks(n).hub.now == s.hub.now + n,
{
    let asleep = s.transition(pid, Status::Sleeping);
    let slept = s.sleep(pid, n);
    let deadline = s.hub.now + n;
    let timers = s.hub.timers;
    lemma_transition_wf(s, pid, Status::Sleeping);
    assert(s.proc(pid).wf(pid));
    assert(s.set_status(pid, Status::Sleeping) == asleep);
    lemma_push_sorted(s.hub, n, Event::Wakeup(pid));
    lemma_due_count_sorted(timers, deadline);
    lemma_wf_table_same_slots(asleep, slept);
    let at = due_count(timers, deadline) as int;
    assert(slept.hub.timers[at] == (deadline, Event::Wakeup(pid)));
    assert forall|i: int| 0 <= i < slept.hub.timers.len() && i != at implies (
    #[trigger] slept.hub.timers[i]).1 != Event::Wakeup(pid) by {
        if i < at {
            assert(slept.hub.timers[i] == timers[i]);
        } else {
            assert(slept.hub.timers[i] == timers[i - 1]);
        }
    }
    if at > 0 {
        assert(slept.hub.timers[0] == timers[0]);
    }
    assert(slept.wf());
    assert(sole_wakeup(slept.hub.timers, pid, deadline));
    assert forall|k: nat| k < n implies (#[trigger] slept.ticks(k)).status(pid) == Some(
        Status::Sleeping,
    ) by {
        lemma_asleep_before_deadline(slept, pid, deadline, k);
    }
    lemma_asleep_before_deadline(slept, pid, deadline, (n - 1) as nat);
    lemma_tick_at_deadline(slept.ticks((n - 1) as nat), pid, deadline);
}

/// When a process exits that is not running, a process that waits for it
/// becomes ready, the exited process holds its code, and nobody is left in
/// its wait queue. For a waiter that runs the same holds of the status that
/// it takes on when it is stopped.
pub proof fn law_wait_then_exit<C>(s: ManagerState<C>, pid: Pid, target: Pid, code: ExitCode)
    requires
        s.wf(),
        pid != target,
        s.can_set_status(pid, Status::Waiting(target)),
        s.can_set_status(target, Status::Exited(code)),
        !(s.proc(target).status is Running),
    ensures
        s.wait(pid, target).wf(),
        s.wait(pid, target).proc(pid).effective() == Status::Waiting(target),
        s.wait(pid, target).waiters[target as int].contains(pid),
        s.wait(pid, target).exit(target, code).wf(),
        s.wait(pid, target).exit(target, code).proc(pid).effective() == Status::Ready,
        s.wait(pid, target).exit(target, code).status(target) == Some(Status::Exited(code)),
        s.wait(pid, target).exit(target, code).waiters[target as int] == Seq::<Pid>::empty(),
        s.wait(pid, target).exit(target, code).exited == s.exited.push(target),
        !(s.proc(pid).status is Running) ==> s.wait(pid, target).status(pid) == Some(
            Status::Waiting(target),
        ) && s.wait(pid, target).exit(target, code).status(pid) == Some(Status::Ready),
{
    lemma_transition_wf(s, pid, Status::Waiting(target));
    let waiting = s.wait(pid, target);
    assert(s.proc(pid).wf(pid));
    assert(waiting == s.transition(pid, Status::Waiting(target)));
    assert(waiting.waits_on(pid, target));
    assert(waiting.procs[target as int] == s.procs[target as int]);
    assert(s.occupied(target));
    assert(s.proc(target).wf(target));
    lemma_transition_wf(waiting, target, Status::Exited(code));
    let exiting = waiting.transition(target, Status::Exited(code));
    assert(exiting.procs[pid as int] == waiting.procs[pid as int]);
    assert(exiting.waits_on(pid, target));
    assert(exiting.proc(target).status == Status::Exited(code));
    lemma_cleanup(exiting, target);
    lemma_wake_waiters(exiting, target);
    let exited = waiting.exit(target, code);
    assert(exited == exiting.cleanup(target));
    assert(!exiting.waits_on(target, target));
    assert(exited.procs[pid as int] == Some(exiting.proc(pid).with_effective(Status::Ready)));
    assert(exited.procs[target as int] == exiting.procs[target as int]);
}

/// When a running process exits, a process that waits for it keeps waiting
/// until the exiting process is stopped; then it becomes ready, the exited
/// process holds its code, and nobody is left in its wait queue.
pub proof fn law_wait_then_exit_of_running<C>(
    s: ManagerState<C>,
    pid: Pid,
    target: Pid,
    code: ExitCode,
    context: C,
)
    requires
        s.wf(),
        pid != target,
        s.can_set_status(pid, Status::Waiting(target)),
        s.occupied(target),
        s.proc(target).status is Running,
    ensures
        s.wait(pid, target).exit(target, code).proc(pid).effective() == Status::Waiting(target),
        s.wait(pid, target).exit(target, code).status(target) == s.status(target),
        s.wait(pid, target).exit(target, code).stop(target, context).wf(),
        s.wait(pid, target).exit(target, code).stop(target, context).proc(pid).effective()
            == Status::Ready,
        s.wait(pid, target).exit(target, code).stop(target, context).status(target) == Some(
            Status::Exited(code),
        ),
        s.wait(pid, target).exit(target, code).stop(target, context).waiters[target as int]
            == Seq::<Pid>::empty(),
        s.wait(pid, target).exit(target, code).stop(target, context).exited == s.exited.push(target),
{
    lemma_transition_wf(s, pid, Status::Waiting(target));
    let waiting = s.wait(pid, target);
    assert(s.proc(pid).wf(pid));
    assert(waiting == s.transition(pid, Status::Waiting(target)));
    assert(waiting.procs[target as int] == s.procs[target as int]);
    assert(s.proc(target).wf(target));
    lemma_transition_wf(waiting, target, Status::Exited(code));
    let exiting = waiting.exit(target, code);
    assert(exiting == waiting.transition(target, Status::Exited(code)));
    assert(exiting.procs[pid as int] == waiting.procs[pid as int]);
    assert(exiting.waits_on(pid, target));
    let stopped = exiting.with_slot(
        target,
        Some(
            Process {
                id: exiting.proc(target).id,
                status: Status::Exited(code),
                status_after_stop: Status::Ready,
                context: None,
            },
        ),
    );
    lemma_stop_keeps_queues(exiting, target, context);
    assert(stopped.waits_on(pid, target));
    assert(!stopped.waits_on(target, target));
    lemma_cleanup(stopped, target);
    lemma_wake_waiters(stopped, target);
    let done = exiting.stop(target, context);
    assert(done == stopped.cleanup(target));
    assert(done.procs[pid as int] == Some(stopped.proc(pid).with_effective(Status::Ready)));
    assert(done.procs[target as int] == stopped.procs[target as int]);
}


/// Firing what is due leaves an exited process as it is.
proof fn lemma_fire_due_keeps_exited<C>(s: ManagerState<C>, pid: Pid)
    requires
        s.wf_table(),
        s.occupied(pid),
        s.proc(pid).status is Exited,
    ensures
        s.fire_due().procs[pid as int] == s.procs[pid as int],
    decreases s.hub.timers.len(),
{
    if s.hub.has_due() {
        let event = s.hub.timers[0].1;
        lemma_sorted_drop_first(s.hub.timers);
        lemma_wf_table_same_slots(s, s.popped());
        lemma_fire(s.popped(), event);
        let next = s.popped().fire(event);
        assert(next.procs[pid as int] == s.procs[pid as int]);
        lemma_fire_due_keeps_exited(next, pid);
    }
}

/// An exited process stays exited, with its code, whatever happens to other
/// processes and however many ticks pass: only `remove` ends it.
pub proof fn law_exited_is_terminal<C>(s: ManagerState<C>, pid: Pid, other: Pid, status: Status)
    requires
        s.wf(),
        s.occupied(pid),
        s.proc(pid).status is Exited,
    ensures
        !s.can_set_status(pid, status),
        s.tick().status(pid) == s.status(pid),
        s.can_set_status(other, status) ==> s.set_status(other, status).status(pid) == s.status(pid),
{
    let ticked = s.with_hub(s.hub.tick());
    lemma_wf_table_same_slots(s, ticked);
    lemma_fire_due_keeps_exited(ticked, pid);
    lemma_tick(s);
    assert(s.tick().procs[pid as int] == s.procs[pid as int]);
    assert(s.tick().occupied(pid));
    if s.can_set_status(other, status) {
        assert(other != pid);
        assert(s.proc(pid).wf(pid));
        lemma_transition_wf(s, other, status);
        let next = s.transition(other, status);
        assert(next.procs[pid as int] == s.procs[pid as int]);
        if next.proc(other).status is Exited {
            lemma_cleanup(next, other);
            lemma_wake_waiters(next, other);
            assert(!next.waits_on(pid, other));
        }
    }
}


/// Removing an exited process leaves its slot empty and every other slot as it was.
pub proof fn law_remove_empties_slot<C>(s: ManagerState<C>, pid: Pid)
    requires
        s.wf(),
        s.occupied(pid),
        s.proc(pid).status is Exited,
    ensures
        s.remove(pid).wf(),
        s.remove(pid).status(pid) is None,
        forall|q: Pid| q != pid ==> (#[trigger] s.remove(pid).status(q)) == s.status(q),
{
    assert(s.proc(pid).wf(pid));
    lemma_with_slot_wf(s, pid, None);
}

/// Running a ready process and stopping it at once, with the context that
/// was handed out and nothing set in between, gives the table back as it
/// was: the process is ready again and the set of ready processes is the
/// old one, with the process in it once.
pub proof fn law_run_then_stop<C>(s: ManagerState<C>, pid: Pid, cpu_id: usize)
    requires
        s.wf(),
        s.is_ready(pid),
    ensures
        s.run(pid, cpu_id).status(pid) == Some(Status::Running(cpu_id)),
        !s.run(pid, cpu_id).ready_set().contains(pid),
        s.run(pid, cpu_id).stop(pid, s.proc(pid).context.unwrap()) == s,
        s.run(pid, cpu_id).stop(pid, s.proc(pid).context.unwrap()).status(pid) == Some(Status::Ready),
{
    assert(s.occupied(pid));
    assert(s.proc(pid).wf(pid));
    let back = s.run(pid, cpu_id).stop(pid, s.proc(pid).context.unwrap());
    assert(back.procs =~= s.procs);
}


/// The exit cleanup of a process runs once, at the moment at which the
/// process has exited: at once for a process that does not run, its context
/// dropped with it; for a running process not before it is stopped, and
/// then.
pub proof fn law_exit_cleanup_runs_once<C>(s: ManagerState<C>, pid: Pid, code: ExitCode, context: C)
    requires
        s.wf(),
        s.can_set_status(pid, Status::Exited(code)),
    ensures
        s.exit(pid, code).wf(),
        !(s.proc(pid).status is Running) ==> s.exit(pid, code).status(pid) == Some(
            Status::Exited(code),
        ) && s.exit(pid, code).proc(pid).context is None && s.exit(pid, code).exited
            == s.exited.push(pid),
        s.proc(pid).status is Running ==> s.exit(pid, code).status(pid) == s.status(pid) && s.exit(
            pid,
            code,
        ).exited == s.exited && s.exit(pid, code).stop(pid, context).status(pid) == Some(
            Status::Exited(code),
        ) && s.exit(pid, code).stop(pid, context).proc(pid).context is None && s.exit(pid, code).stop(
            pid,
            context,
        ).exited == s.exited.push(pid),
{
    assert(s.proc(pid).wf(pid));
    lemma_transition_wf(s, pid, Status::Exited(code));
    let next = s.transition(pid, Status::Exited(code));
    if s.proc(pid).status is Running {
        assert(s.exit(pid, code) == next);
        let stopped = next.with_slot(
            pid,
            Some(
                Process {
                    id: next.proc(pid).id,
                    status: Status::Exited(code),
                    status_after_stop: Status::Ready,
                    context: None,
                },
            ),
        );
        lemma_stop_keeps_queues(next, pid, context);
        lemma_cleanup(stopped, pid);
        lemma_wake_waiters(stopped, pid);
        assert(!stopped.waits_on(pid, pid));
    } else {
        lemma_cleanup(next, pid);
        lemma_wake_waiters(next, pid);
        assert(!next.waits_on(pid, pid));
    }
}

/// A status other than `Exited` runs no exit cleanup, and neither does a tick.
pub proof fn law_no_cleanup_without_exit<C>(s: ManagerState<C>, pid: Pid, status: Status)
    requires
        s.wf(),
        s.can_set_status(pid, status),
        !(status is Exited),
    ensures
        s.set_status(pid, status).exited == s.exited,
        s.tick().exited == s.exited,
{
    assert(s.proc(pid).wf(pid));
    lemma_transition_wf(s, pid, status);
    lemma_tick(s);
}

/// Putting a running process's pending status in place keeps the table
/// well formed.
proof fn lemma_stop_keeps_queues<C>(s: ManagerState<C>, pid: Pid, context: C)
    requires
        s.wf_table(),
        s.occupied(pid),
        s.proc(pid).status is Running,
    ensures
        s.with_slot(
            pid,
            Some(
                Process {
                    id: s.proc(pid).id,
                    status: s.proc(pid).status_after_stop,
                    status_after_stop: Status::Ready,
                    context: if s.proc(pid).status_after_stop is Exited {
                        None
                    } else {
                        Some(context)
                    },
                },
            ),
        ).wf_table(),
{
    let after = s.with_slot(
        pid,
        Some(
            Process {
                id: s.proc(pid).id,
                status: s.proc(pid).status_after_stop,
                status_after_stop: Status::Ready,
                context: if s.proc(pid).status_after_stop is Exited {
                    None
                } else {
                    Some(context)
                },
            },
        ),
    );
    assert(s.proc(pid).wf(pid));
    assert(after.proc(pid).effective() == s.proc(pid).effective());
    lemma_with_slot_wf(s, pid, after.procs[pid as int]);
}

} // verus!
