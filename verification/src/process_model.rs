//! The process table as a mathematical state machine.

use vstd::prelude::*;
use crate::event_hub::{deadlines_sorted, due_count, lemma_due_count_sorted, EventHubView};
use crate::pid_seq::{
    lemma_without_contains, lemma_without_head, lemma_without_no_duplicates, without,
};
use crate::process_manager::{Event, ExitCode, Pid, Process, Status};

verus! {

/// The state of a process manager.
pub struct ManagerState<C> {
    /// The slots, by pid.
    pub procs: Seq<Option<Process<C>>>,
    /// For each pid, the processes that wait for it to exit, the longest waiting first.
    pub waiters: Seq<Seq<Pid>>,
    /// The clock and the pending wakeups.
    pub hub: EventHubView<Event>,
    /// The pids for which the exit cleanup ran (the waiters woken, the exit
    /// handler called), in the order in which it ran.
    pub exited: Seq<Pid>,
}

impl<C> ManagerState<C> {
    /// The state with slot `pid` holding `slot`.
    pub open spec fn with_slot(self, pid: Pid, slot: Option<Process<C>>) -> Self {
        ManagerState {
            procs: self.procs.update(pid as int, slot),
            waiters: self.waiters,
            hub: self.hub,
            exited: self.exited,
        }
    }

    /// The state with the clock and pending wakeups `hub`.
    pub open spec fn with_hub(self, hub: EventHubView<Event>) -> Self {
        ManagerState { procs: self.procs, waiters: self.waiters, hub, exited: self.exited }
    }

    /// Whether slot `pid` exists and holds a process.
    pub open spec fn occupied(self, pid: Pid) -> bool {
        pid < self.procs.len() && self.procs[pid as int] is Some
    }

    /// The process in slot `pid`.
    pub open spec fn proc(self, pid: Pid) -> Process<C> {
        self.procs[pid as int].unwrap()
    }

    /// The status of `pid` as a reader of the table sees it.
    pub open spec fn status(self, pid: Pid) -> Option<Status> {
        if self.occupied(pid) {
            Some(self.proc(pid).status)
        } else {
            None
        }
    }

    /// Whether `pid` is a process whose status is `Ready`.
    pub open spec fn is_ready(self, pid: Pid) -> bool {
        self.occupied(pid) && self.proc(pid).status == Status::Ready
    }

    /// The processes whose status is `Ready`.
    pub open spec fn ready_set(self) -> Set<Pid> {
        Set::new(|pid: Pid| self.is_ready(pid))
    }

    /// Whether `pid` waits, or will wait once it is stopped, for `target` to exit.
    pub open spec fn waits_on(self, pid: Pid, target: Pid) -> bool {
        self.occupied(pid) && self.proc(pid).effective() == Status::Waiting(target)
    }

    /// Every slot is well formed, and the wait queues hold exactly the
    /// processes that wait, each once.
    pub open spec fn wf_table(self) -> bool {
        &&& self.procs.len() <= usize::MAX
        &&& self.waiters.len() == self.procs.len()
        &&& forall|pid: Pid| #[trigger] self.occupied(pid) ==> self.proc(pid).wf(pid)
        &&& forall|t: Pid| t < self.waiters.len() ==> (#[trigger] self.waiters[t as int]).no_duplicates()
        &&& forall|t: Pid, pid: Pid|
            #![trigger self.waiters[t as int].contains(pid)]
            #![trigger self.waits_on(pid, t)]
            t < self.waiters.len() ==> (self.waiters[t as int].contains(pid) <==> self.waits_on(pid, t))
        &&& forall|t: Pid, pid: Pid| #[trigger] self.waits_on(pid, t) ==> t < self.procs.len()
        &&& deadlines_sorted(self.hub.timers)
    }

    /// The table is well formed and no pending wakeup is due.
    pub open spec fn wf(self) -> bool {
        &&& self.wf_table()
        &&& !self.hub.has_due()
    }

    /// The lowest pid at or above `from` whose slot is empty; the number of
    /// slots if there is none.
    pub open spec fn first_free_from(self, from: int) -> int
        decreases self.procs.len() - from,
    {
        if from < 0 || from >= self.procs.len() {
            self.procs.len() as int
        } else if self.procs[from] is None {
            from
        } else {
            self.first_free_from(from + 1)
        }
    }

    /// The lowest pid whose slot is empty.
    pub open spec fn first_free(self) -> int {
        self.first_free_from(0)
    }

    /// Whether some slot is empty.
    pub open spec fn has_free_slot(self) -> bool {
        self.first_free() < self.procs.len()
    }

    /// The table with a new ready process in the lowest empty slot.
    pub open spec fn add(self, context: C) -> Self {
        let pid = self.first_free() as Pid;
        self.with_slot(
            pid,
            Some(
                Process {
                    id: pid,
                    status: Status::Ready,
                    status_after_stop: Status::Ready,
                    context: Some(context),
                },
            ),
        )
    }

    /// Whether the status of `pid` may be set to `status`: the process exists
    /// and has not exited, the status is not `Running` (only `run` hands a
    /// process to a core), and a process waited for has a slot.
    pub open spec fn can_set_status(self, pid: Pid, status: Status) -> bool {
        &&& self.occupied(pid)
        &&& !(self.proc(pid).status is Exited)
        &&& !(status is Running)
        &&& (status matches Status::Waiting(t) ==> t < self.procs.len())
    }

    /// The wait queues after `pid` went from `from` to `to`: it leaves the
    /// queue of the process it waited for and joins, at the back, the queue
    /// of the process it now waits for.
    pub open spec fn requeue(self, pid: Pid, from: Status, to: Status) -> Seq<Seq<Pid>> {
        let left = if from is Waiting && from != to {
            let t = from->Waiting_0 as int;
            self.waiters.update(t, without(self.waiters[t], pid))
        } else {
            self.waiters
        };
        if to is Waiting && from != to {
            let t = to->Waiting_0 as int;
            left.update(t, left[t].push(pid))
        } else {
            left
        }
    }

    /// The table after the status of `pid` was set to `status`, before
    /// anybody who waits for `pid` is told.
    pub open spec fn transition(self, pid: Pid, status: Status) -> Self {
        ManagerState {
            procs: self.procs.update(pid as int, Some(self.proc(pid).with_effective(status))),
            waiters: self.requeue(pid, self.proc(pid).effective(), status),
            hub: self.hub,
            exited: self.exited,
        }
    }

    /// The table after each process of `pids`, in turn, was made ready.
    pub open spec fn wake_all(self, pids: Seq<Pid>) -> Self
        decreases pids.len(),
    {
        if pids.len() == 0 {
            self
        } else {
            self.transition(pids[0], Status::Ready).wake_all(pids.drop_first())
        }
    }

    /// The table after every process that waits for `pid` was made ready.
    pub open spec fn wake_waiters(self, pid: Pid) -> Self {
        self.wake_all(self.waiters[pid as int])
    }

    /// The table after the exit cleanup of `pid`: its waiters are woken and
    /// the exit handler is called.
    pub open spec fn cleanup(self, pid: Pid) -> Self {
        let woken = self.wake_waiters(pid);
        ManagerState {
            procs: woken.procs,
            waiters: woken.waiters,
            hub: woken.hub,
            exited: woken.exited.push(pid),
        }
    }

    /// The table after `set_status`: the transition, and, where the process
    /// has thereby exited, its exit cleanup.
    pub open spec fn set_status(self, pid: Pid, status: Status) -> Self {
        let next = self.transition(pid, status);
        if next.proc(pid).status is Exited {
            next.cleanup(pid)
        } else {
            next
        }
    }

    /// The table after `pid` was made ready.
    pub open spec fn wakeup(self, pid: Pid) -> Self {
        self.set_status(pid, Status::Ready)
    }

    /// The table after `pid` began to wait for `target` to exit.
    pub open spec fn wait(self, pid: Pid, target: Pid) -> Self {
        self.set_status(pid, Status::Waiting(target))
    }

    /// The table after `pid` exited with `code`.
    pub open spec fn exit(self, pid: Pid, code: ExitCode) -> Self {
        self.set_status(pid, Status::Exited(code))
    }

    /// The table after `pid` went to sleep, with a wakeup `ticks` ticks from
    /// now unless `ticks` is 0.
    pub open spec fn sleep(self, pid: Pid, ticks: nat) -> Self {
        let next = self.set_status(pid, Status::Sleeping);
        if ticks == 0 {
            next
        } else {
            next.with_hub(next.hub.push(ticks, Event::Wakeup(pid)))
        }
    }

    /// The table after the ready process `pid` was handed to the core `cpu_id`.
    pub open spec fn run(self, pid: Pid, cpu_id: usize) -> Self {
        self.with_slot(
            pid,
            Some(
                Process {
                    id: self.proc(pid).id,
                    status: Status::Running(cpu_id),
                    status_after_stop: self.proc(pid).status_after_stop,
                    context: None,
                },
            ),
        )
    }

    /// The table after the running process `pid` was stopped and gave its
    /// context back: it takes on its pending status, and, if that is
    /// `Exited`, the context is dropped and the exit cleanup runs.
    pub open spec fn stop(self, pid: Pid, context: C) -> Self {
        let status = self.proc(pid).status_after_stop;
        let stopped = self.with_slot(
            pid,
            Some(
                Process {
                    id: self.proc(pid).id,
                    status,
                    status_after_stop: Status::Ready,
                    context: if status is Exited {
                        None
                    } else {
                        Some(context)
                    },
                },
            ),
        );
        if status is Exited {
            stopped.cleanup(pid)
        } else {
            stopped
        }
    }

    /// The table with slot `pid` emptied.
    pub open spec fn remove(self, pid: Pid) -> Self {
        self.with_slot(pid, None)
    }

    /// The table after `event` fired. A wakeup for a process that has exited,
    /// or whose slot is empty, is dropped.
    pub open spec fn fire(self, event: Event) -> Self {
        match event {
            Event::Wakeup(pid) => if self.occupied(pid) && !(self.proc(pid).status is Exited) {
                self.transition(pid, Status::Ready)
            } else {
                self
            },
        }
    }

    /// The table after every due event fired, the earliest first.
    pub open spec fn fire_due(self) -> Self
        decreases self.hub.timers.len(),
    {
        if self.hub.has_due() {
            self.with_hub(self.hub.pop()).fire(self.hub.timers[0].1).fire_due()
        } else {
            self
        }
    }

    /// The table one timer tick later.
    pub open spec fn tick(self) -> Self {
        self.with_hub(self.hub.tick()).fire_due()
    }

    /// The table with the first pending event taken out of the queue.
    pub open spec fn popped(self) -> Self {
        self.with_hub(self.hub.pop())
    }

    /// The table after `n` timer ticks.
    pub open spec fn ticks(self, n: nat) -> Self
        decreases n,
    {
        if n == 0 {
            self
        } else {
            self.ticks((n - 1) as nat).tick()
        }
    }
}

/// `first_free_from` is the least empty slot at or above `from`.
pub proof fn lemma_first_free_from<C>(s: ManagerState<C>, from: int)
    requires
        0 <= from <= s.procs.len(),
    ensures
        from <= s.first_free_from(from) <= s.procs.len(),
        s.first_free_from(from) < s.procs.len() ==> s.procs[s.first_free_from(from)] is None,
        forall|j: int| from <= j < s.first_free_from(from) ==> (#[trigger] s.procs[j]) is Some,
    decreases s.procs.len() - from,
{
    if from < s.procs.len() && s.procs[from] is Some {
        lemma_first_free_from(s, from + 1);
    }
}

/// `first_free` is the least empty slot, if there is one.
pub proof fn lemma_first_free<C>(s: ManagerState<C>)
    ensures
        0 <= s.first_free() <= s.procs.len(),
        s.has_free_slot() ==> s.procs[s.first_free()] is None,
        forall|j: int| 0 <= j < s.first_free() ==> (#[trigger] s.procs[j]) is Some,
        s.has_free_slot() <==> exists|j: int| 0 <= j < s.procs.len() && (#[trigger] s.procs[j]) is None,
{
    lemma_first_free_from(s, 0);
    if exists|j: int| 0 <= j < s.procs.len() && (#[trigger] s.procs[j]) is None {
        let j = choose|j: int| 0 <= j < s.procs.len() && (#[trigger] s.procs[j]) is None;
        if s.first_free() >= s.procs.len() {
            assert(s.procs[j] is Some);
        }
    }
}

/// Setting a status keeps the table well formed.
pub proof fn lemma_transition_wf<C>(s: ManagerState<C>, pid: Pid, status: Status)
    requires
        s.wf_table(),
        s.can_set_status(pid, status),
    ensures
        s.transition(pid, status).wf_table(),
        s.transition(pid, status).hub == s.hub,
        s.transition(pid, status).exited == s.exited,
        s.transition(pid, status).procs.len() == s.procs.len(),
        s.transition(pid, status).proc(pid).effective() == status,
        s.transition(pid, status).occupied(pid),
        forall|q: Pid|
            q != pid && q < s.procs.len() ==> (#[trigger] s.transition(pid, status).procs[q as int])
                == s.procs[q as int],
{
    let r = s.transition(pid, status);
    let p = s.proc(pid);
    let from = p.effective();
    assert(s.occupied(pid));
    assert(p.wf(pid));
    assert(r.proc(pid) == p.with_effective(status));
    if from is Waiting {
        assert(s.waits_on(pid, from->Waiting_0));
    }
    assert(r.waiters.len() == s.waiters.len());
    assert forall|q: Pid| #[trigger] r.occupied(q) implies r.proc(q).wf(q) by {
        if q != pid {
            assert(s.occupied(q));
        }
    }
    assert forall|t: Pid, q: Pid| #[trigger] r.waits_on(q, t) implies t < r.procs.len() by {
        if q != pid {
            assert(s.waits_on(q, t));
        }
    }
    assert forall|t: Pid| t < r.waiters.len() implies (#[trigger] r.waiters[t as int]).no_duplicates()
        && forall|q: Pid| (r.waiters[t as int].contains(q) <==> r.waits_on(q, t)) by {
        let before = s.waiters[t as int];
        let after = r.waiters[t as int];
        assert(before.no_duplicates());
        lemma_without_contains(before, pid);
        lemma_without_no_duplicates(before, pid);
        assert(before.contains(pid) <==> s.waits_on(pid, t));
        let leaves = from == Status::Waiting(t) && from != status;
        let joins = status == Status::Waiting(t) && from != status;
        if leaves {
            assert(after == without(before, pid));
        } else if joins {
            assert(after == before.push(pid));
            assert(!before.contains(pid));
            assert forall|i: int, j: int| 0 <= i < after.len() && 0 <= j < after.len() && i
                != j implies after[i] != after[j] by {
                if i == after.len() - 1 {
                    assert(before.contains(before[j]));
                } else if j == after.len() - 1 {
                    assert(before.contains(before[i]));
                } else {
                    assert(before[i] != before[j]);
                }
            }
        } else {
            assert(after == before);
        }
        assert forall|q: Pid| (after.contains(q) <==> r.waits_on(q, t)) by {
            assert(before.contains(q) <==> s.waits_on(q, t));
            if q != pid {
                assert(r.waits_on(q, t) <==> s.waits_on(q, t));
                if joins {
                    if before.contains(q) {
                        let i = choose|i: int| 0 <= i < before.len() && before[i] == q;
                        assert(after[i] == q);
                    }
                    if after.contains(q) {
                        let i = choose|i: int| 0 <= i < after.len() && after[i] == q;
                        assert(before[i] == q);
                    }
                }
            } else {
                assert(r.waits_on(pid, t) <==> status == Status::Waiting(t));
                if joins {
                    assert(after[after.len() - 1] == pid);
                }
            }
        }
    }
}

/// Waking the waiters of `pid` makes each of them ready, empties the queue of
/// `pid`, and touches nothing else.
pub proof fn lemma_wake_waiters<C>(s: ManagerState<C>, pid: Pid)
    requires
        s.wf_table(),
        pid < s.procs.len(),
    ensures
        s.wake_waiters(pid).wf_table(),
        s.wake_waiters(pid).hub == s.hub,
        s.wake_waiters(pid).exited == s.exited,
        s.wake_waiters(pid).procs.len() == s.procs.len(),
        s.wake_waiters(pid).waiters == s.waiters.update(pid as int, Seq::<Pid>::empty()),
        forall|q: Pid|
            q < s.procs.len() ==> (#[trigger] s.wake_waiters(pid).procs[q as int]) == if s.waits_on(
                q,
                pid,
            ) {
                Some(s.proc(q).with_effective(Status::Ready))
            } else {
                s.procs[q as int]
            },
    decreases s.waiters[pid as int].len(),
{
    let ws = s.waiters[pid as int];
    let r = s.wake_waiters(pid);
    if ws.len() == 0 {
        assert(ws =~= Seq::<Pid>::empty());
        assert(s.waiters =~= s.waiters.update(pid as int, Seq::<Pid>::empty()));
        assert forall|q: Pid| q < s.procs.len() implies !s.waits_on(q, pid) by {
            assert(ws.contains(q) <==> s.waits_on(q, pid));
        }
    } else {
        let w = ws[0];
        assert(ws.contains(w));
        assert(s.waits_on(w, pid));
        assert(s.occupied(w));
        assert(s.proc(w).wf(w));
        let s1 = s.transition(w, Status::Ready);
        lemma_transition_wf(s, w, Status::Ready);
        assert(ws.no_duplicates());
        lemma_without_head(ws);
        assert(s1.waiters == s.waiters.update(pid as int, ws.drop_first()));
        assert(s1.waiters[pid as int] == ws.drop_first());
        assert(r == s1.wake_waiters(pid));
        lemma_wake_waiters(s1, pid);
        assert(r.waiters =~= s.waiters.update(pid as int, Seq::<Pid>::empty()));
        assert forall|q: Pid| q < s.procs.len() implies (#[trigger] r.procs[q as int]) == if s.waits_on(
            q,
            pid,
        ) {
            Some(s.proc(q).with_effective(Status::Ready))
        } else {
            s.procs[q as int]
        } by {
            if q == w {
                assert(!s1.waits_on(w, pid));
            } else {
                assert(s1.waits_on(q, pid) <==> s.waits_on(q, pid));
            }
        }
    }
}


/// Replacing what a slot holds keeps the table well formed if the new
/// process, if any, is well formed and waits for whom the old one waited.
pub proof fn lemma_with_slot_wf<C>(s: ManagerState<C>, pid: Pid, slot: Option<Process<C>>)
    requires
        s.wf_table(),
        pid < s.procs.len(),
        slot matches Some(process) ==> process.wf(pid),
        forall|t: Pid| s.with_slot(pid, slot).waits_on(pid, t) == s.waits_on(pid, t),
    ensures
        s.with_slot(pid, slot).wf_table(),
        forall|q: Pid|
            s.with_slot(pid, slot).ready_set().contains(q) == if q == pid {
                slot matches Some(process) && process.status == Status::Ready
            } else {
                s.ready_set().contains(q)
            },
{
    let after = s.with_slot(pid, slot);
    assert forall|q: Pid| #[trigger] after.occupied(q) implies after.proc(q).wf(q) by {
        if q != pid {
            assert(s.occupied(q));
        }
    }
    assert forall|t: Pid, q: Pid|
        #![trigger after.waiters[t as int].contains(q)]
        #![trigger after.waits_on(q, t)]
        t < after.waiters.len() implies (after.waiters[t as int].contains(q) <==> after.waits_on(
        q,
        t,
    )) by {
        assert(s.waiters[t as int].contains(q) <==> s.waits_on(q, t));
    }
    assert forall|t: Pid, q: Pid| #[trigger] after.waits_on(q, t) implies t < after.procs.len() by {
        assert(s.waits_on(q, t));
    }
    assert forall|q: Pid|
        after.ready_set().contains(q) == if q == pid {
            slot matches Some(process) && process.status == Status::Ready
        } else {
            s.ready_set().contains(q)
        } by {
        assert(after.is_ready(q) == if q == pid {
            slot matches Some(process) && process.status == Status::Ready
        } else {
            s.is_ready(q)
        });
    }
}


/// `set_status` keeps the table well formed and leaves the clock and the
/// pending wakeups alone.
pub proof fn lemma_set_status<C>(s: ManagerState<C>, pid: Pid, status: Status)
    requires
        s.wf_table(),
        s.can_set_status(pid, status),
    ensures
        s.set_status(pid, status).wf_table(),
        s.set_status(pid, status).hub == s.hub,
        s.set_status(pid, status).procs.len() == s.procs.len(),
{
    lemma_transition_wf(s, pid, status);
    let next = s.transition(pid, status);
    if next.proc(pid).status is Exited {
        lemma_cleanup(next, pid);
    }
}

/// The exit cleanup keeps the table well formed; it changes what waking the
/// waiters changes, and notes the pid.
pub proof fn lemma_cleanup<C>(s: ManagerState<C>, pid: Pid)
    requires
        s.wf_table(),
        pid < s.procs.len(),
    ensures
        s.cleanup(pid).wf_table(),
        s.cleanup(pid).hub == s.hub,
        s.cleanup(pid).procs.len() == s.procs.len(),
        s.cleanup(pid).procs == s.wake_waiters(pid).procs,
        s.cleanup(pid).waiters == s.wake_waiters(pid).waiters,
        s.cleanup(pid).exited == s.exited.push(pid),
{
    lemma_wake_waiters(s, pid);
    lemma_wf_table_same_slots(s.wake_waiters(pid), s.cleanup(pid));
}


/// Whether a table is well formed does not depend on the clock or on which
/// wakeups are pending.
pub proof fn lemma_wf_table_same_slots<C>(a: ManagerState<C>, b: ManagerState<C>)
    requires
        a.wf_table(),
        b.procs == a.procs,
        b.waiters == a.waiters,
        deadlines_sorted(b.hub.timers),
    ensures
        b.wf_table(),
        b.ready_set() == a.ready_set(),
{
    assert forall|q: Pid| #[trigger] b.occupied(q) implies b.proc(q).wf(q) by {
        assert(a.occupied(q));
    }
    assert forall|t: Pid, q: Pid|
        #![trigger b.waiters[t as int].contains(q)]
        #![trigger b.waits_on(q, t)]
        t < b.waiters.len() implies (b.waiters[t as int].contains(q) <==> b.waits_on(q, t)) by {
        assert(a.waiters[t as int].contains(q) <==> a.waits_on(q, t));
    }
    assert forall|t: Pid, q: Pid| #[trigger] b.waits_on(q, t) implies t < b.procs.len() by {
        assert(a.waits_on(q, t));
    }
    assert forall|q: Pid| b.ready_set().contains(q) <==> a.ready_set().contains(q) by {
        assert(b.is_ready(q) <==> a.is_ready(q));
    }
    assert(b.ready_set() =~= a.ready_set());
}


/// A sorted queue stays sorted when its first event leaves.
pub proof fn lemma_sorted_drop_first(timers: Seq<(nat, Event)>)
    requires
        deadlines_sorted(timers),
        timers.len() > 0,
    ensures
        deadlines_sorted(timers.drop_first()),
{
    let rest = timers.drop_first();
    assert forall|i: int, j: int| 0 <= i <= j < rest.len() implies (#[trigger] rest[i]).0 <= (
    #[trigger] rest[j]).0 by {
        assert(timers[i + 1].0 <= timers[j + 1].0);
    }
}

/// Firing one event keeps the table well formed and touches only the
/// process that the event names.
pub proof fn lemma_fire<C>(s: ManagerState<C>, event: Event)
    requires
        s.wf_table(),
    ensures
        s.fire(event).wf_table(),
        s.fire(event).hub == s.hub,
        s.fire(event).exited == s.exited,
        s.fire(event).procs.len() == s.procs.len(),
        forall|q: Pid|
            q < s.procs.len() && event != Event::Wakeup(q) ==> (#[trigger] s.fire(event).procs[q as int])
                == s.procs[q as int],
{
    match event {
        Event::Wakeup(pid) => {
            if s.occupied(pid) && !(s.proc(pid).status is Exited) {
                lemma_transition_wf(s, pid, Status::Ready);
            }
        },
    }
}

/// Firing what is due keeps the table well formed, leaves nothing due, and
/// takes exactly the due events out of the queue.
pub proof fn lemma_fire_due<C>(s: ManagerState<C>)
    requires
        s.wf_table(),
    ensures
        s.fire_due().wf(),
        s.fire_due().hub.now == s.hub.now,
        s.fire_due().exited == s.exited,
        s.fire_due().procs.len() == s.procs.len(),
        due_count(s.hub.timers, s.hub.now) <= s.hub.timers.len(),
        s.fire_due().hub.timers == s.hub.timers.skip(due_count(s.hub.timers, s.hub.now) as int),
    decreases s.hub.timers.len(),
{
    if s.hub.has_due() {
        let event = s.hub.timers[0].1;
        lemma_sorted_drop_first(s.hub.timers);
        lemma_wf_table_same_slots(s, s.popped());
        lemma_fire(s.popped(), event);
        let next = s.popped().fire(event);
        lemma_fire_due(next);
        assert(s.fire_due() == next.fire_due());
        assert(next.hub.timers == s.hub.timers.drop_first());
        assert(s.hub.timers.drop_first().skip(due_count(next.hub.timers, s.hub.now) as int)
            =~= s.hub.timers.skip(due_count(s.hub.timers, s.hub.now) as int));
    } else {
        assert(s.hub.timers.skip(0) =~= s.hub.timers);
    }
}

/// A tick keeps the table well formed.
pub proof fn lemma_tick<C>(s: ManagerState<C>)
    requires
        s.wf_table(),
    ensures
        s.tick().wf(),
        s.tick().hub.now == s.hub.now + 1,
        s.tick().exited == s.exited,
        s.tick().procs.len() == s.procs.len(),
        s.tick().hub.timers == s.hub.timers.skip(due_count(s.hub.timers, s.hub.now + 1) as int),
{
    let ticked = s.with_hub(s.hub.tick());
    lemma_wf_table_same_slots(s, ticked);
    lemma_fire_due(ticked);
}

/// Firing what is due leaves alone a process that no due event names.
pub proof fn lemma_fire_due_other<C>(s: ManagerState<C>, pid: Pid)
    requires
        s.wf_table(),
        pid < s.procs.len(),
        forall|i: int|
            0 <= i < due_count(s.hub.timers, s.hub.now) ==> (#[trigger] s.hub.timers[i]).1
                != Event::Wakeup(pid),
    ensures
        s.fire_due().procs[pid as int] == s.procs[pid as int],
    decreases s.hub.timers.len(),
{
    if s.hub.has_due() {
        let event = s.hub.timers[0].1;
        lemma_sorted_drop_first(s.hub.timers);
        lemma_wf_table_same_slots(s, s.popped());
        lemma_fire(s.popped(), event);
        let next = s.popped().fire(event);
        lemma_due_count_sorted(s.hub.timers, s.hub.now);
        lemma_due_count_sorted(next.hub.timers, next.hub.now);
        assert(next.hub.timers == s.hub.timers.drop_first());
        assert(s.hub.timers[0].1 != Event::Wakeup(pid));
        assert(next.procs[pid as int] == s.procs[pid as int]);
        assert forall|i: int| 0 <= i < due_count(next.hub.timers, next.hub.now) implies (
        #[trigger] next.hub.timers[i]).1 != Event::Wakeup(pid) by {
            assert(next.hub.timers[i] == s.hub.timers[i + 1]);
        }
        lemma_fire_due_other(next, pid);
    }
}

/// Firing what is due makes ready a live process that exactly one due
/// event names.
pub proof fn lemma_fire_due_target<C>(s: ManagerState<C>, pid: Pid, at: int)
    requires
        s.wf_table(),
        s.occupied(pid),
        !(s.proc(pid).status is Exited),
        0 <= at < due_count(s.hub.timers, s.hub.now),
        s.hub.timers[at].1 == Event::Wakeup(pid),
        forall|i: int|
            0 <= i < due_count(s.hub.timers, s.hub.now) && i != at ==> (#[trigger] s.hub.timers[i]).1
                != Event::Wakeup(pid),
    ensures
        s.fire_due().procs[pid as int] == Some(s.proc(pid).with_effective(Status::Ready)),
    decreases s.hub.timers.len(),
{
    assert(s.hub.has_due());
    let event = s.hub.timers[0].1;
    lemma_sorted_drop_first(s.hub.timers);
    lemma_wf_table_same_slots(s, s.popped());
    lemma_fire(s.popped(), event);
    let next = s.popped().fire(event);
    lemma_due_count_sorted(s.hub.timers, s.hub.now);
    lemma_due_count_sorted(next.hub.timers, next.hub.now);
    assert(next.hub.timers == s.hub.timers.drop_first());
    assert(s.fire_due() == next.fire_due());
    if at == 0 {
        lemma_transition_wf(s.popped(), pid, Status::Ready);
        assert forall|i: int| 0 <= i < due_count(next.hub.timers, next.hub.now) implies (
        #[trigger] next.hub.timers[i]).1 != Event::Wakeup(pid) by {
            assert(next.hub.timers[i] == s.hub.timers[i + 1]);
        }
        lemma_fire_due_other(next, pid);
    } else {
        assert(s.hub.timers[0].1 != Event::Wakeup(pid));
        assert(next.procs[pid as int] == s.procs[pid as int]);
        assert(next.hub.timers[at - 1] == s.hub.timers[at]);
        assert forall|i: int|
            0 <= i < due_count(next.hub.timers, next.hub.now) && i != at - 1 implies (
        #[trigger] next.hub.timers[i]).1 != Event::Wakeup(pid) by {
            assert(next.hub.timers[i] == s.hub.timers[i + 1]);
        }
        lemma_fire_due_target(next, pid, at - 1);
    }
}

} // verus!
