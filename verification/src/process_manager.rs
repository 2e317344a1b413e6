//! The process table: which processes exist, what each is doing, and who waits for whom.

use vstd::prelude::*;
use crate::event_hub::{due_count, lemma_due_count_sorted, lemma_push_sorted, EventHub};
use crate::pid_seq::{lemma_without_head, remove_pid};
use crate::process_model::{
    lemma_cleanup, lemma_first_free, lemma_set_status, lemma_transition_wf, lemma_wake_waiters,
    lemma_wf_table_same_slots, lemma_with_slot_wf, ManagerState,
};
use crate::scheduler::Scheduler;

verus! {

/// A process id: the index of the process's slot in the table.
pub type Pid = usize;

/// The code that a process leaves behind when it exits.
pub type ExitCode = usize;

/// What a process is doing.
#[derive(Debug, Clone, Copy, PartialEq, Eq, Structural)]
pub enum Status {
    /// Runnable, and known to the scheduler.
    Ready,
    /// Executing on the core with this id; its context is with that core.
    Running(usize),
    /// Waiting for a wakeup.
    Sleeping,
    /// Waiting for the process with this pid to exit.
    Waiting(Pid),
    /// Finished; the slot stays until it is removed.
    Exited(ExitCode),
}

/// What the timer queue can deliver.
#[derive(Debug, Clone, Copy, PartialEq, Eq, Structural)]
pub enum Event {
    /// Make the process ready.
    Wakeup(Pid),
}

/// The saved execution state of a process.
pub trait Context {
    /// Saves the running state into `self` and resumes `target`.
    fn switch_to(&mut self, target: &mut Self);
}

/// One slot of the process table.
pub struct Process<C> {
    pub id: Pid,
    pub status: Status,
    /// The status that a running process takes on when it is next stopped.
    pub status_after_stop: Status,
    /// `None` while the process runs and after it has exited.
    pub context: Option<C>,
}

impl<C> Process<C> {
    /// The status that the process has, or will have once it is stopped.
    pub open spec fn effective(self) -> Status {
        if self.status is Running {
            self.status_after_stop
        } else {
            self.status
        }
    }

    /// The process after its status was set to `status`: a running process
    /// keeps running and takes the status on when it stops; an exiting one
    /// gives up its context.
    pub open spec fn with_effective(self, status: Status) -> Self {
        if self.status is Running {
            Process { id: self.id, status: self.status, status_after_stop: status, context: self.context }
        } else if status is Exited {
            Process { id: self.id, status, status_after_stop: self.status_after_stop, context: None }
        } else {
            Process { id: self.id, status, status_after_stop: self.status_after_stop, context: self.context }
        }
    }

    /// What holds of the process in slot `pid`: the context is away exactly
    /// while it runs and after it has exited, and a pending status is kept
    /// only while it runs.
    pub open spec fn wf(self, pid: Pid) -> bool {
        &&& self.id == pid
        &&& !(self.status_after_stop is Running)
        &&& (self.context is None <==> (self.status is Running || self.status is Exited))
        &&& (!(self.status is Running) ==> self.status_after_stop == Status::Ready)
    }
}


/// A vector of `size` default values.
pub fn new_vec_default<T: Default>(size: usize) -> (vec: Vec<T>)
    requires
        call_requires(T::default, ()),
    ensures
        vec@.len() == size,
        forall|i: int| 0 <= i < size ==> call_ensures(T::default, (), #[trigger] vec@[i]),
{
    let mut vec: Vec<T> = Vec::new();
    let mut i: usize = 0;
    while i < size
        invariant
            i <= size,
            vec@.len() == i,
            call_requires(T::default, ()),
            forall|k: int| 0 <= k < i ==> call_ensures(T::default, (), #[trigger] vec@[k]),
        decreases size - i,
    {
        vec.push(T::default());
        i += 1;
    }
    vec
}

/// The process table with its scheduler, wait queues and timer queue.
///
/// `exit_handler` is called once for each process at the moment at which it
/// has exited: its context is dropped and its waiters are awake, and its slot
/// is still there.
pub struct ProcessManager<S: Scheduler, C: Context, H: Fn(Pid)> {
    procs: Vec<Option<Process<C>>>,
    scheduler: S,
    wait_queue: Vec<Vec<Pid>>,
    event_hub: EventHub<Event>,
    exit_handler: H,
    exits: Ghost<Seq<Pid>>,
}

impl<S: Scheduler, C: Context, H: Fn(Pid)> ProcessManager<S, C, H> {
    /// The state of the table.
    pub closed spec fn view(&self) -> ManagerState<C> {
        ManagerState {
            procs: self.procs@,
            waiters: Seq::new(self.wait_queue@.len(), |t: int| self.wait_queue@[t]@),
            hub: self.event_hub@,
            exited: self.exits@,
        }
    }

    /// The pids that the scheduler holds as runnable.
    pub closed spec fn scheduled(&self) -> Set<Pid> {
        self.scheduler.ready()
    }

    /// The pid that the scheduler would select now.
    pub closed spec fn selection(&self) -> Option<Pid> {
        self.scheduler.choice()
    }

    /// Whether the scheduler, ticked now for `pid`, would report the time
    /// slice of `pid` as used up.
    pub closed spec fn slice_expires(&self, pid: Pid) -> bool {
        self.scheduler.expires(pid)
    }

    /// The priority that the scheduler holds for `pid`, if it holds one.
    pub closed spec fn priority(&self, pid: Pid) -> Option<u8> {
        self.scheduler.priority(pid)
    }

    /// The parts are in order: the scheduler and the timer queue hold their
    /// own invariants, and the exit handler accepts every pid.
    pub closed spec fn parts_ok(&self) -> bool {
        &&& self.scheduler.inv()
        &&& self.event_hub.inv()
        &&& forall|pid: Pid| call_requires(self.exit_handler, (pid,))
    }

    /// The table is well formed and the scheduler holds exactly the processes
    /// whose status is `Ready`.
    pub open spec fn inv_table(&self) -> bool {
        &&& self.parts_ok()
        &&& self@.wf_table()
        &&& self.scheduled() == self@.ready_set()
    }

    /// What holds between any two calls: `inv_table`, and no wakeup is overdue.
    pub open spec fn inv(&self) -> bool {
        &&& self.inv_table()
        &&& !self@.hub.has_due()
    }

    /// A manager with `max_proc_num` empty slots at tick 0.
    pub fn new(scheduler: S, max_proc_num: usize, exit_handler: H) -> (manager: Self)
        requires
            scheduler.inv(),
            scheduler.ready() == Set::<Pid>::empty(),
            forall|pid: Pid| call_requires(exit_handler, (pid,)),
        ensures
            manager.inv(),
            manager@.procs == Seq::new(max_proc_num as nat, |i: int| None::<Process<C>>),
            manager@.waiters == Seq::new(max_proc_num as nat, |i: int| Seq::<Pid>::empty()),
            manager@.hub.now == 0,
            manager@.hub.timers == Seq::<(nat, Event)>::empty(),
            manager@.exited == Seq::<Pid>::empty(),
    {
        let manager = ProcessManager {
            procs: new_vec_default(max_proc_num),
            scheduler,
            wait_queue: new_vec_default(max_proc_num),
            event_hub: EventHub::new(),
            exit_handler,
            exits: Ghost(Seq::empty()),
        };
        proof {
            assert(manager@.procs =~= Seq::new(max_proc_num as nat, |i: int| None::<Process<C>>));
            assert(manager@.waiters =~= Seq::new(max_proc_num as nat, |i: int| Seq::<Pid>::empty()));
            assert(manager.scheduled() =~= manager@.ready_set());
        }
        manager
    }

    /// The number of slots.
    pub fn max_proc_num(&self) -> (n: usize)
        ensures
            n == self@.procs.len(),
    {
        self.procs.len()
    }

    /// The current tick.
    pub fn get_time(&self) -> (now: usize)
        ensures
            now == self@.hub.now,
    {
        self.event_hub.get_time()
    }

    /// The lowest pid whose slot is empty.
    pub fn alloc_pid(&self) -> (r: Option<Pid>)
        ensures
            match r {
                Some(pid) => self@.has_free_slot() && pid == self@.first_free(),
                None => !self@.has_free_slot(),
            },
    {
        let mut i: usize = 0;
        while i < self.procs.len()
            invariant
                i <= self.procs.len(),
                forall|j: int| 0 <= j < i ==> (#[trigger] self.procs@[j]) is Some,
            decreases self.procs.len() - i,
        {
            if self.procs[i].is_none() {
                proof {
                    lemma_first_free(self@);
                    let first = self@.first_free();
                    assert(self@.procs[i as int] is None);
                    assert(self@.has_free_slot());
                    assert(self@.procs[first] is None);
                    if first < i {
                        assert(self.procs@[first] is Some);
                    }
                }
                return Some(i);
            }
            i += 1;
        }
        proof {
            lemma_first_free(self@);
            if self@.has_free_slot() {
                assert(self.procs@[self@.first_free()] is Some);
            }
        }
        None
    }

    /// Adds a new process, ready to run, in the lowest empty slot.
    pub fn add(&mut self, context: C) -> (pid: Pid)
        requires
            old(self).inv(),
            old(self)@.has_free_slot(),
        ensures
            final(self).inv(),
            final(self)@ == old(self)@.add(context),
            pid == old(self)@.first_free(),
            final(self)@.status(pid) == Some(Status::Ready),
            final(self).scheduled().contains(pid),
    {
        let pid = self.alloc_pid().unwrap();
        proof {
            lemma_first_free(self@);
        }
        self.procs[pid] = Some(
            Process { id: pid, status: Status::Ready, status_after_stop: Status::Ready, context: Some(context) },
        );
        proof {
            assert(!old(self)@.is_ready(pid));
        }
        self.scheduler.insert(pid);
        proof {
            let before = old(self)@;
            assert(self@.procs =~= before.add(context).procs);
            assert(self@.waiters =~= before.waiters);
            lemma_with_slot_wf(before, pid, self@.procs[pid as int]);
            assert(self.scheduled() =~= self@.ready_set());
            assert(self@.is_ready(pid));
        }
        pid
    }

    /// Accounts one timer tick: wakes every process whose wakeup has become
    /// due, then lets the scheduler account the tick to the running process
    /// `pid`. Says whether the time slice of `pid` is used up: the
    /// scheduler's verdict, given after the wakeups.
    pub fn tick(&mut self, pid: Pid) -> (expired: bool)
        requires
            old(self).inv(),
            old(self)@.hub.now < usize::MAX,
        ensures
            final(self).inv(),
            final(self)@ == old(self)@.tick(),
    {
        self.wake_due();
        self.account_tick(pid)
    }

    /// The first half of a tick: advances the clock by one tick and wakes
    /// every process whose wakeup has become due, the earliest first.
    pub fn wake_due(&mut self)
        requires
            old(self).inv(),
            old(self)@.hub.now < usize::MAX,
        ensures
            final(self).inv(),
            final(self)@ == old(self)@.tick(),
    {
        self.event_hub.tick();
        let ghost ticked = self@;
        proof {
            lemma_wf_table_same_slots(old(self)@, ticked);
        }
        loop
            invariant
                self.inv_table(),
                self@.fire_due() == ticked.fire_due(),
            ensures
                self.inv(),
                self@ == ticked.fire_due(),
            decreases self@.hub.timers.len(),
        {
            let ghost before = self@;
            match self.event_hub.pop() {
                Some(Event::Wakeup(target)) => {
                    proof {
                        lemma_wf_table_same_slots(before, self@);
                    }
                    let live = target < self.procs.len() && match &self.procs[target] {
                        Some(proc) => match proc.status {
                            Status::Exited(_) => false,
                            _ => true,
                        },
                        None => false,
                    };
                    if live {
                        self.transition(target, Status::Ready);
                    }
                },
                None => {
                    break;
                },
            }
        }
    }

    /// The second half of a tick: lets the scheduler account one tick to the
    /// running process `pid`, and says whether its time slice is used up.
    pub fn account_tick(&mut self, pid: Pid) -> (expired: bool)
        requires
            old(self).inv(),
        ensures
            final(self).inv(),
            final(self)@ == old(self)@,
            expired == old(self).slice_expires(pid),
    {
        self.scheduler.tick(pid)
    }

    /// Sets the priority of `pid` with the scheduler: the scheduler holds
    /// `priority` for `pid` from now on, and for every other pid what it held
    /// before. No status changes.
    pub fn set_priority(&mut self, pid: Pid, priority: u8)
        requires
            old(self).inv(),
        ensures
            final(self).inv(),
            final(self)@ == old(self)@,
            final(self).priority(pid) == Some(priority),
            forall|other: Pid| other != pid ==> final(self).priority(other) == old(self).priority(other),
    {
        self.scheduler.set_priority(pid, priority);
    }

    /// Hands the process that the scheduler selects to the core `cpu_id`:
    /// marks it `Running` and gives its context out. `None` if the scheduler
    /// selects nothing.
    pub fn run(&mut self, cpu_id: usize) -> (r: Option<(Pid, C)>)
        requires
            old(self).inv(),
        ensures
            final(self).inv(),
            match old(self).selection() {
                Some(pid) => old(self)@.is_ready(pid) && r == Some(
                    (pid, old(self)@.proc(pid).context.unwrap()),
                ) && final(self)@ == old(self)@.run(pid, cpu_id),
                None => r is None && final(self)@ == old(self)@,
            },
    {
        proof {
            self.scheduler.lemma_choice_is_ready();
        }
        match self.scheduler.select() {
            Some(pid) => {
                assert(self@.ready_set().contains(pid));
                let context = self.dispatch(pid, cpu_id);
                Some((pid, context))
            },
            None => None,
        }
    }

    /// Hands the ready process `pid` to the core `cpu_id`: takes it from the
    /// scheduler, marks it `Running` and gives its context out.
    pub fn dispatch(&mut self, pid: Pid, cpu_id: usize) -> (context: C)
        requires
            old(self).inv(),
            old(self)@.is_ready(pid),
        ensures
            final(self).inv(),
            final(self)@ == old(self)@.run(pid, cpu_id),
            context == old(self)@.proc(pid).context.unwrap(),
    {
        assert(self@.ready_set().contains(pid));
        assert(self@.occupied(pid));
        assert(self@.proc(pid).wf(pid));
        self.scheduler.remove(pid);
        let context = match &mut self.procs[pid] {
            Some(proc) => {
                proc.status = Status::Running(cpu_id);
                proc.context.take()
            },
            None => None,
        };
        proof {
            let before = old(self)@;
            assert(self@.procs =~= before.run(pid, cpu_id).procs);
            assert(self@.waiters =~= before.waiters);
            lemma_with_slot_wf(before, pid, self@.procs[pid as int]);
            assert(self.scheduled() =~= self@.ready_set());
        }
        context.unwrap()
    }

    /// Takes the context of the running process `pid` back from its core.
    /// The process takes on its pending status: if that is `Ready` it goes
    /// back to the scheduler; if it is `Exited` the context is dropped, its
    /// waiters are woken and the exit handler is called.
    pub fn stop(&mut self, pid: Pid, context: C)
        requires
            old(self).inv(),
            old(self)@.occupied(pid),
            old(self)@.proc(pid).status is Running,
        ensures
            final(self).inv(),
            final(self)@ == old(self)@.stop(pid, context),
    {
        assert(self@.proc(pid).wf(pid));
        let status = match &mut self.procs[pid] {
            Some(proc) => {
                let status = proc.status_after_stop;
                proc.status = status;
                proc.status_after_stop = Status::Ready;
                proc.context = match status {
                    Status::Exited(_) => None,
                    _ => Some(context),
                };
                status
            },
            None => Status::Ready,
        };
        match status {
            Status::Ready => {
                assert(!old(self)@.ready_set().contains(pid));
                self.scheduler.insert(pid);
            },
            _ => {},
        }
        proof {
            let before = old(self)@;
            let after = self@;
            let stopped = before.with_slot(
                pid,
                Some(
                    Process {
                        id: before.proc(pid).id,
                        status,
                        status_after_stop: Status::Ready,
                        context: if status is Exited {
                            None
                        } else {
                            Some(context)
                        },
                    },
                ),
            );
            assert(after.procs =~= stopped.procs);
            assert(after.waiters =~= before.waiters);
            assert(after == stopped);
            assert(before.proc(pid).effective() == after.proc(pid).effective());
            lemma_with_slot_wf(before, pid, after.procs[pid as int]);
            assert(self.scheduled() =~= after.ready_set());
        }
        match status {
            Status::Exited(_) => {
                proof {
                    lemma_cleanup(self@, pid);
                }
                self.exit_cleanup(pid)
            },
            _ => {},
        }
    }

    /// Sets the status of `pid`, and keeps the scheduler and the wait queues
    /// in step. A running process keeps running: the status is kept pending
    /// until the process is stopped. A process that thereby exits at once
    /// gives up its context, its waiters are woken and the exit handler is
    /// called.
    pub fn set_status(&mut self, pid: Pid, status: Status)
        requires
            old(self).inv(),
            old(self)@.can_set_status(pid, status),
        ensures
            final(self).inv(),
            final(self)@ == old(self)@.set_status(pid, status),
    {
        self.transition(pid, status);
        proof {
            lemma_transition_wf(old(self)@, pid, status);
        }
        let exited = match &self.procs[pid] {
            Some(proc) => match proc.status {
                Status::Exited(_) => true,
                _ => false,
            },
            None => false,
        };
        if exited {
            proof {
                lemma_cleanup(self@, pid);
            }
            self.exit_cleanup(pid);
        }
    }

    /// Whether the status of `pid` may be set to `status`.
    pub fn can_set_status(&self, pid: Pid, status: Status) -> (r: bool)
        ensures
            r == self@.can_set_status(pid, status),
    {
        let live = match self.get_status(pid) {
            Some(Status::Exited(_)) => false,
            Some(_) => true,
            None => false,
        };
        live && match status {
            Status::Running(_) => false,
            Status::Waiting(target) => target < self.procs.len(),
            _ => true,
        }
    }

    /// The status of `pid`; `None` if there is no such process.
    pub fn get_status(&self, pid: Pid) -> (r: Option<Status>)
        ensures
            r == self@.status(pid),
    {
        if pid < self.procs.len() {
            match &self.procs[pid] {
                Some(proc) => Some(proc.status),
                None => None,
            }
        } else {
            None
        }
    }

    /// Empties the slot of the exited process `pid`.
    pub fn remove(&mut self, pid: Pid)
        requires
            old(self).inv(),
            old(self)@.occupied(pid),
            old(self)@.proc(pid).status is Exited,
        ensures
            final(self).inv(),
            final(self)@ == old(self)@.remove(pid),
            final(self)@.status(pid) is None,
    {
        self.procs[pid] = None;
        proof {
            let before = old(self)@;
            assert(self@.procs =~= before.remove(pid).procs);
            assert(self@.waiters =~= before.waiters);
            assert(before.proc(pid).wf(pid));
            lemma_with_slot_wf(before, pid, None);
            assert(self.scheduled() =~= self@.ready_set());
        }
    }

    /// Puts `pid` to sleep. With `time` other than 0 it is woken `time` ticks
    /// from now; with 0 it sleeps until somebody wakes it.
    pub fn sleep(&mut self, pid: Pid, time: usize)
        requires
            old(self).inv(),
            old(self)@.can_set_status(pid, Status::Sleeping),
            old(self)@.hub.now + time <= usize::MAX,
        ensures
            final(self).inv(),
            final(self)@ == old(self)@.sleep(pid, time as nat),
    {
        self.set_status(pid, Status::Sleeping);
        proof {
            lemma_set_status(old(self)@, pid, Status::Sleeping);
        }
        if time != 0 {
            let ghost slept = self@;
            self.event_hub.push(time, Event::Wakeup(pid));
            proof {
                let deadline = (slept.hub.now + time) as nat;
                lemma_push_sorted(slept.hub, time as nat, Event::Wakeup(pid));
                lemma_due_count_sorted(slept.hub.timers, deadline);
                assert(self@.waiters =~= slept.waiters);
                lemma_wf_table_same_slots(slept, self@);
                if due_count(slept.hub.timers, deadline) > 0 {
                    assert(self@.hub.timers[0] == slept.hub.timers[0]);
                }
            }
        }
    }

    /// Makes `pid` ready.
    pub fn wakeup(&mut self, pid: Pid)
        requires
            old(self).inv(),
            old(self)@.can_set_status(pid, Status::Ready),
        ensures
            final(self).inv(),
            final(self)@ == old(self)@.wakeup(pid),
    {
        self.set_status(pid, Status::Ready);
    }

    /// Makes `pid` wait until `target` exits.
    pub fn wait(&mut self, pid: Pid, target: Pid)
        requires
            old(self).inv(),
            old(self)@.can_set_status(pid, Status::Waiting(target)),
        ensures
            final(self).inv(),
            final(self)@ == old(self)@.wait(pid, target),
    {
        self.set_status(pid, Status::Waiting(target));
    }

    /// Lets `pid` exit with `code`.
    pub fn exit(&mut self, pid: Pid, code: ExitCode)
        requires
            old(self).inv(),
            old(self)@.can_set_status(pid, Status::Exited(code)),
        ensures
            final(self).inv(),
            final(self)@ == old(self)@.exit(pid, code),
    {
        self.set_status(pid, Status::Exited(code));
    }

    /// Writes the new status of `pid` and updates the scheduler and the
    /// wait queues for it.
    fn transition(&mut self, pid: Pid, status: Status)
        requires
            old(self).inv_table(),
            old(self)@.can_set_status(pid, status),
        ensures
            final(self).inv_table(),
            final(self)@ == old(self)@.transition(pid, status),
    {
        let ghost before = self@;
        proof {
            lemma_transition_wf(before, pid, status);
            assert(before.proc(pid).wf(pid));
            assert(before.ready_set().contains(pid) <==> before.is_ready(pid));
        }
        let (current, pending) = match &self.procs[pid] {
            Some(proc) => (proc.status, proc.status_after_stop),
            None => (Status::Ready, Status::Ready),
        };
        let running = match current {
            Status::Running(_) => true,
            _ => false,
        };
        let effective = if running { pending } else { current };
        match (current, status) {
            (Status::Ready, Status::Ready) => {
                proof {
                    assert(before.transition(pid, status).procs =~= before.procs);
                    assert(before.transition(pid, status).waiters =~= before.waiters);
                }
                return ;
            },
            (Status::Ready, _) => {
                self.scheduler.remove(pid);
            },
            (Status::Running(_), _) => {},
            (_, Status::Ready) => {
                self.scheduler.insert(pid);
            },
            _ => {},
        }
        if effective != status {
            match effective {
                Status::Waiting(target) => {
                    assert(before.waits_on(pid, target));
                    remove_pid(&mut self.wait_queue[target], pid);
                },
                _ => {},
            }
            match status {
                Status::Waiting(target) => {
                    self.wait_queue[target].push(pid);
                },
                _ => {},
            }
        }
        match &mut self.procs[pid] {
            Some(proc) => {
                if running {
                    proc.status_after_stop = status;
                } else {
                    proc.status = status;
                    match status {
                        Status::Exited(_) => {
                            proc.context = None;
                        },
                        _ => {},
                    }
                }
            },
            None => {},
        }
        proof {
            let want = before.transition(pid, status);
            let after = self@;
            assert(after.procs =~= want.procs);
            assert(after.waiters =~= want.waiters);
            assert(after == want);
            assert forall|q: Pid| self.scheduled().contains(q) <==> after.is_ready(q) by {
                assert(before.ready_set().contains(q) <==> before.is_ready(q));
            }
            assert(self.scheduled() =~= after.ready_set());
        }
    }

    /// Wakes every process that waits for `pid`.
    fn wake_waiters(&mut self, pid: Pid)
        requires
            old(self).inv_table(),
            pid < old(self)@.procs.len(),
        ensures
            final(self).inv_table(),
            final(self)@ == old(self)@.wake_waiters(pid),
    {
        while self.wait_queue[pid].len() > 0
            invariant
                self.inv_table(),
                pid < self@.procs.len(),
                self@.wake_waiters(pid) == old(self)@.wake_waiters(pid),
            decreases self@.waiters[pid as int].len(),
        {
            let ghost before = self@;
            let waiter = self.wait_queue[pid][0];
            proof {
                let queue = before.waiters[pid as int];
                assert(queue[0] == waiter);
                assert(queue.contains(waiter));
                assert(before.waits_on(waiter, pid));
                assert(before.proc(waiter).wf(waiter));
                assert(queue.no_duplicates());
                lemma_without_head(queue);
                lemma_transition_wf(before, waiter, Status::Ready);
            }
            self.transition(waiter, Status::Ready);
            proof {
                assert(self@.waiters[pid as int] == before.waiters[pid as int].drop_first());
            }
        }
        proof {
            assert(self@.waiters[pid as int] =~= Seq::<Pid>::empty());
        }
    }

    /// What is done for a process at the moment at which it has exited.
    fn exit_cleanup(&mut self, pid: Pid)
        requires
            old(self).inv_table(),
            pid < old(self)@.procs.len(),
        ensures
            final(self).inv_table(),
            final(self)@ == old(self)@.cleanup(pid),
    {
        self.wake_waiters(pid);
        (self.exit_handler)(pid);
        proof {
            lemma_wake_waiters(old(self)@, pid);
            self.exits@ = self.exits@.push(pid);
            lemma_wf_table_same_slots(old(self)@.wake_waiters(pid), self@);
        }
    }
}

} // verus!
