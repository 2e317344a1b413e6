//! The scheduling policy that the process manager consults, and a round-robin policy.

use vstd::prelude::*;
use std::collections::HashMap;
use crate::pid_seq::{lemma_without_contains, lemma_without_no_duplicates, remove_pid, without};

verus! {

/// A scheduling policy over process ids.
///
/// The policy keeps the set of runnable processes. The process manager keeps
/// that set equal to the set of processes whose status is `Ready`, inserts no
/// pid twice and removes none that is absent.
pub trait Scheduler {
    /// What the policy needs to hold of its own state.
    spec fn inv(&self) -> bool;

    /// The pids that were inserted and not removed since.
    spec fn ready(&self) -> Set<usize>;

    /// The pid that `select` returns in this state.
    spec fn choice(&self) -> Option<usize>;

    /// Whether `tick` in this state reports the time slice of `current` as used up.
    spec fn expires(&self, current: usize) -> bool;

    /// The priority that the policy holds for `pid`, if it holds one.
    spec fn priority(&self, pid: usize) -> Option<u8>;

    /// The policy selects only what is runnable.
    proof fn lemma_choice_is_ready(&self)
        requires
            self.inv(),
        ensures
            self.choice() matches Some(pid) ==> self.ready().contains(pid),
    ;

    /// Makes `pid` runnable.
    fn insert(&mut self, pid: usize)
        requires
            old(self).inv(),
            !old(self).ready().contains(pid),
        ensures
            final(self).inv(),
            final(self).ready() == old(self).ready().insert(pid),
    ;

    /// Takes `pid` out of the runnable set.
    fn remove(&mut self, pid: usize)
        requires
            old(self).inv(),
            old(self).ready().contains(pid),
        ensures
            final(self).inv(),
            final(self).ready() == old(self).ready().remove(pid),
    ;

    /// Picks the process to run next, leaving it in the runnable set.
    fn select(&mut self) -> (r: Option<usize>)
        requires
            old(self).inv(),
        ensures
            final(self).inv(),
            final(self).ready() == old(self).ready(),
            r == old(self).choice(),
    ;

    /// Accounts one timer tick to the running process `current`, and says
    /// whether its time slice is used up.
    fn tick(&mut self, current: usize) -> (expired: bool)
        requires
            old(self).inv(),
        ensures
            final(self).inv(),
            final(self).ready() == old(self).ready(),
            expired == old(self).expires(current),
    ;

    /// Gives `pid` the priority `priority`: the policy holds it for `pid`
    /// from now on, and holds for every other pid what it held before.
    fn set_priority(&mut self, pid: usize, priority: u8)
        requires
            old(self).inv(),
        ensures
            final(self).inv(),
            final(self).ready() == old(self).ready(),
            final(self).priority(pid) == Some(priority),
            forall|other: usize| other != pid ==> final(self).priority(other) == old(self).priority(other),
    ;
}

/// Round robin: runnable processes are served in the order in which they
/// became runnable, each for at most `max_time_slice` ticks at a time. The
/// priorities that it is given it keeps, and serves all alike.
pub struct RRScheduler {
    max_time_slice: usize,
    queue: Vec<usize>,
    slices: Vec<usize>,
    priorities: HashMap<usize, u8>,
}

impl RRScheduler {
    /// The runnable pids, the longest waiting first.
    pub closed spec fn queue(&self) -> Seq<usize> {
        self.queue@
    }

    /// The ticks that `pid` may still run before its slice is used up; 0 for
    /// a pid beyond the table that the scheduler was made for.
    pub closed spec fn rest_slice(&self, pid: usize) -> nat {
        if pid < self.slices@.len() {
            self.slices@[pid as int] as nat
        } else {
            0
        }
    }

    pub closed spec fn spec_max_time_slice(&self) -> nat {
        self.max_time_slice as nat
    }

    /// The priorities that the scheduler was given, by pid.
    pub closed spec fn priorities(&self) -> Map<usize, u8> {
        self.priorities@
    }

    /// The number of pids that the scheduler keeps a slice for.
    pub closed spec fn table_size(&self) -> nat {
        self.slices@.len()
    }

    /// A scheduler for the pids below `max_proc_num`, with nothing runnable.
    pub fn new(max_time_slice: usize, max_proc_num: usize) -> (s: Self)
        ensures
            s.inv(),
            s.queue() == Seq::<usize>::empty(),
            s.ready() == Set::<usize>::empty(),
            s.spec_max_time_slice() == max_time_slice,
            s.table_size() == max_proc_num,
            forall|pid: usize| s.rest_slice(pid) == 0,
            s.priorities() == Map::<usize, u8>::empty(),
    {
        let mut slices: Vec<usize> = Vec::new();
        let mut i: usize = 0;
        while i < max_proc_num
            invariant
                i <= max_proc_num,
                slices@.len() == i,
                forall|k: int| 0 <= k < i ==> slices@[k] == 0,
            decreases max_proc_num - i,
        {
            slices.push(0);
            i += 1;
        }
        let s = RRScheduler { max_time_slice, queue: Vec::new(), slices, priorities: HashMap::new() };
        assert(s.ready() =~= Set::<usize>::empty());
        s
    }
}

impl Scheduler for RRScheduler {
    open spec fn inv(&self) -> bool {
        self.queue().no_duplicates()
    }

    open spec fn ready(&self) -> Set<usize> {
        Set::new(|pid: usize| self.queue().contains(pid))
    }

    open spec fn choice(&self) -> Option<usize> {
        if self.queue().len() > 0 {
            Some(self.queue()[0])
        } else {
            None
        }
    }

    open spec fn expires(&self, current: usize) -> bool {
        self.rest_slice(current) <= 1
    }

    open spec fn priority(&self, pid: usize) -> Option<u8> {
        if self.priorities().contains_key(pid) {
            Some(self.priorities()[pid])
        } else {
            None
        }
    }

    proof fn lemma_choice_is_ready(&self) {
        if self.queue().len() > 0 {
            assert(self.queue().contains(self.queue()[0]));
        }
    }

    /// Appends `pid` to the queue, with a fresh slice if its last one is used up.
    fn insert(&mut self, pid: usize)
        ensures
            final(self).queue() == old(self).queue().push(pid),
            final(self).spec_max_time_slice() == old(self).spec_max_time_slice(),
            final(self).table_size() == old(self).table_size(),
            final(self).rest_slice(pid) == if pid < old(self).table_size() && old(self).rest_slice(
                pid,
            ) == 0 {
                old(self).spec_max_time_slice()
            } else {
                old(self).rest_slice(pid)
            },
            forall|q: usize| q != pid ==> final(self).rest_slice(q) == old(self).rest_slice(q),
            final(self).priorities() == old(self).priorities(),
    {
        if pid < self.slices.len() && self.slices[pid] == 0 {
            self.slices[pid] = self.max_time_slice;
        }
        self.queue.push(pid);
        proof {
            let before = old(self).queue();
            let after = self.queue();
            assert forall|i: int, j: int| 0 <= i < after.len() && 0 <= j < after.len() && i
                != j implies after[i] != after[j] by {
                if i == after.len() - 1 {
                    assert(before.contains(before[j]));
                } else if j == after.len() - 1 {
                    assert(before.contains(before[i]));
                } else {
                    assert(before[i] != before[j]);
                }
            }
            assert forall|q: usize| self.ready().contains(q) <==> old(self).ready().insert(
                pid,
            ).contains(q) by {
                if after.contains(q) {
                    let i = choose|i: int| 0 <= i < after.len() && after[i] == q;
                    if i < before.len() {
                        assert(before[i] == q);
                    }
                }
                if before.contains(q) {
                    let i = choose|i: int| 0 <= i < before.len() && before[i] == q;
                    assert(after[i] == q);
                }
                if q == pid {
                    assert(after[after.len() - 1] == q);
                }
            }
            assert(self.ready() =~= old(self).ready().insert(pid));
        }
    }

    /// Takes `pid` out of the queue; its slice stays as it is.
    fn remove(&mut self, pid: usize)
        ensures
            final(self).queue() == without(old(self).queue(), pid),
            final(self).spec_max_time_slice() == old(self).spec_max_time_slice(),
            final(self).table_size() == old(self).table_size(),
            forall|q: usize| final(self).rest_slice(q) == old(self).rest_slice(q),
            final(self).priorities() == old(self).priorities(),
    {
        remove_pid(&mut self.queue, pid);
        proof {
            lemma_without_contains(old(self).queue(), pid);
            lemma_without_no_duplicates(old(self).queue(), pid);
            assert(self.ready() =~= old(self).ready().remove(pid));
        }
    }

    /// The head of the queue.
    fn select(&mut self) -> (r: Option<usize>)
        ensures
            final(self).queue() == old(self).queue(),
            final(self).spec_max_time_slice() == old(self).spec_max_time_slice(),
            final(self).table_size() == old(self).table_size(),
            forall|q: usize| final(self).rest_slice(q) == old(self).rest_slice(q),
            final(self).priorities() == old(self).priorities(),
    {
        if self.queue.len() > 0 {
            Some(self.queue[0])
        } else {
            None
        }
    }

    /// Takes one tick off the slice of `current`, if any is left.
    fn tick(&mut self, current: usize) -> (expired: bool)
        ensures
            final(self).queue() == old(self).queue(),
            final(self).spec_max_time_slice() == old(self).spec_max_time_slice(),
            final(self).table_size() == old(self).table_size(),
            final(self).rest_slice(current) == if old(self).rest_slice(current) > 0 {
                old(self).rest_slice(current) - 1
            } else {
                0
            },
            forall|q: usize| q != current ==> final(self).rest_slice(q) == old(self).rest_slice(q),
            expired == (final(self).rest_slice(current) == 0),
            final(self).priorities() == old(self).priorities(),
    {
        if current < self.slices.len() {
            let rest = self.slices[current];
            if rest > 0 {
                self.slices[current] = rest - 1;
            }
            self.slices[current] == 0
        } else {
            true
        }
    }

    /// Notes the priority of `pid`; the queue and the slices stay as they are.
    fn set_priority(&mut self, pid: usize, priority: u8)
        ensures
            final(self).queue() == old(self).queue(),
            final(self).spec_max_time_slice() == old(self).spec_max_time_slice(),
            final(self).table_size() == old(self).table_size(),
            forall|q: usize| final(self).rest_slice(q) == old(self).rest_slice(q),
            final(self).priorities() == old(self).priorities().insert(pid, priority),
    {
        broadcast use vstd::std_specs::hash::group_hash_axioms;

        self.priorities.insert(pid, priority);
    }
}

impl RRScheduler {
    /// The priority that the scheduler was given for `pid`, if any.
    pub fn priority_of(&self, pid: usize) -> (r: Option<u8>)
        ensures
            r == self.priority(pid),
    {
        broadcast use vstd::std_specs::hash::group_hash_axioms;

        match self.priorities.get(&pid) {
            Some(priority) => Some(*priority),
            None => None,
        }
    }
}

} // verus!
