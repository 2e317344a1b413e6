//! A delay queue: events that become due at a future tick.

use vstd::prelude::*;

verus! {

/// What an `EventHub` holds: the current tick and the pending events with
/// their deadlines, in the order in which they will fire.
pub struct EventHubView<T> {
    pub now: nat,
    pub timers: Seq<(nat, T)>,
}

/// Deadlines never decrease along the sequence.
pub open spec fn deadlines_sorted<T>(timers: Seq<(nat, T)>) -> bool {
    forall|i: int, j: int| 0 <= i <= j < timers.len() ==> (#[trigger] timers[i]).0 <= (#[trigger] timers[j]).0
}

/// The number of leading events whose deadline is `t` or earlier.
pub open spec fn due_count<T>(timers: Seq<(nat, T)>, t: nat) -> nat
    decreases timers.len(),
{
    if timers.len() == 0 || timers[0].0 > t {
        0
    } else {
        1 + due_count(timers.drop_first(), t)
    }
}

/// `due_count` is the position `k` before which every deadline is due and at
/// which, if there is an event, the deadline is not.
pub proof fn lemma_due_count<T>(timers: Seq<(nat, T)>, t: nat, k: int)
    requires
        0 <= k <= timers.len(),
        forall|i: int| 0 <= i < k ==> (#[trigger] timers[i]).0 <= t,
        k < timers.len() ==> timers[k].0 > t,
    ensures
        due_count(timers, t) == k,
    decreases timers.len(),
{
    if k > 0 {
        let rest = timers.drop_first();
        assert(timers[0].0 <= t);
        assert forall|i: int| 0 <= i < k - 1 implies (#[trigger] rest[i]).0 <= t by {
            assert(timers[i + 1].0 <= t);
        }
        lemma_due_count(rest, t, k - 1);
    }
}

/// In a sorted queue the events before `due_count` are exactly the due ones.
pub proof fn lemma_due_count_sorted<T>(timers: Seq<(nat, T)>, t: nat)
    requires
        deadlines_sorted(timers),
    ensures
        due_count(timers, t) <= timers.len(),
        forall|i: int| 0 <= i < timers.len() ==> ((#[trigger] timers[i]).0 <= t <==> i < due_count(timers, t)),
    decreases timers.len(),
{
    if timers.len() == 0 {
    } else if timers[0].0 > t {
        assert forall|i: int| 0 <= i < timers.len() implies (#[trigger] timers[i]).0 > t by {
            assert(timers[0].0 <= timers[i].0);
        }
    } else {
        let rest = timers.drop_first();
        assert forall|i: int, j: int| 0 <= i <= j < rest.len() implies (#[trigger] rest[i]).0 <= (
        #[trigger] rest[j]).0 by {
            assert(timers[i + 1].0 <= timers[j + 1].0);
        }
        lemma_due_count_sorted(rest, t);
        assert forall|i: int| 0 <= i < timers.len() implies ((#[trigger] timers[i]).0 <= t <==> i
            < due_count(timers, t)) by {
            if i > 0 {
                assert(rest[i - 1] == timers[i]);
            }
        }
    }
}

impl<T> EventHubView<T> {
    pub open spec fn wf(self) -> bool {
        deadlines_sorted(self.timers)
    }

    /// Whether the first pending event is due.
    pub open spec fn has_due(self) -> bool {
        self.timers.len() > 0 && self.timers[0].0 <= self.now
    }

    /// The queue one tick later.
    pub open spec fn tick(self) -> Self {
        EventHubView { now: self.now + 1, timers: self.timers }
    }

    /// The queue without its first event.
    pub open spec fn pop(self) -> Self {
        EventHubView { now: self.now, timers: self.timers.drop_first() }
    }

    /// The queue with `data` due `time_after` ticks from now, behind every
    /// event that is due then or earlier.
    pub open spec fn push(self, time_after: nat, data: T) -> Self {
        let deadline = self.now + time_after;
        EventHubView {
            now: self.now,
            timers: self.timers.insert(due_count(self.timers, deadline) as int, (deadline, data)),
        }
    }
}

/// Pushing keeps the queue sorted, and keeps what was pending, in its order,
/// around the new event.
pub proof fn lemma_push_sorted<T>(hub: EventHubView<T>, time_after: nat, data: T)
    requires
        hub.wf(),
    ensures
        hub.push(time_after, data).wf(),
        due_count(hub.timers, hub.now + time_after) <= hub.timers.len(),
{
    let deadline = hub.now + time_after;
    let k = due_count(hub.timers, deadline) as int;
    lemma_due_count_sorted(hub.timers, deadline);
    let after = hub.push(time_after, data).timers;
    assert forall|i: int, j: int| 0 <= i <= j < after.len() implies (#[trigger] after[i]).0 <= (
    #[trigger] after[j]).0 by {
        let a = if i < k { i } else { i - 1 };
        let b = if j < k { j } else { j - 1 };
        if i != k {
            assert(after[i] == hub.timers[a]);
        }
        if j != k {
            assert(after[j] == hub.timers[b]);
        }
        if i != k && j != k {
            assert(hub.timers[a].0 <= hub.timers[b].0);
        }
    }
}

/// One pending event.
pub struct Timer<T> {
    time: usize,
    data: T,
}

/// A queue of events keyed by the tick at which each becomes due.
pub struct EventHub<T> {
    tick: usize,
    timers: Vec<Timer<T>>,
}

impl<T> EventHub<T> {
    /// The clock and the pending events.
    pub closed spec fn view(&self) -> EventHubView<T> {
        EventHubView {
            now: self.tick as nat,
            timers: Seq::new(
                self.timers@.len(),
                |i: int| (self.timers@[i].time as nat, self.timers@[i].data),
            ),
        }
    }

    /// The queue is sorted by deadline, and every deadline is a tick count
    /// that the machine can hold.
    pub open spec fn inv(&self) -> bool {
        &&& self@.wf()
        &&& self@.now <= usize::MAX
        &&& forall|i: int| 0 <= i < self@.timers.len() ==> (#[trigger] self@.timers[i]).0 <= usize::MAX
    }

    /// An empty queue at tick 0.
    pub fn new() -> (hub: Self)
        ensures
            hub.inv(),
            hub@.now == 0,
            hub@.timers == Seq::<(nat, T)>::empty(),
    {
        EventHub { tick: 0, timers: Vec::new() }
    }

    /// Advances the clock by one tick.
    pub fn tick(&mut self)
        requires
            old(self).inv(),
            old(self)@.now < usize::MAX,
        ensures
            final(self).inv(),
            final(self)@ == old(self)@.tick(),
    {
        self.tick = self.tick + 1;
    }

    /// Takes the first pending event out if it is due.
    pub fn pop(&mut self) -> (r: Option<T>)
        requires
            old(self).inv(),
        ensures
            final(self).inv(),
            match r {
                Some(data) => old(self)@.has_due() && data == old(self)@.timers[0].1 && final(self)@
                    == old(self)@.pop(),
                None => !old(self)@.has_due() && final(self)@ == old(self)@,
            },
    {
        if self.timers.len() == 0 {
            return None;
        }
        if self.timers[0].time > self.tick {
            return None;
        }
        let timer = self.timers.remove(0);
        proof {
            assert(self@.timers =~= old(self)@.timers.drop_first());
            let before = old(self)@.timers;
            let after = self@.timers;
            assert forall|i: int, j: int| 0 <= i <= j < after.len() implies (#[trigger] after[i]).0
                <= (#[trigger] after[j]).0 by {
                assert(before[i + 1].0 <= before[j + 1].0);
            }
            assert forall|i: int| 0 <= i < after.len() implies (#[trigger] after[i]).0
                <= usize::MAX by {
                assert(before[i + 1].0 <= usize::MAX);
            }
        }
        Some(timer.data)
    }

    /// Schedules `data` to become due `time_after` ticks from now.
    pub fn push(&mut self, time_after: usize, data: T)
        requires
            old(self).inv(),
            old(self)@.now + time_after <= usize::MAX,
        ensures
            final(self).inv(),
            final(self)@ == old(self)@.push(time_after as nat, data),
    {
        let time = self.tick + time_after;
        let mut i: usize = 0;
        while i < self.timers.len() && self.timers[i].time <= time
            invariant
                i <= self.timers.len(),
                forall|k: int| 0 <= k < i ==> (#[trigger] self.timers@[k]).time <= time,
            decreases self.timers.len() - i,
        {
            i += 1;
        }
        proof {
            assert forall|k: int| 0 <= k < i implies (#[trigger] self@.timers[k]).0 <= time by {
                assert(self.timers@[k].time <= time);
            }
            lemma_due_count(self@.timers, time as nat, i as int);
            lemma_push_sorted(self@, time_after as nat, data);
        }
        self.timers.insert(i, Timer { time, data });
        proof {
            let want = old(self)@.push(time_after as nat, data);
            assert(self@.timers =~= want.timers);
            assert forall|k: int| 0 <= k < self@.timers.len() implies (#[trigger] self@.timers[k]).0
                <= usize::MAX by {
                assert(self@.timers[k].0 == self.timers@[k].time);
            }
        }
    }

    /// The current tick.
    pub fn get_time(&self) -> (r: usize)
        ensures
            r == self@.now,
    {
        self.tick
    }
}

} // verus!
