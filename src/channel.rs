//! A publish/subscribe hub for one session's events. Events are kept in a
//! log; each subscriber reads it through a cursor. A subscriber whose
//! backlog has reached its capacity is closed instead of stalling the
//! publisher.

use vstd::prelude::*;
use crate::models::Event;

verus! {

#[derive(Clone, Copy, Debug, PartialEq, Eq, Structural)]
pub struct Subscriber {
    pub open: bool,
    /// How many undelivered events it may hold.
    pub capacity: usize,
    /// Index in the log of the next event to deliver.
    pub next: usize,
}

pub struct Hub {
    pub log: Vec<Event>,
    pub subscribers: Vec<Subscriber>,
}

/// A subscriber after one more event is published while the log holds
/// `len` events.
pub open spec fn after_publish(s: Subscriber, len: nat) -> Subscriber {
    if s.open && len - s.next >= s.capacity {
        Subscriber { open: false, ..s }
    } else {
        s
    }
}

/// All subscribers after one more event is published.
pub open spec fn publish_all(subs: Seq<Subscriber>, len: nat) -> Seq<Subscriber> {
    subs.map_values(|s: Subscriber| after_publish(s, len))
}

/// All subscribers after subscriber `id` disconnects.
pub open spec fn disconnect_one(subs: Seq<Subscriber>, id: int) -> Seq<Subscriber> {
    subs.update(id, Subscriber { open: false, ..subs[id] })
}

impl Hub {
    pub open spec fn wf(&self) -> bool {
        forall|i: int|
            0 <= i < self.subscribers@.len() ==> #[trigger] self.subscribers@[i].next
                <= self.log@.len()
    }

    /// Events that subscriber `id` has not received yet.
    pub open spec fn pending(&self, id: int) -> Seq<Event> {
        self.log@.subrange(self.subscribers@[id].next as int, self.log@.len() as int)
    }

    pub fn new() -> (r: Hub)
        ensures
            r.wf(),
            r.log@.len() == 0,
            r.subscribers@.len() == 0,
    {
        Hub { log: Vec::new(), subscribers: Vec::new() }
    }

    /// Adds a subscriber. It receives only events published from now on.
    pub fn subscribe(&mut self, capacity: usize) -> (id: usize)
        requires
            old(self).wf(),
        ensures
            final(self).wf(),
            id == old(self).subscribers@.len(),
            final(self).log@ == old(self).log@,
            final(self).subscribers@ == old(self).subscribers@.push(
                Subscriber { open: true, capacity, next: old(self).log@.len() as usize },
            ),
    {
        let id = self.subscribers.len();
        self.subscribers.push(Subscriber { open: true, capacity, next: self.log.len() });
        id
    }

    /// Appends an event to the log. Every open subscriber keeps it pending,
    /// except one whose backlog is already full: that one is closed.
    /// Publishing never waits and never fails; once the log is as long as
    /// an index can count, further events are dropped.
    pub fn publish(&mut self, e: Event)
        requires
            old(self).wf(),
        ensures
            final(self).wf(),
            old(self).log@.len() < usize::MAX ==> final(self).log@ == old(self).log@.push(e),
            old(self).log@.len() < usize::MAX ==> final(self).subscribers@ == publish_all(
                old(self).subscribers@,
                old(self).log@.len(),
            ),
            old(self).log@.len() == usize::MAX ==> final(self).log@ == old(self).log@
                && final(self).subscribers@ == old(self).subscribers@,
    {
        let len = self.log.len();
        if len == usize::MAX {
            return;
        }
        let ghost subs0 = self.subscribers@;
        let mut i: usize = 0;
        while i < self.subscribers.len()
            invariant
                len == self.log@.len(),
                self.log@ == old(self).log@,
                self.subscribers@.len() == subs0.len(),
                subs0 == old(self).subscribers@,
                i <= subs0.len(),
                forall|j: int| 0 <= j < subs0.len() ==> #[trigger] subs0[j].next <= len,
                forall|j: int| 0 <= j < i ==> self.subscribers@[j] == after_publish(#[trigger] subs0[j], len as nat),
                forall|j: int| i <= j < subs0.len() ==> self.subscribers@[j] == #[trigger] subs0[j],
            decreases subs0.len() - i,
        {
            let s = self.subscribers[i];
            assert(s == subs0[i as int]);
            if s.open && len - s.next >= s.capacity {
                self.subscribers.set(i, Subscriber { open: false, ..s });
            }
            i = i + 1;
        }
        assert(self.subscribers@ =~= publish_all(subs0, len as nat));
        self.log.push(e);
    }

    /// Hands subscriber `id` the log index of its next event, if it is open
    /// and one is pending.
    pub fn receive(&mut self, id: usize) -> (r: Option<usize>)
        requires
            old(self).wf(),
            id < old(self).subscribers@.len(),
        ensures
            final(self).wf(),
            final(self).log@ == old(self).log@,
            ({
                let s = old(self).subscribers@[id as int];
                if s.open && s.next < old(self).log@.len() {
                    r == Some(s.next) && final(self).subscribers@ == old(self).subscribers@.update(
                        id as int,
                        Subscriber { next: (s.next + 1) as usize, ..s },
                    )
                } else {
                    r is None && final(self).subscribers@ == old(self).subscribers@
                }
            }),
    {
        let s = self.subscribers[id];
        if s.open && s.next < self.log.len() {
            self.subscribers.set(id, Subscriber { next: s.next + 1, ..s });
            Some(s.next)
        } else {
            None
        }
    }

    /// Closes subscriber `id`; nothing else changes.
    pub fn disconnect(&mut self, id: usize)
        requires
            old(self).wf(),
            id < old(self).subscribers@.len(),
        ensures
            final(self).wf(),
            final(self).log@ == old(self).log@,
            final(self).subscribers@ == disconnect_one(old(self).subscribers@, id as int),
    {
        let s = self.subscribers[id];
        self.subscribers.set(id, Subscriber { open: false, ..s });
    }

    /// The event at a log index.
    pub fn event(&self, index: usize) -> (r: &Event)
        requires
            index < self.log@.len(),
        ensures
            *r == self.log@[index as int],
    {
        &self.log[index]
    }
}

/// When one subscriber disconnects and another event is published, every
/// other subscriber that was open with room left stays open and keeps its
/// cursor, so the new event is pending for it.
pub proof fn lemma_disconnect_isolated(hub: Hub, gone: int, other: int)
    requires
        hub.wf(),
        0 <= gone < hub.subscribers@.len(),
        0 <= other < hub.subscribers@.len(),
        other != gone,
        hub.subscribers@[other].open,
        hub.log@.len() - hub.subscribers@[other].next < hub.subscribers@[other].capacity,
    ensures
        publish_all(disconnect_one(hub.subscribers@, gone), hub.log@.len())[other]
            == hub.subscribers@[other],
{
}

} // verus!
