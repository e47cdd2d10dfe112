//! Fan-out broadcaster: one bounded queue per live subscriber.

use vstd::prelude::*;
use crate::normalize::{WebEvent, WebView};

verus! {

/// The queue `q` after `e` was offered to it with room for `cap` events: when
/// it is full its oldest event gives way.
pub open spec fn push_bounded(q: Seq<WebView>, e: WebView, cap: nat) -> Seq<WebView> {
    if q.len() >= cap {
        q.drop_first().push(e)
    } else {
        q.push(e)
    }
}

/// Offering an event to a queue that is within its capacity puts exactly one
/// copy of it at the end, keeps the earlier events in their order, and drops
/// the oldest one only where the queue was full.
pub proof fn lemma_delivery_in_order(q: Seq<WebView>, e: WebView, cap: nat)
    requires
        cap > 0,
        q.len() <= cap,
    ensures
        push_bounded(q, e, cap).len() <= cap,
        push_bounded(q, e, cap).last() == e,
        q.len() < cap ==> push_bounded(q, e, cap) == q.push(e),
        q.len() == cap ==> push_bounded(q, e, cap) == q.push(e).skip(1),
{
    if q.len() == cap {
        assert(q.drop_first().push(e) =~= q.push(e).skip(1));
    }
}

pub open spec fn queue_view(q: Seq<WebEvent>) -> Seq<WebView> {
    q.map_values(|e: WebEvent| e@)
}

/// Where the subscriber `id` stands in `subs`, if it is there.
pub open spec fn has_id(subs: Seq<(u64, Seq<WebView>)>, id: u64, i: int) -> bool {
    0 <= i < subs.len() && subs[i].0 == id
}

struct Subscription {
    id: u64,
    queue: Vec<WebEvent>,
}

/// The live subscribers, each with its identity and its queue of events not
/// yet taken, oldest first.
pub struct Broadcaster {
    capacity: usize,
    next_id: u64,
    subs: Vec<Subscription>,
}

impl Broadcaster {
    /// The most events a subscriber's queue holds.
    pub closed spec fn capacity(&self) -> nat {
        self.capacity as nat
    }

    /// The identity that the next subscriber gets.
    pub closed spec fn next_id(&self) -> u64 {
        self.next_id
    }

    /// Each subscriber's identity and queue, in the order they subscribed.
    pub closed spec fn subscribers(&self) -> Seq<(u64, Seq<WebView>)> {
        self.subs@.map_values(|s: Subscription| (s.id, queue_view(s.queue@)))
    }

    /// Identities are distinct and below `next_id`, and no queue is over
    /// capacity.
    pub open spec fn wf(&self) -> bool {
        &&& self.capacity() > 0
        &&& forall|i: int, j: int|
            0 <= i < j < self.subscribers().len() ==> self.subscribers()[i].0 != self.subscribers()[j].0
        &&& forall|i: int|
            0 <= i < self.subscribers().len() ==> {
                &&& self.subscribers()[i].0 < self.next_id()
                &&& self.subscribers()[i].1.len() <= self.capacity()
            }
    }

    /// A broadcaster with no subscribers whose queues hold `capacity` events.
    pub fn new(capacity: usize) -> (r: Broadcaster)
        requires
            capacity > 0,
        ensures
            r.wf(),
            r.capacity() == capacity,
            r.subscribers() == Seq::<(u64, Seq<WebView>)>::empty(),
    {
        let r = Broadcaster { capacity, next_id: 0, subs: Vec::new() };
        assert(r.subscribers() =~= Seq::<(u64, Seq<WebView>)>::empty());
        r
    }

    pub fn subscriber_count(&self) -> (r: usize)
        ensures
            r == self.subscribers().len(),
    {
        self.subs.len()
    }

    /// Whether `id` is a live subscriber.
    pub fn is_subscribed(&self, id: u64) -> (r: bool)
        ensures
            r == (exists|i: int| has_id(self.subscribers(), id, i)),
    {
        let mut i: usize = 0;
        while i < self.subs.len()
            invariant
                i <= self.subs@.len(),
                forall|j: int| 0 <= j < i ==> self.subs@[j].id != id,
            decreases self.subs@.len() - i,
        {
            if self.subs[i].id == id {
                assert(has_id(self.subscribers(), id, i as int));
                return true;
            }
            i = i + 1;
        }
        assert forall|j: int| !has_id(self.subscribers(), id, j) by {
            if 0 <= j < self.subs@.len() {
                assert(self.subscribers()[j].0 == self.subs@[j].id);
            }
        }
        false
    }

    /// Adds a subscriber with an empty queue and returns its identity;
    /// `None`, with nothing changed, once every identity has been handed out.
    pub fn subscribe(&mut self) -> (r: Option<u64>)
        requires
            old(self).wf(),
        ensures
            final(self).wf(),
            final(self).capacity() == old(self).capacity(),
            match r {
                Some(id) => {
                    &&& old(self).next_id() < u64::MAX
                    &&& id == old(self).next_id()
                    &&& forall|i: int| 0 <= i < old(self).subscribers().len() ==> old(self).subscribers()[i].0 != id
                    &&& final(self).subscribers() == old(self).subscribers().push((id, Seq::<WebView>::empty()))
                },
                None => {
                    &&& old(self).next_id() == u64::MAX
                    &&& final(self).subscribers() == old(self).subscribers()
                },
            },
    {
        if self.next_id == u64::MAX {
            return None;
        }
        let id = self.next_id;
        let ghost before = self.subscribers();
        self.subs.push(Subscription { id, queue: Vec::new() });
        self.next_id = id + 1;
        assert(queue_view(Seq::<WebEvent>::empty()) =~= Seq::<WebView>::empty());
        assert(self.subscribers() =~= before.push((id, Seq::<WebView>::empty())));
        Some(id)
    }

    /// Removes the subscriber `id` and its queue; `false`, with nothing
    /// changed, where there is none.
    pub fn unsubscribe(&mut self, id: u64) -> (r: bool)
        requires
            old(self).wf(),
        ensures
            final(self).wf(),
            final(self).capacity() == old(self).capacity(),
            r == (exists|i: int| has_id(old(self).subscribers(), id, i)),
            r ==> exists|i: int|
                has_id(old(self).subscribers(), id, i)
                    && final(self).subscribers() == old(self).subscribers().remove(i),
            !r ==> final(self).subscribers() == old(self).subscribers(),
    {
        let ghost before = self.subscribers();
        let mut i: usize = 0;
        while i < self.subs.len()
            invariant
                self.subs@ == old(self).subs@,
                self.capacity == old(self).capacity,
                self.next_id == old(self).next_id,
                before == old(self).subscribers(),
                old(self).wf(),
                i <= self.subs@.len(),
                forall|j: int| 0 <= j < i ==> self.subs@[j].id != id,
            decreases self.subs@.len() - i,
        {
            if self.subs[i].id == id {
                assert(before[i as int].0 == id);
                assert(has_id(before, id, i as int));
                self.subs.remove(i);
                assert(self.subscribers() =~= before.remove(i as int));
                return true;
            }
            i = i + 1;
        }
        assert forall|j: int| !has_id(before, id, j) by {
            if 0 <= j < before.len() {
                assert(before[j].0 == self.subs@[j].id);
            }
        }
        false
    }

    /// Offers `e` to every subscriber and returns how many there are. A full
    /// queue drops its oldest event; no other queue is affected.
    pub fn publish(&mut self, e: WebEvent) -> (r: usize)
        requires
            old(self).wf(),
        ensures
            final(self).wf(),
            final(self).capacity() == old(self).capacity(),
            final(self).next_id() == old(self).next_id(),
            r == old(self).subscribers().len(),
            final(self).subscribers().len() == old(self).subscribers().len(),
            forall|i: int| 0 <= i < old(self).subscribers().len() ==> final(self).subscribers()[i] == (
                old(self).subscribers()[i].0,
                push_bounded(old(self).subscribers()[i].1, e@, old(self).capacity()),
            ),
    {
        let ghost before = self.subscribers();
        let n = self.subs.len();
        let mut i: usize = 0;
        while i < n
            invariant
                n == self.subs@.len(),
                n == before.len(),
                i <= n,
                self.capacity > 0,
                self.capacity() == old(self).capacity(),
                self.next_id() == old(self).next_id(),
                before == old(self).subscribers(),
                old(self).wf(),
                forall|j: int| 0 <= j < i ==> {
                    &&& self.subs@[j].id == before[j].0
                    &&& queue_view(self.subs@[j].queue@) == push_bounded(before[j].1, e@, self.capacity())
                },
                forall|j: int| i <= j < n ==> self.subs@[j] == old(self).subs@[j],
            decreases n - i,
        {
            let ghost q0 = self.subs@[i as int].queue@;
            if self.subs[i].queue.len() >= self.capacity {
                self.subs[i].queue.remove(0);
                assert(queue_view(self.subs@[i as int].queue@) =~= queue_view(q0).drop_first());
            }
            let ghost q1 = self.subs@[i as int].queue@;
            self.subs[i].queue.push(e.duplicate());
            assert(queue_view(self.subs@[i as int].queue@) =~= queue_view(q1).push(e@));
            i = i + 1;
        }
        assert forall|j: int| 0 <= j < n implies self.subscribers()[j] == (
            before[j].0,
            push_bounded(before[j].1, e@, self.capacity()),
        ) by {}
        n
    }

    /// Takes the oldest event from the queue of subscriber `id`; `None`, with
    /// nothing changed, where there is no such subscriber or its queue is
    /// empty.
    pub fn try_recv(&mut self, id: u64) -> (r: Option<WebEvent>)
        requires
            old(self).wf(),
        ensures
            final(self).wf(),
            final(self).capacity() == old(self).capacity(),
            match r {
                Some(ev) => exists|i: int| {
                    &&& has_id(old(self).subscribers(), id, i)
                    &&& old(self).subscribers()[i].1.len() > 0
                    &&& ev@ == old(self).subscribers()[i].1[0]
                    &&& final(self).subscribers() == old(self).subscribers().update(
                        i,
                        (id, old(self).subscribers()[i].1.drop_first()),
                    )
                },
                None => {
                    &&& forall|i: int| has_id(old(self).subscribers(), id, i) ==> old(self).subscribers()[i].1.len() == 0
                    &&& final(self).subscribers() == old(self).subscribers()
                },
            },
    {
        let ghost before = self.subscribers();
        let mut i: usize = 0;
        while i < self.subs.len()
            invariant
                self.subs@ == old(self).subs@,
                self.capacity == old(self).capacity,
                self.next_id == old(self).next_id,
                before == old(self).subscribers(),
                old(self).wf(),
                i <= self.subs@.len(),
                forall|j: int| 0 <= j < i ==> self.subs@[j].id != id,
            decreases self.subs@.len() - i,
        {
            if self.subs[i].id == id {
                if self.subs[i].queue.len() == 0 {
                    assert(forall|j: int| has_id(before, id, j) ==> j == i);
                    return None;
                }
                let ghost q0 = self.subs@[i as int].queue@;
                let ev = self.subs[i].queue.remove(0);
                assert(queue_view(self.subs@[i as int].queue@) =~= queue_view(q0).drop_first());
                assert(self.subscribers() =~= before.update(i as int, (id, before[i as int].1.drop_first())));
                assert(has_id(before, id, i as int));
                return Some(ev);
            }
            i = i + 1;
        }
        None
    }
}

} // verus!
