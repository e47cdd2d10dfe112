//! Subscriber session: the decisions of one connection that forwards
//! events until a send fails.

use vstd::prelude::*;
use crate::broadcast::{Broadcaster, has_id};
use crate::normalize::WebEvent;

verus! {

#[derive(Clone, Copy, Debug, PartialEq, Eq, Structural)]
pub enum SessionState {
    Connected,
    Closed,
}

/// What the connection is to do next.
pub enum SessionAction {
    /// Send this event to the client.
    Send(WebEvent),
    /// Nothing is queued: wait until something is published.
    Wait,
    /// The session is over.
    Stop,
}

/// One subscriber's connection.
pub struct Session {
    pub id: u64,
    pub state: SessionState,
}

impl Session {
    /// Subscribes a new session; `None` where the broadcaster has no
    /// identity left to give.
    pub fn open(b: &mut Broadcaster) -> (r: Option<Session>)
        requires
            old(b).wf(),
        ensures
            final(b).wf(),
            final(b).capacity() == old(b).capacity(),
            match r {
                Some(s) => {
                    &&& s.state == SessionState::Connected
                    &&& s.id == old(b).next_id()
                    &&& final(b).subscribers() == old(b).subscribers().push((s.id, Seq::empty()))
                },
                None => final(b).subscribers() == old(b).subscribers(),
            },
    {
        match b.subscribe() {
            Some(id) => Some(Session { id, state: SessionState::Connected }),
            None => None,
        }
    }

    /// The next step: a closed session, or one whose subscription is gone,
    /// stops; otherwise the oldest queued event is taken and sent, or the
    /// session waits when its queue is empty.
    pub fn next_action(&self, b: &mut Broadcaster) -> (r: SessionAction)
        requires
            old(b).wf(),
        ensures
            final(b).wf(),
            final(b).capacity() == old(b).capacity(),
            match r {
                SessionAction::Send(ev) => {
                    &&& self.state == SessionState::Connected
                    &&& exists|i: int| {
                        &&& has_id(old(b).subscribers(), self.id, i)
                        &&& old(b).subscribers()[i].1.len() > 0
                        &&& ev@ == old(b).subscribers()[i].1[0]
                        &&& final(b).subscribers() == old(b).subscribers().update(
                            i,
                            (self.id, old(b).subscribers()[i].1.drop_first()),
                        )
                    }
                },
                SessionAction::Wait => {
                    &&& self.state == SessionState::Connected
                    &&& exists|i: int| has_id(old(b).subscribers(), self.id, i)
                        && old(b).subscribers()[i].1.len() == 0
                    &&& final(b).subscribers() == old(b).subscribers()
                },
                SessionAction::Stop => {
                    &&& (self.state == SessionState::Closed
                        || !exists|i: int| has_id(old(b).subscribers(), self.id, i))
                    &&& final(b).subscribers() == old(b).subscribers()
                },
            },
    {
        if self.state == SessionState::Closed || !b.is_subscribed(self.id) {
            return SessionAction::Stop;
        }
        match b.try_recv(self.id) {
            Some(ev) => SessionAction::Send(ev),
            None => SessionAction::Wait,
        }
    }

    /// Records how a send went: a failure closes the session for good and
    /// releases its subscription; a success changes nothing.
    pub fn on_send_result(&mut self, b: &mut Broadcaster, ok: bool)
        requires
            old(b).wf(),
        ensures
            final(b).wf(),
            final(b).capacity() == old(b).capacity(),
            final(self).id == old(self).id,
            ok ==> final(self).state == old(self).state && final(b).subscribers() == old(b).subscribers(),
            !ok ==> final(self).state == SessionState::Closed,
            !ok ==> !exists|i: int| has_id(final(b).subscribers(), old(self).id, i),
            !ok && (exists|i: int| has_id(old(b).subscribers(), old(self).id, i)) ==> exists|i: int|
                has_id(old(b).subscribers(), old(self).id, i)
                    && final(b).subscribers() == old(b).subscribers().remove(i),
            !ok && !(exists|i: int| has_id(old(b).subscribers(), old(self).id, i))
                ==> final(b).subscribers() == old(b).subscribers(),
    {
        if !ok {
            self.state = SessionState::Closed;
            let ghost before = b.subscribers();
            let removed = b.unsubscribe(self.id);
            proof {
                if removed {
                    let i = choose|i: int|
                        has_id(before, self.id, i) && b.subscribers() == before.remove(i);
                    assert forall|k: int| !has_id(b.subscribers(), self.id, k) by {
                        if has_id(b.subscribers(), self.id, k) {
                            if k < i {
                                assert(before[k].0 == self.id);
                            } else {
                                assert(before[k + 1].0 == self.id);
                            }
                        }
                    }
                }
            }
        }
    }
}

} // verus!
