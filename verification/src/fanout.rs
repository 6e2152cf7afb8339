//! The fan-out channel: every serialized change message is published
//! once and every subscription receives every message published after
//! its subscription point, in publish order. The retained history is
//! small and bounded by design: a subscriber that falls behind it is
//! desynchronized and must be disconnected, never silently skipped
//! ahead, since skipped diffs would leave its view permanently
//! inconsistent.

use vstd::prelude::*;

verus! {

/// The mathematical content of the broadcaster: the retained window of
/// messages, the sequence number of the window's first message, and the
/// bound on the window.
#[verifier::ext_equal]
pub ghost struct BroadcasterV {
    pub history: Seq<Seq<u8>>,
    pub base: int,
    pub capacity: int,
}

/// The bounded fan-out publisher.
pub struct Broadcaster {
    history: Vec<Vec<u8>>,
    base: usize,
    capacity: usize,
}

impl View for Broadcaster {
    type V = BroadcasterV;

    closed spec fn view(&self) -> BroadcasterV {
        BroadcasterV {
            history: Seq::new(self.history@.len(), |i: int| self.history@[i]@),
            base: self.base as int,
            capacity: self.capacity as int,
        }
    }
}

/// One client's position in the fan-out stream: the sequence number of
/// the next message it will receive.
pub struct Subscription {
    pub cursor: usize,
}

/// What one receive attempt yields: the next message, the verdict that
/// the subscriber is desynchronized, or nothing new yet.
pub enum RecvOutcome {
    Message(Vec<u8>),
    Lagged,
    Empty,
}

impl Broadcaster {
    /// The window stays within its bound and sequence numbers stay
    /// representable.
    pub closed spec fn wf(&self) -> bool {
        &&& self.history@.len() <= self.capacity as int
        &&& self.capacity >= 1
        &&& self.base as int + self.history@.len() <= usize::MAX as int
    }

    /// The sequence number the next published message will carry.
    pub open spec fn next_seq(&self) -> int {
        self@.base + self@.history.len()
    }

    /// Create a fan-out channel retaining at most `capacity` messages.
    pub fn new(capacity: usize) -> (r: Self)
        requires
            capacity >= 1,
        ensures
            r.wf(),
            r@.history == Seq::<Seq<u8>>::empty(),
            r@.base == 0,
            r@.capacity == capacity as int,
    {
        let r = Broadcaster { history: Vec::new(), base: 0, capacity };
        proof {
            assert(r@.history =~= Seq::<Seq<u8>>::empty());
        }
        r
    }

    /// Publish one message to every current and future subscriber that
    /// keeps up. When the window is full the oldest retained message is
    /// dropped: subscribers still positioned on it are desynchronized
    /// from that moment and will be told so when they next receive.
    pub fn publish(&mut self, msg: Vec<u8>)
        requires
            old(self).wf(),
            old(self).next_seq() < usize::MAX as int,
        ensures
            final(self).wf(),
            final(self)@.capacity == old(self)@.capacity,
            final(self).next_seq() == old(self).next_seq() + 1,
            final(self)@.history.len() > 0,
            final(self)@.history.last() == msg@,
            old(self)@.history.len() < old(self)@.capacity ==> final(self)@.history == old(
                self,
            )@.history.push(msg@) && final(self)@.base == old(self)@.base,
            old(self)@.history.len() == old(self)@.capacity ==> final(self)@.history == old(
                self,
            )@.history.drop_first().push(msg@) && final(self)@.base == old(self)@.base + 1,
    {
        if self.history.len() == self.capacity {
            let ghost h0 = self@.history;
            self.history.remove(0);
            self.base = self.base + 1;
            proof {
                assert(self@.history =~= h0.drop_first());
            }
        }
        let ghost h1 = self@.history;
        self.history.push(msg);
        proof {
            assert(self@.history =~= h1.push(msg@));
        }
    }

    /// Subscribe at the current end of the stream: no message already
    /// published is re-delivered, every message published later is.
    /// To guarantee that no change is missed, the caller must subscribe
    /// before releasing the shared-state read lock under which it
    /// copied the current snapshots.
    pub fn subscribe(&self) -> (s: Subscription)
        requires
            self.wf(),
        ensures
            s.cursor as int == self.next_seq(),
    {
        Subscription { cursor: self.base + self.history.len() }
    }

    /// What a receive attempt at position `cursor` yields, and the
    /// position after it: a pure function of the broadcaster's state
    /// and the subscriber's own position alone, so no subscriber can
    /// affect what another receives.
    pub open spec fn spec_recv(b: BroadcasterV, cursor: int) -> (Option<Seq<u8>>, int) {
        if cursor < b.base {
            (None, cursor)
        } else if cursor < b.base + b.history.len() {
            (Some(b.history[cursor - b.base]), cursor + 1)
        } else {
            (None, cursor)
        }
    }

    /// Attempt to receive the next message. A subscriber whose position
    /// fell out of the retained window is desynchronized: it is told it
    /// lagged, and the policy is to disconnect it so it reconnects and
    /// gets a fresh full snapshot.
    pub fn try_recv(&self, sub: &mut Subscription) -> (r: RecvOutcome)
        requires
            self.wf(),
        ensures
            old(sub).cursor < self@.base ==> r is Lagged && final(sub).cursor == old(sub).cursor,
            self@.base <= old(sub).cursor < self.next_seq() ==> {
                &&& r matches RecvOutcome::Message(m) && m@ == self@.history[old(sub).cursor
                    - self@.base]
                &&& final(sub).cursor == old(sub).cursor + 1
            },
            old(sub).cursor as int >= self.next_seq() ==> r is Empty && final(sub).cursor == old(
                sub,
            ).cursor,
            (r.spec_message(), final(sub).cursor as int) == Self::spec_recv(
                self@,
                old(sub).cursor as int,
            ),
    {
        if sub.cursor < self.base {
            RecvOutcome::Lagged
        } else if sub.cursor < self.base + self.history.len() {
            let msg = clone_bytes(&self.history[sub.cursor - self.base]);
            sub.cursor = sub.cursor + 1;
            RecvOutcome::Message(msg)
        } else {
            RecvOutcome::Empty
        }
    }
}

impl RecvOutcome {
    /// The delivered message, if one was.
    pub open spec fn spec_message(&self) -> Option<Seq<u8>> {
        match self {
            RecvOutcome::Message(m) => Some(m@),
            _ => None,
        }
    }
}

/// Copy a byte message (the shared serialized frame is handed to each
/// subscriber by value).
pub fn clone_bytes(b: &Vec<u8>) -> (r: Vec<u8>)
    ensures
        r@ == b@,
{
    let mut r: Vec<u8> = Vec::new();
    let mut i: usize = 0;
    while i < b.len()
        invariant
            i <= b@.len(),
            r@ =~= b@.take(i as int),
        decreases b@.len() - i,
    {
        r.push(b[i]);
        proof {
            assert(r@ =~= b@.take(i as int + 1));
        }
        i = i + 1;
    }
    proof {
        assert(b@.take(b@.len() as int) =~= b@);
    }
    r
}

} // verus!
