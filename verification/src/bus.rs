//! The operator event bus: a multi-producer broadcast with a bounded
//! window. Publishing never blocks and never fails, whether or not anyone
//! subscribes. Each subscriber holds its own cursor and sees only events
//! published after it subscribed; a subscriber that falls more than the
//! window behind loses the oldest undelivered events and resynchronizes.

use vstd::prelude::*;

use crate::ws::Event;

verus! {

/// Where a subscriber's next delivery starts: at its cursor, or at the
/// start of the window when it has fallen behind.
pub open spec fn poll_start(len: nat, cap: nat, cursor: nat) -> nat {
    let window = if len >= cap {
        (len - cap) as nat
    } else {
        0
    };
    if cursor >= window {
        cursor
    } else {
        window
    }
}

/// The events a subscriber at `cursor` has yet to see, oldest first.
pub open spec fn pending(events: Seq<Event>, cap: nat, cursor: nat) -> Seq<Event> {
    if cursor > events.len() {
        Seq::empty()
    } else {
        events.subrange(poll_start(events.len(), cap, cursor) as int, events.len() as int)
    }
}

/// A subscriber's private cursor into the bus.
pub struct Subscriber {
    cursor: usize,
}

impl Subscriber {
    /// How many events had been published when this subscriber last
    /// caught up.
    pub closed spec fn cursor(&self) -> nat {
        self.cursor as nat
    }
}

/// The event bus. The full publish history is kept, and the window size
/// bounds only what a lagging subscriber can still receive.
pub struct EventBus {
    events: Vec<Event>,
    capacity: usize,
}

impl EventBus {
    /// All events ever published, in publish order.
    pub closed spec fn view(&self) -> Seq<Event> {
        self.events@
    }

    /// The window: how far a subscriber may lag without losing events.
    pub closed spec fn cap(&self) -> nat {
        self.capacity as nat
    }

    /// The window is never empty.
    pub open spec fn wf(&self) -> bool {
        self.cap() >= 1
    }

    /// A bus with the given window size.
    pub fn new(capacity: usize) -> (r: Self)
        requires
            capacity >= 1,
        ensures
            r.wf(),
            r@.len() == 0,
            r.cap() == capacity,
    {
        EventBus { events: Vec::new(), capacity }
    }

    /// Publishes one event. This always succeeds at once — publishing
    /// with no subscriber is a no-op for delivery, not an error, and a
    /// slow subscriber never holds the producer back.
    pub fn publish(&mut self, e: Event)
        ensures
            final(self)@ == old(self)@.push(e),
            final(self).cap() == old(self).cap(),
            old(self).wf() ==> final(self).wf(),
    {
        self.events.push(e);
    }

    /// A new subscriber, which will see exactly the events published
    /// after this call.
    pub fn subscribe(&self) -> (r: Subscriber)
        ensures
            r.cursor() == self@.len(),
    {
        Subscriber { cursor: self.events.len() }
    }

    /// Delivers the subscriber's next event, oldest first. A subscriber
    /// that lagged beyond the window is moved up to the window's start
    /// first, dropping what fell out. Returns nothing when the
    /// subscriber has seen everything.
    pub fn poll(&self, sub: &mut Subscriber) -> (r: Option<Event>)
        requires
            self.wf(),
            old(sub).cursor() <= self@.len(),
        ensures
            final(sub).cursor() <= self@.len(),
            old(sub).cursor() == self@.len() ==> r is None && final(sub).cursor() == old(
                sub,
            ).cursor(),
            old(sub).cursor() < self@.len() ==> {
                let start = poll_start(self@.len(), self.cap(), old(sub).cursor());
                &&& r == Some(self@[start as int])
                &&& final(sub).cursor() == start + 1
                &&& final(sub).cursor() > old(sub).cursor()
            },
    {
        if sub.cursor >= self.events.len() {
            return None;
        }
        let window = if self.events.len() >= self.capacity {
            self.events.len() - self.capacity
        } else {
            0
        };
        let start = if sub.cursor >= window {
            sub.cursor
        } else {
            window
        };
        sub.cursor = start + 1;
        Some(self.events[start].clone())
    }

    /// Delivers everything the subscriber has yet to see, oldest first,
    /// and moves its cursor to the end.
    pub fn drain(&self, sub: &mut Subscriber) -> (r: Vec<Event>)
        requires
            self.wf(),
            old(sub).cursor() <= self@.len(),
        ensures
            r@ == pending(self@, self.cap(), old(sub).cursor()),
            final(sub).cursor() == self@.len(),
    {
        let len = self.events.len();
        let window = if len >= self.capacity {
            len - self.capacity
        } else {
            0
        };
        let start = if sub.cursor >= window {
            sub.cursor
        } else {
            window
        };
        let mut out: Vec<Event> = Vec::new();
        for i in start..len
            invariant
                start <= len,
                len == self@.len(),
                start == poll_start(self@.len(), self.cap(), old(sub).cursor()),
                out@ == self@.subrange(start as int, i as int),
        {
            out.push(self.events[i].clone());
            proof {
                assert(out@ =~= self@.subrange(start as int, i + 1));
            }
        }
        sub.cursor = len;
        proof {
            assert(out@ =~= pending(self@, self.cap(), old(sub).cursor()));
        }
        out
    }
}

/// Fan-out agreement: of two subscribers neither of which has lagged out
/// of the window, the one subscribed later has exactly the later suffix
/// of the other's pending events — the same events, in the same relative
/// order; with equal cursors they receive exactly the same sequence.
pub proof fn lemma_fanout_agree(events: Seq<Event>, cap: nat, c1: nat, c2: nat)
    requires
        c1 <= c2 <= events.len(),
        events.len() - c1 <= cap,
    ensures
        pending(events, cap, c2) == pending(events, cap, c1).skip((c2 - c1) as int),
        c1 == c2 ==> pending(events, cap, c1) == pending(events, cap, c2),
{
    assert(pending(events, cap, c2) =~= pending(events, cap, c1).skip((c2 - c1) as int));
}

/// What any subscriber receives is a contiguous suffix of the publish
/// history: a monotone subsequence of the events, in publish order, and
/// at most the window plus what was published after its cursor.
pub proof fn lemma_pending_is_suffix(events: Seq<Event>, cap: nat, cursor: nat)
    requires
        cursor <= events.len(),
    ensures
        pending(events, cap, cursor) == events.skip(
            poll_start(events.len(), cap, cursor) as int,
        ),
        pending(events, cap, cursor).len() <= events.len() - cursor,
        pending(events, cap, cursor).len() <= cap,
{
    assert(pending(events, cap, cursor) =~= events.skip(
        poll_start(events.len(), cap, cursor) as int,
    ));
}

/// Deliveries to one subscriber come at strictly increasing positions in
/// the publish history, even as the bus grows between polls: the
/// subscriber observes a monotonically increasing subsequence of events.
pub proof fn lemma_deliveries_monotone(cap: nat, len1: nat, len2: nat, cursor: nat)
    requires
        cursor < len1 <= len2,
        poll_start(len1, cap, cursor) + 1 < len2,
    ensures
        poll_start(len2, cap, poll_start(len1, cap, cursor) + 1) > poll_start(
            len1,
            cap,
            cursor,
        ),
{
}

} // verus!
