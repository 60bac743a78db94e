//! The broadcast hub: a bounded ring buffer shared by all subscribers, each
//! of which tracks its own read position.  Publishing never blocks and never
//! fails; a subscriber that falls more than the capacity behind is told so
//! and must be dropped by its session.

use vstd::prelude::*;
use crate::event::{Event, EventModel};

verus! {

/// How many events the ring buffer retains.  A subscriber more than this
/// many events behind the latest publish can no longer be served.
pub const CAPACITY: u64 = 1024;

/// The broadcast hub.  Its view is the full sequence of events published so
/// far, in publish order; only the last [`CAPACITY`] of them are retained
/// for delivery.
pub struct Hub {
    buffer: Vec<Event>,
    count: u64,
    closed: bool,
    history: Ghost<Seq<EventModel>>,
}

impl View for Hub {
    type V = Seq<EventModel>;

    closed spec fn view(&self) -> Seq<EventModel> {
        self.history@
    }
}

impl Hub {
    /// The retained buffer holds exactly the last `min(len, CAPACITY)`
    /// published events.
    pub closed spec fn inv(&self) -> bool {
        &&& self.history@.len() == self.count
        &&& self.buffer@.len() == if self.count <= CAPACITY {
            self.count as int
        } else {
            CAPACITY as int
        }
        &&& forall|k: int|
            0 <= k < self.buffer@.len() ==> self.buffer@[k]@ == self.history@[self.count
                - self.buffer@.len() + k]
    }

    /// Whether [`Hub::close`] was called: publishing has stopped for good.
    pub closed spec fn is_closed(&self) -> bool {
        self.closed
    }

    /// A hub with no events and no subscribers yet.
    pub fn new() -> (h: Hub)
        ensures
            h.inv(),
            h@ == Seq::<EventModel>::empty(),
            !h.is_closed(),
    {
        Hub { buffer: Vec::new(), count: 0, closed: false, history: Ghost(Seq::empty()) }
    }

    /// Publishes one event to every current subscriber.  Never blocks and
    /// never fails; with zero subscribers the event is silently dropped once
    /// it leaves the retained window.
    pub fn publish(&mut self, e: Event)
        requires
            old(self).inv(),
            old(self)@.len() < u64::MAX,
        ensures
            final(self).inv(),
            final(self)@ == old(self)@.push(e@),
            final(self).is_closed() == old(self).is_closed(),
    {
        let ghost em = e@;
        proof {
            self.history = Ghost(self.history@.push(em));
        }
        if self.buffer.len() >= 1024 {
            let _ = self.buffer.remove(0);
        }
        self.buffer.push(e);
        self.count = self.count + 1;
        proof {
            assert forall|k: int| 0 <= k < self.buffer@.len() implies self.buffer@[k]@
                == self.history@[self.count - self.buffer@.len() + k] by {
                if k < self.buffer@.len() - 1 {
                    if old(self).count >= CAPACITY {
                        assert(self.buffer@[k] == old(self).buffer@[k + 1]);
                    } else {
                        assert(self.buffer@[k] == old(self).buffer@[k]);
                    }
                    assert(self.history@[self.count - self.buffer@.len() + k] == old(
                        self,
                    ).history@[self.count - self.buffer@.len() + k]);
                }
            }
        }
    }

    /// How many events have been published so far.
    pub fn total_published(&self) -> (n: u64)
        requires
            self.inv(),
        ensures
            n == self@.len(),
    {
        self.count
    }

    /// Stops the hub for good: subscribers drain what is buffered, then see
    /// `Closed`.  Models process shutdown; there is no reopening.
    pub fn close(&mut self)
        requires
            old(self).inv(),
        ensures
            final(self).inv(),
            final(self)@ == old(self)@,
            final(self).is_closed(),
    {
        self.closed = true;
    }

    /// A new independent cursor positioned at "now": it will only ever
    /// receive events published after its creation.
    pub fn subscribe(&self) -> (s: Subscriber)
        requires
            self.inv(),
        ensures
            s.wf(),
            s.in_sync(self),
            s@.cursor == self@.len(),
            s@.born == self@.len(),
            s@.delivered == Seq::<int>::empty(),
    {
        Subscriber {
            cursor: self.count,
            born: Ghost(self.count as int),
            delivered: Ghost(Seq::empty()),
        }
    }
}

/// What one call of [`Subscriber::recv`] resolves to.
#[derive(Debug)]
pub enum RecvOutcome {
    /// The next event in publish order for this subscriber.
    Ready(Event),
    /// Nothing new yet; the caller suspends and retries.
    Empty,
    /// The subscriber fell more than [`CAPACITY`] events behind; its session
    /// must drop it, since nothing says which events were lost.
    Lagged,
    /// The hub was closed and everything retained has been delivered.
    Closed,
}

/// A connection's independent read cursor into the hub's event sequence,
/// owned by the stream session that requested it.
pub struct Subscriber {
    cursor: u64,
    born: Ghost<int>,
    delivered: Ghost<Seq<int>>,
}

/// The model of a subscriber: its read position, the hub length when it was
/// created, and the positions of every event delivered to it so far.
pub ghost struct SubscriberModel {
    pub cursor: int,
    pub born: int,
    pub delivered: Seq<int>,
}

/// Each element is strictly smaller than the next.
pub open spec fn strictly_increasing(s: Seq<int>) -> bool {
    forall|i: int, j: int| 0 <= i < j < s.len() ==> s[i] < s[j]
}

impl View for Subscriber {
    type V = SubscriberModel;

    closed spec fn view(&self) -> SubscriberModel {
        SubscriberModel {
            cursor: self.cursor as int,
            born: self.born@,
            delivered: self.delivered@,
        }
    }
}

impl Subscriber {
    /// Delivered positions grow strictly and stay between the creation point
    /// and the cursor; every operation preserves this.
    pub open spec fn wf(&self) -> bool {
        &&& 0 <= self@.born <= self@.cursor
        &&& strictly_increasing(self@.delivered)
        &&& forall|k: int|
            0 <= k < self@.delivered.len() ==> self@.born <= #[trigger] self@.delivered[k]
                < self@.cursor
    }

    /// The subscriber's cursor does not run ahead of this hub.
    pub open spec fn in_sync(&self, hub: &Hub) -> bool {
        self@.cursor <= hub@.len()
    }

    /// Resolves the next event in publish order, or reports why none can be
    /// delivered.  Suspension is the caller's business: `Empty` means "wait
    /// and ask again".
    pub fn recv(&mut self, hub: &Hub) -> (r: RecvOutcome)
        requires
            hub.inv(),
            old(self).wf(),
            old(self).in_sync(hub),
        ensures
            final(self).wf(),
            final(self).in_sync(hub),
            final(self)@.born == old(self)@.born,
            match r {
                RecvOutcome::Ready(e) => {
                    &&& old(self)@.cursor < hub@.len()
                    &&& hub@.len() - old(self)@.cursor <= CAPACITY
                    &&& e@ == hub@[old(self)@.cursor]
                    &&& final(self)@.cursor == old(self)@.cursor + 1
                    &&& final(self)@.delivered == old(self)@.delivered.push(old(self)@.cursor)
                },
                RecvOutcome::Empty => {
                    &&& old(self)@.cursor == hub@.len()
                    &&& !hub.is_closed()
                    &&& final(self)@ == old(self)@
                },
                RecvOutcome::Lagged => {
                    &&& hub@.len() - old(self)@.cursor > CAPACITY
                    &&& final(self)@ == old(self)@
                },
                RecvOutcome::Closed => {
                    &&& old(self)@.cursor == hub@.len()
                    &&& hub.is_closed()
                    &&& final(self)@ == old(self)@
                },
            },
    {
        let behind = hub.count - self.cursor;
        if behind > CAPACITY {
            RecvOutcome::Lagged
        } else if behind == 0 {
            if hub.closed {
                RecvOutcome::Closed
            } else {
                RecvOutcome::Empty
            }
        } else {
            let idx = hub.buffer.len() - (behind as usize);
            let e = hub.buffer[idx].clone();
            proof {
                self.delivered = Ghost(self.delivered@.push(self.cursor as int));
            }
            self.cursor = self.cursor + 1;
            RecvOutcome::Ready(e)
        }
    }
}

/// Any two subscribers observe the events delivered to both of them in the
/// same relative order: delivery positions are strictly increasing for every
/// subscriber, and positions index the single shared publish sequence.
pub proof fn lemma_subscribers_agree_on_order(
    a: Subscriber,
    b: Subscriber,
    i: int,
    j: int,
    k: int,
    l: int,
)
    requires
        a.wf(),
        b.wf(),
        0 <= i < j < a@.delivered.len(),
        0 <= k < b@.delivered.len(),
        0 <= l < b@.delivered.len(),
        a@.delivered[i] == b@.delivered[k],
        a@.delivered[j] == b@.delivered[l],
    ensures
        k < l,
{
    assert(a@.delivered[i] < a@.delivered[j]);
    if l < k {
        assert(b@.delivered[l] < b@.delivered[k]);
        assert(false);
    }
    if l == k {
        assert(false);
    }
}

/// A subscriber created after an event was published never receives that
/// event: every delivered position is at least the hub length at creation.
pub proof fn lemma_never_receives_earlier_event(s: Subscriber, k: int)
    requires
        s.wf(),
        0 <= k < s@.delivered.len(),
    ensures
        s@.delivered[k] >= s@.born,
{
}

/// No event position is ever delivered twice to the same subscriber — in
/// particular, another subscriber's lag-drop never makes one see a repeat.
pub proof fn lemma_no_duplicate_delivery(s: Subscriber, i: int, j: int)
    requires
        s.wf(),
        0 <= i < s@.delivered.len(),
        0 <= j < s@.delivered.len(),
        i != j,
    ensures
        s@.delivered[i] != s@.delivered[j],
{
    if i < j {
        assert(s@.delivered[i] < s@.delivered[j]);
    } else {
        assert(s@.delivered[j] < s@.delivered[i]);
    }
}

/// Publishing only appends, so a subscriber in sync with a hub stays in sync
/// with any later state of it.
pub proof fn lemma_in_sync_preserved(s: Subscriber, h1: &Hub, h2: &Hub)
    requires
        s.in_sync(h1),
        h1@.len() <= h2@.len(),
    ensures
        s.in_sync(h2),
{
}

} // verus!
