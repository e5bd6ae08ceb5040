//! The broadcaster: a registry of bounded per-subscriber buffers with a live
//! connection count. Publishing never blocks: a full buffer drops its oldest
//! unread message, and the subscriber learns of the gap on its next receive.

use crate::model::{count_down, count_up, ChannelView, DeliveryView, SubscriberView};
use vstd::prelude::*;

verus! {

/// The texts of a queue of messages.
pub open spec fn texts(queue: Seq<String>) -> Seq<Seq<char>> {
    Seq::new(queue.len(), |i: int| queue[i]@)
}

/// What a receive on a subscription yields.
#[derive(Debug, PartialEq, Eq)]
pub enum Delivery {
    /// The oldest unread message.
    Message(String),
    /// That many messages were dropped unread since the last receive.
    Lagged(u64),
    /// Nothing to read right now.
    Empty,
    /// The subscription does not exist.
    Closed,
}

impl View for Delivery {
    type V = DeliveryView;

    open spec fn view(&self) -> DeliveryView {
        match self {
            Delivery::Message(text) => DeliveryView::Message(text@),
            Delivery::Lagged(n) => DeliveryView::Lagged(*n as nat),
            Delivery::Empty => DeliveryView::Empty,
            Delivery::Closed => DeliveryView::Closed,
        }
    }
}

/// A receive cursor: it names one subscription of the broadcaster that made it.
#[derive(Debug)]
pub struct ReceiverHandle {
    slot: usize,
}

impl View for ReceiverHandle {
    type V = nat;

    closed spec fn view(&self) -> nat {
        self.slot as nat
    }
}

impl ReceiverHandle {
    /// The identifier of the subscription.
    pub fn id(&self) -> (id: usize)
        ensures
            id as nat == self@,
    {
        self.slot
    }
}

/// The buffer of one subscriber.
struct Subscription {
    queue: Vec<String>,
    missed: u64,
}

impl View for Subscription {
    type V = SubscriberView;

    closed spec fn view(&self) -> SubscriberView {
        SubscriberView { pending: texts(self.queue@), missed: self.missed as nat }
    }
}

impl Subscription {
    fn new() -> (s: Subscription)
        ensures
            s@ == SubscriberView::fresh(),
    {
        let s = Subscription { queue: Vec::new(), missed: 0 };
        assert(s@.pending =~= Seq::empty());
        s
    }

    fn offer(&mut self, capacity: usize, msg: String)
        requires
            capacity > 0,
            old(self)@.bounded(capacity as nat),
        ensures
            final(self)@ == old(self)@.offered(capacity as nat, msg@),
            final(self)@.bounded(capacity as nat),
    {
        if self.queue.len() >= capacity {
            self.queue.remove(0);
            if self.missed < u64::MAX {
                self.missed = self.missed + 1;
            }
            assert(texts(self.queue@) =~= old(self)@.pending.drop_first());
        }
        let ghost shortened = self.queue@;
        self.queue.push(msg);
        assert(texts(self.queue@) =~= texts(shortened).push(msg@));
    }

    fn take(&mut self) -> (d: Delivery)
        requires
            old(self)@.missed <= u64::MAX,
        ensures
            d@ == old(self)@.delivery(),
            final(self)@ == old(self)@.advanced(),
    {
        if self.missed > 0 {
            let n = self.missed;
            self.missed = 0;
            Delivery::Lagged(n)
        } else if self.queue.len() > 0 {
            let text = self.queue.remove(0);
            assert(texts(self.queue@) =~= old(self)@.pending.drop_first());
            Delivery::Message(text)
        } else {
            Delivery::Empty
        }
    }
}

/// The view of a slot of the registry.
spec fn slot_view(slot: Option<Subscription>) -> Option<SubscriberView> {
    match slot {
        Some(s) => Some(s@),
        None => None,
    }
}

/// The shared broadcaster: the buffer capacity, the live connection count and
/// the registry of subscriptions.
pub struct Broadcaster {
    capacity: usize,
    live: usize,
    slots: Vec<Option<Subscription>>,
}

impl View for Broadcaster {
    type V = ChannelView;

    closed spec fn view(&self) -> ChannelView {
        ChannelView {
            capacity: self.capacity as nat,
            live: self.live,
            subscribers: Map::new(
                |id: nat| id < self.slots@.len() && self.slots@[id as int] is Some,
                |id: nat| self.slots@[id as int].unwrap()@,
            ),
        }
    }
}

impl Broadcaster {
    /// The invariant of the broadcaster: a positive capacity that every buffer respects.
    pub open spec fn wf(&self) -> bool {
        self@.bounded()
    }

    /// Every buffer of a well-formed registry respects the capacity.
    proof fn slots_bounded(&self)
        requires
            self.wf(),
        ensures
            self.capacity > 0,
            forall|j: int|
                0 <= j < self.slots@.len() && self.slots@[j] is Some ==> (#[trigger] self.slots@[j]).unwrap()@.bounded(
                    self.capacity as nat,
                ),
    {
        assert forall|j: int|
            0 <= j < self.slots@.len() && self.slots@[j] is Some implies (#[trigger] self.slots@[j]).unwrap()@.bounded(
            self.capacity as nat,
        ) by {
            assert(self@.subscribers.dom().contains(j as nat));
        }
    }

    /// A broadcaster whose buffers hold up to `capacity` messages each.
    pub fn new(capacity: usize) -> (b: Broadcaster)
        requires
            capacity > 0,
        ensures
            b.wf(),
            b@ == ChannelView::empty(capacity as nat),
    {
        let b = Broadcaster { capacity, live: 0, slots: Vec::new() };
        assert(b@.subscribers =~= Map::empty());
        b
    }

    /// The buffer capacity per subscriber.
    pub fn capacity(&self) -> (c: usize)
        ensures
            c as nat == self@.capacity,
    {
        self.capacity
    }

    /// The live connection count.
    pub fn live_count(&self) -> (c: usize)
        ensures
            c == self@.live,
    {
        self.live
    }

    /// Counts one more live connection and returns the new count.
    pub fn increment_and_get(&mut self) -> (c: usize)
        ensures
            final(self)@ == old(self)@.incremented(),
            c == count_up(old(self)@.live),
    {
        self.live = if self.live == usize::MAX {
            0
        } else {
            self.live + 1
        };
        self.live
    }

    /// Counts one live connection less and returns the new count.
    pub fn decrement_and_get(&mut self) -> (c: usize)
        ensures
            final(self)@ == old(self)@.decremented(),
            c == count_down(old(self)@.live),
    {
        self.live = if self.live == 0 {
            usize::MAX
        } else {
            self.live - 1
        };
        self.live
    }

    /// Offers `msg` to every current subscriber. With no subscriber the
    /// message reaches nobody; that is no error.
    pub fn publish(&mut self, msg: &str)
        requires
            old(self).wf(),
        ensures
            final(self).wf(),
            final(self)@ == old(self)@.published(msg@),
    {
        let n = self.slots.len();
        let mut i: usize = 0;
        proof {
            self.slots_bounded();
        }
        while i < n
            invariant
                i <= n,
                n == self.slots@.len(),
                n == old(self).slots@.len(),
                self.capacity == old(self).capacity,
                self.capacity > 0,
                self.live == old(self).live,
                forall|j: int|
                    0 <= j < i ==> #[trigger] slot_view(self.slots@[j]) == (match slot_view(
                        old(self).slots@[j],
                    ) {
                        Some(s) => Some(s.offered(self.capacity as nat, msg@)),
                        None => None,
                    }),
                forall|j: int| i <= j < n ==> #[trigger] self.slots@[j] == old(self).slots@[j],
                forall|j: int|
                    0 <= j < n && self.slots@[j] is Some ==> (#[trigger] self.slots@[j]).unwrap()@.bounded(
                        self.capacity as nat,
                    ),
            decreases n - i,
        {
            let mut entry: Option<Subscription> = None;
            self.slots.set_and_swap(i, &mut entry);
            let entry = match entry {
                Some(mut sub) => {
                    sub.offer(self.capacity, msg.to_owned());
                    Some(sub)
                },
                None => None,
            };
            self.slots.set(i, entry);
            i += 1;
        }
        proof {
            let after = self@;
            let goal = old(self)@.published(msg@);
            assert forall|id: nat| after.subscribers.dom().contains(id) == goal.subscribers.dom().contains(id) by {
                if id < n {
                    assert(slot_view(self.slots@[id as int]) is Some == slot_view(
                        old(self).slots@[id as int],
                    ) is Some);
                }
            }
            assert forall|id: nat| after.subscribers.dom().contains(id) implies after.subscribers[id] == goal.subscribers[id] by {
                assert(slot_view(self.slots@[id as int]) == Some(goal.subscribers[id]));
            }
            assert(after.subscribers =~= goal.subscribers);
        }
    }

    /// Opens a subscription positioned at "now": it will see what is
    /// published from here on, and nothing older. The handle names the
    /// smallest identifier that was free.
    pub fn subscribe(&mut self) -> (h: ReceiverHandle)
        requires
            old(self).wf(),
        ensures
            final(self).wf(),
            old(self)@.least_free(h@),
            final(self)@ == old(self)@.subscribed(h@),
    {
        proof {
            self.slots_bounded();
        }
        let n = self.slots.len();
        let mut i: usize = 0;
        while i < n && self.slots[i].is_some()
            invariant
                i <= n,
                n == self.slots@.len(),
                *self == *old(self),
                forall|j: int| 0 <= j < i ==> (#[trigger] self.slots@[j]) is Some,
            decreases n - i,
        {
            i += 1;
        }
        if i < n {
            self.slots.set(i, Some(Subscription::new()));
        } else {
            self.slots.push(Some(Subscription::new()));
        }
        let h = ReceiverHandle { slot: i };
        proof {
            assert forall|j: nat| j < h@ implies #[trigger] old(self)@.subscribers.dom().contains(j) by {
                assert(old(self).slots@[j as int] is Some);
            }
            assert(self@.subscribers =~= old(self)@.subscribed(h@).subscribers);
        }
        h
    }

    /// Closes the subscription that `h` names; the others are untouched.
    /// Closing one that does not exist changes nothing.
    pub fn unsubscribe(&mut self, h: ReceiverHandle)
        requires
            old(self).wf(),
        ensures
            final(self).wf(),
            final(self)@ == old(self)@.unsubscribed(h@),
    {
        if h.slot < self.slots.len() {
            self.slots.set(h.slot, None);
        }
        proof {
            assert(self@.subscribers =~= old(self)@.unsubscribed(h@).subscribers);
        }
    }

    /// Takes the next item for the subscription that `h` names: a lag
    /// indicator if messages were dropped on it, else its oldest unread
    /// message, else nothing.
    pub fn receive(&mut self, h: &ReceiverHandle) -> (d: Delivery)
        requires
            old(self).wf(),
        ensures
            final(self).wf(),
            d@ == old(self)@.delivery(h@),
            final(self)@ == old(self)@.received(h@),
    {
        proof {
            self.slots_bounded();
        }
        if h.slot >= self.slots.len() {
            return Delivery::Closed;
        }
        let mut entry: Option<Subscription> = None;
        self.slots.set_and_swap(h.slot, &mut entry);
        match entry {
            Some(mut sub) => {
                let d = sub.take();
                self.slots.set(h.slot, Some(sub));
                proof {
                    assert(self@.subscribers =~= old(self)@.received(h@).subscribers);
                }
                d
            },
            None => {
                proof {
                    assert(self@.subscribers =~= old(self)@.subscribers);
                }
                Delivery::Closed
            },
        }
    }
}

} // verus!
