//! The mathematical model of the relay: what every subscriber still has to
//! read, and how publishing, subscribing and receiving change it.

use crate::presence::presence_text;
use vstd::prelude::*;

verus! {

/// The live count after one more connection; it wraps at the machine limit.
pub open spec fn count_up(count: usize) -> usize {
    if count == usize::MAX {
        0
    } else {
        (count + 1) as usize
    }
}

/// The live count after one connection less; it wraps below zero.
pub open spec fn count_down(count: usize) -> usize {
    if count == 0 {
        usize::MAX
    } else {
        (count - 1) as usize
    }
}

/// The live count after `n` connections in a row.
pub open spec fn count_after_connects(count: usize, n: nat) -> usize
    decreases n,
{
    if n == 0 {
        count
    } else {
        count_up(count_after_connects(count, (n - 1) as nat))
    }
}

/// What a receive on a subscription yields.
pub enum DeliveryView {
    /// The oldest unread message.
    Message(Seq<char>),
    /// That many messages were dropped unread since the last receive.
    Lagged(nat),
    /// Nothing to read right now.
    Empty,
    /// The subscription does not exist.
    Closed,
}

/// What happens to one subscription: a message is published to it, or its
/// subscriber receives from it.
pub enum SubscriberEvent {
    Published(Seq<char>),
    Received,
}

/// The messages that `events` publish, in order.
pub open spec fn sent_during(events: Seq<SubscriberEvent>) -> Seq<Seq<char>>
    decreases events.len(),
{
    if events.len() == 0 {
        Seq::empty()
    } else {
        match events.last() {
            SubscriberEvent::Published(msg) => sent_during(events.drop_last()).push(msg),
            SubscriberEvent::Received => sent_during(events.drop_last()),
        }
    }
}

/// One subscription: the unread messages, oldest first, and how many were
/// dropped unread since the subscriber last looked.
pub struct SubscriberView {
    pub pending: Seq<Seq<char>>,
    pub missed: nat,
}

impl SubscriberView {
    /// A subscription positioned at "now": nothing to read, nothing missed.
    pub open spec fn fresh() -> SubscriberView {
        SubscriberView { pending: Seq::empty(), missed: 0 }
    }

    /// The buffer holds at most `capacity` messages.
    pub open spec fn bounded(self, capacity: nat) -> bool {
        self.pending.len() <= capacity && self.missed <= u64::MAX
    }

    /// The subscription is keeping up: nothing was dropped on it.
    pub open spec fn keeping_up(self) -> bool {
        self.missed == 0
    }

    /// The subscription after `msg` was published. A full buffer drops its
    /// oldest message and counts it as missed; the count stops at the limit.
    pub open spec fn offered(self, capacity: nat, msg: Seq<char>) -> SubscriberView {
        if self.pending.len() < capacity {
            SubscriberView { pending: self.pending.push(msg), missed: self.missed }
        } else {
            SubscriberView {
                pending: self.pending.drop_first().push(msg),
                missed: if self.missed < u64::MAX {
                    self.missed + 1
                } else {
                    self.missed
                },
            }
        }
    }

    /// The subscription after each of `msgs` was published, in order.
    pub open spec fn offered_all(self, capacity: nat, msgs: Seq<Seq<char>>) -> SubscriberView
        decreases msgs.len(),
    {
        if msgs.len() == 0 {
            self
        } else {
            self.offered_all(capacity, msgs.drop_last()).offered(capacity, msgs.last())
        }
    }

    /// What the next receive yields.
    pub open spec fn delivery(self) -> DeliveryView {
        if self.missed > 0 {
            DeliveryView::Lagged(self.missed)
        } else if self.pending.len() > 0 {
            DeliveryView::Message(self.pending[0])
        } else {
            DeliveryView::Empty
        }
    }

    /// The subscription after that receive.
    pub open spec fn advanced(self) -> SubscriberView {
        if self.missed > 0 {
            SubscriberView { pending: self.pending, missed: 0 }
        } else if self.pending.len() > 0 {
            SubscriberView { pending: self.pending.drop_first(), missed: 0 }
        } else {
            self
        }
    }

    /// The subscription after `events`, in order.
    pub open spec fn after(self, capacity: nat, events: Seq<SubscriberEvent>) -> SubscriberView
        decreases events.len(),
    {
        if events.len() == 0 {
            self
        } else {
            let before = self.after(capacity, events.drop_last());
            match events.last() {
                SubscriberEvent::Published(msg) => before.offered(capacity, msg),
                SubscriberEvent::Received => before.advanced(),
            }
        }
    }

    /// The messages that the receives among `events` hand to the subscriber, in order.
    pub open spec fn read_during(self, capacity: nat, events: Seq<SubscriberEvent>) -> Seq<
        Seq<char>,
    >
        decreases events.len(),
    {
        if events.len() == 0 {
            Seq::empty()
        } else {
            let earlier = self.read_during(capacity, events.drop_last());
            match events.last() {
                SubscriberEvent::Published(_) => earlier,
                SubscriberEvent::Received => match self.after(
                    capacity,
                    events.drop_last(),
                ).delivery() {
                    DeliveryView::Message(msg) => earlier.push(msg),
                    _ => earlier,
                },
            }
        }
    }

    /// No publication among `events` finds the buffer full.
    pub open spec fn never_overrun(self, capacity: nat, events: Seq<SubscriberEvent>) -> bool
        decreases events.len(),
    {
        if events.len() == 0 {
            true
        } else {
            &&& self.never_overrun(capacity, events.drop_last())
            &&& events.last() is Published ==> self.after(
                capacity,
                events.drop_last(),
            ).pending.len() < capacity
        }
    }

    /// The subscription after `n` receives in a row.
    pub open spec fn advanced_by(self, n: nat) -> SubscriberView
        decreases n,
    {
        if n == 0 {
            self
        } else {
            self.advanced_by((n - 1) as nat).advanced()
        }
    }
}

/// The whole relay: the buffer capacity, the live connection count, and the
/// subscriptions by their identifier.
pub struct ChannelView {
    pub capacity: nat,
    pub live: usize,
    pub subscribers: Map<nat, SubscriberView>,
}

impl ChannelView {
    /// A relay with no subscriber and no live connection.
    pub open spec fn empty(capacity: nat) -> ChannelView {
        ChannelView { capacity, live: 0, subscribers: Map::empty() }
    }

    /// The capacity is positive and every buffer respects it.
    pub open spec fn bounded(self) -> bool {
        &&& self.capacity > 0
        &&& forall|id: nat| #[trigger]
            self.subscribers.dom().contains(id) ==> self.subscribers[id].bounded(self.capacity)
    }

    /// `id` is the smallest identifier that no subscription uses.
    pub open spec fn least_free(self, id: nat) -> bool {
        &&& !self.subscribers.dom().contains(id)
        &&& forall|j: nat| j < id ==> #[trigger] self.subscribers.dom().contains(j)
    }

    /// The relay after `msg` was published: every subscription is offered it.
    pub open spec fn published(self, msg: Seq<char>) -> ChannelView {
        ChannelView {
            subscribers: Map::new(
                |id: nat| self.subscribers.dom().contains(id),
                |id: nat| self.subscribers[id].offered(self.capacity, msg),
            ),
            ..self
        }
    }

    /// The relay with a fresh subscription under `id`.
    pub open spec fn subscribed(self, id: nat) -> ChannelView {
        ChannelView { subscribers: self.subscribers.insert(id, SubscriberView::fresh()), ..self }
    }

    /// The relay without the subscription `id`.
    pub open spec fn unsubscribed(self, id: nat) -> ChannelView {
        ChannelView { subscribers: self.subscribers.remove(id), ..self }
    }

    /// What a receive on subscription `id` yields.
    pub open spec fn delivery(self, id: nat) -> DeliveryView {
        if self.subscribers.dom().contains(id) {
            self.subscribers[id].delivery()
        } else {
            DeliveryView::Closed
        }
    }

    /// The relay after a receive on subscription `id`.
    pub open spec fn received(self, id: nat) -> ChannelView {
        if self.subscribers.dom().contains(id) {
            ChannelView {
                subscribers: self.subscribers.insert(id, self.subscribers[id].advanced()),
                ..self
            }
        } else {
            self
        }
    }

    /// The relay with one more live connection.
    pub open spec fn incremented(self) -> ChannelView {
        ChannelView { live: count_up(self.live), ..self }
    }

    /// The relay with one live connection less.
    pub open spec fn decremented(self) -> ChannelView {
        ChannelView { live: count_down(self.live), ..self }
    }

    /// The relay after each of `msgs` was published, in order.
    pub open spec fn published_all(self, msgs: Seq<Seq<char>>) -> ChannelView
        decreases msgs.len(),
    {
        if msgs.len() == 0 {
            self
        } else {
            self.published_all(msgs.drop_last()).published(msgs.last())
        }
    }

    /// The relay after a connection joined under `id`: it is counted and
    /// subscribed, and the new count is announced to everyone, the newcomer
    /// included.
    pub open spec fn joined(self, id: nat) -> ChannelView {
        self.incremented().subscribed(id).published(presence_text(count_up(self.live) as nat))
    }

    /// The relay after the connection `id` left: its subscription is gone,
    /// and the new count is announced to those that remain.
    pub open spec fn departed(self, id: nat) -> ChannelView {
        self.unsubscribed(id).decremented().published(presence_text(count_down(self.live) as nat))
    }

    /// The relay after one connection joined under each of `ids`, in order.
    pub open spec fn joined_all(self, ids: Seq<nat>) -> ChannelView
        decreases ids.len(),
    {
        if ids.len() == 0 {
            self
        } else {
            self.joined_all(ids.drop_last()).joined(ids.last())
        }
    }
}

} // verus!
