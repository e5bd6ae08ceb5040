//! What holds of the relay as a whole, proved over its model.

use crate::model::{
    count_after_connects, count_down, count_up, sent_during, ChannelView, DeliveryView,
    SubscriberEvent, SubscriberView,
};
use crate::presence::presence_text;
use vstd::prelude::*;

verus! {

/// After `n` connections in a row the live count has grown by exactly `n`,
/// as long as the sum fits the machine word; from zero it equals `n`.
pub proof fn connects_are_counted(count: usize, n: nat)
    requires
        count + n <= usize::MAX,
    ensures
        count_after_connects(count, n) == count + n,
    decreases n,
{
    if n > 0 {
        connects_are_counted(count, (n - 1) as nat);
    }
}

/// At every size the live count after `n` connections is the sum reduced
/// modulo the size of the machine word.
pub proof fn connects_wrap_around(count: usize, n: nat)
    ensures
        count_after_connects(count, n) == (count + n) % (usize::MAX + 1),
    decreases n,
{
    let m = usize::MAX + 1;
    if n == 0 {
        assert(count as int % m == count) by (nonlinear_arith)
            requires
                0 <= count < m,
        ;
    } else {
        connects_wrap_around(count, (n - 1) as nat);
        let x = count + n - 1;
        assert((x + 1) % m == (if x % m == m - 1 {
            0
        } else {
            x % m + 1
        })) by (nonlinear_arith)
            requires
                m > 0,
                x >= 0,
        ;
    }
}

/// However many connections join, and under whatever identifiers, each one
/// is counted once: the live count grows by their number.
pub proof fn joins_are_counted(relay: ChannelView, ids: Seq<nat>)
    requires
        relay.live + ids.len() <= usize::MAX,
    ensures
        relay.joined_all(ids).live == relay.live + ids.len(),
        relay.joined_all(ids).live == count_after_connects(relay.live, ids.len()),
    decreases ids.len(),
{
    connects_are_counted(relay.live, ids.len());
    if ids.len() > 0 {
        joins_are_counted(relay, ids.drop_last());
        connects_are_counted(relay.live, (ids.len() - 1) as nat);
    }
}

/// Counting a connection and then uncounting it restores the count, at
/// every value of it.
pub proof fn count_up_then_down(count: usize)
    ensures
        count_down(count_up(count)) == count,
        count_up(count_down(count)) == count,
{
}

/// A connection that joins and then leaves restores the live count and the
/// set of subscriptions that were there before it.
pub proof fn join_then_depart_restores(relay: ChannelView, id: nat)
    requires
        !relay.subscribers.dom().contains(id),
    ensures
        relay.joined(id).departed(id).live == relay.live,
        relay.joined(id).departed(id).capacity == relay.capacity,
        relay.joined(id).departed(id).subscribers.dom() =~= relay.subscribers.dom(),
{
}

/// Publishing keeps every buffer within the capacity.
pub proof fn offering_stays_bounded(s: SubscriberView, capacity: nat, msg: Seq<char>)
    requires
        capacity > 0,
        s.bounded(capacity),
    ensures
        s.offered(capacity, msg).bounded(capacity),
{
}

/// A subscription with room for all of `msgs` gets them appended in the
/// order of publication, and loses nothing.
pub proof fn room_means_all_arrive(s: SubscriberView, capacity: nat, msgs: Seq<Seq<char>>)
    requires
        s.pending.len() + msgs.len() <= capacity,
    ensures
        s.offered_all(capacity, msgs) == (SubscriberView {
            pending: s.pending + msgs,
            missed: s.missed,
        }),
    decreases msgs.len(),
{
    if msgs.len() == 0 {
        assert(s.pending + msgs =~= s.pending);
    } else {
        room_means_all_arrive(s, capacity, msgs.drop_last());
        assert((s.pending + msgs.drop_last()).push(msgs.last()) =~= s.pending + msgs);
    }
}

/// A subscription that keeps up receives its pending messages oldest first:
/// after `k` receives the next one yields the message at position `k`.
pub proof fn receives_follow_the_queue(s: SubscriberView, k: nat)
    requires
        s.keeping_up(),
        k <= s.pending.len(),
    ensures
        s.advanced_by(k) == (SubscriberView { pending: s.pending.skip(k as int), missed: 0 }),
        k < s.pending.len() ==> s.advanced_by(k).delivery() == DeliveryView::Message(
            s.pending[k as int],
        ),
        k == s.pending.len() ==> s.advanced_by(k).delivery() == DeliveryView::Empty,
    decreases k,
{
    if k == 0 {
        assert(s.pending.skip(0) =~= s.pending);
    } else {
        receives_follow_the_queue(s, (k - 1) as nat);
        assert(s.pending.skip(k - 1).drop_first() =~= s.pending.skip(k as int));
    }
}

/// Per-subscriber order: a subscription that keeps up and has room receives
/// every message published to it, each one before any that was published
/// after it.
pub proof fn published_messages_arrive_in_order(
    s: SubscriberView,
    capacity: nat,
    msgs: Seq<Seq<char>>,
    k: nat,
)
    requires
        s.keeping_up(),
        s.pending.len() + msgs.len() <= capacity,
        k < msgs.len(),
    ensures
        s.offered_all(capacity, msgs).advanced_by(s.pending.len() + k).delivery()
            == DeliveryView::Message(msgs[k as int]),
{
    room_means_all_arrive(s, capacity, msgs);
    receives_follow_the_queue(s.offered_all(capacity, msgs), s.pending.len() + k);
}

/// Nothing lost, nothing reordered: however publications and receives
/// alternate, a subscription that keeps up and is never overrun hands out
/// exactly what was pending and published, in that order; what it has not
/// handed out yet is still pending behind it.
pub proof fn delivery_follows_publication(
    s: SubscriberView,
    capacity: nat,
    events: Seq<SubscriberEvent>,
)
    requires
        s.keeping_up(),
        s.never_overrun(capacity, events),
    ensures
        s.after(capacity, events).keeping_up(),
        s.read_during(capacity, events) + s.after(capacity, events).pending == s.pending
            + sent_during(events),
    decreases events.len(),
{
    if events.len() == 0 {
        assert(s.read_during(capacity, events) + s.pending =~= s.pending + sent_during(events));
    } else {
        let earlier = events.drop_last();
        delivery_follows_publication(s, capacity, earlier);
        let before = s.after(capacity, earlier);
        let read = s.read_during(capacity, earlier);
        assert(read + before.pending == s.pending + sent_during(earlier));
        match events.last() {
            SubscriberEvent::Published(msg) => {
                assert(read + before.pending.push(msg) =~= (read + before.pending).push(msg));
                assert((s.pending + sent_during(earlier)).push(msg) =~= s.pending + sent_during(
                    earlier,
                ).push(msg));
            },
            SubscriberEvent::Received => {
                if before.pending.len() > 0 {
                    assert(read.push(before.pending[0]) + before.pending.drop_first() =~= read
                        + before.pending);
                }
            },
        }
    }
}

/// Publishing acts on each subscription by itself: what one subscriber has
/// after a run of publications depends on its own buffer alone, so all
/// subscribers see one and the same order, and none can hold up another.
pub proof fn publishing_is_per_subscriber(relay: ChannelView, msgs: Seq<Seq<char>>, id: nat)
    requires
        relay.subscribers.dom().contains(id),
    ensures
        relay.published_all(msgs).capacity == relay.capacity,
        relay.published_all(msgs).live == relay.live,
        relay.published_all(msgs).subscribers.dom() =~= relay.subscribers.dom(),
        relay.published_all(msgs).subscribers[id] == relay.subscribers[id].offered_all(
            relay.capacity,
            msgs,
        ),
    decreases msgs.len(),
{
    if msgs.len() > 0 {
        publishing_is_per_subscriber(relay, msgs.drop_last(), id);
    }
}

/// A published message reaches every subscriber there is, as the newest
/// entry of its buffer: the subscription of the connection that sent it is
/// no exception.
pub proof fn publication_reaches_everyone(relay: ChannelView, msg: Seq<char>, id: nat)
    requires
        relay.bounded(),
        relay.subscribers.dom().contains(id),
    ensures
        relay.published(msg).bounded(),
        relay.published(msg).subscribers.dom().contains(id),
        relay.published(msg).subscribers[id].pending.len() > 0,
        relay.published(msg).subscribers[id].pending.last() == msg,
{
}

/// A subscriber whose buffer is full when a message is published loses its
/// oldest unread message and nothing else: its next receive yields the lag
/// indicator, and the one after that the oldest message still held.
pub proof fn overrun_is_reported(s: SubscriberView, capacity: nat, msg: Seq<char>)
    requires
        capacity > 0,
        s.bounded(capacity),
        s.pending.len() == capacity,
    ensures
        s.offered(capacity, msg).bounded(capacity),
        s.offered(capacity, msg).pending == s.pending.drop_first().push(msg),
        s.offered(capacity, msg).missed > 0,
        s.offered(capacity, msg).delivery() == DeliveryView::Lagged(
            s.offered(capacity, msg).missed,
        ),
        s.offered(capacity, msg).advanced().delivery() == DeliveryView::Message(
            s.pending.drop_first().push(msg)[0],
        ),
{
}

/// A slow subscriber costs the others nothing: when one buffer overruns,
/// another subscription with room still gets the message appended, with
/// nothing dropped.
pub proof fn overrun_spares_the_others(relay: ChannelView, msg: Seq<char>, slow: nat, other: nat)
    requires
        relay.bounded(),
        relay.subscribers.dom().contains(slow),
        relay.subscribers.dom().contains(other),
        relay.subscribers[slow].pending.len() == relay.capacity,
        relay.subscribers[other].pending.len() < relay.capacity,
    ensures
        relay.published(msg).subscribers[slow].missed > 0,
        relay.published(msg).subscribers[other].pending == relay.subscribers[other].pending.push(
            msg,
        ),
        relay.published(msg).subscribers[other].missed == relay.subscribers[other].missed,
{
}

/// What the relay does to one subscription is what the subscription's own
/// model says: a publication offers the message to it, a receive on it
/// yields its next item and advances it.
pub proof fn relay_acts_through_subscriptions(relay: ChannelView, id: nat, msg: Seq<char>)
    requires
        relay.subscribers.dom().contains(id),
    ensures
        relay.published(msg).subscribers[id] == relay.subscribers[id].offered(relay.capacity, msg),
        relay.delivery(id) == relay.subscribers[id].delivery(),
        relay.received(id).subscribers[id] == relay.subscribers[id].advanced(),
        relay.received(id).subscribers.dom() =~= relay.subscribers.dom(),
        relay.published(msg).subscribers.dom() =~= relay.subscribers.dom(),
{
}

/// Receiving on one subscription leaves every other subscription as it was.
pub proof fn receiving_is_private(relay: ChannelView, reader: nat, other: nat)
    requires
        other != reader,
        relay.subscribers.dom().contains(other),
    ensures
        relay.received(reader).subscribers.dom().contains(other),
        relay.received(reader).subscribers[other] == relay.subscribers[other],
{
}

/// When one connection leaves, every other subscription stays, keeps what
/// it had to read, is offered the presence notice like any other message,
/// and is reached by whatever is published afterwards.
pub proof fn departure_spares_the_others(relay: ChannelView, gone: nat, other: nat, msg: Seq<char>)
    requires
        relay.bounded(),
        other != gone,
        relay.subscribers.dom().contains(other),
    ensures
        relay.unsubscribed(gone).subscribers[other] == relay.subscribers[other],
        relay.departed(gone).bounded(),
        !relay.departed(gone).subscribers.dom().contains(gone),
        relay.departed(gone).subscribers.dom().contains(other),
        relay.departed(gone).subscribers[other] == relay.subscribers[other].offered(
            relay.capacity,
            presence_text(count_down(relay.live) as nat),
        ),
        relay.departed(gone).published(msg).subscribers[other].pending.last() == msg,
{
    let rest = relay.unsubscribed(gone).decremented();
    assert(rest.bounded());
    publication_reaches_everyone(rest, presence_text(count_down(relay.live) as nat), other);
    publication_reaches_everyone(relay.departed(gone), msg, other);
}

/// A connection that joins is itself among those that the announcement of
/// its arrival reaches.
pub proof fn newcomer_sees_its_own_arrival(relay: ChannelView, id: nat)
    requires
        relay.bounded(),
        !relay.subscribers.dom().contains(id),
    ensures
        relay.joined(id).bounded(),
        relay.joined(id).subscribers.dom().contains(id),
        relay.joined(id).subscribers[id].pending == seq![
            presence_text(count_up(relay.live) as nat),
        ],
        relay.joined(id).subscribers[id].missed == 0,
{
    let before = relay.incremented().subscribed(id);
    assert(before.bounded());
    assert(before.subscribers[id].pending.push(presence_text(count_up(relay.live) as nat))
        =~= seq![presence_text(count_up(relay.live) as nat)]);
}

} // verus!
