//! The handler of one connection: the state machine that bridges a client's
//! transport to the shared broadcaster. The caller performs the transport
//! work and reports what happened; the handler decides what follows.

use crate::broadcaster::{Broadcaster, Delivery, ReceiverHandle};
use crate::model::{count_down, count_up, DeliveryView};
use crate::presence::{presence_message, presence_text};
use crate::theorems::{newcomer_sees_its_own_arrival, publication_reaches_everyone};
use vstd::prelude::*;

verus! {

/// Where a connection stands in its life.
#[derive(Clone, Copy, Debug, PartialEq, Eq, Structural)]
pub enum ConnectionState {
    /// The handshake has not finished.
    Connecting,
    /// Both relay directions run.
    Active,
    /// One direction has ended; the other must stop before the departure is announced.
    Closing,
    /// The connection is gone.
    Closed,
}

impl ConnectionState {
    /// How far along its life a connection in this state is. A connection
    /// only ever moves forward.
    pub open spec fn rank(self) -> nat {
        match self {
            ConnectionState::Connecting => 0,
            ConnectionState::Active => 1,
            ConnectionState::Closing => 2,
            ConnectionState::Closed => 3,
        }
    }
}

/// What a relay direction does next.
#[derive(Clone, Copy, Debug, PartialEq, Eq, Structural)]
pub enum Directive {
    /// Go on with the next item.
    Continue,
    /// End this direction, and cancel the other.
    Stop,
}

/// What the inbound side of the transport produced.
#[derive(Debug, PartialEq, Eq)]
pub enum Inbound {
    /// A text frame.
    Text(String),
    /// A frame of another kind; the relay ignores it.
    Other,
    /// The stream closed or failed.
    Ended,
}

/// What the outbound relay does next.
#[derive(Debug, PartialEq, Eq)]
pub enum Outbound {
    /// Write this message to the client.
    Send(String),
    /// That many messages were dropped unread; nothing to write, go on.
    Skipped(u64),
    /// Nothing to write right now; wait for the next publication.
    Idle,
    /// End this direction, and cancel the other.
    Stop,
}

/// The model of an `Outbound`.
pub enum OutboundView {
    Send(Seq<char>),
    Skipped(nat),
    Idle,
    Stop,
}

impl View for Outbound {
    type V = OutboundView;

    open spec fn view(&self) -> OutboundView {
        match self {
            Outbound::Send(text) => OutboundView::Send(text@),
            Outbound::Skipped(n) => OutboundView::Skipped(*n as nat),
            Outbound::Idle => OutboundView::Idle,
            Outbound::Stop => OutboundView::Stop,
        }
    }
}

/// What the outbound relay does with what its subscription yielded.
pub open spec fn relayed(d: DeliveryView) -> OutboundView {
    match d {
        DeliveryView::Message(text) => OutboundView::Send(text),
        DeliveryView::Lagged(n) => OutboundView::Skipped(n),
        DeliveryView::Empty => OutboundView::Idle,
        DeliveryView::Closed => OutboundView::Stop,
    }
}

/// The model of a handler: its state and the subscription it holds.
pub struct ConnectionView {
    pub state: ConnectionState,
    pub subscription: Option<nat>,
}

impl ConnectionView {
    /// A handler holds a subscription exactly while it is active or closing.
    pub open spec fn consistent(self) -> bool {
        (self.state == ConnectionState::Active || self.state == ConnectionState::Closing)
            <==> self.subscription is Some
    }
}

/// The handler of one connection.
#[derive(Debug)]
pub struct ConnectionHandler {
    state: ConnectionState,
    handle: Option<ReceiverHandle>,
}

impl View for ConnectionHandler {
    type V = ConnectionView;

    closed spec fn view(&self) -> ConnectionView {
        ConnectionView {
            state: self.state,
            subscription: match self.handle {
                Some(h) => Some(h@),
                None => None,
            },
        }
    }
}

impl ConnectionHandler {
    /// The invariant of the handler.
    pub open spec fn wf(&self) -> bool {
        self@.consistent()
    }

    /// A handler for a connection whose handshake is under way.
    pub fn new() -> (h: ConnectionHandler)
        ensures
            h.wf(),
            h@ == (ConnectionView { state: ConnectionState::Connecting, subscription: None }),
    {
        ConnectionHandler { state: ConnectionState::Connecting, handle: None }
    }

    /// The state of the connection.
    pub fn state(&self) -> (s: ConnectionState)
        ensures
            s == self@.state,
    {
        self.state
    }

    /// The identifier of the subscription that the handler holds, if any.
    pub fn subscription_id(&self) -> (id: Option<usize>)
        ensures
            id is Some <==> self@.subscription is Some,
            id is Some ==> id.unwrap() as nat == self@.subscription.unwrap(),
    {
        match &self.handle {
            Some(h) => Some(h.id()),
            None => None,
        }
    }

    /// The handshake succeeded: the connection is counted and subscribed, and
    /// the new count is announced to every subscriber, this one included.
    /// Returns the new count; `None`, with nothing changed, unless the
    /// handler was connecting.
    pub fn open(&mut self, relay: &mut Broadcaster) -> (count: Option<usize>)
        requires
            old(self).wf(),
            old(relay).wf(),
        ensures
            final(self).wf(),
            old(self)@.state.rank() <= final(self)@.state.rank(),
            final(relay).wf(),
            old(self)@.state == ConnectionState::Connecting ==> {
                &&& count == Some(count_up(old(relay)@.live))
                &&& final(self)@.state == ConnectionState::Active
                &&& final(self)@.subscription is Some
                &&& old(relay)@.least_free(final(self)@.subscription.unwrap())
                &&& final(relay)@ == old(relay)@.joined(final(self)@.subscription.unwrap())
                &&& final(relay)@.subscribers[final(self)@.subscription.unwrap()].pending == seq![
                    presence_text(count_up(old(relay)@.live) as nat),
                ]
            },
            old(self)@.state != ConnectionState::Connecting ==> {
                &&& count is None
                &&& final(self)@ == old(self)@
                &&& final(relay)@ == old(relay)@
            },
    {
        if self.state != ConnectionState::Connecting {
            return None;
        }
        let count = relay.increment_and_get();
        let handle = relay.subscribe();
        let notice = presence_message(count);
        relay.publish(notice.as_str());
        proof {
            newcomer_sees_its_own_arrival(old(relay)@, handle@);
        }
        self.handle = Some(handle);
        self.state = ConnectionState::Active;
        Some(count)
    }

    /// The handshake failed: the connection closes without ever being
    /// counted or announced. Changes nothing unless the handler was connecting.
    pub fn reject(&mut self)
        requires
            old(self).wf(),
        ensures
            final(self).wf(),
            old(self)@.state.rank() <= final(self)@.state.rank(),
            final(self)@.subscription == old(self)@.subscription,
            final(self)@.state == (if old(self)@.state == ConnectionState::Connecting {
                ConnectionState::Closed
            } else {
                old(self)@.state
            }),
    {
        if self.state == ConnectionState::Connecting {
            self.state = ConnectionState::Closed;
        }
    }

    /// The inbound relay read `frame`. While active, a text frame is published
    /// unchanged to every subscriber, the sender included; a frame of another
    /// kind is ignored; the end of the stream begins the closing. In any
    /// other state nothing changes and the direction stops.
    pub fn on_inbound(&mut self, relay: &mut Broadcaster, frame: Inbound) -> (next: Directive)
        requires
            old(self).wf(),
            old(relay).wf(),
        ensures
            final(self).wf(),
            old(self)@.state.rank() <= final(self)@.state.rank(),
            final(relay).wf(),
            final(self)@.subscription == old(self)@.subscription,
            old(self)@.state == ConnectionState::Active ==> (match frame {
                Inbound::Text(text) => {
                    &&& next == Directive::Continue
                    &&& final(self)@.state == ConnectionState::Active
                    &&& final(relay)@ == old(relay)@.published(text@)
                    &&& forall|id: nat| #[trigger]
                        old(relay)@.subscribers.dom().contains(id) ==> {
                            &&& final(relay)@.subscribers.dom().contains(id)
                            &&& final(relay)@.subscribers[id].pending.len() > 0
                            &&& final(relay)@.subscribers[id].pending.last() == text@
                        }
                },
                Inbound::Other => {
                    &&& next == Directive::Continue
                    &&& final(self)@.state == ConnectionState::Active
                    &&& final(relay)@ == old(relay)@
                },
                Inbound::Ended => {
                    &&& next == Directive::Stop
                    &&& final(self)@.state == ConnectionState::Closing
                    &&& final(relay)@ == old(relay)@
                },
            }),
            old(self)@.state != ConnectionState::Active ==> {
                &&& next == Directive::Stop
                &&& final(self)@.state == old(self)@.state
                &&& final(relay)@ == old(relay)@
            },
    {
        if self.state != ConnectionState::Active {
            return Directive::Stop;
        }
        match frame {
            Inbound::Text(text) => {
                relay.publish(text.as_str());
                proof {
                    assert forall|id: nat| #[trigger]
                        old(relay)@.subscribers.dom().contains(id) implies {
                        &&& relay@.subscribers.dom().contains(id)
                        &&& relay@.subscribers[id].pending.len() > 0
                        &&& relay@.subscribers[id].pending.last() == text@
                    } by {
                        publication_reaches_everyone(old(relay)@, text@, id);
                    }
                }
                Directive::Continue
            },
            Inbound::Other => Directive::Continue,
            Inbound::Ended => {
                self.state = ConnectionState::Closing;
                Directive::Stop
            },
        }
    }

    /// The outbound relay asks what to write next. While active, it gets what
    /// its subscription yields, in the order of publication; a subscription
    /// that no longer exists begins the closing. In any other state nothing
    /// changes and the direction stops.
    pub fn next_outbound(&mut self, relay: &mut Broadcaster) -> (next: Outbound)
        requires
            old(self).wf(),
            old(relay).wf(),
        ensures
            final(self).wf(),
            old(self)@.state.rank() <= final(self)@.state.rank(),
            final(relay).wf(),
            final(self)@.subscription == old(self)@.subscription,
            old(self)@.state == ConnectionState::Active ==> {
                &&& next@ == relayed(old(relay)@.delivery(old(self)@.subscription.unwrap()))
                &&& final(relay)@ == old(relay)@.received(old(self)@.subscription.unwrap())
                &&& final(self)@.state == (if next@ is Stop {
                    ConnectionState::Closing
                } else {
                    ConnectionState::Active
                })
            },
            old(self)@.state != ConnectionState::Active ==> {
                &&& next@ is Stop
                &&& final(self)@.state == old(self)@.state
                &&& final(relay)@ == old(relay)@
            },
    {
        if self.state != ConnectionState::Active {
            return Outbound::Stop;
        }
        let delivery = match &self.handle {
            Some(handle) => relay.receive(handle),
            None => Delivery::Closed,
        };
        match delivery {
            Delivery::Message(text) => Outbound::Send(text),
            Delivery::Lagged(n) => Outbound::Skipped(n),
            Delivery::Empty => Outbound::Idle,
            Delivery::Closed => {
                self.state = ConnectionState::Closing;
                Outbound::Stop
            },
        }
    }

    /// The outbound relay reports whether its last write reached the client.
    /// A failed write on an active connection begins the closing.
    pub fn on_outbound_result(&mut self, written: bool) -> (next: Directive)
        requires
            old(self).wf(),
        ensures
            final(self).wf(),
            old(self)@.state.rank() <= final(self)@.state.rank(),
            final(self)@.subscription == old(self)@.subscription,
            next == (if old(self)@.state == ConnectionState::Active && written {
                Directive::Continue
            } else {
                Directive::Stop
            }),
            final(self)@.state == (if old(self)@.state == ConnectionState::Active && !written {
                ConnectionState::Closing
            } else {
                old(self)@.state
            }),
    {
        if self.state != ConnectionState::Active {
            return Directive::Stop;
        }
        if written {
            Directive::Continue
        } else {
            self.state = ConnectionState::Closing;
            Directive::Stop
        }
    }

    /// Both directions have stopped: the subscription is closed, the
    /// connection is no longer counted, and the new count is announced to
    /// those that remain. Returns the new count; `None`, with nothing
    /// changed, unless the handler was closing.
    pub fn close(&mut self, relay: &mut Broadcaster) -> (count: Option<usize>)
        requires
            old(self).wf(),
            old(relay).wf(),
        ensures
            final(self).wf(),
            old(self)@.state.rank() <= final(self)@.state.rank(),
            final(relay).wf(),
            old(self)@.state == ConnectionState::Closing ==> {
                &&& count == Some(count_down(old(relay)@.live))
                &&& final(self)@ == (ConnectionView {
                    state: ConnectionState::Closed,
                    subscription: None,
                })
                &&& final(relay)@ == old(relay)@.departed(old(self)@.subscription.unwrap())
            },
            old(self)@.state != ConnectionState::Closing ==> {
                &&& count is None
                &&& final(self)@ == old(self)@
                &&& final(relay)@ == old(relay)@
            },
    {
        if self.state != ConnectionState::Closing {
            return None;
        }
        match self.handle.take() {
            Some(handle) => {
                relay.unsubscribe(handle);
            },
            None => {},
        }
        let count = relay.decrement_and_get();
        let notice = presence_message(count);
        relay.publish(notice.as_str());
        self.state = ConnectionState::Closed;
        Some(count)
    }
}

} // verus!
