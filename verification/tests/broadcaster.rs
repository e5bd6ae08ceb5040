use chat_relay::broadcaster::{Broadcaster, Delivery};

fn text(s: &str) -> String {
    String::from(s)
}

#[test]
fn new_broadcaster_is_empty() {
    let b = Broadcaster::new(100);
    assert_eq!(b.capacity(), 100);
    assert_eq!(b.live_count(), 0);
}

#[test]
fn n_increments_count_n() {
    let mut b = Broadcaster::new(4);
    for expected in 1..=250usize {
        assert_eq!(b.increment_and_get(), expected);
    }
    assert_eq!(b.live_count(), 250);
}

#[test]
fn increment_then_decrement_restores_the_count() {
    let mut b = Broadcaster::new(4);
    for _ in 0..3 {
        b.increment_and_get();
    }
    assert_eq!(b.increment_and_get(), 4);
    assert_eq!(b.decrement_and_get(), 3);
    assert_eq!(b.live_count(), 3);
}

#[test]
fn count_wraps_at_both_ends() {
    let mut b = Broadcaster::new(1);
    assert_eq!(b.decrement_and_get(), usize::MAX);
    assert_eq!(b.increment_and_get(), 0);
}

#[test]
fn publish_without_subscribers_is_a_no_op() {
    let mut b = Broadcaster::new(2);
    b.publish(&text("nobody hears this"));
    let h = b.subscribe();
    assert_eq!(b.receive(&h), Delivery::Empty);
}

#[test]
fn subscription_starts_at_now() {
    let mut b = Broadcaster::new(4);
    let early = b.subscribe();
    b.publish(&text("before"));
    let late = b.subscribe();
    b.publish(&text("after"));
    assert_eq!(b.receive(&early), Delivery::Message(text("before")));
    assert_eq!(b.receive(&early), Delivery::Message(text("after")));
    assert_eq!(b.receive(&late), Delivery::Message(text("after")));
    assert_eq!(b.receive(&late), Delivery::Empty);
}

#[test]
fn handles_take_the_smallest_free_identifier() {
    let mut b = Broadcaster::new(4);
    let h0 = b.subscribe();
    let h1 = b.subscribe();
    let h2 = b.subscribe();
    assert_eq!((h0.id(), h1.id(), h2.id()), (0, 1, 2));
    b.unsubscribe(h1);
    let again = b.subscribe();
    assert_eq!(again.id(), 1);
    let next = b.subscribe();
    assert_eq!(next.id(), 3);
}

#[test]
fn messages_arrive_in_publish_order() {
    let mut b = Broadcaster::new(100);
    let h = b.subscribe();
    for i in 0..100 {
        b.publish(&format!("m{}", i));
    }
    for i in 0..100 {
        assert_eq!(b.receive(&h), Delivery::Message(format!("m{}", i)));
    }
    assert_eq!(b.receive(&h), Delivery::Empty);
}

#[test]
fn every_subscriber_sees_the_same_order() {
    let mut b = Broadcaster::new(8);
    let h0 = b.subscribe();
    let h1 = b.subscribe();
    b.publish(&text("one"));
    b.publish(&text("two"));
    b.publish(&text("three"));
    for h in [&h0, &h1] {
        assert_eq!(b.receive(h), Delivery::Message(text("one")));
        assert_eq!(b.receive(h), Delivery::Message(text("two")));
        assert_eq!(b.receive(h), Delivery::Message(text("three")));
        assert_eq!(b.receive(h), Delivery::Empty);
    }
}

#[test]
fn slow_subscriber_observes_lag() {
    let mut b = Broadcaster::new(2);
    let slow = b.subscribe();
    b.publish(&text("a"));
    b.publish(&text("b"));
    b.publish(&text("c"));
    b.publish(&text("d"));
    b.publish(&text("e"));
    assert_eq!(b.receive(&slow), Delivery::Lagged(3));
    assert_eq!(b.receive(&slow), Delivery::Message(text("d")));
    assert_eq!(b.receive(&slow), Delivery::Message(text("e")));
    assert_eq!(b.receive(&slow), Delivery::Empty);
}

#[test]
fn buffer_exactly_full_is_no_lag() {
    let mut b = Broadcaster::new(2);
    let h = b.subscribe();
    b.publish(&text("a"));
    b.publish(&text("b"));
    assert_eq!(b.receive(&h), Delivery::Message(text("a")));
    assert_eq!(b.receive(&h), Delivery::Message(text("b")));
}

#[test]
fn slow_subscriber_does_not_hold_up_the_others() {
    let mut b = Broadcaster::new(1);
    let slow = b.subscribe();
    let quick = b.subscribe();
    b.publish(&text("a"));
    assert_eq!(b.receive(&quick), Delivery::Message(text("a")));
    b.publish(&text("b"));
    assert_eq!(b.receive(&quick), Delivery::Message(text("b")));
    b.publish(&text("c"));
    assert_eq!(b.receive(&quick), Delivery::Message(text("c")));
    assert_eq!(b.receive(&slow), Delivery::Lagged(2));
    assert_eq!(b.receive(&slow), Delivery::Message(text("c")));
}

#[test]
fn lag_is_reported_once() {
    let mut b = Broadcaster::new(1);
    let h = b.subscribe();
    b.publish(&text("a"));
    b.publish(&text("b"));
    assert_eq!(b.receive(&h), Delivery::Lagged(1));
    assert_eq!(b.receive(&h), Delivery::Message(text("b")));
    b.publish(&text("c"));
    assert_eq!(b.receive(&h), Delivery::Message(text("c")));
}

#[test]
fn unsubscribe_leaves_the_others_alone() {
    let mut b = Broadcaster::new(4);
    let stays = b.subscribe();
    let goes = b.subscribe();
    b.publish(&text("first"));
    b.unsubscribe(goes);
    b.publish(&text("second"));
    assert_eq!(b.receive(&stays), Delivery::Message(text("first")));
    assert_eq!(b.receive(&stays), Delivery::Message(text("second")));
    assert_eq!(b.receive(&stays), Delivery::Empty);
}

#[test]
fn receive_on_a_foreign_handle_is_closed() {
    let mut a = Broadcaster::new(4);
    let mut other = Broadcaster::new(4);
    let h = a.subscribe();
    assert_eq!(other.receive(&h), Delivery::Closed);
    other.unsubscribe(h);
    assert_eq!(other.live_count(), 0);
}

#[test]
fn messages_are_relayed_unchanged() {
    let mut b = Broadcaster::new(4);
    let h = b.subscribe();
    let odd = text("[12:05] zoë: héllo \u{1F600}  \n\ttabs ");
    b.publish(&odd);
    b.publish(&text(""));
    assert_eq!(b.receive(&h), Delivery::Message(odd));
    assert_eq!(b.receive(&h), Delivery::Message(text("")));
}
