use shape_pipeline::channel::{
    ChannelError, ChannelMessage, ShapeChannel, PUBS_CAP, QUEUE_CAP, SUBS_CAP,
};
use shape_pipeline::shape::{Point, Shape, Size};

fn marker(n: i32) -> Shape {
    Shape::Triangle {
        a: Point { x: n, y: 0 },
        b: Point { x: 0, y: n },
        c: Point { x: n, y: n },
    }
}

#[test]
fn handle_bounds_enforced() {
    let mut ch = ShapeChannel::new();
    for k in 0..SUBS_CAP {
        assert_eq!(ch.subscribe().unwrap(), k);
    }
    assert_eq!(ch.subscribe(), Err(ChannelError::MaxSubscribers));
    for k in 0..PUBS_CAP {
        assert_eq!(ch.publisher().unwrap(), k);
    }
    assert_eq!(ch.publisher(), Err(ChannelError::MaxPublishers));
    assert_eq!(ch.num_subscribers(), SUBS_CAP);
    assert_eq!(ch.num_publishers(), PUBS_CAP);
}

#[test]
fn channel_stays_within_bounds() {
    let mut ch = ShapeChannel::new();
    assert!(ch.is_wf());
    let _ = ch.subscribe().unwrap();
    let _ = ch.publisher().unwrap();
    for n in 0..(QUEUE_CAP + 7) {
        ch.publish(marker(n as i32));
    }
    assert!(ch.is_wf());
}

#[test]
fn fifo_delivery() {
    let mut ch = ShapeChannel::new();
    let sub = ch.subscribe().unwrap();
    ch.publish(marker(1));
    ch.publish(marker(2));
    assert_eq!(ch.try_next(sub), Some(ChannelMessage::Message(marker(1))));
    assert_eq!(ch.try_next(sub), Some(ChannelMessage::Message(marker(2))));
    assert_eq!(ch.try_next(sub), None);
}

#[test]
fn overflow_reports_lag_once() {
    let mut ch = ShapeChannel::new();
    let sub = ch.subscribe().unwrap();
    let extra = 2;
    let total = QUEUE_CAP + extra;
    for n in 0..total {
        ch.publish(marker(n as i32));
    }
    // The first receive reports exactly how many messages were lost.
    assert_eq!(ch.try_next(sub), Some(ChannelMessage::Lag(extra as u64)));
    // What remains are the newest QUEUE_CAP messages, oldest first.
    for n in extra..total {
        assert_eq!(
            ch.try_next(sub),
            Some(ChannelMessage::Message(marker(n as i32)))
        );
    }
    assert_eq!(ch.try_next(sub), None);
}

#[test]
fn lag_cleared_after_report() {
    let mut ch = ShapeChannel::new();
    let sub = ch.subscribe().unwrap();
    for n in 0..(QUEUE_CAP + 3) {
        ch.publish(marker(n as i32));
    }
    assert_eq!(ch.try_next(sub), Some(ChannelMessage::Lag(3)));
    // After the report the subscriber is current again: drain, publish,
    // receive with no further lag.
    for _ in 0..QUEUE_CAP {
        match ch.try_next(sub) {
            Some(ChannelMessage::Message(_)) => {}
            other => panic!("expected a shape, got {:?}", other),
        }
    }
    ch.publish(marker(99));
    assert_eq!(ch.try_next(sub), Some(ChannelMessage::Message(marker(99))));
}

#[test]
fn subscribers_have_independent_cursors() {
    let mut ch = ShapeChannel::new();
    let s1 = ch.subscribe().unwrap();
    let s2 = ch.subscribe().unwrap();
    ch.publish(marker(7));
    assert_eq!(ch.try_next(s1), Some(ChannelMessage::Message(marker(7))));
    // A slow subscriber still sees its own copy.
    assert_eq!(ch.try_next(s2), Some(ChannelMessage::Message(marker(7))));
    assert_eq!(ch.try_next(s1), None);
    assert_eq!(ch.try_next(s2), None);
}

#[test]
fn overflow_only_affects_slow_subscriber() {
    let mut ch = ShapeChannel::new();
    let fast = ch.subscribe().unwrap();
    let slow = ch.subscribe().unwrap();
    for n in 0..(QUEUE_CAP + 1) {
        ch.publish(marker(n as i32));
        // The fast subscriber keeps up.
        assert_eq!(
            ch.try_next(fast),
            Some(ChannelMessage::Message(marker(n as i32)))
        );
    }
    assert_eq!(ch.try_next(fast), None);
    assert_eq!(ch.try_next(slow), Some(ChannelMessage::Lag(1)));
}
