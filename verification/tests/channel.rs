//! The bounded channel: capacity, non-blocking full and empty behavior,
//! and FIFO order.

use pensel::channel::Channel;
use pensel::types::FixedPointVector;

#[test]
fn capacity_and_fifo() {
    let mut ch = Channel::new();
    let cap = ch.capacity();

    for i in 0..(cap + 1) {
        let v = FixedPointVector::new((i % 1000) as i16, 0, 0);
        let res = ch.enqueue(v);
        if i < cap {
            assert!(res.is_ok(), "enqueue {} of {} unexpectedly full", i, cap);
        } else {
            assert_eq!(res, Err(v));
        }
    }
    assert_eq!(ch.len(), cap);

    for i in 0..cap {
        let v = ch.dequeue();
        assert_eq!(v, Some(FixedPointVector::new((i % 1000) as i16, 0, 0)));
    }
    assert_eq!(ch.dequeue(), None);
    assert!(ch.is_empty());
}

#[test]
fn empty_dequeue_returns_immediately() {
    let mut ch = Channel::new();
    assert_eq!(ch.dequeue(), None);
    assert_eq!(ch.len(), 0);
    assert!(ch.is_empty());
}

#[test]
fn full_enqueue_hands_item_back() {
    let mut ch = Channel::new();
    let cap = ch.capacity();
    for _ in 0..cap {
        ch.enqueue(FixedPointVector::new(7, 7, 7)).unwrap();
    }
    let v = FixedPointVector::new(9, 9, 9);
    assert_eq!(ch.enqueue(v), Err(v));
    assert_eq!(ch.len(), cap);
}
