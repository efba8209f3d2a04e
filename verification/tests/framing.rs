//! The frame assembler: reassembly across partial reads, batches,
//! routing, and the fatal conditions.

use pensel::channel::Channel;
use pensel::frame::{FrameAssembler, FrameError, FRAME_BUFFER_SIZE};
use pensel::types::FixedPointVector;

#[test]
fn partial_read_reassembly() {
    let mut fa = FrameAssembler::new();
    let mut accel = Channel::new();
    let mut grav = Channel::new();

    fa.feed(b"A:1,2,", &mut accel, &mut grav).unwrap();
    assert_eq!(accel.dequeue(), None);
    assert_eq!(grav.dequeue(), None);

    fa.feed(b"3\n", &mut accel, &mut grav).unwrap();
    assert_eq!(accel.dequeue(), Some(FixedPointVector::new(1, 2, 3)));
    assert_eq!(accel.dequeue(), None);
    assert_eq!(grav.dequeue(), None);
    assert_eq!(fa.pending_len(), 0);
}

#[test]
fn multi_line_batch() {
    let mut fa = FrameAssembler::new();
    let mut accel = Channel::new();
    let mut grav = Channel::new();

    fa.feed(b"A:1,2,3\nG:4,5,6\n", &mut accel, &mut grav).unwrap();
    assert_eq!(accel.dequeue(), Some(FixedPointVector::new(1, 2, 3)));
    assert_eq!(accel.dequeue(), None);
    assert_eq!(grav.dequeue(), Some(FixedPointVector::new(4, 5, 6)));
    assert_eq!(grav.dequeue(), None);
    assert_eq!(fa.pending_len(), 0);
}

#[test]
fn empty_chunk_is_harmless() {
    let mut fa = FrameAssembler::new();
    let mut accel = Channel::new();
    let mut grav = Channel::new();

    fa.feed(b"", &mut accel, &mut grav).unwrap();
    assert_eq!(fa.pending_len(), 0);
    assert_eq!(accel.len(), 0);
    assert_eq!(grav.len(), 0);
}

#[test]
fn malformed_line_is_retained() {
    let mut fa = FrameAssembler::new();
    let mut accel = Channel::new();
    let mut grav = Channel::new();

    fa.feed(b"derpy derp\nA:1,2,3\n", &mut accel, &mut grav).unwrap();
    // the malformed line blocks the pass; nothing is consumed yet
    assert_eq!(accel.dequeue(), None);
    assert_eq!(fa.pending_len(), b"derpy derp\nA:1,2,3\n".len());
}

#[test]
fn non_utf8_is_fatal() {
    let mut fa = FrameAssembler::new();
    let mut accel = Channel::new();
    let mut grav = Channel::new();

    let res = fa.feed(&[0xFF, 0x41, 0x0A], &mut accel, &mut grav);
    assert_eq!(res, Err(FrameError::InvalidUtf8));
    assert_eq!(accel.len(), 0);
    assert_eq!(grav.len(), 0);
}

#[test]
fn overflow_is_fatal() {
    let mut fa = FrameAssembler::new();
    let mut accel = Channel::new();
    let mut grav = Channel::new();

    let no_newline = vec![b'x'; FRAME_BUFFER_SIZE];
    fa.feed(&no_newline, &mut accel, &mut grav).unwrap();
    assert_eq!(fa.pending_len(), FRAME_BUFFER_SIZE);

    let res = fa.feed(b"y", &mut accel, &mut grav);
    assert_eq!(res, Err(FrameError::Overflow));
    assert_eq!(fa.pending_len(), FRAME_BUFFER_SIZE);
}

#[test]
fn full_channel_drops_newest() {
    let mut fa = FrameAssembler::new();
    let mut accel = Channel::new();
    let mut grav = Channel::new();

    let cap = accel.capacity();
    for i in 0..(cap + 5) {
        let line = format!("A:{},0,0\n", i % 10);
        fa.feed(line.as_bytes(), &mut accel, &mut grav).unwrap();
    }
    assert_eq!(accel.len(), cap);
    // FIFO: the first vector fed is the first out; the overflowing ones
    // were dropped, not the oldest
    assert_eq!(accel.dequeue(), Some(FixedPointVector::new(0, 0, 0)));
    assert_eq!(accel.dequeue(), Some(FixedPointVector::new(1, 0, 0)));
}
