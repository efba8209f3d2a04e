//! The session: stepping the continuous-read loop, cancellation, and
//! disconnects.

use pensel::frame::FrameError;
use pensel::session::{ReadEvent, Session, StepOutcome};
use pensel::types::FixedPointVector;

#[test]
fn session_decodes_and_routes() {
    let mut s = Session::new();
    assert!(s.is_running());

    let out = s.step(ReadEvent::Data(b"A:1,2,3\nG:4,5,6\n".to_vec()));
    assert_eq!(out, StepOutcome::Continue);
    assert_eq!(s.dequeue_accel(), Some(FixedPointVector::new(1, 2, 3)));
    assert_eq!(s.dequeue_accel(), None);
    assert_eq!(s.dequeue_grav(), Some(FixedPointVector::new(4, 5, 6)));
    assert_eq!(s.dequeue_grav(), None);
}

#[test]
fn stop_request_halts_within_one_step() {
    let mut s = Session::new();
    s.step(ReadEvent::Data(b"A:1,2,3\n".to_vec()));
    s.request_stop();
    assert!(!s.is_running());

    // the next iteration observes the flag: nothing is read into the
    // channels any more
    let out = s.step(ReadEvent::Data(b"G:7,8,9\n".to_vec()));
    assert_eq!(out, StepOutcome::Stopped);
    assert_eq!(s.dequeue_grav(), None);
    assert_eq!(s.dequeue_accel(), Some(FixedPointVector::new(1, 2, 3)));
}

#[test]
fn disconnect_ends_session() {
    let mut s = Session::new();
    let out = s.step(ReadEvent::Disconnected);
    assert_eq!(out, StepOutcome::Stopped);
    assert!(!s.is_running());
    assert_eq!(s.step(ReadEvent::Data(b"A:1,2,3\n".to_vec())), StepOutcome::Stopped);
    assert_eq!(s.dequeue_accel(), None);
}

#[test]
fn transient_error_is_absorbed() {
    let mut s = Session::new();
    assert_eq!(s.step(ReadEvent::TransientError), StepOutcome::Continue);
    assert!(s.is_running());
}

#[test]
fn fatal_framing_ends_session() {
    let mut s = Session::new();
    let out = s.step(ReadEvent::Data(vec![0xC3, 0x28]));
    assert_eq!(out, StepOutcome::Failed(FrameError::InvalidUtf8));
    assert!(!s.is_running());
}

#[test]
fn partial_lines_span_steps() {
    let mut s = Session::new();
    assert_eq!(s.step(ReadEvent::Data(b"A:1,2,".to_vec())), StepOutcome::Continue);
    assert_eq!(s.dequeue_accel(), None);
    assert_eq!(s.step(ReadEvent::Data(b"3\n".to_vec())), StepOutcome::Continue);
    assert_eq!(s.dequeue_accel(), Some(FixedPointVector::new(1, 2, 3)));
}
