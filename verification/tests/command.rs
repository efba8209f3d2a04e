//! The command/response synchronizer: the echo scanner and the outgoing
//! command frame.

use pensel::cli::{ARG_ACCEL, ARG_GRAVITY, CMD_IMU};
use pensel::command::{command_frame, contains_bytes, EchoScanner, WaitStatus, WAIT_BUFFER_SIZE};

#[test]
fn command_frame_appends_carriage_return() {
    let cmd = format!("{} --{} --{}", CMD_IMU, ARG_ACCEL, ARG_GRAVITY);
    assert_eq!(cmd, "imu --accel --gravity");
    let framed = command_frame(cmd.as_bytes());
    assert_eq!(framed, b"imu --accel --gravity\r".to_vec());
}

#[test]
fn echo_matches_only_after_arrival() {
    let mut scanner = EchoScanner::new(b"imu --accel");

    assert_eq!(scanner.feed(b"unrelated noise\n"), WaitStatus::NeedMore);
    assert_eq!(scanner.feed(b"imu --ac"), WaitStatus::NeedMore);
    // the echo completes across reads
    assert_eq!(scanner.feed(b"cel\n"), WaitStatus::Matched);
}

#[test]
fn echo_split_across_many_reads() {
    let mut scanner = EchoScanner::new(b"reset");
    assert_eq!(scanner.feed(b"r"), WaitStatus::NeedMore);
    assert_eq!(scanner.feed(b"e"), WaitStatus::NeedMore);
    assert_eq!(scanner.feed(b"s"), WaitStatus::NeedMore);
    assert_eq!(scanner.feed(b"e"), WaitStatus::NeedMore);
    assert_eq!(scanner.feed(b"t"), WaitStatus::Matched);
}

#[test]
fn wait_buffer_exhaustion() {
    let mut scanner = EchoScanner::new(b"echo never comes");
    let junk = vec![b'z'; WAIT_BUFFER_SIZE - 1];
    assert_eq!(scanner.feed(&junk), WaitStatus::NeedMore);
    assert_eq!(scanner.feed(b"zz"), WaitStatus::Exhausted);
}

#[test]
fn contains_bytes_examples() {
    assert!(contains_bytes(b"hello world", b"lo wo"));
    assert!(contains_bytes(b"hello", b""));
    assert!(!contains_bytes(b"hello", b"world"));
    assert!(!contains_bytes(b"ab", b"abc"));
}
