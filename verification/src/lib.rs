//! Telemetry link between an IMU-equipped node and a consuming process.
//!
//! The node emits newline-terminated ASCII lines, each carrying one
//! fixed-point 3-axis vector (linear acceleration or gravity), over a
//! byte-oriented serial transport, and accepts single-line text commands
//! that are echoed back as confirmation.
//!
//! This crate is the streaming protocol engine: a byte-stream framer that
//! turns arbitrarily fragmented reads into discrete lines, a line decoder
//! that turns a line into a typed vector, a bounded queue that hands
//! decoded vectors from the acquisition context to the consumer, and a
//! command/response synchronizer that scans the incoming stream for a
//! command echo. Transport setup and raw I/O live outside this crate; the
//! engine consumes and produces plain byte chunks and typed values.

pub mod channel;
pub mod command;
pub mod cli;
pub mod decode;
pub mod frame;
pub mod imu;
pub mod logger;
pub mod mock_serial;
pub mod num;
pub mod run;
pub mod session;
pub mod types;
