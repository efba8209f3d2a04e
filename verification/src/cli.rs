//! The command vocabulary shared between the node's shell and the host
//! tooling. The crate does not interpret these: callers assemble command
//! lines from them and hand the text to the command/response
//! synchronizer.

use vstd::prelude::*;

verus! {

/// The command to trigger a forced panic.
pub const CMD_PANIC: &'static str = "panic";

/// Initiates a node reset.
pub const CMD_RESET: &'static str = "reset";

/// The command to control the IMU.
pub const CMD_IMU: &'static str = "imu";

/// Argument to the IMU command enabling the gravity stream.
pub const ARG_GRAVITY: &'static str = "gravity";

/// Argument to the IMU command enabling the acceleration stream.
pub const ARG_ACCEL: &'static str = "accel";

/// The command controlling the logging facilities.
pub const CMD_LOG: &'static str = "log";

/// Argument to the log command changing the level.
pub const ARG_LEVEL_SET: &'static str = "level";

/// Argument to the log command reading the level back.
pub const ARG_LEVEL_GET: &'static str = "level-get";

} // verus!
