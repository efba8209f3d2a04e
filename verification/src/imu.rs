//! The node-side encapsulation of the motion sensor: two streaming
//! switches, one per vector kind, gating what the sensor reported. The
//! register-level driver lives outside this crate; a caller hands each
//! raw reading in and receives it back only while the matching stream
//! is enabled.

use vstd::prelude::*;

use crate::types::{AccelerationVector, GravityVector};

verus! {

/// The IMU with its two streaming switches, both off at start.
pub struct Imu {
    stream_accel: bool,
    stream_gravity: bool,
}

impl Imu {
    /// True while acceleration streaming is enabled.
    pub closed spec fn spec_stream_accel(&self) -> bool {
        self.stream_accel
    }

    /// True while gravity streaming is enabled.
    pub closed spec fn spec_stream_gravity(&self) -> bool {
        self.stream_gravity
    }

    /// Creates the IMU with both streams disabled.
    pub fn new() -> (imu: Imu)
        ensures
            !imu.spec_stream_accel(),
            !imu.spec_stream_gravity(),
    {
        Imu { stream_accel: false, stream_gravity: false }
    }

    /// Sets both streaming switches, as the streaming-control command
    /// does: each switch follows exactly whether its argument was given.
    pub fn set_streaming(&mut self, enable_accel: bool, enable_gravity: bool)
        ensures
            final(self).spec_stream_accel() == enable_accel,
            final(self).spec_stream_gravity() == enable_gravity,
    {
        self.stream_accel = enable_accel;
        self.stream_gravity = enable_gravity;
    }

    /// Passes the sensor's current gravity reading through: the reading
    /// while gravity streaming is enabled, and nothing otherwise.
    pub fn gravity_fixed(&mut self, reading: Option<GravityVector>) -> (r: Option<GravityVector>)
        ensures
            *final(self) == *old(self),
            r == (if old(self).spec_stream_gravity() {
                reading
            } else {
                None
            }),
    {
        if self.stream_gravity {
            reading
        } else {
            None
        }
    }

    /// Passes the sensor's current linear-acceleration reading through:
    /// the reading while acceleration streaming is enabled, and nothing
    /// otherwise.
    pub fn linear_acceleration_fixed(&mut self, reading: Option<AccelerationVector>) -> (r: Option<
        AccelerationVector,
    >)
        ensures
            *final(self) == *old(self),
            r == (if old(self).spec_stream_accel() {
                reading
            } else {
                None
            }),
    {
        if self.stream_accel {
            reading
        } else {
            None
        }
    }
}

} // verus!
