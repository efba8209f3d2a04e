//! The vector value type shared by the node and the software that talks
//! to it, and the outcome of decoding one line of its output.

use vstd::prelude::*;

verus! {

/// A fixed-point 3-axis vector reported by the node. Depending on the
/// line it came from it is a linear-acceleration or a gravity sample.
#[derive(Clone, Copy, Debug, PartialEq, Eq, Structural)]
pub struct FixedPointVector {
    /// X axis component.
    pub x: i16,
    /// Y axis component.
    pub y: i16,
    /// Z axis component.
    pub z: i16,
}

impl FixedPointVector {
    /// Initializes a new `FixedPointVector`.
    pub fn new(x: i16, y: i16, z: i16) -> (v: FixedPointVector)
        ensures
            v == (FixedPointVector { x, y, z }),
    {
        FixedPointVector { x, y, z }
    }
}

/// Gravity vector.
pub type GravityVector = FixedPointVector;

/// Linear acceleration vector.
pub type AccelerationVector = FixedPointVector;

/// The possible outcomes of decoding a line of data from the node.
#[derive(Clone, Copy, Debug, PartialEq, Eq, Structural)]
pub enum ParsedLine {
    /// The line is not a well-formed vector report.
    Unrecognized,
    /// The line carried a gravity vector.
    Grav(GravityVector),
    /// The line carried a linear-acceleration vector.
    Accel(AccelerationVector),
}

/// Number of slots in the backing store of the acceleration queue; it
/// holds up to one item fewer.
pub const ACC_QUEUE_SIZE: usize = 100;

/// Number of slots in the backing store of the gravity queue; it holds
/// up to one item fewer.
pub const GRAV_QUEUE_SIZE: usize = 100;

} // verus!
