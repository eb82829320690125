//! MAVLink 1.
use vstd::prelude::*;

verus! {

/// First byte of a frame.
pub const STX: u8 = 0xfe;

/// Length of the header that follows the first byte.
pub const HEADER_SIZE: usize = 5;

/// Largest possible frame.
pub const MAX_FRAME_SIZE: usize = 263;

} // verus!
