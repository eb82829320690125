//! Sizes and flags of the MAVLink wire formats.
use vstd::prelude::*;

pub mod v1;
pub mod v2;

verus! {

/// Length of the checksum that follows a payload.
pub const CHECKSUM_SIZE: usize = 2;

/// Largest possible frame: a MAVLink 2 frame with a 255-byte payload and a
/// signature.
pub const MAX_FRAME_SIZE: usize = 280;

} // verus!
