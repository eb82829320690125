//! MAVLink 2.
use vstd::prelude::*;

verus! {

/// First byte of a frame.
pub const STX: u8 = 0xfd;

/// Length of the header that follows the first byte.
pub const HEADER_SIZE: usize = 9;

/// Length of the signature trailer.
pub const SIGNATURE_SIZE: usize = 13;

/// Largest possible frame.
pub const MAX_FRAME_SIZE: usize = 280;

/// Incompatibility flag of a signed frame.
pub const IFLAG_SIGNED: u8 = 0x01;

/// Incompatibility flags that a receiver may accept.
pub const SUPPORTED_IFLAGS: u8 = 0x01;

} // verus!
