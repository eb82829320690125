//! What the library does, from the bytes that were sent to the results that are
//! returned.
//!
//! The statements speak of calls and of bytes by their place in a packet: where a field
//! stands, which bytes a checksum covers and what a dialect or a verifier is asked. How
//! the library itself describes frames is not used in them.
pub mod buffering;
pub mod checksum;
pub mod decoding;
pub mod fields;
pub mod packet;
pub mod policy;
pub mod reading;
pub mod small_buffers;
pub mod sources;
pub mod streaming;
pub mod texts;
