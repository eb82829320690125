//! Portable, allocation-free MAVLink framing.
//!
//! [`frame_decoder::FrameDecoder`] finds checksum-valid frames in a byte stream,
//! [`reader::MavlinkReader`] and [`async_reader::AsyncMavlinkReader`] read messages
//! from a source, and [`crc`] computes the checksum.
pub mod async_reader;
pub mod consts;
pub mod crc;
pub mod embedded;
pub mod error;
pub mod frame_decoder;
pub mod laws;
pub mod message;
pub mod reader;
pub mod signing;
pub mod text;
pub mod wire;

pub use crate::async_reader::AsyncMavlinkReader;
pub use crate::message::{
    MAVLinkMessageRaw, MAVLinkV1MessageRaw, MAVLinkV2MessageRaw, MavHeader, MavlinkVersion,
    Message, ReadVersion,
};
pub use crate::reader::MavlinkReader;
pub use crate::signing::{NoSigning, SignatureVerifier, SigningConfig, SigningData};
