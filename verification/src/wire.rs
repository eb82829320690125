//! Wire format of a MAVLink frame: where its fields stand and when its checksum
//! matches.
use vstd::prelude::*;

use crate::consts::v1;
use crate::consts::v2;
use crate::consts::{CHECKSUM_SIZE, MAX_FRAME_SIZE};
use crate::crc::mavlink_crc;

verus! {

/// MAVLink wire version identified by the frame marker.
#[derive(Clone, Copy, Debug, PartialEq, Eq, Structural)]
pub enum FrameVersion {
    /// MAVLink 1 (`0xfe`).
    V1,
    /// MAVLink 2 (`0xfd`).
    V2,
}

/// The version that a marker byte announces.
pub open spec fn version_of(marker: u8) -> Option<FrameVersion> {
    if marker == v1::STX {
        Some(FrameVersion::V1)
    } else if marker == v2::STX {
        Some(FrameVersion::V2)
    } else {
        None
    }
}

/// Whether a frame may begin with `byte`.
pub open spec fn is_marker(byte: u8) -> bool {
    byte == v1::STX || byte == v2::STX
}

/// Number of bytes between the marker and the payload.
pub open spec fn header_len(version: FrameVersion) -> nat {
    match version {
        FrameVersion::V1 => v1::HEADER_SIZE as nat,
        FrameVersion::V2 => v2::HEADER_SIZE as nat,
    }
}

/// Number of leading bytes that decide how long a frame is.
pub open spec fn prefix_len(version: FrameVersion) -> nat {
    match version {
        FrameVersion::V1 => 2,
        FrameVersion::V2 => 3,
    }
}

/// Length of the payload, as the frame announces it.
pub open spec fn payload_len(frame: Seq<u8>) -> nat {
    frame[1] as nat
}

/// Offset of the payload.
pub open spec fn payload_start(version: FrameVersion) -> nat {
    1 + header_len(version)
}

/// Offset of the checksum.
pub open spec fn checksum_start(frame: Seq<u8>, version: FrameVersion) -> nat {
    payload_start(version) + payload_len(frame)
}

/// Whether a MAVLink 2 frame announces a signature.
pub open spec fn signed_flag(frame: Seq<u8>, version: FrameVersion) -> bool {
    version == FrameVersion::V2 && frame[2] & v2::IFLAG_SIGNED != 0
}

/// Whether a MAVLink 2 frame carries a flag that no receiver may accept.
pub open spec fn unsupported_flags(frame: Seq<u8>, version: FrameVersion) -> bool {
    version == FrameVersion::V2 && frame[2] & !v2::SUPPORTED_IFLAGS != 0
}

/// Length of a whole frame, as its leading bytes announce it.
pub open spec fn frame_len(frame: Seq<u8>, version: FrameVersion) -> nat {
    let signature_len = if signed_flag(frame, version) {
        v2::SIGNATURE_SIZE as nat
    } else {
        0
    };
    checksum_start(frame, version) + CHECKSUM_SIZE as nat + signature_len
}

/// Two bytes as a little-endian number.
pub open spec fn le_u16(low: u8, high: u8) -> u16 {
    (low + 0x100 * high) as u16
}

/// Three bytes as a little-endian number.
pub open spec fn le_u24(low: u8, middle: u8, high: u8) -> u32 {
    (low + 0x100 * middle + 0x1_0000 * high) as u32
}

/// Message identifier.
pub open spec fn message_id(frame: Seq<u8>, version: FrameVersion) -> u32 {
    match version {
        FrameVersion::V1 => frame[5] as u32,
        FrameVersion::V2 => le_u24(frame[7], frame[8], frame[9]),
    }
}

/// Packet sequence number.
pub open spec fn sequence(frame: Seq<u8>, version: FrameVersion) -> u8 {
    match version {
        FrameVersion::V1 => frame[2],
        FrameVersion::V2 => frame[4],
    }
}

/// Sender system identifier.
pub open spec fn system_id(frame: Seq<u8>, version: FrameVersion) -> u8 {
    match version {
        FrameVersion::V1 => frame[3],
        FrameVersion::V2 => frame[5],
    }
}

/// Sender component identifier.
pub open spec fn component_id(frame: Seq<u8>, version: FrameVersion) -> u8 {
    match version {
        FrameVersion::V1 => frame[4],
        FrameVersion::V2 => frame[6],
    }
}

/// Payload bytes.
pub open spec fn payload(frame: Seq<u8>, version: FrameVersion) -> Seq<u8> {
    frame.subrange(payload_start(version) as int, checksum_start(frame, version) as int)
}

/// Checksum carried by the frame.
pub open spec fn carried_checksum(frame: Seq<u8>, version: FrameVersion) -> u16 {
    let start = checksum_start(frame, version) as int;
    le_u16(frame[start], frame[start + 1])
}

/// Everything behind the checksum: the signature trailer of a signed frame.
pub open spec fn trailer(frame: Seq<u8>, version: FrameVersion) -> Seq<u8> {
    frame.skip(checksum_start(frame, version) + CHECKSUM_SIZE)
}

/// Bytes that the checksum covers: everything between marker and checksum.
pub open spec fn covered_bytes(frame: Seq<u8>, version: FrameVersion) -> Seq<u8> {
    frame.subrange(1, checksum_start(frame, version) as int)
}

/// Whether the carried checksum is the one that `extra_crc` leads to.
pub open spec fn checksum_matches(
    frame: Seq<u8>,
    version: FrameVersion,
    extra_crc: u8,
) -> bool {
    mavlink_crc(covered_bytes(frame, version), extra_crc) == carried_checksum(frame, version)
}

/// `frame` is exactly one frame of the given version: its length is the one it
/// announces, its flags are supported, and its checksum matches for some extra
/// byte.
pub open spec fn is_frame(frame: Seq<u8>, version: FrameVersion) -> bool {
    &&& frame.len() >= prefix_len(version)
    &&& version_of(frame[0]) == Some(version)
    &&& !unsupported_flags(frame, version)
    &&& frame.len() == frame_len(frame, version)
    &&& exists|extra_crc: u8| checksum_matches(frame, version, extra_crc)
}

/// `bytes` is exactly one frame of the version that its marker announces.
pub open spec fn is_any_frame(bytes: Seq<u8>) -> bool {
    &&& bytes.len() > 0
    &&& version_of(bytes[0]) matches Some(version) && is_frame(bytes, version)
}

/// The fields of a frame do not depend on what follows it.
pub proof fn lemma_frame_prefix(bytes: Seq<u8>, version: FrameVersion)
    requires
        bytes.len() >= frame_len(bytes, version),
    ensures
        ({
            let frame = bytes.take(frame_len(bytes, version) as int);
            &&& frame[0] == bytes[0]
            &&& frame.len() == frame_len(frame, version) == frame_len(bytes, version)
            &&& prefix_len(version) <= frame.len()
            &&& unsupported_flags(frame, version) == unsupported_flags(bytes, version)
            &&& message_id(frame, version) == message_id(bytes, version)
            &&& carried_checksum(frame, version) == carried_checksum(bytes, version)
            &&& covered_bytes(frame, version) == covered_bytes(bytes, version)
        }),
{
    let frame = bytes.take(frame_len(bytes, version) as int);
    assert(covered_bytes(frame, version) =~= covered_bytes(bytes, version));
}

/// No frame is longer than the largest one of its version.
pub proof fn law_frames_have_a_largest_length(frame: Seq<u8>, version: FrameVersion)
    requires
        is_frame(frame, version),
    ensures
        frame.len() <= match version {
            FrameVersion::V1 => v1::MAX_FRAME_SIZE,
            FrameVersion::V2 => v2::MAX_FRAME_SIZE,
        },
        frame.len() <= MAX_FRAME_SIZE,
        frame.len() == MAX_FRAME_SIZE <==> payload_len(frame) == 255 && signed_flag(frame, version),
{
}

/// Reads two bytes as a little-endian number.
#[inline]
pub fn read_u16(low: u8, high: u8) -> (value: u16)
    ensures
        value == le_u16(low, high),
{
    low as u16 + 0x100 * (high as u16)
}

/// Reads three bytes as a little-endian number.
#[inline]
pub fn read_u24(low: u8, middle: u8, high: u8) -> (value: u32)
    ensures
        value == le_u24(low, middle, high),
        value <= 0xff_ffff,
{
    low as u32 + 0x100 * (middle as u32) + 0x1_0000 * (high as u32)
}

/// The version that a marker byte announces.
pub fn marker_version(marker: u8) -> (version: Option<FrameVersion>)
    ensures
        version == version_of(marker),
        version is Some <==> is_marker(marker),
{
    if marker == v1::STX {
        Some(FrameVersion::V1)
    } else if marker == v2::STX {
        Some(FrameVersion::V2)
    } else {
        None
    }
}

} // verus!
