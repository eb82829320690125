//! Messages: what a dialect provides, and the wire bytes of one message.
use vstd::prelude::*;

use crate::consts::v1;
use crate::consts::v2;
use crate::consts::CHECKSUM_SIZE;
use crate::error::ParserError;
use crate::wire;
use crate::wire::FrameVersion;

verus! {

/// MAVLink protocol version.
#[derive(Clone, Copy, Debug, PartialEq, Eq, Structural)]
pub enum MavlinkVersion {
    /// MAVLink 1.
    V1,
    /// MAVLink 2.
    V2,
}

/// Which protocol versions a read accepts.
#[derive(Clone, Copy, Debug, PartialEq, Eq, Structural)]
pub enum ReadVersion {
    /// Only this version.
    Single(MavlinkVersion),
    /// Every version.
    Any,
}

impl From<MavlinkVersion> for ReadVersion {
    fn from(version: MavlinkVersion) -> (read_version: Self) {
        Self::Single(version)
    }
}

impl vstd::std_specs::convert::FromSpecImpl<MavlinkVersion> for ReadVersion {
    open spec fn obeys_from_spec() -> bool {
        true
    }

    open spec fn from_spec(version: MavlinkVersion) -> Self {
        ReadVersion::Single(version)
    }
}

/// Sender and sequence number of a message.
#[derive(Clone, Copy, Debug, PartialEq, Eq, Structural)]
pub struct MavHeader {
    /// Sender system identifier.
    pub system_id: u8,
    /// Sender component identifier.
    pub component_id: u8,
    /// Packet sequence number.
    pub sequence: u8,
}

/// A set of messages, as a dialect defines it.
pub trait Message: Sized {
    /// Parses the payload of the message with the given identifier.
    fn parse(version: MavlinkVersion, msgid: u32, payload: &[u8]) -> Result<Self, ParserError>;

    /// The CRC extra byte of the message with the given identifier.
    fn extra_crc(id: u32) -> u8;
}

/// `bytes` begins with `frame` and holds nothing but zeros behind it.
pub open spec fn padded(bytes: Seq<u8>, frame: Seq<u8>) -> bool {
    &&& frame.len() <= bytes.len()
    &&& bytes.take(frame.len() as int) == frame
    &&& forall|i: int| frame.len() <= i < bytes.len() ==> bytes[i] == 0
}

/// Copies `source` to the front of `target`.
fn copy_front(target: &mut [u8], source: &[u8])
    requires
        source@.len() <= old(target)@.len(),
    ensures
        final(target)@ == source@ + old(target)@.skip(source@.len() as int),
{
    let mut copied: usize = 0;
    while copied < source.len()
        invariant
            copied <= source@.len() <= target@.len(),
            target@.len() == old(target)@.len(),
            forall|i: int| 0 <= i < copied ==> target@[i] == source@[i],
            forall|i: int| copied <= i < target@.len() ==> target@[i] == old(target)@[i],
        decreases source@.len() - copied,
    {
        target[copied] = source[copied];
        copied += 1;
    }
    assert(target@ =~= source@ + old(target)@.skip(source@.len() as int));
}

/// Bytes of one MAVLink 1 message.
#[derive(Clone, Copy, Debug)]
pub struct MAVLinkV1MessageRaw(pub [u8; v1::MAX_FRAME_SIZE]);

impl MAVLinkV1MessageRaw {
    /// A message of zeros.
    #[must_use]
    pub fn new() -> (raw: Self)
        ensures
            forall|i: int| 0 <= i < v1::MAX_FRAME_SIZE ==> raw.0@[i] == 0,
    {
        Self([0; v1::MAX_FRAME_SIZE])
    }
}

/// Bytes of one MAVLink 2 message.
#[derive(Clone, Copy, Debug)]
pub struct MAVLinkV2MessageRaw(pub [u8; v2::MAX_FRAME_SIZE]);

impl MAVLinkV2MessageRaw {
    /// A message of zeros.
    #[must_use]
    pub fn new() -> (raw: Self)
        ensures
            forall|i: int| 0 <= i < v2::MAX_FRAME_SIZE ==> raw.0@[i] == 0,
    {
        Self([0; v2::MAX_FRAME_SIZE])
    }
}

/// Bytes of one message of either version.
#[derive(Clone, Copy, Debug)]
pub enum MAVLinkMessageRaw {
    /// A MAVLink 1 message.
    V1(MAVLinkV1MessageRaw),
    /// A MAVLink 2 message.
    V2(MAVLinkV2MessageRaw),
}

impl View for MAVLinkMessageRaw {
    type V = Seq<u8>;

    /// All bytes, those behind the message included.
    open spec fn view(&self) -> Seq<u8> {
        match self {
            MAVLinkMessageRaw::V1(raw) => raw.0@,
            MAVLinkMessageRaw::V2(raw) => raw.0@,
        }
    }
}

impl MAVLinkMessageRaw {
    /// The wire version of the message.
    pub open spec fn wire_version(&self) -> FrameVersion {
        match self {
            MAVLinkMessageRaw::V1(_) => FrameVersion::V1,
            MAVLinkMessageRaw::V2(_) => FrameVersion::V2,
        }
    }

    /// These are the bytes of `frame`, with nothing but zeros behind them.
    pub open spec fn holds(&self, frame: Seq<u8>, version: FrameVersion) -> bool {
        &&& self.wire_version() == version
        &&& padded(self@, frame)
    }

    /// Copies a frame.
    pub(crate) fn from_bytes(bytes: &[u8], version: FrameVersion) -> (raw: Self)
        requires
            wire::is_frame(bytes@, version),
        ensures
            raw.holds(bytes@, version),
    {
        let raw = match version {
            FrameVersion::V1 => {
                let mut raw = MAVLinkV1MessageRaw::new();
                copy_front(&mut raw.0, bytes);
                MAVLinkMessageRaw::V1(raw)
            },
            FrameVersion::V2 => {
                let mut raw = MAVLinkV2MessageRaw::new();
                copy_front(&mut raw.0, bytes);
                MAVLinkMessageRaw::V2(raw)
            },
        };
        assert(raw@.take(bytes@.len() as int) =~= bytes@);
        raw
    }

    fn all_bytes(&self) -> (bytes: &[u8])
        ensures
            bytes@ == self@,
            bytes@.len() == match self.wire_version() {
                FrameVersion::V1 => v1::MAX_FRAME_SIZE,
                FrameVersion::V2 => v2::MAX_FRAME_SIZE,
            },
    {
        match self {
            MAVLinkMessageRaw::V1(raw) => &raw.0,
            MAVLinkMessageRaw::V2(raw) => &raw.0,
        }
    }

    /// Protocol version of the message.
    #[must_use]
    pub fn version(&self) -> (version: MavlinkVersion)
        ensures
            version == protocol_version(self.wire_version()),
    {
        match self {
            MAVLinkMessageRaw::V1(_) => MavlinkVersion::V1,
            MAVLinkMessageRaw::V2(_) => MavlinkVersion::V2,
        }
    }

    /// Message identifier.
    #[must_use]
    pub fn message_id(&self) -> (id: u32)
        ensures
            id == wire::message_id(self@, self.wire_version()),
            id <= 0xff_ffff,
    {
        let bytes = self.all_bytes();
        match self {
            MAVLinkMessageRaw::V1(_) => bytes[5] as u32,
            MAVLinkMessageRaw::V2(_) => wire::read_u24(bytes[7], bytes[8], bytes[9]),
        }
    }

    /// Packet sequence number.
    #[must_use]
    pub fn sequence(&self) -> (sequence: u8)
        ensures
            sequence == wire::sequence(self@, self.wire_version()),
    {
        let bytes = self.all_bytes();
        match self {
            MAVLinkMessageRaw::V1(_) => bytes[2],
            MAVLinkMessageRaw::V2(_) => bytes[4],
        }
    }

    /// Sender system identifier.
    #[must_use]
    pub fn system_id(&self) -> (id: u8)
        ensures
            id == wire::system_id(self@, self.wire_version()),
    {
        let bytes = self.all_bytes();
        match self {
            MAVLinkMessageRaw::V1(_) => bytes[3],
            MAVLinkMessageRaw::V2(_) => bytes[5],
        }
    }

    /// Sender component identifier.
    #[must_use]
    pub fn component_id(&self) -> (id: u8)
        ensures
            id == wire::component_id(self@, self.wire_version()),
    {
        let bytes = self.all_bytes();
        match self {
            MAVLinkMessageRaw::V1(_) => bytes[4],
            MAVLinkMessageRaw::V2(_) => bytes[6],
        }
    }

    /// Payload bytes.
    #[must_use]
    pub fn payload(&self) -> (payload: &[u8])
        ensures
            payload@ == wire::payload(self@, self.wire_version()),
    {
        let bytes = self.all_bytes();
        let start: usize = match self {
            MAVLinkMessageRaw::V1(_) => 1 + v1::HEADER_SIZE,
            MAVLinkMessageRaw::V2(_) => 1 + v2::HEADER_SIZE,
        };
        let end: usize = start + bytes[1] as usize;
        &bytes[start..end]
    }

    /// The message without the zeros behind it.
    #[must_use]
    pub fn raw_bytes(&self) -> (bytes: &[u8])
        ensures
            bytes@ == self@.take(wire::frame_len(self@, self.wire_version()) as int),
    {
        let bytes = self.all_bytes();
        let payload_len: usize = bytes[1] as usize;
        let end: usize = match self {
            MAVLinkMessageRaw::V1(_) => 1 + v1::HEADER_SIZE + payload_len + CHECKSUM_SIZE,
            MAVLinkMessageRaw::V2(_) => {
                let signature_len: usize = if bytes[2] & v2::IFLAG_SIGNED == 0 {
                    0
                } else {
                    v2::SIGNATURE_SIZE
                };
                1 + v2::HEADER_SIZE + payload_len + CHECKSUM_SIZE + signature_len
            },
        };
        &bytes[0..end]
    }
}

/// The protocol version of a wire version.
pub open spec fn protocol_version(version: FrameVersion) -> MavlinkVersion {
    match version {
        FrameVersion::V1 => MavlinkVersion::V1,
        FrameVersion::V2 => MavlinkVersion::V2,
    }
}

/// A raw message that holds a frame has its fields, and its bytes are the frame.
pub proof fn law_raw_message_reads_like_its_frame(
    raw: MAVLinkMessageRaw,
    frame: Seq<u8>,
    version: FrameVersion,
)
    requires
        wire::is_frame(frame, version),
        raw.holds(frame, version),
    ensures
        raw@.take(wire::frame_len(raw@, version) as int) == frame,
        wire::message_id(raw@, version) == wire::message_id(frame, version),
        wire::sequence(raw@, version) == wire::sequence(frame, version),
        wire::system_id(raw@, version) == wire::system_id(frame, version),
        wire::component_id(raw@, version) == wire::component_id(frame, version),
        wire::payload(raw@, version) == wire::payload(frame, version),
{
    assert forall|i: int| 0 <= i < frame.len() implies frame[i] == #[trigger] raw@[i] by {
        assert(raw@.take(frame.len() as int)[i] == raw@[i]);
    }
    assert(wire::payload(raw@, version) =~= wire::payload(frame, version));
}

} // verus!
