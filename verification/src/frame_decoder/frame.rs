//! Borrowed view of a validated frame.
use vstd::prelude::*;

use crate::consts::v1;
use crate::consts::v2;
use crate::wire;
use crate::wire::FrameVersion;

verus! {

/// Borrowed view of one checksum-validated MAVLink frame.
#[derive(Clone, Copy, Debug, PartialEq, Eq)]
pub struct FrameRef<'a> {
    bytes: &'a [u8],
    version: FrameVersion,
}

impl<'a> View for FrameRef<'a> {
    type V = Seq<u8>;

    /// The bytes of the frame.
    closed spec fn view(&self) -> Seq<u8> {
        self.bytes@
    }
}

impl<'a> FrameRef<'a> {
    /// The wire version that this view was made for.
    pub closed spec fn wire_version(&self) -> FrameVersion {
        self.version
    }

    /// The bytes are exactly one frame of that version.
    pub open spec fn wf(&self) -> bool {
        wire::is_frame(self@, self.wire_version())
    }

    /// Views `bytes`, which are exactly one frame.
    pub(crate) fn new(bytes: &'a [u8], version: FrameVersion) -> (frame: Self)
        requires
            wire::is_frame(bytes@, version),
        ensures
            frame.wf(),
            frame@ == bytes@,
            frame.wire_version() == version,
    {
        Self { bytes, version }
    }

    /// Entire frame, including marker, header, payload, checksum, and optional
    /// MAVLink 2 signature.
    #[must_use]
    pub fn bytes(self) -> (bytes: &'a [u8])
        ensures
            bytes@ == self@,
    {
        self.bytes
    }

    /// Wire version of this frame.
    #[must_use]
    pub fn version(self) -> (version: FrameVersion)
        requires
            self.wf(),
        ensures
            version == self.wire_version(),
            wire::version_of(self@[0]) == Some(version),
    {
        self.version
    }

    /// Message identifier.
    #[must_use]
    pub fn message_id(self) -> (id: u32)
        requires
            self.wf(),
        ensures
            id == wire::message_id(self@, self.wire_version()),
            id <= 0xff_ffff,
    {
        match self.version {
            FrameVersion::V1 => self.bytes[5] as u32,
            FrameVersion::V2 => wire::read_u24(self.bytes[7], self.bytes[8], self.bytes[9]),
        }
    }

    /// Packet sequence number.
    #[must_use]
    pub fn sequence(self) -> (sequence: u8)
        requires
            self.wf(),
        ensures
            sequence == wire::sequence(self@, self.wire_version()),
    {
        match self.version {
            FrameVersion::V1 => self.bytes[2],
            FrameVersion::V2 => self.bytes[4],
        }
    }

    /// Sender system identifier.
    #[must_use]
    pub fn system_id(self) -> (id: u8)
        requires
            self.wf(),
        ensures
            id == wire::system_id(self@, self.wire_version()),
    {
        match self.version {
            FrameVersion::V1 => self.bytes[3],
            FrameVersion::V2 => self.bytes[5],
        }
    }

    /// Sender component identifier.
    #[must_use]
    pub fn component_id(self) -> (id: u8)
        requires
            self.wf(),
        ensures
            id == wire::component_id(self@, self.wire_version()),
    {
        match self.version {
            FrameVersion::V1 => self.bytes[4],
            FrameVersion::V2 => self.bytes[6],
        }
    }

    /// Payload bytes.
    #[must_use]
    pub fn payload(self) -> (payload: &'a [u8])
        requires
            self.wf(),
        ensures
            payload@ == wire::payload(self@, self.wire_version()),
            payload@.len() == wire::payload_len(self@),
    {
        let start: usize = match self.version {
            FrameVersion::V1 => 1 + v1::HEADER_SIZE,
            FrameVersion::V2 => 1 + v2::HEADER_SIZE,
        };
        let end: usize = start + self.bytes[1] as usize;
        let bytes: &'a [u8] = self.bytes;
        &bytes[start..end]
    }

    /// Checksum carried by the frame.
    #[must_use]
    pub fn checksum(self) -> (checksum: u16)
        requires
            self.wf(),
        ensures
            checksum == wire::carried_checksum(self@, self.wire_version()),
    {
        let start: usize = match self.version {
            FrameVersion::V1 => 1 + v1::HEADER_SIZE + self.payload().len(),
            FrameVersion::V2 => 1 + v2::HEADER_SIZE + self.payload().len(),
        };
        wire::read_u16(self.bytes[start], self.bytes[start + 1])
    }

    /// MAVLink 2 incompatibility flags, or `None` for MAVLink 1.
    #[must_use]
    pub fn incompatibility_flags(self) -> (flags: Option<u8>)
        requires
            self.wf(),
        ensures
            flags == match self.wire_version() {
                FrameVersion::V1 => None::<u8>,
                FrameVersion::V2 => Some(self@[2]),
            },
    {
        match self.version {
            FrameVersion::V1 => None,
            FrameVersion::V2 => Some(self.bytes[2]),
        }
    }

    /// Whether this is a signed MAVLink 2 frame.
    #[must_use]
    pub fn is_signed(self) -> (signed: bool)
        requires
            self.wf(),
        ensures
            signed == wire::signed_flag(self@, self.wire_version()),
    {
        match self.incompatibility_flags() {
            Some(flags) => flags & v2::IFLAG_SIGNED != 0,
            None => false,
        }
    }

    /// MAVLink 2 signature trailer: link ID, timestamp, and the six-byte signature
    /// value.
    #[must_use]
    pub fn signature(self) -> (signature: Option<&'a [u8]>)
        requires
            self.wf(),
        ensures
            signature is Some <==> wire::signed_flag(self@, self.wire_version()),
            signature matches Some(bytes) ==> {
                &&& bytes@.len() == v2::SIGNATURE_SIZE
                &&& bytes@ == wire::trailer(self@, self.wire_version())
            },
    {
        if !self.is_signed() {
            return None;
        }
        let bytes: &'a [u8] = self.bytes;
        let len: usize = bytes.len();
        Some(&bytes[len - v2::SIGNATURE_SIZE..len])
    }
}

} // verus!
