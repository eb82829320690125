//! Packets as they are sent.
use vstd::prelude::*;

use super::checksum::{checksum, lemma_bits, lemma_message_checksum, low_high};
use crate::frame_decoder::laws::acceptable;
use crate::frame_decoder::model::ExtraTable;
use crate::message::MavlinkVersion;
use crate::wire;
use crate::wire::FrameVersion;

verus! {

/// What a sender puts into one packet.
pub struct Packet {
    /// Protocol version.
    pub version: MavlinkVersion,
    /// Whether a MAVLink 2 packet is signed.
    pub signed: bool,
    /// Compatibility flags of a MAVLink 2 packet.
    pub compatibility: u8,
    /// Packet sequence number.
    pub sequence: u8,
    /// Sender system identifier.
    pub system_id: u8,
    /// Sender component identifier.
    pub component_id: u8,
    /// Message identifier.
    pub message_id: u32,
    /// Payload bytes.
    pub payload: Seq<u8>,
    /// Signature trailer of a signed packet.
    pub signature: Seq<u8>,
}

impl Packet {
    /// The fields fit into a packet of their version.
    pub open spec fn sendable(self) -> bool {
        &&& self.payload.len() <= 255
        &&& match self.version {
            MavlinkVersion::V1 => {
                &&& self.message_id <= 0xff
                &&& !self.signed
                &&& self.compatibility == 0
                &&& self.signature.len() == 0
            },
            MavlinkVersion::V2 => {
                &&& self.message_id <= 0xff_ffff
                &&& self.signature.len() == if self.signed {
                    13nat
                } else {
                    0
                }
            },
        }
    }

    /// The first byte.
    pub open spec fn marker(self) -> u8 {
        match self.version {
            MavlinkVersion::V1 => 0xfe,
            MavlinkVersion::V2 => 0xfd,
        }
    }

    /// Everything between the first byte and the checksum.
    pub open spec fn body(self) -> Seq<u8> {
        match self.version {
            MavlinkVersion::V1 => seq![
                self.payload.len() as u8,
                self.sequence,
                self.system_id,
                self.component_id,
                self.message_id as u8,
            ] + self.payload,
            MavlinkVersion::V2 => seq![
                self.payload.len() as u8,
                if self.signed {
                    1u8
                } else {
                    0u8
                },
                self.compatibility,
                self.sequence,
                self.system_id,
                self.component_id,
                (self.message_id % 256) as u8,
                (self.message_id / 256 % 256) as u8,
                (self.message_id / 65536) as u8,
            ] + self.payload,
        }
    }

    /// The bytes of the packet, where `extra` is the extra byte of its message.
    pub open spec fn bytes(self, extra: u8) -> Seq<u8> {
        seq![self.marker()] + self.body() + low_high(checksum(0xffff, self.body().push(extra)))
            + self.signature
    }
}

/// The packet that `bytes` carry, byte by byte.
pub open spec fn packet_in(bytes: Seq<u8>) -> Packet {
    if bytes[0] == 0xfe {
        Packet {
            version: MavlinkVersion::V1,
            signed: false,
            compatibility: 0,
            sequence: bytes[2],
            system_id: bytes[3],
            component_id: bytes[4],
            message_id: bytes[5] as u32,
            payload: bytes.subrange(6, 6 + bytes[1]),
            signature: Seq::empty(),
        }
    } else {
        Packet {
            version: MavlinkVersion::V2,
            signed: bytes[2] == 1,
            compatibility: bytes[3],
            sequence: bytes[4],
            system_id: bytes[5],
            component_id: bytes[6],
            message_id: (bytes[7] + 256 * bytes[8] + 65536 * bytes[9]) as u32,
            payload: bytes.subrange(10, 10 + bytes[1]),
            signature: bytes.skip(12 + bytes[1]),
        }
    }
}

/// `bytes` are a whole packet: the length that they announce, flags that are known, and
/// the checksum of everything between the first byte and it, with `extra` behind.
pub open spec fn whole_packet(bytes: Seq<u8>, extra: u8) -> bool {
    let len = bytes[1] as int;
    if bytes.len() < 8 {
        false
    } else if bytes[0] == 0xfe {
        &&& bytes.len() == 8 + len
        &&& bytes[6 + len] + 256 * bytes[7 + len] == checksum(
            0xffff,
            bytes.subrange(1, 6 + len).push(extra),
        )
    } else if bytes[0] == 0xfd {
        &&& bytes[2] == 0 && bytes.len() == 12 + len || bytes[2] == 1 && bytes.len() == 25 + len
        &&& bytes[10 + len] + 256 * bytes[11 + len] == checksum(
            0xffff,
            bytes.subrange(1, 10 + len).push(extra),
        )
    } else {
        false
    }
}

/// The wire version of a protocol version.
pub open spec fn on_wire(version: MavlinkVersion) -> FrameVersion {
    match version {
        MavlinkVersion::V1 => FrameVersion::V1,
        MavlinkVersion::V2 => FrameVersion::V2,
    }
}

/// What the library takes for a frame is a whole packet, and the other way round.
pub proof fn lemma_whole(bytes: Seq<u8>, version: FrameVersion, extra: u8)
    ensures
        whole_packet(bytes, extra) && bytes[0] == (if version == FrameVersion::V1 {
            0xfeu8
        } else {
            0xfdu8
        }) <==> {
            &&& bytes.len() >= wire::prefix_len(version)
            &&& wire::version_of(bytes[0]) == Some(version)
            &&& !wire::unsupported_flags(bytes, version)
            &&& bytes.len() == wire::frame_len(bytes, version)
            &&& wire::checksum_matches(bytes, version, extra)
        },
{
    let len = bytes[1] as int;
    lemma_bits(0, 0, bytes[2], 0);
    let start = match version {
        FrameVersion::V1 => 6 + len,
        FrameVersion::V2 => 10 + len,
    };
    lemma_message_checksum(bytes.subrange(1, start), extra);
}

/// A whole packet is what would be sent for the fields that it carries.
pub proof fn law_whole_packet_is_what_would_be_sent(bytes: Seq<u8>, extra: u8)
    requires
        whole_packet(bytes, extra),
    ensures
        packet_in(bytes).sendable(),
        packet_in(bytes).bytes(extra) == bytes,
{
    let packet = packet_in(bytes);
    let len = bytes[1] as int;
    let crc = checksum(0xffff, packet.body().push(extra));
    if bytes[0] == 0xfe {
        assert(packet.body() =~= bytes.subrange(1, 6 + len));
        assert(low_high(crc) =~= bytes.subrange(6 + len, 8 + len));
    } else {
        let id = packet.message_id;
        assert(id % 256 == bytes[7]);
        assert(id / 256 % 256 == bytes[8]);
        assert(id / 65536 == bytes[9]);
        assert(packet.body() =~= bytes.subrange(1, 10 + len));
        assert(low_high(crc) =~= bytes.subrange(10 + len, 12 + len));
    }
    assert(packet.bytes(extra) =~= bytes);
}

/// What is sent is a whole packet and carries what was put into it.
pub proof fn lemma_sent(packet: Packet, extra: u8)
    requires
        packet.sendable(),
    ensures
        whole_packet(packet.bytes(extra), extra),
        packet_in(packet.bytes(extra)) == packet,
{
    let bytes = packet.bytes(extra);
    let body = packet.body();
    let len = packet.payload.len() as int;
    let crc = checksum(0xffff, body.push(extra));
    let id = packet.message_id;
    assert(bytes[1] == len);
    let end = 1 + body.len() as int;
    assert(bytes.subrange(1, end) =~= body);
    assert(bytes[end] == low_high(crc)[0]);
    assert(bytes[end + 1] == low_high(crc)[1]);
    let carried = packet_in(bytes);
    match packet.version {
        MavlinkVersion::V1 => {
            assert(body.len() == 5 + len);
            assert(carried.payload =~= packet.payload);
            assert(carried.signature =~= packet.signature);
        },
        MavlinkVersion::V2 => {
            assert(body.len() == 9 + len);
            assert(carried.payload =~= packet.payload);
            assert(carried.signature =~= packet.signature);
            assert(id % 256 + 256 * (id / 256 % 256) + 65536 * (id / 65536) == id);
            assert(carried.message_id == id);
        },
    }
}

/// The fields that the library reads are those of the packet.
pub proof fn lemma_fields(bytes: Seq<u8>, extra: u8)
    requires
        whole_packet(bytes, extra),
    ensures
        ({
            let packet = packet_in(bytes);
            let version = on_wire(packet.version);
            &&& wire::is_frame(bytes, version)
            &&& wire::is_any_frame(bytes)
            &&& wire::version_of(bytes[0]) == Some(version)
            &&& wire::checksum_matches(bytes, version, extra)
            &&& wire::message_id(bytes, version) == packet.message_id
            &&& wire::sequence(bytes, version) == packet.sequence
            &&& wire::system_id(bytes, version) == packet.system_id
            &&& wire::component_id(bytes, version) == packet.component_id
            &&& wire::payload(bytes, version) == packet.payload
            &&& wire::trailer(bytes, version) == packet.signature
            &&& wire::signed_flag(bytes, version) == packet.signed
        }),
{
    let packet = packet_in(bytes);
    let version = on_wire(packet.version);
    lemma_whole(bytes, version, extra);
    lemma_bits(0, 0, bytes[2], 0);
    assert(wire::payload(bytes, version) =~= packet.payload);
    assert(wire::trailer(bytes, version) =~= packet.signature);
}

/// A whole packet that fits is accepted where its extra byte is the one of its message.
pub proof fn lemma_acceptable(bytes: Seq<u8>, extra: u8, capacity: nat, table: ExtraTable)
    requires
        whole_packet(bytes, extra),
        bytes.len() <= capacity,
        table(on_wire(packet_in(bytes).version), packet_in(bytes).message_id) == extra,
    ensures
        acceptable(bytes, capacity, table),
{
    lemma_fields(bytes, extra);
}

/// What is accepted is a whole packet.
pub proof fn lemma_accepted_is_whole(bytes: Seq<u8>, version: FrameVersion, extra: u8)
    requires
        wire::is_frame(bytes, version),
        wire::checksum_matches(bytes, version, extra),
    ensures
        whole_packet(bytes, extra),
        on_wire(packet_in(bytes).version) == version,
{
    lemma_whole(bytes, version, extra);
}

} // verus!
