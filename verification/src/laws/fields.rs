//! What is read out of a packet.
use vstd::prelude::*;

use super::checksum::{checksum, lemma_bits};
use super::packet::{lemma_fields, lemma_sent, on_wire, Packet};
use crate::frame_decoder::FrameRef;
use crate::message::{MAVLinkMessageRaw, MavHeader, MavlinkVersion, ReadVersion};
use crate::reader::decode::{
    frame_header, frame_version, raw_from_frame, raw_header, version_accepts,
};
use crate::wire;
use crate::wire::{marker_version, read_u16, read_u24, FrameVersion};

verus! {

/// A frame gives back every field that its packet was sent with.
pub proof fn law_frame_gives_back_its_fields(frame: FrameRef<'_>, packet: Packet, extra: u8)
    requires
        frame.wf(),
        packet.sendable(),
        frame@ == packet.bytes(extra),
    ensures
        forall|bytes: &[u8]| #[trigger]
            call_ensures(FrameRef::bytes, (frame,), bytes) ==> bytes@ == packet.bytes(extra),
        forall|version: FrameVersion| #[trigger]
            call_ensures(FrameRef::version, (frame,), version) ==> version == on_wire(
                packet.version,
            ),
        forall|id: u32| #[trigger]
            call_ensures(FrameRef::message_id, (frame,), id) ==> id == packet.message_id,
        forall|sequence: u8| #[trigger]
            call_ensures(FrameRef::sequence, (frame,), sequence) ==> sequence == packet.sequence,
        forall|id: u8| #[trigger]
            call_ensures(FrameRef::system_id, (frame,), id) ==> id == packet.system_id,
        forall|id: u8| #[trigger]
            call_ensures(FrameRef::component_id, (frame,), id) ==> id == packet.component_id,
        forall|payload: &[u8]| #[trigger]
            call_ensures(FrameRef::payload, (frame,), payload) ==> payload@ == packet.payload,
        forall|crc: u16| #[trigger]
            call_ensures(FrameRef::checksum, (frame,), crc) ==> crc == checksum(
                0xffff,
                packet.body().push(extra),
            ),
        forall|flags: Option<u8>| #[trigger]
            call_ensures(FrameRef::incompatibility_flags, (frame,), flags) ==> flags
                == match packet.version {
                MavlinkVersion::V1 => None::<u8>,
                MavlinkVersion::V2 => Some(
                    if packet.signed {
                        1u8
                    } else {
                        0u8
                    },
                ),
            },
        forall|signed: bool| #[trigger]
            call_ensures(FrameRef::is_signed, (frame,), signed) ==> signed == packet.signed,
        forall|signature: Option<&[u8]>| #[trigger]
            call_ensures(FrameRef::signature, (frame,), signature) ==> {
                &&& signature is Some <==> packet.signed
                &&& signature matches Some(bytes) ==> bytes@ == packet.signature
            },
{
    let bytes = frame@;
    let version = on_wire(packet.version);
    lemma_sent(packet, extra);
    lemma_fields(bytes, extra);
    assert(frame.wire_version() == version);
    lemma_carried(packet, extra);
    assert(packet.version == MavlinkVersion::V2 ==> bytes[2] == if packet.signed {
        1u8
    } else {
        0u8
    });
}

/// The checksum of a packet is the one it was sent with.
proof fn lemma_carried(packet: Packet, extra: u8)
    requires
        packet.sendable(),
    ensures
        wire::carried_checksum(packet.bytes(extra), on_wire(packet.version))
            == checksum(0xffff, packet.body().push(extra)),
{
    let bytes = packet.bytes(extra);
    let body = packet.body();
    let end = 1 + body.len() as int;
    lemma_sent(packet, extra);
    assert(bytes.subrange(1, end) =~= body);
    assert(bytes[1] == packet.payload.len());
}

/// The bytes of a raw message.
pub open spec fn raw_view(raw: MAVLinkMessageRaw) -> Seq<u8> {
    match raw {
        MAVLinkMessageRaw::V1(message) => message.0@,
        MAVLinkMessageRaw::V2(message) => message.0@,
    }
}

/// Every field of a raw message stands at its place, whatever the bytes are.
pub proof fn law_raw_fields_stand_at_their_places(raw: MAVLinkMessageRaw)
    ensures
        ({
            let bytes = raw_view(raw);
            let first = raw is V1;
            let len = bytes[1] as int;
            &&& forall|version: MavlinkVersion| #[trigger]
                call_ensures(MAVLinkMessageRaw::version, (&raw,), version) ==> (version
                    == MavlinkVersion::V1 <==> first)
            &&& forall|id: u32| #[trigger]
                call_ensures(MAVLinkMessageRaw::message_id, (&raw,), id) ==> id == if first {
                    bytes[5] as int
                } else {
                    bytes[7] + 256 * bytes[8] + 65536 * bytes[9]
                }
            &&& forall|sequence: u8| #[trigger]
                call_ensures(MAVLinkMessageRaw::sequence, (&raw,), sequence) ==> sequence
                    == if first {
                    bytes[2]
                } else {
                    bytes[4]
                }
            &&& forall|id: u8| #[trigger]
                call_ensures(MAVLinkMessageRaw::system_id, (&raw,), id) ==> id == if first {
                    bytes[3]
                } else {
                    bytes[5]
                }
            &&& forall|id: u8| #[trigger]
                call_ensures(MAVLinkMessageRaw::component_id, (&raw,), id) ==> id == if first {
                    bytes[4]
                } else {
                    bytes[6]
                }
            &&& forall|payload: &[u8]| #[trigger]
                call_ensures(MAVLinkMessageRaw::payload, (&raw,), payload) ==> payload@
                    == if first {
                    bytes.subrange(6, 6 + len)
                } else {
                    bytes.subrange(10, 10 + len)
                }
            &&& forall|whole: &[u8]| #[trigger]
                call_ensures(MAVLinkMessageRaw::raw_bytes, (&raw,), whole) ==> whole@
                    == if first {
                    bytes.take(8 + len)
                } else if bytes[2] % 2 == 1 {
                    bytes.take(25 + len)
                } else {
                    bytes.take(12 + len)
                }
            &&& forall|header: MavHeader| #[trigger]
                call_ensures(raw_header, (&raw,), header) ==> {
                    &&& header.sequence == if first {
                        bytes[2]
                    } else {
                        bytes[4]
                    }
                    &&& header.system_id == if first {
                        bytes[3]
                    } else {
                        bytes[5]
                    }
                    &&& header.component_id == if first {
                        bytes[4]
                    } else {
                        bytes[6]
                    }
                }
        }),
{
    let bytes = raw_view(raw);
    lemma_bits(0, 0, bytes[2], 0);
}

/// The header of a frame is the one that its packet was sent with, and a raw copy of the
/// frame holds its bytes and zeros behind them.
pub proof fn law_frame_header_and_copy(frame: FrameRef<'_>, packet: Packet, extra: u8)
    requires
        frame.wf(),
        packet.sendable(),
        frame@ == packet.bytes(extra),
    ensures
        forall|header: MavHeader| #[trigger]
            call_ensures(frame_header, (frame,), header) ==> header == (MavHeader {
                system_id: packet.system_id,
                component_id: packet.component_id,
                sequence: packet.sequence,
            }),
        forall|raw: MAVLinkMessageRaw| #[trigger]
            call_ensures(raw_from_frame, (frame,), raw) ==> {
                &&& raw is V1 <==> packet.version == MavlinkVersion::V1
                &&& packet.bytes(extra).len() <= raw_view(raw).len()
                &&& forall|i: int|
                    0 <= i < raw_view(raw).len() ==> #[trigger] raw_view(raw)[i] == if i
                        < packet.bytes(extra).len() {
                        packet.bytes(extra)[i]
                    } else {
                        0
                    }
            },
{
    lemma_sent(packet, extra);
    lemma_fields(frame@, extra);
    assert forall|raw: MAVLinkMessageRaw| #[trigger]
        call_ensures(raw_from_frame, (frame,), raw) implies {
        &&& raw is V1 <==> packet.version == MavlinkVersion::V1
        &&& packet.bytes(extra).len() <= raw_view(raw).len()
        &&& forall|i: int|
            0 <= i < raw_view(raw).len() ==> #[trigger] raw_view(raw)[i] == if i < packet.bytes(
                extra,
            ).len() {
                packet.bytes(extra)[i]
            } else {
                0
            }
    } by {
        assert(raw.holds(frame@, frame.wire_version()));
        assert(raw@ == raw_view(raw));
        let sent = packet.bytes(extra);
        assert forall|i: int| 0 <= i < raw_view(raw).len() implies #[trigger] raw_view(raw)[i]
            == if i < sent.len() {
            sent[i]
        } else {
            0
        } by {
            if i < sent.len() {
                assert(raw@.take(sent.len() as int)[i] == raw@[i]);
            }
        }
    }
}

/// `0xfe` announces MAVLink 1, `0xfd` announces MAVLink 2, and no other byte announces
/// anything.
pub proof fn law_markers_announce_versions(marker: u8, version: Option<FrameVersion>)
    requires
        call_ensures(marker_version, (marker,), version),
    ensures
        version == if marker == 0xfe {
            Some(FrameVersion::V1)
        } else if marker == 0xfd {
            Some(FrameVersion::V2)
        } else {
            None
        },
{
}

/// A read of any version accepts every frame, and a read of one version those of that
/// version.
pub proof fn law_versions_are_told_apart(
    expected: ReadVersion,
    actual: FrameVersion,
    protocol: MavlinkVersion,
    accepts: bool,
)
    requires
        call_ensures(frame_version, (actual,), protocol),
        call_ensures(version_accepts, (expected, actual), accepts),
    ensures
        protocol == MavlinkVersion::V1 <==> actual == FrameVersion::V1,
        expected == ReadVersion::Any ==> accepts,
        expected == ReadVersion::Single(MavlinkVersion::V1) ==> (accepts <==> actual
            == FrameVersion::V1),
        expected == ReadVersion::Single(MavlinkVersion::V2) ==> (accepts <==> actual
            == FrameVersion::V2),
{
}

/// Numbers stand low byte first.
pub proof fn law_numbers_stand_low_byte_first(a: u8, b: u8, c: u8, short: u16, long: u32)
    requires
        call_ensures(read_u16, (a, b), short),
        call_ensures(read_u24, (a, b, c), long),
    ensures
        short == a + 256 * b,
        long == a + 256 * b + 65536 * c,
{
}

} // verus!
