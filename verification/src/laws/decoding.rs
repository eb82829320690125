//! What a decoder finds.
use vstd::prelude::*;

use super::checksum::{law_changed_byte_changes_the_checksum, lemma_bits};
use super::packet::{
    lemma_acceptable, lemma_accepted_is_whole, lemma_fields, lemma_sent, lemma_whole, on_wire,
    packet_in, whole_packet, Packet,
};
use crate::frame_decoder::laws::{
    acceptable, drain, law_commit_matches_bytewise_resynchronization,
    law_feeding_matches_bytewise_resynchronization, law_frame_is_accepted_as_sent,
    law_stream_gives_back_its_frames, stream_of,
};
use crate::frame_decoder::lemmas::{lemma_feed_bounds, lemma_scan_stops, waits};
use crate::frame_decoder::marker::{lemma_markers_taken, marker_count, no_marker_below};
use crate::frame_decoder::model::{classify, feed, scan, take_in, DecoderState, ExtraTable, Tally};
use crate::frame_decoder::{
    accepted, agrees, find_marker, CommitError, DecodeProgress, DecodeStatus, FrameDecoder,
    FrameRef,
};
use crate::message::MavlinkVersion;
use crate::wire;
use crate::wire::FrameVersion;

verus! {

/// No byte of `bytes` can begin a packet.
pub open spec fn is_noise(bytes: Seq<u8>) -> bool {
    forall|i: int| 0 <= i < bytes.len() ==> #[trigger] bytes[i] != 0xfe && bytes[i] != 0xfd
}

/// The search for a marker gives the place of the first byte that is `0xfe` or `0xfd`.
pub proof fn law_first_marker_is_found(bytes: &[u8], found: Option<usize>)
    requires
        call_ensures(find_marker, (bytes,), found),
    ensures
        match found {
            Some(index) => {
                &&& index < bytes@.len()
                &&& bytes@[index as int] == 0xfe || bytes@[index as int] == 0xfd
                &&& is_noise(bytes@.take(index as int))
            },
            None => is_noise(bytes@),
        },
{
    if let Some(index) = found {
        assert forall|i: int| 0 <= i < index implies #[trigger] bytes@.take(index as int)[i] != 0xfe
            && bytes@.take(index as int)[i] != 0xfd by {
            assert(!wire::is_marker(bytes@[i]));
        }
    }
}

/// The wire version that the first byte of a frame announces.
pub open spec fn announced(frame: Seq<u8>) -> FrameVersion {
    if frame[0] == 0xfe {
        FrameVersion::V1
    } else {
        FrameVersion::V2
    }
}

/// `frame` is a whole packet, with an extra byte that `extra_crc` may return for its
/// version and its message identifier.
pub open spec fn checked_by<F: FnMut(FrameVersion, u32) -> u8>(
    frame: Seq<u8>,
    extra_crc: F,
) -> bool {
    exists|extra: u8|
        #![trigger whole_packet(frame, extra)]
        whole_packet(frame, extra) && call_ensures(
            extra_crc,
            (announced(frame), packet_in(frame).message_id),
            extra,
        )
}

proof fn lemma_checked<F: FnMut(FrameVersion, u32) -> u8>(frame: Seq<u8>, extra_crc: F)
    requires
        wire::is_any_frame(frame),
        accepted(extra_crc, frame),
    ensures
        checked_by(frame, extra_crc),
{
    let (version, extra) = choose|version: FrameVersion, extra: u8| #[trigger]
        call_ensures(extra_crc, (version, wire::message_id(frame, version)), extra)
            && wire::version_of(frame[0]) == Some(version) && wire::checksum_matches(
            frame,
            version,
            extra,
        );
    lemma_accepted_is_whole(frame, version, extra);
    lemma_fields(frame, extra);
    assert(whole_packet(frame, extra));
}

/// A frame that becomes ready by pushing is a whole packet: its checksum, as the two
/// bytes behind its payload carry it, is that of all bytes between the first one and it,
/// followed by an extra byte that the callback returned.
pub proof fn law_pushed_frame_is_a_whole_packet<
    const N: usize,
    F: FnMut(FrameVersion, u32) -> u8,
>(decoder: &mut FrameDecoder<N>, input: &[u8], extra_crc: F, progress: DecodeProgress)
    requires
        old(decoder).wf(),
        call_ensures(FrameDecoder::<N>::frame, (old(decoder),), None),
        call_ensures(FrameDecoder::<N>::push::<F>, (decoder, input, extra_crc), progress),
    ensures
        forall|found: Option<FrameRef<'_>>| #[trigger]
            call_ensures(FrameDecoder::<N>::frame, (final(decoder),), found) ==> {
                &&& found is Some <==> progress.status == DecodeStatus::FrameReady
                &&& found matches Some(frame) ==> checked_by(frame@, extra_crc)
            },
{
    if let Some(len) = final(decoder)@.frame {
        lemma_checked(final(decoder)@.pending.take(len as int), extra_crc);
    }
}

/// A frame that becomes ready by committing is a whole packet.
pub proof fn law_committed_frame_is_a_whole_packet<
    const N: usize,
    F: FnMut(FrameVersion, u32) -> u8,
>(
    decoder: &mut FrameDecoder<N>,
    count: usize,
    extra_crc: F,
    result: Result<DecodeProgress, CommitError>,
)
    requires
        old(decoder).wf(),
        call_ensures(FrameDecoder::<N>::frame, (old(decoder),), None),
        call_ensures(FrameDecoder::<N>::commit::<F>, (decoder, count, extra_crc), result),
    ensures
        forall|found: Option<FrameRef<'_>>| #[trigger]
            call_ensures(FrameDecoder::<N>::frame, (final(decoder),), found) ==> {
                &&& found is Some <==> (result matches Ok(progress) && progress.status
                    == DecodeStatus::FrameReady)
                &&& found matches Some(frame) ==> checked_by(frame@, extra_crc)
            },
{
    if count <= old(decoder)@.room(N as nat) {
        if let Some(len) = final(decoder)@.frame {
            lemma_checked(final(decoder)@.pending.take(len as int), extra_crc);
        }
    }
}

/// A packet that is pushed into a new decoder, behind any noise and in front of anything,
/// comes out as it was sent, once all of its bytes and nothing else are consumed, and
/// nothing is rejected.
pub proof fn law_pushed_packet_comes_out<const N: usize, F: FnMut(FrameVersion, u32) -> u8>(
    decoder: &mut FrameDecoder<N>,
    input: &[u8],
    extra_crc: F,
    progress: DecodeProgress,
    noise: Seq<u8>,
    packet: Packet,
    more: Seq<u8>,
    table: spec_fn(FrameVersion, u32) -> u8,
)
    requires
        call_ensures(FrameDecoder::<N>::new, (), *old(decoder)),
        call_ensures(FrameDecoder::<N>::push::<F>, (decoder, input, extra_crc), progress),
        forall|version: FrameVersion, id: u32, extra: u8| #[trigger]
            call_ensures(extra_crc, (version, id), extra) ==> extra == table(version, id),
        is_noise(noise),
        packet.sendable(),
        ({
            let sent = packet.bytes(table(on_wire(packet.version), packet.message_id));
            &&& sent.len() <= N
            &&& input@ == noise + sent + more
        }),
    ensures
        ({
            let sent = packet.bytes(table(on_wire(packet.version), packet.message_id));
            &&& progress.status == DecodeStatus::FrameReady
            &&& progress.consumed == noise.len() + sent.len()
            &&& progress.rejections.invalid_checksum == 0
            &&& progress.rejections.unsupported_flags == 0
            &&& progress.rejections.buffer_too_small == 0
            &&& forall|found: Option<FrameRef<'_>>| #[trigger]
                call_ensures(FrameDecoder::<N>::frame, (final(decoder),), found) ==> found is Some
                    && found->0@ == sent
        }),
{
    let extra = table(on_wire(packet.version), packet.message_id);
    let sent = packet.bytes(extra);
    lemma_sent(packet, extra);
    lemma_acceptable(sent, extra, N as nat, table);
    lemma_noise(noise);
    law_frame_is_accepted_as_sent(noise, sent, more, N as nat, table);
    assert(agrees(extra_crc, table));
    let fed = feed(DecoderState::empty(), input@, N as nat, table);
    assert(progress.tells(fed, final(decoder)@));
    assert(sent.take(sent.len() as int) =~= sent);
}

/// A packet that is written into an empty buffer, behind any noise and in front of
/// anything, comes out as it was sent when it is committed.
pub proof fn law_committed_packet_comes_out<const N: usize, F: FnMut(FrameVersion, u32) -> u8>(
    decoder: &mut FrameDecoder<N>,
    count: usize,
    extra_crc: F,
    result: Result<DecodeProgress, CommitError>,
    noise: Seq<u8>,
    packet: Packet,
    more: Seq<u8>,
    table: spec_fn(FrameVersion, u32) -> u8,
)
    requires
        old(decoder).wf(),
        call_ensures(FrameDecoder::<N>::buffered_len, (old(decoder),), 0),
        call_ensures(FrameDecoder::<N>::commit::<F>, (decoder, count, extra_crc), result),
        forall|version: FrameVersion, id: u32, extra: u8| #[trigger]
            call_ensures(extra_crc, (version, id), extra) ==> extra == table(version, id),
        is_noise(noise),
        packet.sendable(),
        count <= old(decoder).spare().len(),
        old(decoder).spare().take(count as int) == noise + packet.bytes(
            table(on_wire(packet.version), packet.message_id),
        ) + more,
    ensures
        ({
            let sent = packet.bytes(table(on_wire(packet.version), packet.message_id));
            &&& result matches Ok(progress)
            &&& progress.status == DecodeStatus::FrameReady
            &&& progress.consumed == count
            &&& progress.rejections.invalid_checksum == 0
            &&& progress.rejections.unsupported_flags == 0
            &&& progress.rejections.buffer_too_small == 0
            &&& forall|found: Option<FrameRef<'_>>| #[trigger]
                call_ensures(FrameDecoder::<N>::frame, (final(decoder),), found) ==> found is Some
                    && found->0@ == sent
            &&& forall|len: usize| #[trigger]
                call_ensures(FrameDecoder::<N>::buffered_len, (final(decoder),), len) ==> len
                    == sent.len() + more.len()
        }),
{
    let extra = table(on_wire(packet.version), packet.message_id);
    let sent = packet.bytes(extra);
    let input = noise + sent + more;
    let before = old(decoder)@;
    let taken = take_in(before, input, N as nat, table);
    lemma_taken_in(before, noise, packet, more, N as nat, table);
    assert(agrees(extra_crc, table));
    assert(result->Ok_0.tells(taken, final(decoder)@));
    assert((sent + more).take(sent.len() as int) =~= sent);
}

/// What is taken in behind noise is found.
proof fn lemma_taken_in(
    state: DecoderState,
    noise: Seq<u8>,
    packet: Packet,
    more: Seq<u8>,
    capacity: nat,
    table: ExtraTable,
)
    requires
        state.frame is None,
        state.pending.len() == 0,
        is_noise(noise),
        packet.sendable(),
        packet.bytes(table(on_wire(packet.version), packet.message_id)).len() <= capacity,
    ensures
        ({
            let sent = packet.bytes(table(on_wire(packet.version), packet.message_id));
            let taken = take_in(state, noise + sent + more, capacity, table);
            &&& taken.tally == Tally::zero()
            &&& taken.consumed == noise.len() + sent.len() + more.len()
            &&& taken.state.frame == Some(sent.len())
            &&& taken.state.pending == sent + more
        }),
{
    let extra = table(on_wire(packet.version), packet.message_id);
    let sent = packet.bytes(extra);
    let input = noise + sent + more;
    let empty = DecoderState::empty();
    lemma_sent(packet, extra);
    lemma_acceptable(sent, extra, capacity, table);
    lemma_noise(noise);
    law_frame_is_accepted_as_sent(noise, sent, more, capacity, table);
    law_feeding_matches_bytewise_resynchronization(empty, input, capacity, table);
    law_commit_matches_bytewise_resynchronization(state, input, capacity, table);
    let whole = scan(input, capacity, table);
    assert(empty.pending + input =~= input);
    assert(state.pending + input =~= input);
    assert(empty.pending + input.take((noise.len() + sent.len()) as int) =~= noise + sent);
    assert((noise + sent).skip(whole.skipped as int).len() == sent.len());
    assert(input.skip(noise.len() as int) =~= sent + more);
}

/// Noise holds no marker.
proof fn lemma_noise(noise: Seq<u8>)
    requires
        is_noise(noise),
    ensures
        no_marker_below(noise, noise.len() as int),
{
    assert forall|i: int| 0 <= i < noise.len() implies !wire::is_marker(#[trigger] noise[i]) by {
        assert(noise[i] != 0xfe && noise[i] != 0xfd);
    }
}

/// A stream of packets, each behind any noise, comes out packet by packet, whatever the
/// sizes of the chunks in which it is fed.
pub proof fn law_sent_packets_come_out(
    noise: Seq<Seq<u8>>,
    packets: Seq<Packet>,
    capacity: nat,
    table: spec_fn(FrameVersion, u32) -> u8,
)
    requires
        noise.len() == packets.len(),
        forall|i: int| 0 <= i < noise.len() ==> is_noise(#[trigger] noise[i]),
        forall|i: int|
            #![trigger packets[i]]
            0 <= i < packets.len() ==> packets[i].sendable() && packets[i].bytes(
                table(on_wire(packets[i].version), packets[i].message_id),
            ).len() <= capacity,
    ensures
        ({
            let sent = Seq::new(
                packets.len(),
                |i: int|
                    packets[i].bytes(table(on_wire(packets[i].version), packets[i].message_id)),
            );
            drain(DecoderState::empty(), stream_of(noise, sent), capacity, table).0 == sent
        }),
{
    let sent = Seq::new(
        packets.len(),
        |i: int| packets[i].bytes(table(on_wire(packets[i].version), packets[i].message_id)),
    );
    assert forall|i: int| 0 <= i < sent.len() implies acceptable(
        #[trigger] sent[i],
        capacity,
        table,
    ) by {
        let extra = table(on_wire(packets[i].version), packets[i].message_id);
        lemma_sent(packets[i], extra);
        lemma_acceptable(sent[i], extra, capacity, table);
    }
    assert forall|i: int| 0 <= i < noise.len() implies no_marker_below(
        #[trigger] noise[i],
        noise[i].len() as int,
    ) by {
        lemma_noise(noise[i]);
    }
    law_stream_gives_back_its_frames(noise, sent, capacity, table);
}

/// A packet with one changed byte, other than the first one, the length, the flags and the
/// message identifier, does not come out: its checksum does not match, and that is
/// counted. So it is for a changed byte of the checksum itself.
pub proof fn law_damaged_packet_is_rejected<const N: usize, F: FnMut(FrameVersion, u32) -> u8>(
    decoder: &mut FrameDecoder<N>,
    input: &[u8],
    extra_crc: F,
    progress: DecodeProgress,
    packet: Packet,
    index: int,
    byte: u8,
    more: Seq<u8>,
    table: spec_fn(FrameVersion, u32) -> u8,
)
    requires
        call_ensures(FrameDecoder::<N>::new, (), *old(decoder)),
        call_ensures(FrameDecoder::<N>::push::<F>, (decoder, input, extra_crc), progress),
        forall|version: FrameVersion, id: u32, extra: u8| #[trigger]
            call_ensures(extra_crc, (version, id), extra) ==> extra == table(version, id),
        packet.sendable(),
        ({
            let sent = packet.bytes(table(on_wire(packet.version), packet.message_id));
            &&& sent.len() <= N
            &&& input@ == sent.update(index, byte) + more
            &&& 0 <= index < sent.len()
            &&& byte != sent[index]
        }),
        packet.version == MavlinkVersion::V1 ==> 2 <= index && index != 5,
        packet.version == MavlinkVersion::V2 ==> 3 <= index && !(7 <= index <= 9),
        index < 3 + packet.body().len(),
    ensures
        progress.rejections.invalid_checksum > 0,
        forall|found: Option<FrameRef<'_>>| #[trigger]
            call_ensures(FrameDecoder::<N>::frame, (final(decoder),), found) ==> found is None
                || found->0@ != packet.bytes(
                table(on_wire(packet.version), packet.message_id),
            ).update(index, byte),
{
    let extra = table(on_wire(packet.version), packet.message_id);
    let damaged = packet.bytes(extra).update(index, byte);
    let empty = DecoderState::empty();
    let fed = feed(empty, input@, N as nat, table);
    assert(agrees(extra_crc, table));
    assert(progress.tells(fed, final(decoder)@));
    lemma_damaged_counted(packet, extra, index, byte, more, N as nat, table);
    if let Some(len) = final(decoder)@.frame {
        let frame = final(decoder)@.pending.take(len as int);
        if frame == damaged {
            lemma_checked(frame, extra_crc);
            lemma_damaged(packet, extra, index, byte);
            let other = choose|other: u8|
                #![trigger whole_packet(frame, other)]
                whole_packet(frame, other) && call_ensures(
                    extra_crc,
                    (announced(frame), packet_in(frame).message_id),
                    other,
                );
            assert(other == table(announced(frame), packet_in(frame).message_id));
        }
    }
}

/// The candidate with the changed byte is turned down for its checksum.
proof fn lemma_damaged_counted(
    packet: Packet,
    extra: u8,
    index: int,
    byte: u8,
    more: Seq<u8>,
    capacity: nat,
    table: ExtraTable,
)
    requires
        packet.sendable(),
        packet.bytes(extra).len() <= capacity,
        extra == table(on_wire(packet.version), packet.message_id),
        0 <= index < packet.bytes(extra).len(),
        byte != packet.bytes(extra)[index],
        packet.version == MavlinkVersion::V1 ==> 2 <= index && index != 5,
        packet.version == MavlinkVersion::V2 ==> 3 <= index && !(7 <= index <= 9),
        index < 3 + packet.body().len(),
    ensures
        feed(
            DecoderState::empty(),
            packet.bytes(extra).update(index, byte) + more,
            capacity,
            table,
        ).tally.invalid_checksum > 0,
{
    let damaged = packet.bytes(extra).update(index, byte);
    let input = damaged + more;
    let empty = DecoderState::empty();
    lemma_damaged(packet, extra, index, byte);
    law_feeding_matches_bytewise_resynchronization(empty, input, capacity, table);
    assert(empty.pending + input =~= input);
    law_scanning_goes_byte_by_byte(input, capacity, table);
    assert(input.take(damaged.len() as int) =~= damaged);
}

/// One changed byte does not leave a whole packet.
proof fn lemma_damaged(packet: Packet, extra: u8, index: int, byte: u8)
    requires
        packet.sendable(),
        0 <= index < packet.bytes(extra).len(),
        byte != packet.bytes(extra)[index],
        packet.version == MavlinkVersion::V1 ==> 2 <= index,
        packet.version == MavlinkVersion::V2 ==> 3 <= index,
        index < 3 + packet.body().len(),
    ensures
        ({
            let sent = packet.bytes(extra);
            let damaged = sent.update(index, byte);
            &&& !whole_packet(damaged, extra)
            &&& whole_packet(sent, extra)
            &&& packet_in(sent) == packet
            &&& damaged[0] == sent[0] && damaged[1] == sent[1]
            &&& damaged[0] == 0xfd ==> damaged[2] == sent[2]
            &&& packet.version == MavlinkVersion::V1 && index != 5 ==> packet_in(
                damaged,
            ).message_id == packet.message_id
            &&& packet.version == MavlinkVersion::V2 && !(7 <= index <= 9) ==> packet_in(
                damaged,
            ).message_id == packet.message_id
        }),
{
    let sent = packet.bytes(extra);
    let damaged = sent.update(index, byte);
    let body = packet.body();
    let end = 1 + body.len() as int;
    lemma_sent(packet, extra);
    assert(sent.subrange(1, end) =~= body);
    if index < end {
        law_changed_byte_changes_the_checksum(0xffff, body.push(extra), index - 1, byte);
        assert(damaged.subrange(1, end).push(extra) =~= body.push(extra).update(index - 1, byte));
        assert(damaged[end] == sent[end] && damaged[end + 1] == sent[end + 1]);
    } else {
        assert(damaged.subrange(1, end) =~= body);
    }
    assert(damaged[1] == sent[1]);
}

/// How bytes are scanned, byte by byte: what cannot begin a packet is dropped; a candidate
/// waits until it is complete; one that cannot be a packet is counted by its reason, and
/// scanning goes on with its second byte; and a whole packet is found.
pub proof fn law_scanning_goes_byte_by_byte(
    bytes: Seq<u8>,
    capacity: nat,
    table: spec_fn(FrameVersion, u32) -> u8,
)
    ensures
        ({
            let found = scan(bytes, capacity, table);
            let later = scan(bytes.drop_first(), capacity, table);
            let goes_on = |invalid: nat, unsupported: nat, small: nat|
                {
                    &&& found.frame == later.frame
                    &&& found.skipped == later.skipped + 1
                    &&& found.tally.invalid_checksum == later.tally.invalid_checksum + invalid
                    &&& found.tally.unsupported_flags == later.tally.unsupported_flags
                        + unsupported
                    &&& found.tally.buffer_too_small == later.tally.buffer_too_small + small
                };
            let stops = |frame: Option<nat>|
                {
                    &&& found.frame == frame
                    &&& found.skipped == 0
                    &&& found.tally.invalid_checksum == 0
                    &&& found.tally.unsupported_flags == 0
                    &&& found.tally.buffer_too_small == 0
                };
            let len = if bytes[0] == 0xfe {
                8 + bytes[1] as nat
            } else if bytes[2] == 1 {
                25 + bytes[1] as nat
            } else {
                12 + bytes[1] as nat
            };
            let candidate = bytes.take(len as int);
            if bytes.len() == 0 {
                stops(None)
            } else if bytes[0] != 0xfe && bytes[0] != 0xfd {
                goes_on(0, 0, 0)
            } else if bytes.len() < 2 || bytes[0] == 0xfd && bytes.len() < 3 {
                stops(None)
            } else if bytes[0] == 0xfd && bytes[2] > 1 {
                goes_on(0, 1, 0)
            } else if len > capacity {
                goes_on(0, 0, 1)
            } else if bytes.len() < len {
                stops(None)
            } else if whole_packet(
                candidate,
                table(announced(bytes), packet_in(candidate).message_id),
            ) {
                stops(Some(len))
            } else {
                goes_on(1, 0, 0)
            }
        }),
{
    reveal(scan);
    reveal(classify);
    lemma_bits(0, 0, bytes[2], 0);
    let version = announced(bytes);
    let len = wire::frame_len(bytes, version);
    let candidate = bytes.take(len as int);
    if bytes.len() >= 3 && bytes.len() >= len && wire::version_of(bytes[0]) is Some {
        wire::lemma_frame_prefix(bytes, version);
        let extra = table(version, wire::message_id(bytes, version));
        lemma_whole(candidate, version, extra);
        assert(packet_in(candidate).message_id == wire::message_id(bytes, version));
    }
}

/// Every byte that could begin a packet and is dropped is a counted rejection, and nothing
/// else is, whatever the size of the buffer.
pub proof fn law_rejections_are_the_dropped_markers(
    state: DecoderState,
    input: Seq<u8>,
    capacity: nat,
    table: spec_fn(FrameVersion, u32) -> u8,
)
    requires
        state.frame is None,
        state.pending.len() <= capacity,
    ensures
        ({
            let fed = feed(state, input, capacity, table);
            let taken = state.pending + input.take(fed.consumed as int);
            fed.tally.invalid_checksum + fed.tally.unsupported_flags + fed.tally.buffer_too_small
                + marker_count(fed.state.pending) == marker_count(taken)
        }),
    decreases input.len(), state.pending.len(),
{
    reveal(feed);
    let outcome = scan(state.pending, capacity, table);
    let scanned = state.scanned(outcome);
    let rest = state.pending.skip(outcome.skipped as int);
    lemma_scan_stops(state.pending, capacity, table);
    lemma_scan_counts(state.pending, capacity, table);
    assert(scanned.pending =~= rest);
    lemma_markers_split(state.pending, outcome.skipped as int);
    if outcome.frame is Some || input.len() == 0 {
        assert(state.pending + input.take(0) =~= state.pending);
    } else if capacity == 0 {
        let later = input.drop_first();
        let fed = feed(DecoderState::empty(), later, capacity, table);
        law_rejections_are_the_dropped_markers(DecoderState::empty(), later, capacity, table);
        lemma_feed_bounds(DecoderState::empty(), later, capacity, table);
        let behind = later.take(fed.consumed as int);
        assert(DecoderState::empty().pending + behind =~= behind);
        assert(input.take(fed.consumed as int + 1) =~= seq![input[0]] + behind);
        lemma_markers_joined(seq![input[0]], behind);
        lemma_markers_joined(state.pending, seq![input[0]] + behind);
        lemma_one_marker(input[0]);
    } else if scanned.pending.len() >= capacity {
        let shorter = scanned.drop_front(1);
        law_rejections_are_the_dropped_markers(shorter, input, capacity, table);
        lemma_feed_bounds(shorter, input, capacity, table);
        let fed = feed(shorter, input, capacity, table);
        let taken = input.take(fed.consumed as int);
        lemma_waiting_marker(rest, capacity);
        lemma_markers_split(rest, 1);
        assert(rest.take(1) =~= seq![rest[0]]);
        lemma_one_marker(rest[0]);
        assert(shorter.pending =~= rest.skip(1));
        lemma_markers_joined(shorter.pending, taken);
        lemma_markers_joined(state.pending, taken);
    } else {
        let grown = scanned.append(input.take(1), capacity);
        let later = input.drop_first();
        law_rejections_are_the_dropped_markers(grown, later, capacity, table);
        lemma_feed_bounds(grown, later, capacity, table);
        let fed = feed(grown, later, capacity, table);
        let behind = later.take(fed.consumed as int);
        assert(grown.pending + behind =~= rest + input.take(fed.consumed as int + 1));
        lemma_markers_joined(rest, input.take(fed.consumed as int + 1));
        lemma_markers_joined(state.pending, input.take(fed.consumed as int + 1));
    }
}

pub(crate) proof fn lemma_markers_split(bytes: Seq<u8>, count: int)
    requires
        0 <= count <= bytes.len(),
    ensures
        marker_count(bytes) == marker_count(bytes.take(count)) + marker_count(bytes.skip(count)),
{
    lemma_markers_taken(bytes, count, bytes.len() - count);
    assert(bytes.take(bytes.len() as int) =~= bytes);
    assert(bytes.skip(count).take(bytes.len() - count) =~= bytes.skip(count));
}

pub(crate) proof fn lemma_markers_joined(first: Seq<u8>, second: Seq<u8>)
    ensures
        marker_count(first + second) == marker_count(first) + marker_count(second),
{
    lemma_markers_split(first + second, first.len() as int);
    assert((first + second).take(first.len() as int) =~= first);
    assert((first + second).skip(first.len() as int) =~= second);
}

pub(crate) proof fn lemma_one_marker(byte: u8)
    ensures
        marker_count(seq![byte]) == if byte == 0xfe || byte == 0xfd {
            1nat
        } else {
            0
        },
{
    assert(seq![byte].drop_last() =~= Seq::<u8>::empty());
    assert(marker_count(Seq::<u8>::empty()) == 0);
}

pub(crate) proof fn lemma_waiting_marker(bytes: Seq<u8>, capacity: nat)
    requires
        bytes.len() > 0,
        waits(bytes, capacity),
    ensures
        bytes[0] == 0xfe || bytes[0] == 0xfd,
{
    reveal(waits);
}

/// What a scan counts are the markers that it drops.
pub(crate) proof fn lemma_scan_counts(bytes: Seq<u8>, capacity: nat, table: ExtraTable)
    ensures
        scan(bytes, capacity, table).tally.total() == marker_count(
            bytes.take(scan(bytes, capacity, table).skipped as int),
        ),
    decreases bytes.len(),
{
    let found = scan(bytes, capacity, table);
    law_scanning_goes_byte_by_byte(bytes, capacity, table);
    if found.skipped == 0 {
        assert(bytes.take(0) =~= Seq::<u8>::empty());
    }
    if bytes.len() > 0 {
        let rest = bytes.drop_first();
        let later = scan(rest, capacity, table);
        lemma_scan_counts(rest, capacity, table);
        lemma_scan_stops(rest, capacity, table);
        lemma_one_marker(bytes[0]);
        if found.skipped > 0 {
            let behind = rest.take(later.skipped as int);
            assert(bytes.take(found.skipped as int) =~= seq![bytes[0]] + behind);
            lemma_markers_joined(seq![bytes[0]], behind);
        }
    }
}

} // verus!
