//! What repeated reads return of a stream.
use vstd::prelude::*;

use super::decoding::{announced, is_noise, law_scanning_goes_byte_by_byte};
use super::packet::{lemma_acceptable, lemma_sent, packet_in, whole_packet, Packet};
use super::reading::{
    copied_from, lemma_copied, lemma_decided, lemma_made, made_of, passed_over, wanted,
};
use crate::async_reader::AsyncMavlinkReader;
use crate::embedded::Read;
use crate::error::{IoError, MessageReadError};
use crate::frame_decoder::laws::{drain, law_frame_is_accepted_as_sent};
use crate::frame_decoder::lemmas::{lemma_scan_again, lemma_scan_stops};
use crate::frame_decoder::marker::no_marker_below;
use crate::frame_decoder::model::{scan, DecoderState, ExtraTable};
use crate::message::{MAVLinkMessageRaw, MavHeader, Message, ReadVersion};
use crate::reader::decode::{dialect_agrees, may_decide, message_of, polled, raw_message_of};
use crate::reader::model::{every_frame, find_message, lemma_find_shrinks, messages};
use crate::reader::stream::{
    blocking_call, law_blocking_read_keeps_the_contract, law_call_passes_over_withheld_frames,
    law_messages_are_the_decoded_frames, passed, streams, unread, Call,
};
use crate::reader::{reads_next, MavlinkReader};
use crate::signing::{NoSigning, SignatureVerifier, SigningData};
use crate::wire;
use crate::wire::FrameVersion;

verus! {

/// The extra bytes of a dialect, which do not depend on the wire version.
pub open spec fn extra_bytes(crcs: spec_fn(u32) -> u8) -> ExtraTable {
    |version: FrameVersion, id: u32| crcs(id)
}

/// The frames that a decoder for one maximum frame finds in `bytes`.
pub open spec fn decoded(bytes: Seq<u8>, crcs: spec_fn(u32) -> u8) -> Seq<Seq<u8>> {
    drain(DecoderState::empty(), bytes, 280, extra_bytes(crcs)).0
}

/// All bytes that are still ahead of a reader: what it retains, and what its source has
/// not delivered yet.
pub open spec fn ahead<R: Read>(reader: MavlinkReader<R>) -> Seq<u8> {
    reader.pending() + unread(reader.source())
}

/// Each of `frames` may be passed over.
pub open spec fn all_passed_over<V: SignatureVerifier>(
    frames: Seq<Seq<u8>>,
    version: ReadVersion,
    signing_data: Option<&SigningData<V>>,
) -> bool {
    forall|i: int|
        0 <= i < frames.len() ==> passed_over(#[trigger] frames[i], version, signing_data)
}

proof fn lemma_all_passed(frames: Seq<Seq<u8>>)
    ensures
        passed(frames, every_frame()) == frames,
    decreases frames.len(),
{
    if frames.len() > 0 {
        lemma_all_passed(frames.drop_first());
        assert(seq![frames[0]] + frames.drop_first() =~= frames);
    } else {
        assert(frames =~= Seq::<Seq<u8>>::empty());
    }
}

/// `frame` is a whole packet.
spec fn is_whole(frame: Seq<u8>) -> bool {
    exists|extra: u8| whole_packet(frame, extra)
}

/// Every frame that is found is a whole packet.
proof fn lemma_found_are_whole(bytes: Seq<u8>, table: ExtraTable, index: int)
    requires
        0 <= index < messages(bytes, table, every_frame()).len(),
    ensures
        is_whole(messages(bytes, table, every_frame())[index]),
    decreases bytes.len(),
{
    let found = find_message(bytes, table, every_frame());
    let outcome = scan(bytes, 280, table);
    let front = bytes.skip(outcome.skipped as int);
    lemma_find_shrinks(bytes, table, every_frame());
    if index > 0 {
        lemma_found_are_whole(found.rest, table, index - 1);
    } else {
        lemma_scan_stops(bytes, 280, table);
        lemma_scan_again(bytes, 280, table);
        law_scanning_goes_byte_by_byte(front, 280, table);
        reveal(find_message);
        let candidate = front.take(outcome.frame->0 as int);
        assert(found.frame == Some(candidate));
        assert(whole_packet(
            candidate,
            table(announced(front), packet_in(candidate).message_id),
        ));
    }
}

/// What a call passes over, what it returns, and what is left.
proof fn lemma_next_call<M: Message, V: SignatureVerifier, T>(
    call: Call<T>,
    version: ReadVersion,
    signing_data: Option<&SigningData<V>>,
    carried_by: spec_fn(Seq<u8>, Result<T, MessageReadError>) -> bool,
    crcs: spec_fn(u32) -> u8,
) -> (seen: (Seq<Seq<u8>>, Option<Seq<u8>>))
    requires
        call.keeps_contract::<M, V>(version, signing_data, carried_by),
        forall|id: u32, extra: u8| #[trigger]
            call_ensures(M::extra_crc, (id,), extra) ==> extra == crcs(id),
    ensures
        all_passed_over(seen.0, version, signing_data),
        match seen.1 {
            Some(frame) => {
                &&& exists|extra: u8| whole_packet(frame, extra)
                &&& carried_by(frame, call.result)
                &&& !(call.result matches Err(MessageReadError::Io(_)))
                &&& wanted(version, frame)
                &&& decoded(call.before(), crcs) == seen.0 + (seq![frame] + decoded(
                    call.after(),
                    crcs,
                ))
            },
            None => {
                &&& call.result matches Err(MessageReadError::Io(error))
                &&& error is UnexpectedEof
                &&& decoded(call.before(), crcs) == seen.0
                &&& decoded(call.after(), crcs).len() == 0
            },
        },
{
    let table = extra_bytes(crcs);
    assert(dialect_agrees::<M>(table)) by {
        assert forall|v: FrameVersion, id: u32, extra: u8|
            #![trigger call_ensures(M::extra_crc, (id,), extra), table(v, id)]
            call_ensures(M::extra_crc, (id,), extra) implies extra == table(v, id) by {}
    }
    let (over, frame) = law_call_passes_over_withheld_frames::<M, V, T>(
        call,
        version,
        signing_data,
        carried_by,
        table,
    );
    law_messages_are_the_decoded_frames(call.before(), table, every_frame());
    law_messages_are_the_decoded_frames(call.after(), table, every_frame());
    lemma_all_passed(decoded(call.before(), crcs));
    lemma_all_passed(decoded(call.after(), crcs));
    let all = messages(call.before(), table, every_frame());
    assert forall|i: int| 0 <= i < over.len() implies passed_over(
        #[trigger] over[i],
        version,
        signing_data,
    ) by {
        assert(over[i] == all[i]);
        lemma_found_are_whole(call.before(), table, i);
        assert(may_decide(over[i], version, signing_data, false));
        lemma_decided(over[i], version, signing_data, false);
    }
    if let Some(frame) = frame {
        assert(all[over.len() as int] == frame);
        lemma_found_are_whole(call.before(), table, over.len() as int);
        lemma_decided(frame, version, signing_data, true);
    }
    (over, frame)
}

/// What a read passes over, what it returns, and what is left.
proof fn lemma_next<R: Read, M: Message, V: SignatureVerifier, T>(
    before: MavlinkReader<R>,
    after: MavlinkReader<R>,
    version: ReadVersion,
    signing_data: Option<&SigningData<V>>,
    carried_by: spec_fn(Seq<u8>, Result<T, MessageReadError>) -> bool,
    result: Result<T, MessageReadError>,
    crcs: spec_fn(u32) -> u8,
) -> (seen: (Seq<Seq<u8>>, Option<Seq<u8>>))
    requires
        reads_next::<R, M, V, T>(before, after, version, signing_data, carried_by, result),
        streams(before.source()),
        forall|id: u32, extra: u8| #[trigger]
            call_ensures(M::extra_crc, (id,), extra) ==> extra == crcs(id),
    ensures
        streams(after.source()),
        all_passed_over(seen.0, version, signing_data),
        match seen.1 {
            Some(frame) => {
                &&& exists|extra: u8| whole_packet(frame, extra)
                &&& carried_by(frame, result)
                &&& !(result matches Err(MessageReadError::Io(_)))
                &&& wanted(version, frame)
                &&& decoded(ahead(before), crcs) == seen.0 + (seq![frame] + decoded(
                    ahead(after),
                    crcs,
                ))
            },
            None => {
                &&& result matches Err(MessageReadError::Io(error))
                &&& error is UnexpectedEof
                &&& decoded(ahead(before), crcs) == seen.0
                &&& decoded(ahead(after), crcs).len() == 0
            },
        },
{
    let call = blocking_call(before, after, result);
    law_blocking_read_keeps_the_contract::<R, M, V, T>(
        before,
        after,
        version,
        signing_data,
        carried_by,
        result,
    );
    assert(call.before() == ahead(before));
    assert(call.after() == ahead(after));
    lemma_next_call::<M, V, T>(call, version, signing_data, carried_by, crcs)
}

/// What a poll passes over, what it returns, and what is left.
proof fn lemma_next_poll<M: Message, V: SignatureVerifier, T>(
    pending: Seq<u8>,
    left: Seq<u8>,
    version: ReadVersion,
    signing_data: Option<&SigningData<V>>,
    carried_by: spec_fn(Seq<u8>, Result<T, MessageReadError>) -> bool,
    outcome: Option<Result<T, MessageReadError>>,
    crcs: spec_fn(u32) -> u8,
) -> (seen: (Seq<Seq<u8>>, Option<Seq<u8>>))
    requires
        polled::<M, V, T>(pending, left, version, signing_data, carried_by, outcome),
        forall|id: u32, extra: u8| #[trigger]
            call_ensures(M::extra_crc, (id,), extra) ==> extra == crcs(id),
    ensures
        all_passed_over(seen.0, version, signing_data),
        seen.1 is Some <==> outcome is Some,
        match seen.1 {
            Some(frame) => {
                &&& exists|extra: u8| whole_packet(frame, extra)
                &&& carried_by(frame, outcome->0)
                &&& wanted(version, frame)
                &&& decoded(pending, crcs) == seen.0 + (seq![frame] + decoded(left, crcs))
            },
            None => {
                &&& decoded(pending, crcs) == seen.0
                &&& decoded(left, crcs).len() == 0
            },
        },
{
    let none = Seq::<u8>::empty();
    let result = match outcome {
        Some(result) => result,
        None => Err(MessageReadError::Io(IoError::UnexpectedEof)),
    };
    let call = Call { pending, unread: none, arrived: none, left, result };
    assert(pending + none =~= pending);
    assert(none.take(0) =~= none);
    assert(none.skip(0) =~= none);
    assert(left + none =~= left);
    lemma_next_call::<M, V, T>(call, version, signing_data, carried_by, crcs)
}

/// The first frame of a stream is the packet that was sent first.
proof fn lemma_first_decoded(
    noise: Seq<u8>,
    packet: Packet,
    more: Seq<u8>,
    crcs: spec_fn(u32) -> u8,
)
    requires
        is_noise(noise),
        packet.sendable(),
    ensures
        ({
            let sent = packet.bytes(crcs(packet.message_id));
            decoded(noise + sent + more, crcs) == seq![sent] + decoded(more, crcs)
        }),
{
    let table = extra_bytes(crcs);
    let sent = packet.bytes(crcs(packet.message_id));
    let input = noise + sent + more;
    let empty = DecoderState::empty();
    lemma_sent(packet, crcs(packet.message_id));
    lemma_acceptable(sent, crcs(packet.message_id), 280, table);
    assert(no_marker_below(noise, noise.len() as int)) by {
        assert forall|i: int| 0 <= i < noise.len() implies !wire::is_marker(
            #[trigger] noise[i],
        ) by {
            assert(noise[i] != 0xfe && noise[i] != 0xfd);
        }
    }
    law_frame_is_accepted_as_sent(noise, sent, more, 280, table);
    let ready = DecoderState { offset: 0, pending: sent, frame: Some(sent.len()) };
    assert(ready.advanced() == empty);
    assert(input.skip((noise.len() + sent.len()) as int) =~= more);
    assert(sent.take(sent.len() as int) =~= sent);
}

/// A read of messages passes over the frames that it does not ask for and returns the next
/// one, parsed; the frames behind it are left for later reads. It finds the end only where
/// none is left that it asks for.
pub proof fn law_next_message_is_read<R: Read, M: Message>(
    reader: &mut MavlinkReader<R>,
    version: ReadVersion,
    result: Result<(MavHeader, M), MessageReadError>,
    crcs: spec_fn(u32) -> u8,
)
    requires
        old(reader).wf(),
        call_ensures(
            MavlinkReader::<R>::read_message::<M>,
            (reader, version),
            result,
        ),
        streams(old(reader).source()),
        forall|id: u32, extra: u8| #[trigger]
            call_ensures(M::extra_crc, (id,), extra) ==> extra == crcs(id),
    ensures
        final(reader).wf(),
        streams(final(reader).source()),
        exists|over: Seq<Seq<u8>>| #[trigger]
            all_passed_over::<NoSigning>(over, version, None) && if result matches Err(
                MessageReadError::Io(_),
            ) {
                &&& result matches Err(MessageReadError::Io(error)) && error is UnexpectedEof
                &&& decoded(ahead(*old(reader)), crcs) == over
                &&& decoded(ahead(*final(reader)), crcs).len() == 0
            } else {
                exists|frame: Seq<u8>| #[trigger]
                    wanted(version, frame) && made_of::<M>(packet_in(frame), result) && decoded(
                        ahead(*old(reader)),
                        crcs,
                    ) == over + (seq![frame] + decoded(ahead(*final(reader)), crcs))
            },
{
    let (over, found) = lemma_next::<R, M, NoSigning, (MavHeader, M)>(
        *old(reader),
        *final(reader),
        version,
        None,
        message_of::<M>(),
        result,
        crcs,
    );
    if let Some(frame) = found {
        let extra = choose|extra: u8| whole_packet(frame, extra);
        lemma_made::<M>(frame, extra, result);
        assert(wanted(version, frame));
    }
    assert(all_passed_over::<NoSigning>(over, version, None));
}

/// A read of raw messages passes over the frames that it does not ask for and returns the
/// next one as it stands; the frames behind it are left for later reads.
pub proof fn law_next_raw_message_is_read<R: Read, M: Message>(
    reader: &mut MavlinkReader<R>,
    version: ReadVersion,
    result: Result<MAVLinkMessageRaw, MessageReadError>,
    crcs: spec_fn(u32) -> u8,
)
    requires
        old(reader).wf(),
        call_ensures(
            MavlinkReader::<R>::read_raw_message::<M>,
            (reader, version),
            result,
        ),
        streams(old(reader).source()),
        forall|id: u32, extra: u8| #[trigger]
            call_ensures(M::extra_crc, (id,), extra) ==> extra == crcs(id),
    ensures
        final(reader).wf(),
        streams(final(reader).source()),
        exists|over: Seq<Seq<u8>>| #[trigger]
            all_passed_over::<NoSigning>(over, version, None) && if result matches Err(
                MessageReadError::Io(_),
            ) {
                &&& result matches Err(MessageReadError::Io(error)) && error is UnexpectedEof
                &&& decoded(ahead(*old(reader)), crcs) == over
                &&& decoded(ahead(*final(reader)), crcs).len() == 0
            } else {
                exists|frame: Seq<u8>| #[trigger]
                    wanted(version, frame) && copied_from(frame, result) && decoded(
                        ahead(*old(reader)),
                        crcs,
                    ) == over + (seq![frame] + decoded(ahead(*final(reader)), crcs))
            },
{
    let (over, found) = lemma_next::<R, M, NoSigning, MAVLinkMessageRaw>(
        *old(reader),
        *final(reader),
        version,
        None,
        raw_message_of(),
        result,
        crcs,
    );
    if let Some(frame) = found {
        let extra = choose|extra: u8| whole_packet(frame, extra);
        lemma_copied(frame, extra, result);
        assert(wanted(version, frame));
    }
    assert(all_passed_over::<NoSigning>(over, version, None));
}

/// A read of messages under a signature policy passes over the frames that it does not ask
/// for and those that the policy refuses, and returns the next one.
pub proof fn law_next_signed_message_is_read<R: Read, M: Message, V: SignatureVerifier>(
    reader: &mut MavlinkReader<R>,
    version: ReadVersion,
    signing_data: &SigningData<V>,
    result: Result<(MavHeader, M), MessageReadError>,
    crcs: spec_fn(u32) -> u8,
)
    requires
        old(reader).wf(),
        call_ensures(
            MavlinkReader::<R>::read_message_signed::<M, V>,
            (reader, version, signing_data),
            result,
        ),
        streams(old(reader).source()),
        forall|id: u32, extra: u8| #[trigger]
            call_ensures(M::extra_crc, (id,), extra) ==> extra == crcs(id),
    ensures
        final(reader).wf(),
        streams(final(reader).source()),
        exists|over: Seq<Seq<u8>>| #[trigger]
            all_passed_over::<V>(over, version, Some(signing_data)) && if result matches Err(
                MessageReadError::Io(_),
            ) {
                &&& result matches Err(MessageReadError::Io(error)) && error is UnexpectedEof
                &&& decoded(ahead(*old(reader)), crcs) == over
                &&& decoded(ahead(*final(reader)), crcs).len() == 0
            } else {
                exists|frame: Seq<u8>| #[trigger]
                    wanted(version, frame) && made_of::<M>(packet_in(frame), result) && decoded(
                        ahead(*old(reader)),
                        crcs,
                    ) == over + (seq![frame] + decoded(ahead(*final(reader)), crcs))
            },
{
    let (over, found) = lemma_next::<R, M, V, (MavHeader, M)>(
        *old(reader),
        *final(reader),
        version,
        Some(signing_data),
        message_of::<M>(),
        result,
        crcs,
    );
    if let Some(frame) = found {
        let extra = choose|extra: u8| whole_packet(frame, extra);
        lemma_made::<M>(frame, extra, result);
        assert(wanted(version, frame));
    }
    assert(all_passed_over::<V>(over, version, Some(signing_data)));
}

/// A read of raw messages under a signature policy passes over the frames that it does not
/// ask for and those that the policy refuses, and returns the next one.
pub proof fn law_next_signed_raw_message_is_read<R: Read, M: Message, V: SignatureVerifier>(
    reader: &mut MavlinkReader<R>,
    version: ReadVersion,
    signing_data: &SigningData<V>,
    result: Result<MAVLinkMessageRaw, MessageReadError>,
    crcs: spec_fn(u32) -> u8,
)
    requires
        old(reader).wf(),
        call_ensures(
            MavlinkReader::<R>::read_raw_message_signed::<M, V>,
            (reader, version, signing_data),
            result,
        ),
        streams(old(reader).source()),
        forall|id: u32, extra: u8| #[trigger]
            call_ensures(M::extra_crc, (id,), extra) ==> extra == crcs(id),
    ensures
        final(reader).wf(),
        streams(final(reader).source()),
        exists|over: Seq<Seq<u8>>| #[trigger]
            all_passed_over::<V>(over, version, Some(signing_data)) && if result matches Err(
                MessageReadError::Io(_),
            ) {
                &&& result matches Err(MessageReadError::Io(error)) && error is UnexpectedEof
                &&& decoded(ahead(*old(reader)), crcs) == over
                &&& decoded(ahead(*final(reader)), crcs).len() == 0
            } else {
                exists|frame: Seq<u8>| #[trigger]
                    wanted(version, frame) && copied_from(frame, result) && decoded(
                        ahead(*old(reader)),
                        crcs,
                    ) == over + (seq![frame] + decoded(ahead(*final(reader)), crcs))
            },
{
    let (over, found) = lemma_next::<R, M, V, MAVLinkMessageRaw>(
        *old(reader),
        *final(reader),
        version,
        Some(signing_data),
        raw_message_of(),
        result,
        crcs,
    );
    if let Some(frame) = found {
        let extra = choose|extra: u8| whole_packet(frame, extra);
        lemma_copied(frame, extra, result);
        assert(wanted(version, frame));
    }
    assert(all_passed_over::<V>(over, version, Some(signing_data)));
}

/// A packet that was sent, behind any noise, is read with the fields that it was sent with,
/// where the read asks for its version. What was sent behind it is left for later reads.
pub proof fn law_sent_packet_is_read<R: Read, M: Message>(
    reader: &mut MavlinkReader<R>,
    version: ReadVersion,
    result: Result<(MavHeader, M), MessageReadError>,
    noise: Seq<u8>,
    packet: Packet,
    more: Seq<u8>,
    crcs: spec_fn(u32) -> u8,
)
    requires
        old(reader).wf(),
        call_ensures(
            MavlinkReader::<R>::read_message::<M>,
            (reader, version),
            result,
        ),
        streams(old(reader).source()),
        forall|id: u32, extra: u8| #[trigger]
            call_ensures(M::extra_crc, (id,), extra) ==> extra == crcs(id),
        is_noise(noise),
        packet.sendable(),
        ahead(*old(reader)) == noise + packet.bytes(crcs(packet.message_id)) + more,
        !passed_over::<NoSigning>(packet.bytes(crcs(packet.message_id)), version, None),
    ensures
        made_of::<M>(packet, result),
        decoded(ahead(*final(reader)), crcs) == decoded(more, crcs),
{
    let sent = packet.bytes(crcs(packet.message_id));
    law_next_message_is_read::<R, M>(reader, version, result, crcs);
    lemma_first_decoded(noise, packet, more, crcs);
    lemma_sent(packet, crcs(packet.message_id));
    let all = decoded(ahead(*old(reader)), crcs);
    let left = decoded(ahead(*final(reader)), crcs);
    let ended = result matches Err(MessageReadError::Io(_));
    let over = choose|over: Seq<Seq<u8>>| #[trigger]
        all_passed_over::<NoSigning>(over, version, None) && if ended {
            all == over
        } else {
            exists|frame: Seq<u8>| #[trigger]
                wanted(version, frame) && made_of::<M>(packet_in(frame), result) && all == over + (
                seq![frame] + left)
        };
    assert(all[0] == sent);
    if over.len() > 0 {
        assert(over[0] == all[0]);
        assert(passed_over::<NoSigning>(over[0], version, None));
    }
    assert(!ended);
    let frame = choose|frame: Seq<u8>| #[trigger]
        wanted(version, frame) && made_of::<M>(packet_in(frame), result) && all == over + (
                seq![frame] + left);
    assert(all =~= seq![frame] + left);
    assert(left =~= all.drop_first());
    assert(decoded(more, crcs) =~= all.drop_first());
}

/// A packet that was sent, behind any noise, is read as it was sent, where the read asks
/// for its version.
pub proof fn law_sent_packet_is_read_raw<R: Read, M: Message>(
    reader: &mut MavlinkReader<R>,
    version: ReadVersion,
    result: Result<MAVLinkMessageRaw, MessageReadError>,
    noise: Seq<u8>,
    packet: Packet,
    more: Seq<u8>,
    crcs: spec_fn(u32) -> u8,
)
    requires
        old(reader).wf(),
        call_ensures(
            MavlinkReader::<R>::read_raw_message::<M>,
            (reader, version),
            result,
        ),
        streams(old(reader).source()),
        forall|id: u32, extra: u8| #[trigger]
            call_ensures(M::extra_crc, (id,), extra) ==> extra == crcs(id),
        is_noise(noise),
        packet.sendable(),
        ahead(*old(reader)) == noise + packet.bytes(crcs(packet.message_id)) + more,
        !passed_over::<NoSigning>(packet.bytes(crcs(packet.message_id)), version, None),
    ensures
        copied_from(packet.bytes(crcs(packet.message_id)), result),
        decoded(ahead(*final(reader)), crcs) == decoded(more, crcs),
{
    let sent = packet.bytes(crcs(packet.message_id));
    law_next_raw_message_is_read::<R, M>(reader, version, result, crcs);
    lemma_first_decoded(noise, packet, more, crcs);
    lemma_sent(packet, crcs(packet.message_id));
    let all = decoded(ahead(*old(reader)), crcs);
    let left = decoded(ahead(*final(reader)), crcs);
    let ended = result matches Err(MessageReadError::Io(_));
    let over = choose|over: Seq<Seq<u8>>| #[trigger]
        all_passed_over::<NoSigning>(over, version, None) && if ended {
            all == over
        } else {
            exists|frame: Seq<u8>| #[trigger]
                wanted(version, frame) && copied_from(frame, result) && all == over + (
                seq![frame] + left)
        };
    assert(all[0] == sent);
    if over.len() > 0 {
        assert(over[0] == all[0]);
        assert(passed_over::<NoSigning>(over[0], version, None));
    }
    assert(!ended);
    let frame = choose|frame: Seq<u8>| #[trigger]
        wanted(version, frame) && copied_from(frame, result) && all == over + (
                seq![frame] + left);
    assert(all =~= seq![frame] + left);
    assert(left =~= all.drop_first());
    assert(decoded(more, crcs) =~= all.drop_first());
}

/// A packet that was sent, behind any noise, is read under a signature policy that cannot
/// refuse it.
pub proof fn law_accepted_packet_is_read<R: Read, M: Message, V: SignatureVerifier>(
    reader: &mut MavlinkReader<R>,
    version: ReadVersion,
    signing_data: &SigningData<V>,
    result: Result<(MavHeader, M), MessageReadError>,
    noise: Seq<u8>,
    packet: Packet,
    more: Seq<u8>,
    crcs: spec_fn(u32) -> u8,
)
    requires
        old(reader).wf(),
        call_ensures(
            MavlinkReader::<R>::read_message_signed::<M, V>,
            (reader, version, signing_data),
            result,
        ),
        streams(old(reader).source()),
        forall|id: u32, extra: u8| #[trigger]
            call_ensures(M::extra_crc, (id,), extra) ==> extra == crcs(id),
        is_noise(noise),
        packet.sendable(),
        ahead(*old(reader)) == noise + packet.bytes(crcs(packet.message_id)) + more,
        !passed_over::<V>(packet.bytes(crcs(packet.message_id)), version, Some(signing_data)),
    ensures
        made_of::<M>(packet, result),
        decoded(ahead(*final(reader)), crcs) == decoded(more, crcs),
{
    let sent = packet.bytes(crcs(packet.message_id));
    law_next_signed_message_is_read::<R, M, V>(reader, version, signing_data, result, crcs);
    lemma_first_decoded(noise, packet, more, crcs);
    lemma_sent(packet, crcs(packet.message_id));
    let all = decoded(ahead(*old(reader)), crcs);
    let left = decoded(ahead(*final(reader)), crcs);
    let ended = result matches Err(MessageReadError::Io(_));
    let over = choose|over: Seq<Seq<u8>>| #[trigger]
        all_passed_over::<V>(over, version, Some(signing_data)) && if ended {
            all == over
        } else {
            exists|frame: Seq<u8>| #[trigger]
                wanted(version, frame) && made_of::<M>(packet_in(frame), result) && all == over + (
                seq![frame] + left)
        };
    assert(all[0] == sent);
    if over.len() > 0 {
        assert(over[0] == all[0]);
        assert(passed_over::<V>(over[0], version, Some(signing_data)));
    }
    assert(!ended);
    let frame = choose|frame: Seq<u8>| #[trigger]
        wanted(version, frame) && made_of::<M>(packet_in(frame), result) && all == over + (
                seq![frame] + left);
    assert(all =~= seq![frame] + left);
    assert(left =~= all.drop_first());
    assert(decoded(more, crcs) =~= all.drop_first());
}

/// A packet that was sent, behind any noise, is read as it was sent under a signature
/// policy that cannot refuse it.
pub proof fn law_accepted_packet_is_read_raw<R: Read, M: Message, V: SignatureVerifier>(
    reader: &mut MavlinkReader<R>,
    version: ReadVersion,
    signing_data: &SigningData<V>,
    result: Result<MAVLinkMessageRaw, MessageReadError>,
    noise: Seq<u8>,
    packet: Packet,
    more: Seq<u8>,
    crcs: spec_fn(u32) -> u8,
)
    requires
        old(reader).wf(),
        call_ensures(
            MavlinkReader::<R>::read_raw_message_signed::<M, V>,
            (reader, version, signing_data),
            result,
        ),
        streams(old(reader).source()),
        forall|id: u32, extra: u8| #[trigger]
            call_ensures(M::extra_crc, (id,), extra) ==> extra == crcs(id),
        is_noise(noise),
        packet.sendable(),
        ahead(*old(reader)) == noise + packet.bytes(crcs(packet.message_id)) + more,
        !passed_over::<V>(packet.bytes(crcs(packet.message_id)), version, Some(signing_data)),
    ensures
        copied_from(packet.bytes(crcs(packet.message_id)), result),
        decoded(ahead(*final(reader)), crcs) == decoded(more, crcs),
{
    let sent = packet.bytes(crcs(packet.message_id));
    law_next_signed_raw_message_is_read::<R, M, V>(reader, version, signing_data, result, crcs);
    lemma_first_decoded(noise, packet, more, crcs);
    lemma_sent(packet, crcs(packet.message_id));
    let all = decoded(ahead(*old(reader)), crcs);
    let left = decoded(ahead(*final(reader)), crcs);
    let ended = result matches Err(MessageReadError::Io(_));
    let over = choose|over: Seq<Seq<u8>>| #[trigger]
        all_passed_over::<V>(over, version, Some(signing_data)) && if ended {
            all == over
        } else {
            exists|frame: Seq<u8>| #[trigger]
                wanted(version, frame) && copied_from(frame, result) && all == over + (
                seq![frame] + left)
        };
    assert(all[0] == sent);
    if over.len() > 0 {
        assert(over[0] == all[0]);
        assert(passed_over::<V>(over[0], version, Some(signing_data)));
    }
    assert(!ended);
    let frame = choose|frame: Seq<u8>| #[trigger]
        wanted(version, frame) && copied_from(frame, result) && all == over + (
                seq![frame] + left);
    assert(all =~= seq![frame] + left);
    assert(left =~= all.drop_first());
    assert(decoded(more, crcs) =~= all.drop_first());
}

/// A poll for messages returns the first retained one that is asked for and not refused, and
/// asks for more bytes only where none is retained.
pub proof fn law_next_message_is_polled<R, M: Message, V: SignatureVerifier>(
    reader: &mut AsyncMavlinkReader<R>,
    version: ReadVersion,
    signing_data: Option<&SigningData<V>>,
    outcome: Option<Result<(MavHeader, M), MessageReadError>>,
    crcs: spec_fn(u32) -> u8,
)
    requires
        call_ensures(
            AsyncMavlinkReader::<R>::poll_message::<M, V>,
            (reader, version, signing_data),
            outcome,
        ),
        forall|id: u32, extra: u8| #[trigger]
            call_ensures(M::extra_crc, (id,), extra) ==> extra == crcs(id),
    ensures
        exists|over: Seq<Seq<u8>>| #[trigger]
            all_passed_over::<V>(over, version, signing_data) && if outcome is None {
                &&& decoded(old(reader).pending(), crcs) == over
                &&& decoded(final(reader).pending(), crcs).len() == 0
            } else {
                exists|frame: Seq<u8>| #[trigger]
                    wanted(version, frame) && made_of::<M>(packet_in(frame), outcome->0) && decoded(
                        old(reader).pending(),
                        crcs,
                    ) == over + (seq![frame] + decoded(final(reader).pending(), crcs))
            },
{
    let (over, found) = lemma_next_poll::<M, V, (MavHeader, M)>(
        old(reader).pending(),
        final(reader).pending(),
        version,
        signing_data,
        message_of::<M>(),
        outcome,
        crcs,
    );
    if let Some(frame) = found {
        let extra = choose|extra: u8| whole_packet(frame, extra);
        lemma_made::<M>(frame, extra, outcome->0);
        assert(wanted(version, frame));
    }
    assert(all_passed_over::<V>(over, version, signing_data));
}

/// A poll for raw messages returns the first retained one that is asked for and not refused,
/// and asks for more bytes only where none is retained.
pub proof fn law_next_raw_message_is_polled<R, M: Message, V: SignatureVerifier>(
    reader: &mut AsyncMavlinkReader<R>,
    version: ReadVersion,
    signing_data: Option<&SigningData<V>>,
    outcome: Option<Result<MAVLinkMessageRaw, MessageReadError>>,
    crcs: spec_fn(u32) -> u8,
)
    requires
        call_ensures(
            AsyncMavlinkReader::<R>::poll_raw_message::<M, V>,
            (reader, version, signing_data),
            outcome,
        ),
        forall|id: u32, extra: u8| #[trigger]
            call_ensures(M::extra_crc, (id,), extra) ==> extra == crcs(id),
    ensures
        exists|over: Seq<Seq<u8>>| #[trigger]
            all_passed_over::<V>(over, version, signing_data) && if outcome is None {
                &&& decoded(old(reader).pending(), crcs) == over
                &&& decoded(final(reader).pending(), crcs).len() == 0
            } else {
                exists|frame: Seq<u8>| #[trigger]
                    wanted(version, frame) && copied_from(frame, outcome->0) && decoded(
                        old(reader).pending(),
                        crcs,
                    ) == over + (seq![frame] + decoded(final(reader).pending(), crcs))
            },
{
    let (over, found) = lemma_next_poll::<M, V, MAVLinkMessageRaw>(
        old(reader).pending(),
        final(reader).pending(),
        version,
        signing_data,
        raw_message_of(),
        outcome,
        crcs,
    );
    if let Some(frame) = found {
        let extra = choose|extra: u8| whole_packet(frame, extra);
        lemma_copied(frame, extra, outcome->0);
        assert(wanted(version, frame));
    }
    assert(all_passed_over::<V>(over, version, signing_data));
}

} // verus!
