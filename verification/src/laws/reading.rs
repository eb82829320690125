//! What a reader returns.
use vstd::prelude::*;

use super::fields::raw_view;
use super::packet::{lemma_accepted_is_whole, lemma_fields, packet_in, whole_packet, Packet};
use crate::async_reader::AsyncMavlinkReader;
use crate::embedded::{delivered, Read};
use crate::error::{MessageReadError, ParserError};
use crate::message::{
    padded, protocol_version, MAVLinkMessageRaw, MAVLinkV2MessageRaw, MavHeader, MavlinkVersion,
    Message, ReadVersion,
};
use crate::reader::decode::{
    answered, finds, may_decide, may_deliver, message_of, parses, raw_message_of, raw_of,
    reads_as,
};
use crate::reader::{new_events, MavlinkReader};
use crate::signing::{NoSigning, SignatureVerifier, SigningData};
use crate::wire;

verus! {

/// Whether a read of this version asks for a frame: one of any version for every frame,
/// and one of a single version for those that begin with its marker.
pub open spec fn wanted(version: ReadVersion, frame: Seq<u8>) -> bool {
    match version {
        ReadVersion::Any => true,
        ReadVersion::Single(MavlinkVersion::V1) => frame[0] == 0xfe,
        ReadVersion::Single(MavlinkVersion::V2) => frame[0] == 0xfd,
    }
}

/// `result` is what parsing `packet` may come to: the dialect is handed the version, the
/// message identifier and the payload of the packet, and the header is that of the packet.
pub open spec fn made_of<M: Message>(
    packet: Packet,
    result: Result<(MavHeader, M), MessageReadError>,
) -> bool {
    exists|payload: &[u8], parsed: Result<M, ParserError>|
        payload@ == packet.payload && #[trigger] call_ensures(
            M::parse,
            (packet.version, packet.message_id, payload),
            parsed,
        ) && result == match parsed {
            Ok(message) => Ok::<(MavHeader, M), MessageReadError>(
                (
                    MavHeader {
                        system_id: packet.system_id,
                        component_id: packet.component_id,
                        sequence: packet.sequence,
                    },
                    message,
                ),
            ),
            Err(error) => Err(MessageReadError::Parse(error)),
        }
}

/// `bytes` are those of `frame`, and zeros behind them.
pub open spec fn zero_filled(bytes: Seq<u8>, frame: Seq<u8>) -> bool {
    &&& frame.len() <= bytes.len()
    &&& forall|i: int|
        0 <= i < bytes.len() ==> #[trigger] bytes[i] == if i < frame.len() {
            frame[i]
        } else {
            0
        }
}

/// `result` is the raw message of `frame`.
pub open spec fn copied_from(
    frame: Seq<u8>,
    result: Result<MAVLinkMessageRaw, MessageReadError>,
) -> bool {
    &&& result matches Ok(raw)
    &&& raw is V1 <==> frame[0] == 0xfe
    &&& zero_filled(raw_view(raw), frame)
}

/// `frame` is a whole packet, with an extra byte that the dialect may give for its message.
pub open spec fn checked_for<M: Message>(frame: Seq<u8>) -> bool {
    exists|extra: u8|
        #![trigger whole_packet(frame, extra)]
        whole_packet(frame, extra) && call_ensures(
            M::extra_crc,
            (packet_in(frame).message_id,),
            extra,
        )
}

/// A signature policy may answer `valid` for `frame`: for MAVLink 2 that is what the
/// verifier answers for a message that holds the frame, and MAVLink 1 cannot be signed,
/// which is not held against it where nothing else was asked for.
pub open spec fn policy_answers<V: SignatureVerifier>(
    frame: Seq<u8>,
    version: ReadVersion,
    signing_data: &SigningData<V>,
    valid: bool,
) -> bool {
    if frame[0] == 0xfe {
        valid == (version == ReadVersion::Single(MavlinkVersion::V1)
            || signing_data.config.allow_unsigned)
    } else {
        exists|message: MAVLinkV2MessageRaw|
            zero_filled(message.0@, frame) && #[trigger] call_ensures(
                V::verify_signature,
                (&signing_data.verifier, &message),
                valid,
            )
    }
}

/// A frame may be passed over: the read does not ask for it, or the policy may refuse it.
pub open spec fn passed_over<V: SignatureVerifier>(
    frame: Seq<u8>,
    version: ReadVersion,
    signing_data: Option<&SigningData<V>>,
) -> bool {
    !wanted(version, frame) || (signing_data matches Some(signing_data) && policy_answers(
        frame,
        version,
        signing_data,
        false,
    ))
}

/// A frame may be returned: the read asks for it, and the policy, if there is one, may
/// accept it.
pub open spec fn returned<M: Message, V: SignatureVerifier>(
    frame: Seq<u8>,
    version: ReadVersion,
    signing_data: Option<&SigningData<V>>,
) -> bool {
    &&& checked_for::<M>(frame)
    &&& wanted(version, frame)
    &&& signing_data matches Some(signing_data) ==> policy_answers(
        frame,
        version,
        signing_data,
        true,
    )
}

proof fn lemma_zero_filled(bytes: Seq<u8>, frame: Seq<u8>)
    ensures
        padded(bytes, frame) <==> zero_filled(bytes, frame),
{
    if padded(bytes, frame) {
        assert forall|i: int| 0 <= i < bytes.len() implies #[trigger] bytes[i] == if i
            < frame.len() {
            frame[i]
        } else {
            0
        } by {
            if i < frame.len() {
                assert(bytes.take(frame.len() as int)[i] == bytes[i]);
            }
        }
    }
    if zero_filled(bytes, frame) {
        assert(bytes.take(frame.len() as int) =~= frame);
    }
}

/// What the reader may decide is what the policy may answer.
pub(crate) proof fn lemma_decided<V: SignatureVerifier>(
    frame: Seq<u8>,
    version: ReadVersion,
    signing_data: Option<&SigningData<V>>,
    passes: bool,
)
    requires
        frame[0] == 0xfe || frame[0] == 0xfd,
        may_decide(frame, version, signing_data, passes),
    ensures
        passes ==> wanted(version, frame),
        passes ==> (signing_data matches Some(signing_data) ==> policy_answers(
            frame,
            version,
            signing_data,
            true,
        )),
        !passes ==> passed_over(frame, version, signing_data),
{
    if let Some(policy) = signing_data {
        if wanted(version, frame) && frame[0] == 0xfd {
            let message = choose|message: MAVLinkV2MessageRaw|
                padded(message.0@, frame) && #[trigger] call_ensures(
                    V::verify_signature,
                    (&policy.verifier, &message),
                    passes,
                );
            lemma_zero_filled(message.0@, frame);
            assert(zero_filled(message.0@, frame));
            assert(policy_answers(frame, version, policy, passes));
        }
    }
}

proof fn lemma_delivered_frame<M: Message, V: SignatureVerifier>(
    frame: Seq<u8>,
    version: ReadVersion,
    signing_data: Option<&SigningData<V>>,
)
    requires
        may_deliver::<M, V>(frame, version, signing_data),
    ensures
        returned::<M, V>(frame, version, signing_data),
{
    let actual = wire::version_of(frame[0])->0;
    let extra = choose|extra: u8| #[trigger]
        call_ensures(M::extra_crc, (wire::message_id(frame, actual),), extra)
            && wire::checksum_matches(frame, actual, extra);
    lemma_accepted_is_whole(frame, actual, extra);
    lemma_fields(frame, extra);
    assert(whole_packet(frame, extra));
    lemma_decided(frame, version, signing_data, true);
}

pub(crate) proof fn lemma_made<M: Message>(
    frame: Seq<u8>,
    extra: u8,
    result: Result<(MavHeader, M), MessageReadError>,
)
    requires
        whole_packet(frame, extra),
        reads_as::<M>(frame, result),
    ensures
        made_of::<M>(packet_in(frame), result),
{
    let packet = packet_in(frame);
    lemma_fields(frame, extra);
    let parsed = match result {
        Ok((_, message)) => Ok(message),
        Err(MessageReadError::Parse(error)) => Err(error),
        Err(MessageReadError::Io(_)) => arbitrary(),
    };
    assert(parses::<M>(frame, parsed));
    let version = wire::version_of(frame[0])->0;
    let payload = choose|payload: &[u8]|
        payload@ == wire::payload(frame, version) && #[trigger] call_ensures(
            M::parse,
            (protocol_version(version), wire::message_id(frame, version), payload),
            parsed,
        );
    assert(call_ensures(M::parse, (packet.version, packet.message_id, payload), parsed));
}

pub(crate) proof fn lemma_copied(
    frame: Seq<u8>,
    extra: u8,
    result: Result<MAVLinkMessageRaw, MessageReadError>,
)
    requires
        whole_packet(frame, extra),
        raw_of(frame, result),
    ensures
        copied_from(frame, result),
{
    lemma_fields(frame, extra);
    let raw = result->Ok_0;
    assert(raw@ == raw_view(raw));
    lemma_zero_filled(raw@, frame);
}

/// The frame of a message that was returned.
proof fn lemma_message_frame<M: Message, V: SignatureVerifier>(
    bytes: Seq<u8>,
    left: Seq<u8>,
    version: ReadVersion,
    signing_data: Option<&SigningData<V>>,
    result: Result<(MavHeader, M), MessageReadError>,
) -> (frame: Seq<u8>)
    requires
        answered::<M, V, (MavHeader, M)>(
            bytes,
            left,
            version,
            signing_data,
            message_of::<M>(),
            result,
        ),
        !(result matches Err(MessageReadError::Io(_))),
    ensures
        returned::<M, V>(frame, version, signing_data),
        made_of::<M>(packet_in(frame), result),
{
    let frame = choose|frame: Seq<u8>| #[trigger]
        may_deliver::<M, V>(frame, version, signing_data) && message_of::<M>()(frame, result)
            && finds::<M, V>(bytes, version, signing_data, Some(frame), left);
    lemma_delivered_frame::<M, V>(frame, version, signing_data);
    let extra = choose|extra: u8|
        #![trigger whole_packet(frame, extra)]
        whole_packet(frame, extra) && call_ensures(
            M::extra_crc,
            (packet_in(frame).message_id,),
            extra,
        );
    lemma_made::<M>(frame, extra, result);
    frame
}

/// The frame of a raw message that was returned.
proof fn lemma_raw_frame<M: Message, V: SignatureVerifier>(
    bytes: Seq<u8>,
    left: Seq<u8>,
    version: ReadVersion,
    signing_data: Option<&SigningData<V>>,
    result: Result<MAVLinkMessageRaw, MessageReadError>,
) -> (frame: Seq<u8>)
    requires
        answered::<M, V, MAVLinkMessageRaw>(
            bytes,
            left,
            version,
            signing_data,
            raw_message_of(),
            result,
        ),
        !(result matches Err(MessageReadError::Io(_))),
    ensures
        returned::<M, V>(frame, version, signing_data),
        copied_from(frame, result),
{
    let frame = choose|frame: Seq<u8>| #[trigger]
        may_deliver::<M, V>(frame, version, signing_data) && raw_message_of()(frame, result)
            && finds::<M, V>(bytes, version, signing_data, Some(frame), left);
    lemma_delivered_frame::<M, V>(frame, version, signing_data);
    let extra = choose|extra: u8|
        #![trigger whole_packet(frame, extra)]
        whole_packet(frame, extra) && call_ensures(
            M::extra_crc,
            (packet_in(frame).message_id,),
            extra,
        );
    lemma_copied(frame, extra, result);
    frame
}

/// A message that is read was sent: a whole packet of an accepted version, with an extra
/// byte of the dialect, whose header is returned and whose payload was parsed.
pub proof fn law_read_message_was_sent<R: Read, M: Message>(
    reader: &mut MavlinkReader<R>,
    version: ReadVersion,
    result: Result<(MavHeader, M), MessageReadError>,
)
    requires
        old(reader).wf(),
        call_ensures(MavlinkReader::<R>::read_message::<M>, (reader, version), result),
        !(result matches Err(MessageReadError::Io(_))),
    ensures
        exists|frame: Seq<u8>| #[trigger]
            returned::<M, NoSigning>(frame, version, None) && made_of::<M>(
                packet_in(frame),
                result,
            ),
{
    let before = *old(reader);
    let after = *final(reader);
    let events = new_events(before.source().history(), after.source().history());
    let arrived = before.pending() + delivered(events);
    let frame = lemma_message_frame::<M, NoSigning>(
        arrived,
        after.pending(),
        version,
        None,
        result,
    );
    assert(returned::<M, NoSigning>(frame, version, None));
}

/// A raw message that is read was sent: it holds a whole packet of an accepted version,
/// with an extra byte of the dialect, and zeros behind it.
pub proof fn law_read_raw_message_was_sent<R: Read, M: Message>(
    reader: &mut MavlinkReader<R>,
    version: ReadVersion,
    result: Result<MAVLinkMessageRaw, MessageReadError>,
)
    requires
        old(reader).wf(),
        call_ensures(MavlinkReader::<R>::read_raw_message::<M>, (reader, version), result),
        !(result matches Err(MessageReadError::Io(_))),
    ensures
        exists|frame: Seq<u8>| #[trigger]
            returned::<M, NoSigning>(frame, version, None) && copied_from(frame, result),
{
    let before = *old(reader);
    let after = *final(reader);
    let events = new_events(before.source().history(), after.source().history());
    let arrived = before.pending() + delivered(events);
    let frame = lemma_raw_frame::<M, NoSigning>(
        arrived,
        after.pending(),
        version,
        None,
        result,
    );
    assert(returned::<M, NoSigning>(frame, version, None));
}

/// A message that is read under a signature policy was sent, and the policy may have
/// accepted it: a MAVLink 2 packet is returned only if the verifier may answer so for it,
/// whatever version was asked for.
pub proof fn law_signed_message_was_accepted<R: Read, M: Message, V: SignatureVerifier>(
    reader: &mut MavlinkReader<R>,
    version: ReadVersion,
    signing_data: &SigningData<V>,
    result: Result<(MavHeader, M), MessageReadError>,
)
    requires
        old(reader).wf(),
        call_ensures(
            MavlinkReader::<R>::read_message_signed::<M, V>,
            (reader, version, signing_data),
            result,
        ),
        !(result matches Err(MessageReadError::Io(_))),
    ensures
        exists|frame: Seq<u8>| #[trigger]
            returned::<M, V>(frame, version, Some(signing_data)) && made_of::<M>(
                packet_in(frame),
                result,
            ),
{
    let before = *old(reader);
    let after = *final(reader);
    let events = new_events(before.source().history(), after.source().history());
    let arrived = before.pending() + delivered(events);
    let frame = lemma_message_frame::<M, V>(
        arrived,
        after.pending(),
        version,
        Some(signing_data),
        result,
    );
    assert(returned::<M, V>(frame, version, Some(signing_data)));
}

/// A raw message that is read under a signature policy was sent, and the policy may have
/// accepted it.
pub proof fn law_signed_raw_message_was_accepted<R: Read, M: Message, V: SignatureVerifier>(
    reader: &mut MavlinkReader<R>,
    version: ReadVersion,
    signing_data: &SigningData<V>,
    result: Result<MAVLinkMessageRaw, MessageReadError>,
)
    requires
        old(reader).wf(),
        call_ensures(
            MavlinkReader::<R>::read_raw_message_signed::<M, V>,
            (reader, version, signing_data),
            result,
        ),
        !(result matches Err(MessageReadError::Io(_))),
    ensures
        exists|frame: Seq<u8>| #[trigger]
            returned::<M, V>(frame, version, Some(signing_data)) && copied_from(frame, result),
{
    let before = *old(reader);
    let after = *final(reader);
    let events = new_events(before.source().history(), after.source().history());
    let arrived = before.pending() + delivered(events);
    let frame = lemma_raw_frame::<M, V>(
        arrived,
        after.pending(),
        version,
        Some(signing_data),
        result,
    );
    assert(returned::<M, V>(frame, version, Some(signing_data)));
}

/// A message that a poll returns was sent, and the policy, if there is one, may have
/// accepted it.
pub proof fn law_polled_message_was_sent<R, M: Message, V: SignatureVerifier>(
    reader: &mut AsyncMavlinkReader<R>,
    version: ReadVersion,
    signing_data: Option<&SigningData<V>>,
    result: Result<(MavHeader, M), MessageReadError>,
)
    requires
        call_ensures(
            AsyncMavlinkReader::<R>::poll_message::<M, V>,
            (reader, version, signing_data),
            Some(result),
        ),
    ensures
        exists|frame: Seq<u8>| #[trigger]
            returned::<M, V>(frame, version, signing_data) && made_of::<M>(
                packet_in(frame),
                result,
            ),
{
    let frame = lemma_message_frame::<M, V>(
        old(reader).pending(),
        final(reader).pending(),
        version,
        signing_data,
        result,
    );
    assert(returned::<M, V>(frame, version, signing_data));
}

/// A raw message that a poll returns was sent, and the policy, if there is one, may have
/// accepted it.
pub proof fn law_polled_raw_message_was_sent<R, M: Message, V: SignatureVerifier>(
    reader: &mut AsyncMavlinkReader<R>,
    version: ReadVersion,
    signing_data: Option<&SigningData<V>>,
    result: Result<MAVLinkMessageRaw, MessageReadError>,
)
    requires
        call_ensures(
            AsyncMavlinkReader::<R>::poll_raw_message::<M, V>,
            (reader, version, signing_data),
            Some(result),
        ),
    ensures
        exists|frame: Seq<u8>| #[trigger]
            returned::<M, V>(frame, version, signing_data) && copied_from(frame, result),
{
    let frame = lemma_raw_frame::<M, V>(
        old(reader).pending(),
        final(reader).pending(),
        version,
        signing_data,
        result,
    );
    assert(returned::<M, V>(frame, version, signing_data));
}

/// Where the verifier accepts nothing, no MAVLink 2 packet is returned, whatever version is
/// asked for.
pub proof fn law_refusing_verifier_lets_no_second_version_through<
    R: Read,
    M: Message,
    V: SignatureVerifier,
>(
    reader: &mut MavlinkReader<R>,
    version: ReadVersion,
    signing_data: &SigningData<V>,
    result: Result<MAVLinkMessageRaw, MessageReadError>,
)
    requires
        old(reader).wf(),
        call_ensures(
            MavlinkReader::<R>::read_raw_message_signed::<M, V>,
            (reader, version, signing_data),
            result,
        ),
        forall|message: MAVLinkV2MessageRaw| !#[trigger] call_ensures(
            V::verify_signature,
            (&signing_data.verifier, &message),
            true,
        ),
    ensures
        match result {
            Ok(raw) => raw is V1,
            Err(error) => error is Io,
        },
{
    if !(result matches Err(MessageReadError::Io(_))) {
        law_signed_raw_message_was_accepted::<R, M, V>(reader, version, signing_data, result);
    }
}

} // verus!
