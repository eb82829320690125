//! Decisions of a reader: which frame is passed on, and as what.
use vstd::prelude::*;

use super::model::{
    every_frame, find_message, from_marker, lemma_find_by_frames, lemma_find_front,
    lemma_find_scanned, lemma_next_none, lemma_walked_append, lemma_walked_find,
    lemma_walked_further, lemma_walked_same, next_frame, walked, Accept, Found,
};
use crate::error::{MessageReadError, ParserError};
use crate::frame_decoder::laws::law_commit_matches_bytewise_resynchronization;
use crate::frame_decoder::lemmas::{is_suffix, lemma_scan_again, settled};
use crate::frame_decoder::marker::lemma_before_first_marker;
use crate::frame_decoder::model::{scan, DecoderState, ExtraTable, Scan, Tally};
use crate::frame_decoder::{
    agrees, CommitError, DecodeProgress, DecodeStatus, FrameDecoder, FrameRef, MAX_FRAME_LEN,
};
use crate::message::{
    law_raw_message_reads_like_its_frame, padded, protocol_version, MAVLinkMessageRaw,
    MAVLinkV2MessageRaw, MavHeader, MavlinkVersion, Message, ReadVersion,
};
use crate::signing::{SignatureVerifier, SigningData};
use crate::wire;
use crate::wire::FrameVersion;

verus! {

/// The CRC extra bytes of the dialect `M` are those of `table`.
pub open spec fn dialect_agrees<M: Message>(table: ExtraTable) -> bool {
    forall|version: FrameVersion, id: u32, extra: u8|
        #![trigger call_ensures(M::extra_crc, (id,), extra), table(version, id)]
        call_ensures(M::extra_crc, (id,), extra) ==> extra == table(version, id)
}

/// The dialect `M` may give an extra byte for which the checksum of `frame` matches.
pub open spec fn dialect_accepts<M: Message>(frame: Seq<u8>) -> bool {
    let version = wire::version_of(frame[0])->0;
    exists|extra: u8| #[trigger]
        call_ensures(M::extra_crc, (wire::message_id(frame, version),), extra)
            && wire::checksum_matches(frame, version, extra)
}

/// Whether a read accepts the version of `frame`.
pub open spec fn version_accepted(expected: ReadVersion, frame: Seq<u8>) -> bool {
    match expected {
        ReadVersion::Any => true,
        ReadVersion::Single(version) => wire::version_of(frame[0]) matches Some(actual)
            && protocol_version(actual) == version,
    }
}

/// A reader that does not look at signatures passes on the frames of the accepted
/// versions.
pub open spec fn by_version(expected: ReadVersion) -> Accept {
    |frame: Seq<u8>| version_accepted(expected, frame)
}

/// What a signature policy may decide on `frame`.
pub open spec fn signature_verdict<V: SignatureVerifier>(
    frame: Seq<u8>,
    expected: ReadVersion,
    signing_data: &SigningData<V>,
    valid: bool,
) -> bool {
    match wire::version_of(frame[0])->0 {
        // Signing is explicitly ignored when the caller requested MAVLink 1.
        FrameVersion::V1 => valid == (expected == ReadVersion::Single(MavlinkVersion::V1)
            || signing_data.config.allow_unsigned),
        FrameVersion::V2 => exists|message: MAVLinkV2MessageRaw|
            padded(message.0@, frame) && #[trigger] call_ensures(
                V::verify_signature,
                (&signing_data.verifier, &message),
                valid,
            ),
    }
}

/// What a reader may decide on `frame`: pass it on, or not.
pub open spec fn may_decide<V: SignatureVerifier>(
    frame: Seq<u8>,
    expected: ReadVersion,
    signing_data: Option<&SigningData<V>>,
    passed: bool,
) -> bool {
    if version_accepted(expected, frame) {
        match signing_data {
            None => passed,
            Some(signing_data) => signature_verdict(frame, expected, signing_data, passed),
        }
    } else {
        !passed
    }
}

/// The reader decides as `accept` says.
pub open spec fn decides<V: SignatureVerifier>(
    expected: ReadVersion,
    signing_data: Option<&SigningData<V>>,
    accept: Accept,
) -> bool {
    forall|frame: Seq<u8>, passed: bool| #[trigger]
        may_decide(frame, expected, signing_data, passed) ==> passed == accept(frame)
}

/// The dialect and the reader answer as `table` and `accept` say.
pub open spec fn answers<M: Message, V: SignatureVerifier>(
    expected: ReadVersion,
    signing_data: Option<&SigningData<V>>,
    table: ExtraTable,
    accept: Accept,
) -> bool {
    &&& dialect_agrees::<M>(table)
    &&& decides(expected, signing_data, accept)
}

/// The header that `frame` carries.
pub open spec fn header_of(frame: Seq<u8>) -> MavHeader {
    let version = wire::version_of(frame[0])->0;
    MavHeader {
        system_id: wire::system_id(frame, version),
        component_id: wire::component_id(frame, version),
        sequence: wire::sequence(frame, version),
    }
}

/// `parsed` is what the dialect `M` may make of the payload of `frame`.
pub open spec fn parses<M: Message>(frame: Seq<u8>, parsed: Result<M, ParserError>) -> bool {
    let version = wire::version_of(frame[0])->0;
    exists|payload: &[u8]|
        payload@ == wire::payload(frame, version) && #[trigger] call_ensures(
            M::parse,
            (protocol_version(version), wire::message_id(frame, version), payload),
            parsed,
        )
}

/// `outcome` is what reading `frame` as a message of the dialect `M` may come to.
pub open spec fn reads_as<M: Message>(
    frame: Seq<u8>,
    outcome: Result<(MavHeader, M), MessageReadError>,
) -> bool {
    match outcome {
        Ok((header, message)) => header == header_of(frame) && parses::<M>(frame, Ok(message)),
        Err(MessageReadError::Parse(error)) => parses::<M>(frame, Err(error)),
        Err(MessageReadError::Io(_)) => false,
    }
}

/// The ready frame of `state`, if there is one, is what a scan finds first.
pub open spec fn confirmed<M: Message>(state: DecoderState) -> bool {
    state.frame matches Some(len) ==> forall|table: ExtraTable| #[trigger]
        dialect_agrees::<M>(table) ==> scan(state.pending, MAX_FRAME_LEN as nat, table) == (Scan {
            skipped: 0,
            tally: Tally::zero(),
            frame: Some(len),
        })
}

/// Commits bytes, with the extra bytes of the dialect `M`.
pub(crate) fn commit_for<M: Message>(
    decoder: &mut FrameDecoder<MAX_FRAME_LEN>,
    count: usize,
) -> (result: Result<DecodeProgress, CommitError>)
    requires
        old(decoder).wf(),
        confirmed::<M>(old(decoder)@),
        old(decoder)@.frame is Some ==> count == 0,
    ensures
        final(decoder).wf(),
        result is Ok <==> count <= old(decoder)@.room(MAX_FRAME_LEN as nat),
        result is Err ==> *final(decoder) == *old(decoder),
        result matches Ok(progress) ==> {
            let arrived = old(decoder)@.pending + old(decoder).spare().take(count as int);
            &&& progress.status is FrameReady <==> final(decoder)@.frame is Some
            &&& is_suffix(final(decoder)@.pending, arrived)
            &&& confirmed::<M>(final(decoder)@)
            &&& old(decoder)@.frame is None ==> (final(decoder)@.frame matches Some(len)
                ==> dialect_accepts::<M>(final(decoder)@.pending.take(len as int)))
            &&& old(decoder)@.frame is Some ==> final(decoder)@ == old(decoder)@
            &&& final(decoder)@.frame is None ==> settled(final(decoder)@, MAX_FRAME_LEN as nat)
                && final(decoder)@.pending.len() < MAX_FRAME_LEN
            &&& old(decoder)@.frame is None ==> forall|table: ExtraTable| #[trigger]
                dialect_agrees::<M>(table) ==> {
                    let outcome = scan(arrived, MAX_FRAME_LEN as nat, table);
                    &&& final(decoder)@.frame == outcome.frame
                    &&& final(decoder)@.pending == arrived.skip(outcome.skipped as int)
                }
        },
{
    let ghost before = decoder@;
    let ghost bytes = decoder.spare().take(count as int);
    let extra_crc = |version: FrameVersion, id: u32| -> (extra: u8)
        ensures
            call_ensures(M::extra_crc, (id,), extra),
        { M::extra_crc(id) };
    let result = decoder.commit(count, extra_crc);
    proof {
        if count <= before.room(MAX_FRAME_LEN as nat) {
            let arrived = before.pending + bytes;
            assert(before.frame is Some ==> arrived =~= before.pending);
            assert forall|table: ExtraTable| #[trigger] dialect_agrees::<M>(table) implies agrees(
                extra_crc,
                table,
            ) by {
                assert forall|version: FrameVersion, id: u32, extra: u8| #[trigger]
                    call_ensures(extra_crc, (version, id), extra) implies extra == table(
                    version,
                    id,
                ) by {}
            }
            if before.frame is None {
                assert forall|table: ExtraTable| #[trigger] dialect_agrees::<M>(table) implies ({
                    let outcome = scan(arrived, MAX_FRAME_LEN as nat, table);
                    &&& decoder@.frame == outcome.frame
                    &&& decoder@.pending == arrived.skip(outcome.skipped as int)
                    &&& scan(decoder@.pending, MAX_FRAME_LEN as nat, table) == (Scan {
                        skipped: 0,
                        tally: Tally::zero(),
                        frame: outcome.frame,
                    })
                }) by {
                    assert(agrees(extra_crc, table));
                    law_commit_matches_bytewise_resynchronization(
                        before,
                        bytes,
                        MAX_FRAME_LEN as nat,
                        table,
                    );
                    lemma_scan_again(arrived, MAX_FRAME_LEN as nat, table);
                }
            }
        }
    }
    result
}

/// Whether a read accepts frames of this version.
pub fn version_accepts(expected: ReadVersion, actual: FrameVersion) -> (accepts: bool)
    ensures
        accepts == match expected {
            ReadVersion::Any => true,
            ReadVersion::Single(version) => protocol_version(actual) == version,
        },
{
    match expected {
        ReadVersion::Any => true,
        ReadVersion::Single(expected) => expected == frame_version(actual),
    }
}

/// The protocol version of a wire version.
pub fn frame_version(version: FrameVersion) -> (protocol: MavlinkVersion)
    ensures
        protocol == protocol_version(version),
{
    match version {
        FrameVersion::V1 => MavlinkVersion::V1,
        FrameVersion::V2 => MavlinkVersion::V2,
    }
}

/// The header that a frame carries.
pub fn frame_header(frame: FrameRef<'_>) -> (header: MavHeader)
    requires
        frame.wf(),
    ensures
        header == header_of(frame@),
{
    MavHeader {
        sequence: frame.sequence(),
        system_id: frame.system_id(),
        component_id: frame.component_id(),
    }
}

/// The header that a raw message carries.
pub fn raw_header(raw: &MAVLinkMessageRaw) -> (header: MavHeader)
    ensures
        header == (MavHeader {
            system_id: wire::system_id(raw@, raw.wire_version()),
            component_id: wire::component_id(raw@, raw.wire_version()),
            sequence: wire::sequence(raw@, raw.wire_version()),
        }),
{
    MavHeader {
        sequence: raw.sequence(),
        system_id: raw.system_id(),
        component_id: raw.component_id(),
    }
}

/// Copies a frame.
pub fn raw_from_frame(frame: FrameRef<'_>) -> (raw: MAVLinkMessageRaw)
    requires
        frame.wf(),
    ensures
        raw.holds(frame@, frame.wire_version()),
{
    MAVLinkMessageRaw::from_bytes(frame.bytes(), frame.version())
}

/// Whether a signature policy passes a message on.
pub fn signature_is_valid<V: SignatureVerifier>(
    raw: &MAVLinkMessageRaw,
    version: ReadVersion,
    signing_data: &SigningData<V>,
) -> (valid: bool)
    ensures
        match raw {
            MAVLinkMessageRaw::V1(_) => valid == (version == ReadVersion::Single(MavlinkVersion::V1)
                || signing_data.config.allow_unsigned),
            MAVLinkMessageRaw::V2(message) => call_ensures(
                V::verify_signature,
                (&signing_data.verifier, message),
                valid,
            ),
        },
{
    match raw {
        // Signing is explicitly ignored when the caller requested MAVLink 1.
        MAVLinkMessageRaw::V1(_) if version == ReadVersion::Single(MavlinkVersion::V1) => true,
        MAVLinkMessageRaw::V1(_) => signing_data.config.allow_unsigned,
        MAVLinkMessageRaw::V2(message) => signing_data.verify_signature(message),
    }
}

/// Parses the payload of a frame.
fn parse_frame<M: Message>(
    version: MavlinkVersion,
    id: u32,
    payload: &[u8],
    header: MavHeader,
    Ghost(frame): Ghost<Seq<u8>>,
) -> (outcome: Result<(MavHeader, M), MessageReadError>)
    requires
        wire::version_of(frame[0]) matches Some(actual) && {
            &&& version == protocol_version(actual)
            &&& id == wire::message_id(frame, actual)
            &&& payload@ == wire::payload(frame, actual)
        },
        header == header_of(frame),
    ensures
        reads_as::<M>(frame, outcome),
{
    let parsed = M::parse(version, id, payload);
    let ghost result = parsed;
    assert(parses::<M>(frame, result));
    match parsed {
        Ok(message) => Ok((header, message)),
        Err(error) => Err(MessageReadError::from(error)),
    }
}

/// A ready frame is the next one, and releasing it leaves what follows.
proof fn lemma_ready<M: Message>(state: DecoderState)
    requires
        state.valid(MAX_FRAME_LEN as nat),
        state.frame is Some,
        confirmed::<M>(state),
    ensures
        state.advanced().pending.len() < state.pending.len(),
        forall|table: ExtraTable| #[trigger]
            dialect_agrees::<M>(table) ==> next_frame(state.pending, table) == (Found {
                frame: Some(state.pending.take(state.frame->0 as int)),
                rest: state.advanced().pending,
            }),
{
    let len = state.frame->0;
    let behind = state.pending.skip(len as int);
    lemma_before_first_marker(behind);
    assert(state.advanced().pending =~= from_marker(behind));
    assert forall|table: ExtraTable| #[trigger] dialect_agrees::<M>(table) implies next_frame(
        state.pending,
        table,
    ) == (Found {
        frame: Some(state.pending.take(len as int)),
        rest: state.advanced().pending,
    }) by {
        lemma_find_front(state.pending, table, every_frame());
    }
}

/// Looks at the retained bytes again: drops what can be dropped, and says whether a
/// frame is ready.
fn look<M: Message>(decoder: &mut FrameDecoder<MAX_FRAME_LEN>) -> (ready: bool)
    requires
        old(decoder).wf(),
        confirmed::<M>(old(decoder)@),
        old(decoder)@.frame matches Some(len) ==> dialect_accepts::<M>(
            old(decoder)@.pending.take(len as int),
        ),
    ensures
        final(decoder).wf(),
        confirmed::<M>(final(decoder)@),
        final(decoder)@.pending.len() <= old(decoder)@.pending.len(),
        ready == (final(decoder)@.frame is Some),
        final(decoder)@.frame matches Some(len) ==> dialect_accepts::<M>(
            final(decoder)@.pending.take(len as int),
        ),
        !ready ==> final(decoder)@.pending.len() < MAX_FRAME_LEN,
        forall|table: ExtraTable| #[trigger]
            dialect_agrees::<M>(table) ==> {
                let next = next_frame(old(decoder)@.pending, table);
                &&& next_frame(final(decoder)@.pending, table) == next
                &&& !ready ==> next == (Found { frame: None, rest: final(decoder)@.pending })
            },
{
    let ghost before = decoder@;
    let result = commit_for::<M>(decoder, 0);
    proof {
        assert(before.pending + old(decoder).spare().take(0) =~= before.pending);
        assert forall|table: ExtraTable| #[trigger] dialect_agrees::<M>(table) implies ({
            let next = next_frame(before.pending, table);
            &&& next_frame(decoder@.pending, table) == next
            &&& decoder@.frame is None ==> next == (Found { frame: None, rest: decoder@.pending })
        }) by {
            if before.frame is None {
                lemma_find_scanned(before.pending, table, every_frame());
                if decoder@.frame is None {
                    lemma_scan_again(before.pending, MAX_FRAME_LEN as nat, table);
                    lemma_find_front(decoder@.pending, table, every_frame());
                }
            }
        }
    }
    match result {
        Ok(progress) => progress.status == DecodeStatus::FrameReady,
        Err(_) => false,
    }
}

/// `frame` is a frame of the dialect `M` that the reader may pass on.
pub open spec fn may_deliver<M: Message, V: SignatureVerifier>(
    frame: Seq<u8>,
    version: ReadVersion,
    signing_data: Option<&SigningData<V>>,
) -> bool {
    &&& wire::is_any_frame(frame)
    &&& dialect_accepts::<M>(frame)
    &&& may_decide(frame, version, signing_data, true)
}

/// The reader may withhold each of `frames`.
pub open spec fn may_withhold<V: SignatureVerifier>(
    frames: Seq<Seq<u8>>,
    version: ReadVersion,
    signing_data: Option<&SigningData<V>>,
) -> bool {
    forall|i: int|
        0 <= i < frames.len() ==> may_decide(#[trigger] frames[i], version, signing_data, false)
}

/// `withheld` are the first frames in `bytes`, and releasing them leads to where `rest`
/// leads, whatever the extra bytes of the dialect `M` are.
pub open spec fn leads_to<M: Message>(
    bytes: Seq<u8>,
    withheld: Seq<Seq<u8>>,
    rest: Seq<u8>,
) -> bool {
    forall|table: ExtraTable| #[trigger]
        dialect_agrees::<M>(table) ==> walked(bytes, withheld, rest, table)
}

/// The reader may come from `bytes` to `rest`, withholding every frame on the way.
#[verifier::opaque]
pub open spec fn comes_to<M: Message, V: SignatureVerifier>(
    bytes: Seq<u8>,
    version: ReadVersion,
    signing_data: Option<&SigningData<V>>,
    rest: Seq<u8>,
) -> bool {
    exists|withheld: Seq<Seq<u8>>| #[trigger]
        may_withhold(withheld, version, signing_data) && leads_to::<M>(bytes, withheld, rest)
}

/// In `bytes`, the reader comes to `frame`, or to the end where that is `None`, and
/// `rest` is left: in the order in which frames are decoded, each frame before it is
/// one that the reader may withhold.
#[verifier::opaque]
pub open spec fn finds<M: Message, V: SignatureVerifier>(
    bytes: Seq<u8>,
    version: ReadVersion,
    signing_data: Option<&SigningData<V>>,
    frame: Option<Seq<u8>>,
    rest: Seq<u8>,
) -> bool {
    exists|reached: Seq<u8>| #[trigger]
        comes_to::<M, V>(bytes, version, signing_data, reached) && next_is::<M>(
            reached,
            frame,
            rest,
        )
}

/// The next frame in `bytes` is this one, and `rest` is left behind it.
pub open spec fn next_is<M: Message>(
    bytes: Seq<u8>,
    frame: Option<Seq<u8>>,
    rest: Seq<u8>,
) -> bool {
    forall|table: ExtraTable| #[trigger]
        dialect_agrees::<M>(table) ==> next_frame(bytes, table) == (Found { frame, rest })
}

/// A reader begins where it begins.
pub proof fn lemma_comes_begin<M: Message, V: SignatureVerifier>(
    bytes: Seq<u8>,
    version: ReadVersion,
    signing_data: Option<&SigningData<V>>,
)
    ensures
        comes_to::<M, V>(bytes, version, signing_data, bytes),
{
    reveal(comes_to);
    let none = Seq::<Seq<u8>>::empty();
    assert(may_withhold(none, version, signing_data));
    assert(leads_to::<M>(bytes, none, bytes));
}

/// A reader that may go on from where it may come to may come further.
pub proof fn lemma_comes_further<M: Message, V: SignatureVerifier>(
    bytes: Seq<u8>,
    version: ReadVersion,
    signing_data: Option<&SigningData<V>>,
    middle: Seq<u8>,
    rest: Seq<u8>,
)
    requires
        comes_to::<M, V>(bytes, version, signing_data, middle),
        comes_to::<M, V>(middle, version, signing_data, rest),
    ensures
        comes_to::<M, V>(bytes, version, signing_data, rest),
{
    reveal(comes_to);
    let first = choose|withheld: Seq<Seq<u8>>| #[trigger]
        may_withhold(withheld, version, signing_data) && leads_to::<M>(bytes, withheld, middle);
    let second = choose|withheld: Seq<Seq<u8>>| #[trigger]
        may_withhold(withheld, version, signing_data) && leads_to::<M>(middle, withheld, rest);
    let both = first + second;
    assert forall|i: int| 0 <= i < both.len() implies may_decide(
        #[trigger] both[i],
        version,
        signing_data,
        false,
    ) by {
        if i < first.len() {
            assert(both[i] == first[i]);
        } else {
            assert(both[i] == second[i - first.len()]);
        }
    }
    assert(may_withhold(both, version, signing_data));
    assert forall|table: ExtraTable| #[trigger] dialect_agrees::<M>(table) implies walked(
        bytes,
        both,
        rest,
        table,
    ) by {
        lemma_walked_further(bytes, first, middle, second, rest, table);
    }
}

/// A reader may come to bytes in which the same frame is next.
pub proof fn lemma_comes_same<M: Message, V: SignatureVerifier>(
    bytes: Seq<u8>,
    version: ReadVersion,
    signing_data: Option<&SigningData<V>>,
    rest: Seq<u8>,
    other: Seq<u8>,
)
    requires
        comes_to::<M, V>(bytes, version, signing_data, rest),
        forall|table: ExtraTable| #[trigger]
            dialect_agrees::<M>(table) ==> next_frame(rest, table) == next_frame(other, table),
    ensures
        comes_to::<M, V>(bytes, version, signing_data, other),
{
    reveal(comes_to);
    let none = Seq::<Seq<u8>>::empty();
    assert(may_withhold(none, version, signing_data));
    assert(leads_to::<M>(rest, none, other));
    lemma_comes_further::<M, V>(bytes, version, signing_data, rest, other);
}

/// A reader may withhold the next frame.
pub proof fn lemma_comes_past<M: Message, V: SignatureVerifier>(
    bytes: Seq<u8>,
    version: ReadVersion,
    signing_data: Option<&SigningData<V>>,
    middle: Seq<u8>,
    frame: Seq<u8>,
    rest: Seq<u8>,
)
    requires
        comes_to::<M, V>(bytes, version, signing_data, middle),
        next_is::<M>(middle, Some(frame), rest),
        may_decide(frame, version, signing_data, false),
    ensures
        comes_to::<M, V>(bytes, version, signing_data, rest),
{
    reveal(comes_to);
    let one = seq![frame];
    assert(may_withhold(one, version, signing_data));
    assert forall|table: ExtraTable| #[trigger] dialect_agrees::<M>(table) implies walked(
        middle,
        one,
        rest,
        table,
    ) by {
        assert(one.drop_first() =~= Seq::<Seq<u8>>::empty());
        assert(walked(rest, Seq::<Seq<u8>>::empty(), rest, table));
    }
    assert(leads_to::<M>(middle, one, rest));
    lemma_comes_further::<M, V>(bytes, version, signing_data, middle, rest);
}

/// A reader finds what it finds from where it may come to.
pub proof fn lemma_finds_further<M: Message, V: SignatureVerifier>(
    bytes: Seq<u8>,
    version: ReadVersion,
    signing_data: Option<&SigningData<V>>,
    middle: Seq<u8>,
    frame: Option<Seq<u8>>,
    rest: Seq<u8>,
)
    requires
        comes_to::<M, V>(bytes, version, signing_data, middle),
        finds::<M, V>(middle, version, signing_data, frame, rest),
    ensures
        finds::<M, V>(bytes, version, signing_data, frame, rest),
{
    reveal(finds);
    let reached = choose|reached: Seq<u8>| #[trigger]
        comes_to::<M, V>(middle, version, signing_data, reached) && next_is::<M>(
            reached,
            frame,
            rest,
        );
    lemma_comes_further::<M, V>(bytes, version, signing_data, middle, reached);
}

/// A reader that has come to the end goes on when more bytes arrive.
pub proof fn lemma_comes_more<M: Message, V: SignatureVerifier>(
    bytes: Seq<u8>,
    version: ReadVersion,
    signing_data: Option<&SigningData<V>>,
    left: Seq<u8>,
    more: Seq<u8>,
    retained: Seq<u8>,
)
    requires
        finds::<M, V>(bytes, version, signing_data, None, left),
        forall|table: ExtraTable| #[trigger]
            dialect_agrees::<M>(table) ==> retained == (left + more).skip(
                scan(left + more, MAX_FRAME_LEN as nat, table).skipped as int,
            ),
    ensures
        comes_to::<M, V>(bytes + more, version, signing_data, retained),
{
    reveal(finds);
    let reached = choose|reached: Seq<u8>| #[trigger]
        comes_to::<M, V>(bytes, version, signing_data, reached) && next_is::<M>(
            reached,
            None,
            left,
        );
    assert forall|table: ExtraTable| #[trigger] dialect_agrees::<M>(table) implies next_frame(
        reached,
        table,
    ) == next_frame(left, table) by {
        lemma_next_none(reached, table);
    }
    lemma_comes_same::<M, V>(bytes, version, signing_data, reached, left);
    reveal(comes_to);
    let withheld = choose|withheld: Seq<Seq<u8>>| #[trigger]
        may_withhold(withheld, version, signing_data) && leads_to::<M>(bytes, withheld, left);
    assert forall|table: ExtraTable| #[trigger] dialect_agrees::<M>(table) implies walked(
        bytes + more,
        withheld,
        retained,
        table,
    ) by {
        lemma_next_none(reached, table);
        lemma_walked_append(bytes, withheld, left, more, table);
        lemma_find_scanned(left + more, table, every_frame());
        lemma_walked_same(
            bytes + more,
            bytes + more,
            withheld,
            left + more,
            retained,
            table,
        );
    }
    assert(leads_to::<M>(bytes + more, withheld, retained));
}

/// Where the dialect and the reader answer as `table` and `accept` say, what is found is
/// the first frame that is passed on.
pub proof fn law_first_accepted_frame_is_found<M: Message, V: SignatureVerifier>(
    bytes: Seq<u8>,
    version: ReadVersion,
    signing_data: Option<&SigningData<V>>,
    frame: Option<Seq<u8>>,
    rest: Seq<u8>,
    table: ExtraTable,
    accept: Accept,
)
    requires
        finds::<M, V>(bytes, version, signing_data, frame, rest),
        frame matches Some(frame) ==> may_decide(frame, version, signing_data, true),
        answers::<M, V>(version, signing_data, table, accept),
    ensures
        find_message(bytes, table, accept) == (Found { frame, rest }),
{
    reveal(finds);
    reveal(comes_to);
    let reached = choose|reached: Seq<u8>| #[trigger]
        comes_to::<M, V>(bytes, version, signing_data, reached) && next_is::<M>(
            reached,
            frame,
            rest,
        );
    let withheld = choose|withheld: Seq<Seq<u8>>| #[trigger]
        may_withhold(withheld, version, signing_data) && leads_to::<M>(bytes, withheld, reached);
    assert(walked(bytes, withheld, reached, table));
    assert forall|i: int| 0 <= i < withheld.len() implies !accept(#[trigger] withheld[i]) by {
        assert(may_decide(withheld[i], version, signing_data, false));
    }
    lemma_walked_find(bytes, withheld, reached, table, accept);
    lemma_find_by_frames(reached, table, accept);
}

/// `result` is what the reader may make of the first message in `bytes`, and `left` is
/// what it leaves. Where it is an I/O error, there is none.
pub open spec fn answered<M: Message, V: SignatureVerifier, T>(
    bytes: Seq<u8>,
    left: Seq<u8>,
    version: ReadVersion,
    signing_data: Option<&SigningData<V>>,
    carried_by: spec_fn(Seq<u8>, Result<T, MessageReadError>) -> bool,
    result: Result<T, MessageReadError>,
) -> bool {
    if result matches Err(MessageReadError::Io(_)) {
        finds::<M, V>(bytes, version, signing_data, None, left)
    } else {
        exists|frame: Seq<u8>| #[trigger]
            may_deliver::<M, V>(frame, version, signing_data) && carried_by(frame, result)
                && finds::<M, V>(bytes, version, signing_data, Some(frame), left)
    }
}

/// What looking for a message in `bytes` comes to: the answer, or that more bytes are
/// needed.
pub open spec fn polled<M: Message, V: SignatureVerifier, T>(
    bytes: Seq<u8>,
    left: Seq<u8>,
    version: ReadVersion,
    signing_data: Option<&SigningData<V>>,
    carried_by: spec_fn(Seq<u8>, Result<T, MessageReadError>) -> bool,
    outcome: Option<Result<T, MessageReadError>>,
) -> bool {
    match outcome {
        None => finds::<M, V>(bytes, version, signing_data, None, left),
        Some(result) => {
            &&& !(result matches Err(MessageReadError::Io(_)))
            &&& answered::<M, V, T>(bytes, left, version, signing_data, carried_by, result)
        },
    }
}

/// A read hands out a frame as a parsed message.
pub open spec fn message_of<M: Message>() -> spec_fn(
    Seq<u8>,
    Result<(MavHeader, M), MessageReadError>,
) -> bool {
    |frame: Seq<u8>, result: Result<(MavHeader, M), MessageReadError>| reads_as::<M>(frame, result)
}

/// A read hands out a frame as a raw message.
pub open spec fn raw_message_of() -> spec_fn(
    Seq<u8>,
    Result<MAVLinkMessageRaw, MessageReadError>,
) -> bool {
    |frame: Seq<u8>, result: Result<MAVLinkMessageRaw, MessageReadError>| raw_of(frame, result)
}

/// `outcome` is the raw message that holds `frame`.
pub open spec fn raw_of(
    frame: Seq<u8>,
    outcome: Result<MAVLinkMessageRaw, MessageReadError>,
) -> bool {
    outcome matches Ok(raw) && raw.holds(frame, wire::version_of(frame[0])->0)
}

proof fn lemma_polled_none<M: Message, V: SignatureVerifier>(
    bytes: Seq<u8>,
    version: ReadVersion,
    signing_data: Option<&SigningData<V>>,
    middle: Seq<u8>,
    left: Seq<u8>,
)
    requires
        comes_to::<M, V>(bytes, version, signing_data, middle),
        next_is::<M>(middle, None, left),
    ensures
        finds::<M, V>(bytes, version, signing_data, None, left),
{
    reveal(finds);
}

proof fn lemma_polled_some<M: Message, V: SignatureVerifier, T>(
    bytes: Seq<u8>,
    version: ReadVersion,
    signing_data: Option<&SigningData<V>>,
    middle: Seq<u8>,
    frame: Seq<u8>,
    left: Seq<u8>,
    carried_by: spec_fn(Seq<u8>, Result<T, MessageReadError>) -> bool,
    result: Result<T, MessageReadError>,
)
    requires
        comes_to::<M, V>(bytes, version, signing_data, middle),
        next_is::<M>(middle, Some(frame), left),
        may_deliver::<M, V>(frame, version, signing_data),
        carried_by(frame, result),
        !(result matches Err(MessageReadError::Io(_))),
    ensures
        polled::<M, V, T>(bytes, left, version, signing_data, carried_by, Some(result)),
{
    reveal(finds);
    assert(finds::<M, V>(bytes, version, signing_data, Some(frame), left));
}

/// Takes the next message out of a decoder, or says that it needs more bytes.
pub fn try_decode_message<M: Message, V: SignatureVerifier>(
    decoder: &mut FrameDecoder<MAX_FRAME_LEN>,
    version: ReadVersion,
    signing_data: Option<&SigningData<V>>,
) -> (outcome: Option<Result<(MavHeader, M), MessageReadError>>)
    requires
        old(decoder).wf(),
        confirmed::<M>(old(decoder)@),
        old(decoder)@.frame matches Some(len) ==> dialect_accepts::<M>(
            old(decoder)@.pending.take(len as int),
        ),
    ensures
        final(decoder).wf(),
        final(decoder)@.frame is None,
        final(decoder)@.pending.len() < MAX_FRAME_LEN,
        polled::<M, V, (MavHeader, M)>(
            old(decoder)@.pending,
            final(decoder)@.pending,
            version,
            signing_data,
            message_of::<M>(),
            outcome,
        ),
{
    let ghost all = decoder@.pending;
    proof {
        lemma_comes_begin::<M, V>(all, version, signing_data);
    }
    loop
        invariant
            all == old(decoder)@.pending,
            decoder.wf(),
            confirmed::<M>(decoder@),
            decoder@.frame matches Some(len) ==> dialect_accepts::<M>(
                decoder@.pending.take(len as int),
            ),
            comes_to::<M, V>(all, version, signing_data, decoder@.pending),
        decreases decoder@.pending.len(),
    {
        let ghost before = decoder@.pending;
        if !look::<M>(decoder) {
            proof {
                lemma_polled_none::<M, V>(all, version, signing_data, before, decoder@.pending);
            }
            return None;
        }
        let ghost ready = decoder@;
        proof {
            lemma_comes_same::<M, V>(all, version, signing_data, before, ready.pending);
            lemma_ready::<M>(ready);
        }
        let frame = match decoder.frame() {
            Some(frame) => frame,
            None => {
                assert(false);
                return None;
            },
        };
        let ghost bytes = frame@;
        let ghost left = ready.advanced().pending;
        assert(next_is::<M>(ready.pending, Some(bytes), left));
        if !version_accepts(version, frame.version()) {
            proof {
                lemma_comes_past::<M, V>(all, version, signing_data, ready.pending, bytes, left);
            }
            decoder.advance();
            continue;
        }
        if let Some(signing_data) = signing_data {
            let raw = raw_from_frame(frame);
            let valid = signature_is_valid(&raw, version, signing_data);
            assert(may_decide(bytes, version, Some(signing_data), valid));
            if !valid {
                proof {
                    lemma_comes_past::<M, V>(
                        all,
                        version,
                        Some(signing_data),
                        ready.pending,
                        bytes,
                        left,
                    );
                }
                decoder.advance();
                continue;
            }
            proof {
                law_raw_message_reads_like_its_frame(raw, bytes, frame.wire_version());
            }
            let outcome = parse_frame::<M>(
                raw.version(),
                raw.message_id(),
                raw.payload(),
                raw_header(&raw),
                Ghost(bytes),
            );
            decoder.advance();
            proof {
                lemma_polled_some::<M, V, (MavHeader, M)>(
                    all,
                    version,
                    Some(signing_data),
                    ready.pending,
                    bytes,
                    left,
                    message_of::<M>(),
                    outcome,
                );
            }
            return Some(outcome);
        }
        let outcome = parse_frame::<M>(
            frame_version(frame.version()),
            frame.message_id(),
            frame.payload(),
            frame_header(frame),
            Ghost(bytes),
        );
        decoder.advance();
        proof {
            lemma_polled_some::<M, V, (MavHeader, M)>(
                all,
                version,
                signing_data,
                ready.pending,
                bytes,
                left,
                message_of::<M>(),
                outcome,
            );
        }
        return Some(outcome);
    }
}

/// Takes the next raw message out of a decoder, or says that it needs more bytes.
pub fn try_decode_raw<M: Message, V: SignatureVerifier>(
    decoder: &mut FrameDecoder<MAX_FRAME_LEN>,
    version: ReadVersion,
    signing_data: Option<&SigningData<V>>,
) -> (outcome: Option<Result<MAVLinkMessageRaw, MessageReadError>>)
    requires
        old(decoder).wf(),
        confirmed::<M>(old(decoder)@),
        old(decoder)@.frame matches Some(len) ==> dialect_accepts::<M>(
            old(decoder)@.pending.take(len as int),
        ),
    ensures
        final(decoder).wf(),
        final(decoder)@.frame is None,
        final(decoder)@.pending.len() < MAX_FRAME_LEN,
        polled::<M, V, MAVLinkMessageRaw>(
            old(decoder)@.pending,
            final(decoder)@.pending,
            version,
            signing_data,
            raw_message_of(),
            outcome,
        ),
{
    let ghost all = decoder@.pending;
    proof {
        lemma_comes_begin::<M, V>(all, version, signing_data);
    }
    loop
        invariant
            all == old(decoder)@.pending,
            decoder.wf(),
            confirmed::<M>(decoder@),
            decoder@.frame matches Some(len) ==> dialect_accepts::<M>(
                decoder@.pending.take(len as int),
            ),
            comes_to::<M, V>(all, version, signing_data, decoder@.pending),
        decreases decoder@.pending.len(),
    {
        let ghost before = decoder@.pending;
        if !look::<M>(decoder) {
            proof {
                lemma_polled_none::<M, V>(all, version, signing_data, before, decoder@.pending);
            }
            return None;
        }
        let ghost ready = decoder@;
        proof {
            lemma_comes_same::<M, V>(all, version, signing_data, before, ready.pending);
            lemma_ready::<M>(ready);
        }
        let frame = match decoder.frame() {
            Some(frame) => frame,
            None => {
                assert(false);
                return None;
            },
        };
        let ghost bytes = frame@;
        let ghost left = ready.advanced().pending;
        assert(next_is::<M>(ready.pending, Some(bytes), left));
        if !version_accepts(version, frame.version()) {
            proof {
                lemma_comes_past::<M, V>(all, version, signing_data, ready.pending, bytes, left);
            }
            decoder.advance();
            continue;
        }
        let raw = raw_from_frame(frame);
        let valid = match signing_data {
            Some(signing_data) => signature_is_valid(&raw, version, signing_data),
            None => true,
        };
        assert(may_decide(bytes, version, signing_data, valid));
        decoder.advance();
        if !valid {
            proof {
                lemma_comes_past::<M, V>(all, version, signing_data, ready.pending, bytes, left);
            }
            continue;
        }
        let ghost outcome = Ok::<MAVLinkMessageRaw, MessageReadError>(raw);
        proof {
            lemma_polled_some::<M, V, MAVLinkMessageRaw>(
                all,
                version,
                signing_data,
                ready.pending,
                bytes,
                left,
                raw_message_of(),
                outcome,
            );
        }
        return Some(Ok(raw));
    }
}

} // verus!
