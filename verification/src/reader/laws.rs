//! What holds of single reads.
use vstd::prelude::*;

use super::decode::{
    answers, by_version, dialect_agrees, finds, law_first_accepted_frame_is_found, may_decide,
    may_deliver,
};
use super::model::{
    find_message, from_marker, lemma_find_from_marker, lemma_find_front, lemma_find_stays,
    Accept, Found,
};
use super::{new_events, reads_next, MavlinkReader};
use crate::embedded::{begins, delivered, Read};
use crate::error::MessageReadError;
use crate::frame_decoder::laws::{acceptable, stream_of};
use crate::frame_decoder::lemmas::lemma_scan_append;
use crate::frame_decoder::marker::{first_marker, lemma_before_first_marker, no_marker_below};
use crate::frame_decoder::model::{classify, scan, ExtraTable};
use crate::frame_decoder::MAX_FRAME_LEN;
use crate::message::{MavlinkVersion, Message, ReadVersion};
use crate::signing::{NoSigning, SignatureVerifier, SigningData};
use crate::wire;

verus! {

/// A reader that does not look at signatures passes on exactly the frames of the
/// accepted versions.
pub proof fn law_unsigned_reader_decides_by_version<M: Message>(
    version: ReadVersion,
    table: ExtraTable,
)
    requires
        dialect_agrees::<M>(table),
    ensures
        answers::<M, NoSigning>(version, None, table, by_version(version)),
{
    assert forall|frame: Seq<u8>, passed: bool| #[trigger]
        may_decide::<NoSigning>(frame, version, None, passed) implies passed == by_version(version)(
        frame,
    ) by {}
}

/// A reader that is asked for MAVLink 1 only does not look at signatures, whatever the
/// signature policy.
pub proof fn law_version_one_reads_ignore_signing<M: Message, V: SignatureVerifier>(
    signing_data: &SigningData<V>,
    table: ExtraTable,
)
    requires
        dialect_agrees::<M>(table),
    ensures
        ({
            let version = ReadVersion::Single(MavlinkVersion::V1);
            answers::<M, V>(version, Some(signing_data), table, by_version(version))
        }),
{
    let version = ReadVersion::Single(MavlinkVersion::V1);
    assert forall|frame: Seq<u8>, passed: bool| #[trigger]
        may_decide(frame, version, Some(signing_data), passed) implies passed == by_version(
        version,
    )(frame) by {}
}

/// A signature policy passes on nothing that a reader without one does not pass on.
pub proof fn law_signing_only_withholds<V: SignatureVerifier>(
    frame: Seq<u8>,
    version: ReadVersion,
    signing_data: Option<&SigningData<V>>,
)
    requires
        may_decide(frame, version, signing_data, true),
    ensures
        by_version(version)(frame),
{
}

/// Of frames one after the other, each behind any bytes without a marker, the first
/// that is passed on is found, whatever follows, and everything behind it is left.
pub proof fn law_first_passed_frame_is_found(
    noise: Seq<Seq<u8>>,
    frames: Seq<Seq<u8>>,
    index: int,
    more: Seq<u8>,
    table: ExtraTable,
    accept: Accept,
)
    requires
        noise.len() == frames.len(),
        0 <= index < frames.len(),
        forall|i: int|
            0 <= i < noise.len() ==> no_marker_below(#[trigger] noise[i], noise[i].len() as int),
        forall|i: int|
            0 <= i < frames.len() ==> acceptable(
                #[trigger] frames[i],
                MAX_FRAME_LEN as nat,
                table,
            ),
        accept(frames[index]),
        forall|i: int| 0 <= i < index ==> !accept(#[trigger] frames[i]),
    ensures
        find_message(stream_of(noise, frames) + more, table, accept) == (Found {
            frame: Some(frames[index]),
            rest: from_marker(
                stream_of(noise.skip(index + 1), frames.skip(index + 1)) + more,
            ),
        }),
    decreases index,
{
    let later_noise = noise.drop_first();
    let later_frames = frames.drop_first();
    let behind = stream_of(later_noise, later_frames) + more;
    let frame = frames[0];
    let bytes = noise[0] + frame + behind;
    assert(stream_of(noise, frames) + more =~= bytes);
    lemma_find_at(noise[0], frame, behind, table, accept);
    if index == 0 {
        assert(noise.skip(1) =~= later_noise);
        assert(frames.skip(1) =~= later_frames);
    } else {
        assert(!accept(frames[0]));
        assert forall|i: int| 0 <= i < later_frames.len() implies acceptable(
            #[trigger] later_frames[i],
            MAX_FRAME_LEN as nat,
            table,
        ) by {
            assert(later_frames[i] == frames[i + 1]);
        }
        assert forall|i: int| 0 <= i < index - 1 implies !accept(#[trigger] later_frames[i]) by {
            assert(later_frames[i] == frames[i + 1]);
        }
        law_first_passed_frame_is_found(
            later_noise,
            later_frames,
            index - 1,
            more,
            table,
            accept,
        );
        lemma_before_first_marker(behind);
        lemma_find_from_marker(behind, first_marker(behind), table, accept);
        assert(later_noise.skip(index) =~= noise.skip(index + 1));
        assert(later_frames.skip(index) =~= frames.skip(index + 1));
    }
}

proof fn lemma_find_at(
    noise: Seq<u8>,
    frame: Seq<u8>,
    behind: Seq<u8>,
    table: ExtraTable,
    accept: Accept,
)
    requires
        no_marker_below(noise, noise.len() as int),
        acceptable(frame, MAX_FRAME_LEN as nat, table),
    ensures
        find_message(noise + frame + behind, table, accept) == if accept(frame) {
            Found { frame: Some(frame), rest: from_marker(behind) }
        } else {
            find_message(from_marker(behind), table, accept)
        },
{
    let capacity = MAX_FRAME_LEN as nat;
    let bytes = noise + frame + behind;
    let stream = frame + behind;
    assert forall|i: int| 0 <= i < noise.len() implies !wire::is_marker(#[trigger] bytes[i]) by {
        assert(bytes[i] == noise[i]);
    }
    lemma_find_from_marker(bytes, noise.len(), table, accept);
    assert(bytes.skip(noise.len() as int) =~= stream);
    assert(scan(frame, capacity, table).skipped == 0 && scan(frame, capacity, table).frame == Some(
        frame.len(),
    )) by {
        reveal(classify);
        reveal(scan);
        assert(frame.take(frame.len() as int) =~= frame);
    }
    lemma_scan_append(frame, behind, capacity, table);
    lemma_find_front(stream, table, accept);
    assert(stream.take(frame.len() as int) =~= frame);
    assert(stream.skip(frame.len() as int) =~= behind);
}

/// A message whose payload does not parse is consumed like one that does: exactly its
/// frame is gone, and the next read goes on behind it.
pub proof fn law_parse_error_consumes_exactly_one_frame<
    R: Read,
    M: Message,
    V: SignatureVerifier,
    T,
>(
    before: MavlinkReader<R>,
    after: MavlinkReader<R>,
    version: ReadVersion,
    signing_data: Option<&SigningData<V>>,
    carried_by: spec_fn(Seq<u8>, Result<T, MessageReadError>) -> bool,
    result: Result<T, MessageReadError>,
    table: ExtraTable,
    accept: Accept,
)
    requires
        reads_next::<R, M, V, T>(before, after, version, signing_data, carried_by, result),
        answers::<M, V>(version, signing_data, table, accept),
    ensures
        ({
            let arrived = delivered(
                new_events(before.source().history(), after.source().history()),
            );
            let found = find_message(before.pending() + arrived, table, accept);
            &&& found.rest == after.pending()
            &&& found.frame is None <==> (result matches Err(MessageReadError::Io(_)))
            &&& found.frame matches Some(frame) ==> {
                &&& carried_by(frame, result)
                &&& wire::is_any_frame(frame)
            }
        }),
{
    let stream = before.pending() + delivered(
        new_events(before.source().history(), after.source().history()),
    );
    if result matches Err(MessageReadError::Io(_)) {
        law_first_accepted_frame_is_found::<M, V>(
            stream,
            version,
            signing_data,
            None,
            after.pending(),
            table,
            accept,
        );
    } else {
        let frame = choose|frame: Seq<u8>| #[trigger]
            may_deliver::<M, V>(frame, version, signing_data) && carried_by(frame, result)
                && finds::<M, V>(stream, version, signing_data, Some(frame), after.pending());
        law_first_accepted_frame_is_found::<M, V>(
            stream,
            version,
            signing_data,
            Some(frame),
            after.pending(),
            table,
            accept,
        );
    }
}

/// Which message is read does not depend on how many bytes the source delivers at a
/// time: two readers that retain the same bytes and have read from the same stream, one
/// further than the other, have read the same frame.
pub proof fn law_message_does_not_depend_on_read_sizes<
    R: Read,
    M: Message,
    V: SignatureVerifier,
    T,
>(
    before: MavlinkReader<R>,
    after: MavlinkReader<R>,
    other_before: MavlinkReader<R>,
    other_after: MavlinkReader<R>,
    version: ReadVersion,
    signing_data: Option<&SigningData<V>>,
    carried_by: spec_fn(Seq<u8>, Result<T, MessageReadError>) -> bool,
    result: Result<T, MessageReadError>,
    other_result: Result<T, MessageReadError>,
    table: ExtraTable,
    accept: Accept,
)
    requires
        reads_next::<R, M, V, T>(before, after, version, signing_data, carried_by, result),
        reads_next::<R, M, V, T>(
            other_before,
            other_after,
            version,
            signing_data,
            carried_by,
            other_result,
        ),
        answers::<M, V>(version, signing_data, table, accept),
        other_before.pending() == before.pending(),
        begins(
            delivered(
                new_events(other_before.source().history(), other_after.source().history()),
            ),
            delivered(new_events(before.source().history(), after.source().history())),
        ),
        !(result matches Err(MessageReadError::Io(_))),
        !(other_result matches Err(MessageReadError::Io(_))),
    ensures
        exists|frame: Seq<u8>| #[trigger]
            carried_by(frame, result) && carried_by(frame, other_result),
{
    let arrived = delivered(new_events(before.source().history(), after.source().history()));
    let further = delivered(
        new_events(other_before.source().history(), other_after.source().history()),
    );
    let stream = before.pending() + arrived;
    let more = further.skip(arrived.len() as int);
    assert(other_before.pending() + further =~= stream + more);
    law_parse_error_consumes_exactly_one_frame::<R, M, V, T>(
        before,
        after,
        version,
        signing_data,
        carried_by,
        result,
        table,
        accept,
    );
    law_parse_error_consumes_exactly_one_frame::<R, M, V, T>(
        other_before,
        other_after,
        version,
        signing_data,
        carried_by,
        other_result,
        table,
        accept,
    );
    lemma_find_stays(stream, more, table, accept);
    assert(carried_by(find_message(stream, table, accept).frame->0, result));
}

/// A message that is already retained is returned without reading.
pub proof fn law_retained_message_is_returned_without_reading<
    R: Read,
    M: Message,
    V: SignatureVerifier,
    T,
>(
    before: MavlinkReader<R>,
    after: MavlinkReader<R>,
    version: ReadVersion,
    signing_data: Option<&SigningData<V>>,
    carried_by: spec_fn(Seq<u8>, Result<T, MessageReadError>) -> bool,
    result: Result<T, MessageReadError>,
    table: ExtraTable,
    accept: Accept,
)
    requires
        reads_next::<R, M, V, T>(before, after, version, signing_data, carried_by, result),
        answers::<M, V>(version, signing_data, table, accept),
        find_message(before.pending(), table, accept).frame is Some,
    ensures
        after.source() == before.source(),
        ({
            let found = find_message(before.pending(), table, accept);
            carried_by(found.frame->0, result) && after.pending() == found.rest
        }),
{
    let events = new_events(before.source().history(), after.source().history());
    if events.len() > 0 {
        let earlier = before.pending() + delivered(events.drop_last());
        let left = choose|left: Seq<u8>| #[trigger]
            finds::<M, V>(earlier, version, signing_data, None, left);
        law_first_accepted_frame_is_found::<M, V>(
            earlier,
            version,
            signing_data,
            None,
            left,
            table,
            accept,
        );
        lemma_find_stays(before.pending(), delivered(events.drop_last()), table, accept);
    }
    law_parse_error_consumes_exactly_one_frame::<R, M, V, T>(
        before,
        after,
        version,
        signing_data,
        carried_by,
        result,
        table,
        accept,
    );
    assert(before.pending() + delivered(events) =~= before.pending());
}

} // verus!
