//! What a sequence of reads gives from a stream.
use vstd::prelude::*;

use super::decode::{
    answered, answers, by_version, comes_to, dialect_agrees, finds,
    law_first_accepted_frame_is_found, leads_to, may_decide, may_deliver, may_withhold,
    message_of, next_is, parses, raw_message_of, raw_of, reads_as,
};
use super::laws::law_unsigned_reader_decides_by_version;
use super::model::{
    every_frame, find_message, from_marker, law_nothing_behind_a_message_is_lost,
    lemma_find_append, lemma_find_by_frames, lemma_find_from_marker, lemma_find_front,
    lemma_find_scanned, lemma_messages_same, lemma_next_none, lemma_walked_messages, messages,
    next_frame, walked, Accept, Found,
};
use super::{all_progress, new_events, reads_next, MavlinkReader};
use crate::embedded::{begins, delivered, lemma_delivered, Read, ReadEvent, SliceReader};
use crate::error::{IoError, MessageReadError, ParserError};
use crate::frame_decoder::laws::{
    drain, law_feeding_matches_bytewise_resynchronization, lemma_drain_goes_on,
};
use crate::frame_decoder::lemmas::{
    lemma_feed_bounds, lemma_feed_sound, lemma_scan_again, lemma_scan_stops,
};
use crate::frame_decoder::marker::{first_marker, lemma_before_first_marker};
use crate::frame_decoder::model::{feed, scan, DecoderState, ExtraTable};
use crate::frame_decoder::MAX_FRAME_LEN;
use crate::message::{
    law_raw_message_reads_like_its_frame, protocol_version, MAVLinkMessageRaw, MavHeader,
    Message, ReadVersion,
};
use crate::signing::{NoSigning, SignatureVerifier, SigningData};
use crate::wire;

verus! {

/// One call of a reader: what it retains before and after, what of the stream is unread
/// before, what arrives, and what it returns.
pub struct Call<T> {
    /// Bytes retained before the call.
    pub pending: Seq<u8>,
    /// Bytes of the stream that are unread before the call.
    pub unread: Seq<u8>,
    /// Bytes that arrive during the call.
    pub arrived: Seq<u8>,
    /// Bytes retained after the call.
    pub left: Seq<u8>,
    /// What the call returns.
    pub result: Result<T, MessageReadError>,
}

impl<T> Call<T> {
    /// All bytes in which a message may still be found before the call.
    pub open spec fn before(self) -> Seq<u8> {
        self.pending + self.unread
    }

    /// Bytes of the stream that are unread after the call.
    pub open spec fn unread_after(self) -> Seq<u8> {
        self.unread.skip(self.arrived.len() as int)
    }

    /// All bytes in which a message may still be found after the call.
    pub open spec fn after(self) -> Seq<u8> {
        self.left + self.unread_after()
    }

    /// The call answers for the retained bytes and those that arrived, which are the
    /// next of the stream, and it returns no I/O error but the one for the end of the
    /// stream, with everything read.
    pub open spec fn keeps_contract<M: Message, V: SignatureVerifier>(
        self,
        version: ReadVersion,
        signing_data: Option<&SigningData<V>>,
        carried_by: spec_fn(Seq<u8>, Result<T, MessageReadError>) -> bool,
    ) -> bool {
        &&& answered::<M, V, T>(
            self.pending + self.arrived,
            self.left,
            version,
            signing_data,
            carried_by,
            self.result,
        )
        &&& begins(self.unread, self.arrived)
        &&& self.result matches Err(MessageReadError::Io(error)) ==> {
            &&& error is UnexpectedEof
            &&& self.arrived == self.unread
        }
    }

    /// This call returns the message that `frame` carries, or finds the end where there
    /// is none.
    pub open spec fn gives(
        self,
        frame: Option<Seq<u8>>,
        carried_by: spec_fn(Seq<u8>, Result<T, MessageReadError>) -> bool,
    ) -> bool {
        match frame {
            Some(frame) => {
                &&& wire::is_any_frame(frame)
                &&& carried_by(frame, self.result)
                &&& !(self.result matches Err(MessageReadError::Io(_)))
            },
            None => self.result matches Err(MessageReadError::Io(error)) && error is UnexpectedEof,
        }
    }
}

/// A call returns the first message in the retained bytes and the rest of the stream,
/// and the messages behind it are the ones that are left; where there is none, it finds
/// the end.
pub proof fn law_call_returns_the_next_message<M: Message, V: SignatureVerifier, T>(
    call: Call<T>,
    version: ReadVersion,
    signing_data: Option<&SigningData<V>>,
    carried_by: spec_fn(Seq<u8>, Result<T, MessageReadError>) -> bool,
    table: ExtraTable,
    accept: Accept,
)
    requires
        call.keeps_contract::<M, V>(version, signing_data, carried_by),
        answers::<M, V>(version, signing_data, table, accept),
    ensures
        call.gives(find_message(call.before(), table, accept).frame, carried_by),
        messages(call.before(), table, accept) == match find_message(
            call.before(),
            table,
            accept,
        ).frame {
            Some(frame) => seq![frame] + messages(call.after(), table, accept),
            None => messages(call.after(), table, accept),
        },
{
    let seen = call.pending + call.arrived;
    let more = call.unread_after();
    assert(call.unread =~= call.arrived + more);
    assert(call.before() =~= seen + more);
    if call.result matches Err(MessageReadError::Io(_)) {
        law_first_accepted_frame_is_found::<M, V>(
            seen,
            version,
            signing_data,
            None,
            call.left,
            table,
            accept,
        );
        assert(more =~= Seq::<u8>::empty());
        assert(seen + more =~= seen);
        lemma_find_append(seen, more, table, accept);
        assert(call.after() == call.left + more);
    } else {
        let frame = choose|frame: Seq<u8>| #[trigger]
            may_deliver::<M, V>(frame, version, signing_data) && carried_by(frame, call.result)
                && finds::<M, V>(seen, version, signing_data, Some(frame), call.left);
        law_first_accepted_frame_is_found::<M, V>(
            seen,
            version,
            signing_data,
            Some(frame),
            call.left,
            table,
            accept,
        );
        law_nothing_behind_a_message_is_lost(seen, more, table, accept);
        let found = find_message(seen + more, table, accept);
        lemma_messages_same(found.rest, call.left + more, table, accept);
    }
}

/// Each call goes on where the one before it stopped.
pub open spec fn in_sequence<T>(calls: Seq<Call<T>>) -> bool {
    forall|i: int|
        #![trigger calls[i]]
        0 < i < calls.len() ==> calls[i].pending == calls[i - 1].left && calls[i].unread
            == calls[i - 1].unread_after()
}

/// The frame at `index`, or `None` behind the last one.
pub open spec fn frame_at(frames: Seq<Seq<u8>>, index: int) -> Option<Seq<u8>> {
    if 0 <= index < frames.len() {
        Some(frames[index])
    } else {
        None
    }
}

/// Repeated calls return the messages of the stream in their order, each once, and then
/// find the end, again and again.
pub proof fn law_calls_return_the_messages_in_order<M: Message, V: SignatureVerifier, T>(
    calls: Seq<Call<T>>,
    version: ReadVersion,
    signing_data: Option<&SigningData<V>>,
    carried_by: spec_fn(Seq<u8>, Result<T, MessageReadError>) -> bool,
    table: ExtraTable,
    accept: Accept,
)
    requires
        calls.len() > 0,
        in_sequence(calls),
        forall|i: int|
            0 <= i < calls.len() ==> (#[trigger] calls[i]).keeps_contract::<M, V>(
                version,
                signing_data,
                carried_by,
            ),
        answers::<M, V>(version, signing_data, table, accept),
    ensures
        forall|i: int|
            0 <= i < calls.len() ==> (#[trigger] calls[i]).gives(
                frame_at(messages(calls[0].before(), table, accept), i),
                carried_by,
            ),
    decreases calls.len(),
{
    let all = messages(calls[0].before(), table, accept);
    let later = calls.drop_first();
    law_call_returns_the_next_message::<M, V, T>(
        calls[0],
        version,
        signing_data,
        carried_by,
        table,
        accept,
    );
    if calls.len() > 1 {
        assert(calls[1].before() == calls[0].after());
        assert(later[0] == calls[1]);
        assert forall|i: int| #![trigger later[i]] 0 < i < later.len() implies later[i].pending
            == later[i - 1].left && later[i].unread == later[i - 1].unread_after() by {
            assert(later[i] == calls[i + 1]);
            assert(later[i - 1] == calls[i]);
        }
        assert forall|i: int| 0 <= i < later.len() implies (#[trigger] later[i]).keeps_contract::<
            M,
            V,
        >(version, signing_data, carried_by) by {
            assert(later[i] == calls[i + 1]);
        }
        law_calls_return_the_messages_in_order::<M, V, T>(
            later,
            version,
            signing_data,
            carried_by,
            table,
            accept,
        );
    }
    let rest = messages(calls[0].after(), table, accept);
    assert forall|i: int| 0 <= i < calls.len() implies (#[trigger] calls[i]).gives(
        frame_at(all, i),
        carried_by,
    ) by {
        if i > 0 {
            assert(calls[i] == later[i - 1]);
            assert(frame_at(all, i) == frame_at(rest, i - 1));
        }
    }
}

/// What a reader may have decided on the first of `frames`, one verdict for each.
pub open spec fn judged<V: SignatureVerifier>(
    frames: Seq<Seq<u8>>,
    verdicts: Seq<bool>,
    version: ReadVersion,
    signing_data: Option<&SigningData<V>>,
) -> bool {
    &&& verdicts.len() <= frames.len()
    &&& forall|i: int|
        #![trigger verdicts[i]]
        0 <= i < verdicts.len() ==> may_decide(frames[i], version, signing_data, verdicts[i])
}

/// Those of the judged frames that are passed on.
pub open spec fn kept(frames: Seq<Seq<u8>>, verdicts: Seq<bool>) -> Seq<Seq<u8>>
    decreases verdicts.len(),
{
    if verdicts.len() == 0 {
        Seq::empty()
    } else if verdicts[0] {
        seq![frames[0]] + kept(frames.drop_first(), verdicts.drop_first())
    } else {
        kept(frames.drop_first(), verdicts.drop_first())
    }
}

/// Frames that are withheld do not matter for those that are passed on behind them.
proof fn lemma_kept_behind(
    withheld: Seq<Seq<u8>>,
    frames: Seq<Seq<u8>>,
    verdicts: Seq<bool>,
)
    ensures
        kept(withheld + frames, Seq::new(withheld.len(), |i: int| false) + verdicts) == kept(
            frames,
            verdicts,
        ),
    decreases withheld.len(),
{
    let all = withheld + frames;
    let given = Seq::new(withheld.len(), |i: int| false) + verdicts;
    if withheld.len() == 0 {
        assert(all =~= frames);
        assert(given =~= verdicts);
    } else {
        let later = withheld.drop_first();
        lemma_kept_behind(later, frames, verdicts);
        assert(all.drop_first() =~= later + frames);
        assert(given.drop_first() =~= Seq::new(later.len(), |i: int| false) + verdicts);
        assert(!given[0]);
    }
}

/// What a signature verifier answers need not follow from the frame alone. Whatever it
/// answers, a call passes over frames that it may withhold and returns the next one,
/// and the frames behind that one are left; where it finds the end, every frame was one
/// that it may withhold.
pub proof fn law_call_passes_over_withheld_frames<M: Message, V: SignatureVerifier, T>(
    call: Call<T>,
    version: ReadVersion,
    signing_data: Option<&SigningData<V>>,
    carried_by: spec_fn(Seq<u8>, Result<T, MessageReadError>) -> bool,
    table: ExtraTable,
) -> (seen: (Seq<Seq<u8>>, Option<Seq<u8>>))
    requires
        call.keeps_contract::<M, V>(version, signing_data, carried_by),
        dialect_agrees::<M>(table),
    ensures
        may_withhold(seen.0, version, signing_data),
        call.gives(seen.1, carried_by),
        match seen.1 {
            Some(frame) => {
                &&& may_decide(frame, version, signing_data, true)
                &&& messages(call.before(), table, every_frame()) == seen.0 + (seq![frame]
                    + messages(call.after(), table, every_frame()))
            },
            None => {
                &&& messages(call.before(), table, every_frame()) == seen.0
                &&& messages(call.after(), table, every_frame()).len() == 0
            },
        },
{
    reveal(finds);
    reveal(comes_to);
    let stream = call.pending + call.arrived;
    let more = call.unread_after();
    let ended = call.result matches Err(MessageReadError::Io(_));
    let frame = if ended {
        None
    } else {
        Some(
            choose|frame: Seq<u8>| #[trigger]
                may_deliver::<M, V>(frame, version, signing_data) && carried_by(frame, call.result)
                    && finds::<M, V>(stream, version, signing_data, Some(frame), call.left),
        )
    };
    assert(call.unread =~= call.arrived + more);
    assert(call.before() =~= stream + more);
    assert(finds::<M, V>(stream, version, signing_data, frame, call.left));
    let reached = choose|reached: Seq<u8>| #[trigger]
        comes_to::<M, V>(stream, version, signing_data, reached) && next_is::<M>(
            reached,
            frame,
            call.left,
        );
    let withheld = choose|withheld: Seq<Seq<u8>>| #[trigger]
        may_withhold(withheld, version, signing_data) && leads_to::<M>(stream, withheld, reached);
    assert(walked(stream, withheld, reached, table));
    lemma_walked_messages(stream, withheld, reached, more, table);
    assert(next_frame(reached, table) == (Found { frame, rest: call.left }));
    if ended {
        assert(more =~= Seq::<u8>::empty());
        assert(reached + more =~= reached);
        assert(call.after() =~= call.left);
        lemma_next_none(reached, table);
        assert(withheld + Seq::<Seq<u8>>::empty() =~= withheld);
    } else {
        law_nothing_behind_a_message_is_lost(reached, more, table, every_frame());
        lemma_messages_same(
            next_frame(reached + more, table).rest,
            call.left + more,
            table,
            every_frame(),
        );
    }
    (withheld, frame)
}

/// Whatever a signature verifier answers, repeated calls return, in their order and each
/// once, the frames of the stream that were passed on, and the end is found only when a
/// verdict was given on every frame.
pub proof fn law_calls_return_the_frames_passed_on<M: Message, V: SignatureVerifier, T>(
    calls: Seq<Call<T>>,
    version: ReadVersion,
    signing_data: Option<&SigningData<V>>,
    carried_by: spec_fn(Seq<u8>, Result<T, MessageReadError>) -> bool,
    table: ExtraTable,
) -> (verdicts: Seq<bool>)
    requires
        calls.len() > 0,
        in_sequence(calls),
        forall|i: int|
            0 <= i < calls.len() ==> (#[trigger] calls[i]).keeps_contract::<M, V>(
                version,
                signing_data,
                carried_by,
            ),
        dialect_agrees::<M>(table),
    ensures
        ({
            let frames = messages(calls[0].before(), table, every_frame());
            &&& judged(frames, verdicts, version, signing_data)
            &&& calls.last().result matches Err(MessageReadError::Io(_)) ==> verdicts.len()
                == frames.len()
            &&& forall|i: int|
                0 <= i < calls.len() ==> (#[trigger] calls[i]).gives(
                    frame_at(kept(frames, verdicts), i),
                    carried_by,
                )
        }),
    decreases calls.len(),
{
    let frames = messages(calls[0].before(), table, every_frame());
    let rest = messages(calls[0].after(), table, every_frame());
    let (withheld, frame) = law_call_passes_over_withheld_frames::<M, V, T>(
        calls[0],
        version,
        signing_data,
        carried_by,
        table,
    );
    let refused = Seq::new(withheld.len(), |i: int| false);
    let later = calls.drop_first();
    let answers_later = if calls.len() > 1 {
        assert(calls[1].before() == calls[0].after());
        assert(later[0] == calls[1]);
        assert forall|i: int| #![trigger later[i]] 0 < i < later.len() implies later[i].pending
            == later[i - 1].left && later[i].unread == later[i - 1].unread_after() by {
            assert(later[i] == calls[i + 1]);
            assert(later[i - 1] == calls[i]);
        }
        assert forall|i: int| 0 <= i < later.len() implies (#[trigger] later[i]).keeps_contract::<
            M,
            V,
        >(version, signing_data, carried_by) by {
            assert(later[i] == calls[i + 1]);
        }
        law_calls_return_the_frames_passed_on::<M, V, T>(
            later,
            version,
            signing_data,
            carried_by,
            table,
        )
    } else {
        Seq::empty()
    };
    let behind = match frame {
        Some(frame) => seq![frame] + rest,
        None => Seq::empty(),
    };
    let given = match frame {
        Some(_) => seq![true] + answers_later,
        None => Seq::empty(),
    };
    let verdicts = refused + given;
    assert(frames =~= withheld + behind);
    lemma_kept_behind(withheld, behind, given);
    if frame is Some {
        assert(behind.drop_first() =~= rest);
        assert(given.drop_first() =~= answers_later);
    } else {
        assert(answers_later.len() == 0);
    }
    let passed_on = kept(frames, verdicts);
    assert forall|i: int| 0 <= i < calls.len() implies (#[trigger] calls[i]).gives(
        frame_at(passed_on, i),
        carried_by,
    ) by {
        if i > 0 {
            assert(calls[i] == later[i - 1]);
            assert(frame_at(passed_on, i) == frame_at(kept(rest, answers_later), i - 1));
        }
    }
    assert forall|i: int| #![trigger verdicts[i]] 0 <= i < verdicts.len() implies may_decide(
        frames[i],
        version,
        signing_data,
        verdicts[i],
    ) by {
        if i < withheld.len() {
            assert(may_decide(withheld[i], version, signing_data, false));
        } else if i > withheld.len() {
            let at = i - withheld.len() - 1;
            assert(verdicts[i] == answers_later[at]);
            assert(frames[i] == rest[at]);
        }
    }
    if calls.len() > 1 {
        assert(later.last() == calls.last());
    }
    verdicts
}

/// Those of `frames` that `accept` passes on.
pub open spec fn passed(frames: Seq<Seq<u8>>, accept: Accept) -> Seq<Seq<u8>>
    decreases frames.len(),
{
    if frames.len() == 0 {
        Seq::empty()
    } else if accept(frames[0]) {
        seq![frames[0]] + passed(frames.drop_first(), accept)
    } else {
        passed(frames.drop_first(), accept)
    }
}

/// The messages of a stream are those of its frames that are passed on, where its
/// frames are what a decoder finds that is fed the stream and releases each frame.
pub proof fn law_messages_are_the_decoded_frames(
    stream: Seq<u8>,
    table: ExtraTable,
    accept: Accept,
)
    ensures
        messages(stream, table, accept) == passed(
            drain(DecoderState::empty(), stream, MAX_FRAME_LEN as nat, table).0,
            accept,
        ),
{
    let empty = DecoderState::empty();
    lemma_drained(empty, stream, table, accept);
    assert(empty.pending + stream =~= stream);
}

proof fn lemma_drained(state: DecoderState, input: Seq<u8>, table: ExtraTable, accept: Accept)
    requires
        state.frame is None,
    ensures
        messages(state.pending + input, table, accept) == passed(
            drain(state, input, MAX_FRAME_LEN as nat, table).0,
            accept,
        ),
    decreases state.pending.len() + input.len(),
{
    let capacity = MAX_FRAME_LEN as nat;
    let whole = state.pending + input;
    let fed = feed(state, input, capacity, table);
    let outcome = scan(whole, capacity, table);
    let front = whole.skip(outcome.skipped as int);
    law_feeding_matches_bytewise_resynchronization(state, input, capacity, table);
    lemma_feed_bounds(state, input, capacity, table);
    lemma_scan_stops(whole, capacity, table);
    lemma_find_by_frames(whole, table, accept);
    lemma_find_scanned(whole, table, every_frame());
    lemma_scan_again(whole, capacity, table);
    lemma_find_front(front, table, every_frame());
    if let Some(len) = fed.state.frame {
        lemma_drain_goes_on(state, input, capacity, table);
        lemma_feed_sound(state, input, capacity, table);
        let later = input.skip(fed.consumed as int);
        let released = fed.state.advanced();
        let near = fed.state.pending.skip(len as int);
        let behind = front.skip(len as int);
        assert(front =~= fed.state.pending + later);
        assert(front.take(len as int) =~= fed.state.pending.take(len as int));
        assert(behind =~= near + later);
        lemma_before_first_marker(near);
        lemma_before_first_marker(behind);
        let count = first_marker(near);
        assert(released.pending =~= near.skip(count as int));
        assert forall|i: int| 0 <= i < count implies !wire::is_marker(#[trigger] behind[i]) by {
            assert(behind[i] == near[i]);
        }
        lemma_find_from_marker(behind, count, table, accept);
        lemma_find_from_marker(behind, first_marker(behind), table, accept);
        assert(behind.skip(count as int) =~= released.pending + later);
        lemma_drained(released, later, table, accept);
        lemma_messages_same(from_marker(behind), released.pending + later, table, accept);
        let frame = front.take(len as int);
        let (frames, last) = drain(released, later, capacity, table);
        let all = seq![frame] + frames;
        assert(all.drop_first() =~= frames);
        if !accept(frame) {
            lemma_messages_same(whole, from_marker(behind), table, accept);
        }
    }
}

/// What a source has not delivered yet, where its stream is known.
pub open spec fn unread<R: Read>(source: R) -> Seq<u8> {
    source.stream()->0.skip(delivered(source.history()).len() as int)
}

/// The stream of this source is known, what it delivered is its beginning, and it is
/// not longer than can be read one byte at a time.
pub open spec fn streams<R: Read>(source: R) -> bool {
    source.stream() matches Some(stream) && begins(stream, delivered(source.history()))
        && stream.len() < u64::MAX
}

/// One blocking read, as a call.
pub open spec fn blocking_call<R: Read, T>(
    before: MavlinkReader<R>,
    after: MavlinkReader<R>,
    result: Result<T, MessageReadError>,
) -> Call<T> {
    Call {
        pending: before.pending(),
        unread: unread(before.source()),
        arrived: delivered(new_events(before.source().history(), after.source().history())),
        left: after.pending(),
        result,
    }
}

proof fn lemma_progress(events: Seq<ReadEvent>)
    requires
        all_progress(events),
    ensures
        delivered(events).len() >= events.len(),
    decreases events.len(),
{
    if events.len() > 0 {
        assert(events[events.len() - 1].progresses());
        let earlier = events.drop_last();
        assert forall|i: int| 0 <= i < earlier.len() implies #[trigger] earlier[i].progresses() by {
            assert(earlier[i] == events[i]);
        }
        lemma_progress(earlier);
    }
}

/// A read from a source with a known stream keeps the contract of a call.
pub proof fn law_blocking_read_keeps_the_contract<R: Read, M: Message, V: SignatureVerifier, T>(
    before: MavlinkReader<R>,
    after: MavlinkReader<R>,
    version: ReadVersion,
    signing_data: Option<&SigningData<V>>,
    carried_by: spec_fn(Seq<u8>, Result<T, MessageReadError>) -> bool,
    result: Result<T, MessageReadError>,
)
    requires
        reads_next::<R, M, V, T>(before, after, version, signing_data, carried_by, result),
        streams(before.source()),
    ensures
        streams(after.source()),
        blocking_call(before, after, result).keeps_contract::<M, V>(
            version,
            signing_data,
            carried_by,
        ),
        unread(after.source()) == blocking_call(before, after, result).unread_after(),
{
    let stream = before.source().stream()->0;
    let history = before.source().history();
    let events = new_events(history, after.source().history());
    let sent = delivered(history);
    let arrived = delivered(events);
    lemma_delivered(history, events);
    assert(begins(stream, sent + arrived)) by {
        if events.len() == 0 {
            assert(sent + arrived =~= sent);
        }
    }
    assert(stream.skip(sent.len() as int).take(arrived.len() as int) =~= (sent + arrived).skip(
        sent.len() as int,
    ));
    assert((sent + arrived).skip(sent.len() as int) =~= arrived);
    assert(unread(after.source()) =~= unread(before.source()).skip(arrived.len() as int));
    if let Err(MessageReadError::Io(error)) = result {
        if error is ReadLimit {
            lemma_progress(events);
            assert(false);
        } else {
            assert(after.source().history().last() == events.last());
            assert(unread(before.source()) =~= arrived);
        }
    }
}

/// Reads from a source, one after the other.
pub open spec fn reads_in_sequence<R: Read, M: Message, V: SignatureVerifier, T>(
    readers: Seq<MavlinkReader<R>>,
    results: Seq<Result<T, MessageReadError>>,
    version: ReadVersion,
    signing_data: Option<&SigningData<V>>,
    carried_by: spec_fn(Seq<u8>, Result<T, MessageReadError>) -> bool,
) -> bool {
    &&& readers.len() == results.len() + 1
    &&& forall|i: int|
        #![trigger results[i]]
        0 <= i < results.len() ==> reads_next::<R, M, V, T>(
            readers[i],
            readers[i + 1],
            version,
            signing_data,
            carried_by,
            results[i],
        )
}

/// The reads of a sequence, as calls.
pub open spec fn blocking_calls<R: Read, T>(
    readers: Seq<MavlinkReader<R>>,
    results: Seq<Result<T, MessageReadError>>,
) -> Seq<Call<T>> {
    Seq::new(results.len(), |i: int| blocking_call(readers[i], readers[i + 1], results[i]))
}

proof fn lemma_streams<R: Read, M: Message, V: SignatureVerifier, T>(
    readers: Seq<MavlinkReader<R>>,
    results: Seq<Result<T, MessageReadError>>,
    version: ReadVersion,
    signing_data: Option<&SigningData<V>>,
    carried_by: spec_fn(Seq<u8>, Result<T, MessageReadError>) -> bool,
    count: int,
)
    requires
        reads_in_sequence::<R, M, V, T>(readers, results, version, signing_data, carried_by),
        streams(readers[0].source()),
        0 <= count <= results.len(),
    ensures
        streams(readers[count].source()),
    decreases count,
{
    if count > 0 {
        lemma_streams::<R, M, V, T>(
            readers,
            results,
            version,
            signing_data,
            carried_by,
            count - 1,
        );
        let result = results[count - 1];
        law_blocking_read_keeps_the_contract::<R, M, V, T>(
            readers[count - 1],
            readers[count],
            version,
            signing_data,
            carried_by,
            result,
        );
    }
}

/// The reads of a sequence keep the contract of calls, one after the other.
pub proof fn lemma_blocking_calls<R: Read, M: Message, V: SignatureVerifier, T>(
    readers: Seq<MavlinkReader<R>>,
    results: Seq<Result<T, MessageReadError>>,
    version: ReadVersion,
    signing_data: Option<&SigningData<V>>,
    carried_by: spec_fn(Seq<u8>, Result<T, MessageReadError>) -> bool,
)
    requires
        reads_in_sequence::<R, M, V, T>(readers, results, version, signing_data, carried_by),
        streams(readers[0].source()),
    ensures
        in_sequence(blocking_calls(readers, results)),
        forall|i: int|
            0 <= i < results.len() ==> (#[trigger] blocking_calls(
                readers,
                results,
            )[i]).keeps_contract::<M, V>(version, signing_data, carried_by),
{
    let calls = blocking_calls(readers, results);
    assert forall|i: int| 0 <= i < results.len() implies (#[trigger] calls[i]).keeps_contract::<
        M,
        V,
    >(version, signing_data, carried_by) by {
        lemma_streams::<R, M, V, T>(readers, results, version, signing_data, carried_by, i);
        let result = results[i];
        law_blocking_read_keeps_the_contract::<R, M, V, T>(
            readers[i],
            readers[i + 1],
            version,
            signing_data,
            carried_by,
            result,
        );
    }
    assert forall|i: int| #![trigger calls[i]] 0 < i < calls.len() implies calls[i].pending
        == calls[i - 1].left && calls[i].unread == calls[i - 1].unread_after() by {
        lemma_streams::<R, M, V, T>(readers, results, version, signing_data, carried_by, i - 1);
        let result = results[i - 1];
        law_blocking_read_keeps_the_contract::<R, M, V, T>(
            readers[i - 1],
            readers[i],
            version,
            signing_data,
            carried_by,
            result,
        );
    }
}

/// Repeated reads return the messages of the source's stream in their order, each once,
/// and `UnexpectedEof` only when none is left.
pub proof fn law_reads_return_the_messages_in_order<
    R: Read,
    M: Message,
    V: SignatureVerifier,
    T,
>(
    readers: Seq<MavlinkReader<R>>,
    results: Seq<Result<T, MessageReadError>>,
    version: ReadVersion,
    signing_data: Option<&SigningData<V>>,
    carried_by: spec_fn(Seq<u8>, Result<T, MessageReadError>) -> bool,
    table: ExtraTable,
    accept: Accept,
)
    requires
        reads_in_sequence::<R, M, V, T>(readers, results, version, signing_data, carried_by),
        streams(readers[0].source()),
        answers::<M, V>(version, signing_data, table, accept),
    ensures
        ({
            let all = readers[0].pending() + unread(readers[0].source());
            let frames = messages(all, table, accept);
            forall|i: int|
                #![trigger results[i]]
                0 <= i < results.len() ==> match frame_at(frames, i) {
                    Some(frame) => wire::is_any_frame(frame) && carried_by(frame, results[i])
                        && !(results[i] matches Err(MessageReadError::Io(_))),
                    None => results[i] matches Err(MessageReadError::Io(error))
                        && error is UnexpectedEof,
                }
        }),
{
    let calls = blocking_calls(readers, results);
    if results.len() > 0 {
        lemma_blocking_calls::<R, M, V, T>(readers, results, version, signing_data, carried_by);
        law_calls_return_the_messages_in_order::<M, V, T>(
            calls,
            version,
            signing_data,
            carried_by,
            table,
            accept,
        );
        let all = readers[0].pending() + unread(readers[0].source());
        let frames = messages(all, table, accept);
        assert forall|i: int| #![trigger results[i]] 0 <= i < results.len() implies match frame_at(
            frames,
            i,
        ) {
            Some(frame) => wire::is_any_frame(frame) && carried_by(frame, results[i]) && !(
            results[i] matches Err(MessageReadError::Io(_))),
            None => results[i] matches Err(MessageReadError::Io(error)) && error is UnexpectedEof,
        } by {
            assert(calls[i].result == results[i]);
            assert(calls[i].gives(frame_at(frames, i), carried_by));
        }
    }
}

/// Without signing, repeated reads return, in their order and each once, the frames of
/// the accepted versions among all frames that a decoder finds in the same bytes, and
/// `UnexpectedEof` only when none is left.
pub proof fn law_unsigned_reads_return_the_decoded_frames<R: Read, M: Message, T>(
    readers: Seq<MavlinkReader<R>>,
    results: Seq<Result<T, MessageReadError>>,
    version: ReadVersion,
    carried_by: spec_fn(Seq<u8>, Result<T, MessageReadError>) -> bool,
    table: ExtraTable,
)
    requires
        reads_in_sequence::<R, M, NoSigning, T>(readers, results, version, None, carried_by),
        streams(readers[0].source()),
        dialect_agrees::<M>(table),
    ensures
        ({
            let all = readers[0].pending() + unread(readers[0].source());
            let decoded = drain(DecoderState::empty(), all, MAX_FRAME_LEN as nat, table).0;
            let frames = passed(decoded, by_version(version));
            forall|i: int|
                #![trigger results[i]]
                0 <= i < results.len() ==> match frame_at(frames, i) {
                    Some(frame) => wire::is_any_frame(frame) && carried_by(frame, results[i])
                        && !(results[i] matches Err(MessageReadError::Io(_))),
                    None => results[i] matches Err(MessageReadError::Io(error))
                        && error is UnexpectedEof,
                }
        }),
{
    let all = readers[0].pending() + unread(readers[0].source());
    law_unsigned_reader_decides_by_version::<M>(version, table);
    law_messages_are_the_decoded_frames(all, table, by_version(version));
    law_reads_return_the_messages_in_order::<R, M, NoSigning, T>(
        readers,
        results,
        version,
        None,
        carried_by,
        table,
        by_version(version),
    );
}

/// A new reader over bytes in memory has exactly these bytes before it.
pub proof fn law_slice_is_the_stream(reader: MavlinkReader<SliceReader<'_>>, bytes: Seq<u8>)
    requires
        reader.pending() == Seq::<u8>::empty(),
        reader.source().history() == Seq::<ReadEvent>::empty(),
        reader.source().stream() == Some(bytes),
        bytes.len() < u64::MAX,
    ensures
        streams(reader.source()),
        reader.pending() + unread(reader.source()) == bytes,
{
    assert(delivered(reader.source().history()) =~= Seq::<u8>::empty());
    assert(bytes.take(0) =~= Seq::<u8>::empty());
    assert(reader.pending() + unread(reader.source()) =~= bytes);
}

/// `outcome` is what reading `raw` as a message of the dialect `M` may come to.
pub open spec fn raw_reads_as<M: Message>(
    raw: MAVLinkMessageRaw,
    outcome: Result<(MavHeader, M), MessageReadError>,
) -> bool {
    let version = raw.wire_version();
    let header = MavHeader {
        system_id: wire::system_id(raw@, version),
        component_id: wire::component_id(raw@, version),
        sequence: wire::sequence(raw@, version),
    };
    exists|payload: &[u8], parsed: Result<M, ParserError>|
        payload@ == wire::payload(raw@, version) && #[trigger] call_ensures(
            M::parse,
            (protocol_version(version), wire::message_id(raw@, version), payload),
            parsed,
        ) && match parsed {
            Ok(message) => outcome == Ok::<(MavHeader, M), MessageReadError>((header, message)),
            Err(error) => outcome == Err::<(MavHeader, M), MessageReadError>(
                MessageReadError::Parse(error),
            ),
        }
}

/// A raw read and a parsed read with the same bytes before them pick the same frame: the
/// parsed message is what parsing the raw one may come to, or both find the end.
pub proof fn law_raw_and_parsed_reads_pick_the_same_frame<
    R: Read,
    S: Read,
    M: Message,
    V: SignatureVerifier,
>(
    raw_before: MavlinkReader<R>,
    raw_after: MavlinkReader<R>,
    before: MavlinkReader<S>,
    after: MavlinkReader<S>,
    version: ReadVersion,
    signing_data: Option<&SigningData<V>>,
    raw_result: Result<MAVLinkMessageRaw, MessageReadError>,
    result: Result<(MavHeader, M), MessageReadError>,
    table: ExtraTable,
    accept: Accept,
)
    requires
        reads_next::<R, M, V, MAVLinkMessageRaw>(
            raw_before,
            raw_after,
            version,
            signing_data,
            raw_message_of(),
            raw_result,
        ),
        reads_next::<S, M, V, (MavHeader, M)>(
            before,
            after,
            version,
            signing_data,
            message_of::<M>(),
            result,
        ),
        streams(raw_before.source()),
        streams(before.source()),
        raw_before.pending() + unread(raw_before.source()) == before.pending() + unread(
            before.source(),
        ),
        answers::<M, V>(version, signing_data, table, accept),
    ensures
        match raw_result {
            Ok(raw) => raw_reads_as::<M>(raw, result),
            Err(error) => {
                &&& error == MessageReadError::Io(IoError::UnexpectedEof)
                &&& result == Err::<(MavHeader, M), MessageReadError>(error)
            },
        },
{
    let raw_call = blocking_call(raw_before, raw_after, raw_result);
    let call = blocking_call(before, after, result);
    law_blocking_read_keeps_the_contract::<R, M, V, MAVLinkMessageRaw>(
        raw_before,
        raw_after,
        version,
        signing_data,
        raw_message_of(),
        raw_result,
    );
    law_blocking_read_keeps_the_contract::<S, M, V, (MavHeader, M)>(
        before,
        after,
        version,
        signing_data,
        message_of::<M>(),
        result,
    );
    law_call_returns_the_next_message::<M, V, MAVLinkMessageRaw>(
        raw_call,
        version,
        signing_data,
        raw_message_of(),
        table,
        accept,
    );
    law_call_returns_the_next_message::<M, V, (MavHeader, M)>(
        call,
        version,
        signing_data,
        message_of::<M>(),
        table,
        accept,
    );
    if let Some(frame) = find_message(call.before(), table, accept).frame {
        assert(raw_of(frame, raw_result));
        assert(reads_as::<M>(frame, result));
        let raw = raw_result->Ok_0;
        law_raw_message_reads_like_its_frame(raw, frame, wire::version_of(frame[0])->0);
        let parsed = match result {
            Ok((_, message)) => Ok(message),
            Err(MessageReadError::Parse(error)) => Err(error),
            Err(MessageReadError::Io(_)) => arbitrary(),
        };
        assert(parses::<M>(frame, parsed));
    }
}

} // verus!
