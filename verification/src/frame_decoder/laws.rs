//! What holds of the decoder as a whole.
use vstd::prelude::*;

use super::lemmas::{
    lemma_drop_front_twice, lemma_feed_bounds, lemma_feed_drop_garbage, lemma_feed_ends,
    lemma_feed_marker, lemma_feed_run, lemma_feed_scanned, lemma_feed_skip, lemma_feed_sound,
    lemma_scan_again, lemma_scan_append, lemma_scan_stops, lemma_waits_fits, sound, waits,
};
use super::marker::{first_marker, lemma_before_first_marker, no_marker_below};
use super::model::{
    classify, feed, scan, take_in, DecoderState, ExtraTable, Fed, Rejection, Tally, Verdict,
};
use super::MAX_FRAME_LEN;
use crate::wire;
use crate::wire::{is_marker, prefix_len, version_of, FrameVersion};

verus! {

/// A rejected candidate is rescanned beginning with its second byte: what is found
/// behind its marker is what would be found there had the marker never been sent.
pub proof fn law_rejected_candidate_is_rescanned_from_its_second_byte(
    bytes: Seq<u8>,
    rejection: Rejection,
    capacity: nat,
    table: ExtraTable,
)
    requires
        bytes.len() > 0,
        classify(bytes, capacity, table) == Verdict::Rejected(rejection),
    ensures
        scan(bytes, capacity, table) == scan(bytes.drop_first(), capacity, table).after(
            1,
            Tally::one(rejection),
        ),
{
    reveal(scan);
}

/// Feeding matches byte-wise resynchronization of the whole stream: the frame found,
/// the rejections counted and the bytes dropped are those of one scan over the
/// retained bytes followed by the input.
pub proof fn law_feeding_matches_bytewise_resynchronization(
    state: DecoderState,
    input: Seq<u8>,
    capacity: nat,
    table: ExtraTable,
)
    requires
        state.frame is None,
        capacity >= 3,
    ensures
        ({
            let fed = feed(state, input, capacity, table);
            let whole = scan(state.pending + input, capacity, table);
            &&& fed.tally == whole.tally
            &&& fed.state.frame == whole.frame
            &&& whole.skipped <= state.pending.len() + fed.consumed
            &&& fed.state.pending == (state.pending + input.take(fed.consumed as int)).skip(
                whole.skipped as int,
            )
        }),
    decreases input.len(),
{
    reveal(feed);
    let outcome = scan(state.pending, capacity, table);
    let scanned = state.scanned(outcome);
    lemma_scan_append(state.pending, input, capacity, table);
    lemma_scan_stops(state.pending, capacity, table);
    let rest = state.pending.skip(outcome.skipped as int);
    assert(scanned.pending =~= rest);
    if outcome.frame is Some || input.len() == 0 {
        assert(state.pending + input.take(0) =~= state.pending);
        if outcome.frame is None {
            assert(state.pending + input =~= state.pending);
        }
    } else {
        if rest.len() > 0 {
            lemma_waits_fits(rest, capacity);
        }
        let byte = input.take(1);
        let later = input.drop_first();
        let grown = scanned.append(byte, capacity);
        law_feeding_matches_bytewise_resynchronization(grown, later, capacity, table);
        assert(grown.pending + later =~= rest + input);
        let taken = feed(grown, later, capacity, table).consumed as int;
        let dropped = scan(rest + input, capacity, table).skipped;
        lemma_scan_stops(rest + input, capacity, table);
        lemma_feed_bounds(grown, later, capacity, table);
        assert(grown.pending + later.take(taken) =~= rest + input.take(taken + 1));
        assert((rest + input.take(taken + 1)).skip(dropped as int) =~= (state.pending + input.take(
            taken + 1,
        )).skip((outcome.skipped + dropped) as int));
    }
}

/// How the input is cut into chunks does not matter: feeding a chunk and then, unless
/// it made a frame ready, the next one is feeding both at once.
pub proof fn law_feeding_is_independent_of_chunks(
    state: DecoderState,
    first: Seq<u8>,
    second: Seq<u8>,
    capacity: nat,
    table: ExtraTable,
)
    ensures
        ({
            let fed = feed(state, first, capacity, table);
            feed(state, first + second, capacity, table) == if fed.state.frame is Some {
                fed
            } else {
                feed(fed.state, second, capacity, table).after(first.len(), fed.tally)
            }
        }),
    decreases first.len(), state.pending.len(),
{
    reveal(feed);
    let whole = first + second;
    if state.frame is None {
        let outcome = scan(state.pending, capacity, table);
        let scanned = state.scanned(outcome);
        lemma_scan_stops(state.pending, capacity, table);
        if outcome.frame is None {
            if first.len() == 0 {
                assert(whole =~= second);
                lemma_feed_scanned(state, second, capacity, table);
            } else if capacity == 0 {
                assert(whole.drop_first() =~= first.drop_first() + second);
                law_feeding_is_independent_of_chunks(
                    DecoderState::empty(),
                    first.drop_first(),
                    second,
                    capacity,
                    table,
                );
            } else if scanned.pending.len() >= capacity {
                law_feeding_is_independent_of_chunks(
                    scanned.drop_front(1),
                    first,
                    second,
                    capacity,
                    table,
                );
            } else {
                assert(whole.take(1) =~= first.take(1));
                assert(whole.drop_first() =~= first.drop_first() + second);
                law_feeding_is_independent_of_chunks(
                    scanned.append(first.take(1), capacity),
                    first.drop_first(),
                    second,
                    capacity,
                    table,
                );
            }
        }
    }
}

/// `frame` is one frame that a decoder of this capacity accepts.
pub open spec fn acceptable(frame: Seq<u8>, capacity: nat, table: ExtraTable) -> bool {
    &&& frame.len() <= capacity
    &&& frame.len() > 0
    &&& version_of(frame[0]) matches Some(version) && {
        &&& frame.len() == wire::frame_len(frame, version)
        &&& !wire::unsupported_flags(frame, version)
        &&& wire::checksum_matches(frame, version, table(version, wire::message_id(frame, version)))
    }
}

/// A frame is accepted exactly as it was sent: behind any bytes without a marker it
/// becomes ready as soon as its last byte is fed, with no rejection, and whatever
/// follows it is not touched.
pub proof fn law_frame_is_accepted_as_sent(
    noise: Seq<u8>,
    frame: Seq<u8>,
    more: Seq<u8>,
    capacity: nat,
    table: ExtraTable,
)
    requires
        no_marker_below(noise, noise.len() as int),
        acceptable(frame, capacity, table),
    ensures
        feed(DecoderState::empty(), noise + frame + more, capacity, table) == (Fed {
            consumed: noise.len() + frame.len(),
            tally: Tally::zero(),
            state: DecoderState { offset: 0, pending: frame, frame: Some(frame.len()) },
        }),
{
    let empty = DecoderState::empty();
    let input = noise + frame + more;
    let stream = frame + more;
    let len = frame.len();
    let version = version_of(frame[0])->0;
    assert(no_marker_below(input, noise.len() as int)) by {
        assert forall|i: int| 0 <= i < noise.len() implies !is_marker(#[trigger] input[i]) by {
            assert(input[i] == noise[i]);
        }
    }
    lemma_feed_skip(input, noise.len(), capacity, table);
    assert(input.skip(noise.len() as int) =~= stream);
    lemma_feed_marker(stream, capacity, table);
    let begun = DecoderState { offset: 0, pending: stream.take(1), frame: None };
    let rest = stream.skip(1);
    assert forall|count: int| 0 <= count < len - 1 implies waits(
        begun.pending + #[trigger] rest.take(count),
        capacity,
    ) by {
        reveal(waits);
        let partial = begun.pending + rest.take(count);
        assert(partial[0] == frame[0]);
        if partial.len() >= prefix_len(version) {
            assert(partial[1] == frame[1]);
            if version == FrameVersion::V2 {
                assert(partial[2] == frame[2]);
            }
        }
    }
    lemma_feed_run(begun, rest, (len - 1) as nat, capacity, table);
    let whole = begun.append(rest.take(len - 1), capacity);
    assert(whole =~= DecoderState { offset: 0, pending: frame, frame: None });
    let left = rest.skip(len - 1);
    assert(classify(frame, capacity, table) == Verdict::Frame(len)) by {
        reveal(classify);
        assert(frame.take(len as int) =~= frame);
    }
    reveal(scan);
    reveal(feed);
    let ready = DecoderState { offset: 0, pending: frame, frame: Some(len) };
    assert(whole.scanned(scan(frame, capacity, table)) =~= ready);
}

/// Feeding `input` until no input is left, releasing every frame as soon as it is
/// ready: the frames in their order, and the state left behind.
///
/// A frame is never empty, so releasing one always leaves less to do.
pub open spec fn drain(
    state: DecoderState,
    input: Seq<u8>,
    capacity: nat,
    table: ExtraTable,
) -> (Seq<Seq<u8>>, DecoderState)
    decreases state.pending.len() + input.len(),
{
    let fed = feed(state, input, capacity, table);
    match fed.state.frame {
        None => (Seq::empty(), fed.state),
        Some(len) => {
            let released = fed.state.advanced();
            let later = input.skip(fed.consumed as int);
            if released.pending.len() + later.len() < state.pending.len() + input.len() {
                let (frames, last) = drain(released, later, capacity, table);
                (seq![fed.state.pending.take(len as int)] + frames, last)
            } else {
                (Seq::empty(), fed.state)
            }
        },
    }
}

/// Releasing a ready frame leaves less to do.
pub proof fn lemma_drain_goes_on(
    state: DecoderState,
    input: Seq<u8>,
    capacity: nat,
    table: ExtraTable,
)
    requires
        sound(state),
        feed(state, input, capacity, table).state.frame is Some,
    ensures
        ({
            let fed = feed(state, input, capacity, table);
            let released = fed.state.advanced();
            &&& fed.consumed <= input.len()
            &&& sound(released)
            &&& released.pending.len() + input.skip(fed.consumed as int).len()
                < state.pending.len() + input.len()
        }),
{
    lemma_feed_sound(state, input, capacity, table);
    lemma_feed_bounds(state, input, capacity, table);
}

/// Which frames come out, and what is left, does not depend on how the input is cut
/// into chunks.
pub proof fn law_frames_are_independent_of_chunks(
    state: DecoderState,
    first: Seq<u8>,
    second: Seq<u8>,
    capacity: nat,
    table: ExtraTable,
)
    requires
        state.valid(capacity),
    ensures
        ({
            let (early, middle) = drain(state, first, capacity, table);
            let (late, last) = drain(middle, second, capacity, table);
            drain(state, first + second, capacity, table) == (early + late, last)
        }),
{
    assert(sound(state));
    lemma_drain_chunks(state, first, second, capacity, table);
}

proof fn lemma_drain_chunks(
    state: DecoderState,
    first: Seq<u8>,
    second: Seq<u8>,
    capacity: nat,
    table: ExtraTable,
)
    requires
        sound(state),
    ensures
        ({
            let (early, middle) = drain(state, first, capacity, table);
            let (late, last) = drain(middle, second, capacity, table);
            drain(state, first + second, capacity, table) == (early + late, last)
        }),
    decreases state.pending.len() + first.len(),
{
    let whole = first + second;
    let fed = feed(state, first, capacity, table);
    law_feeding_is_independent_of_chunks(state, first, second, capacity, table);
    lemma_feed_bounds(state, first, capacity, table);
    lemma_feed_sound(state, first, capacity, table);
    if fed.state.frame is Some {
        let released = fed.state.advanced();
        let rest = first.skip(fed.consumed as int);
        lemma_drain_goes_on(state, first, capacity, table);
        lemma_drain_goes_on(state, whole, capacity, table);
        assert(whole.skip(fed.consumed as int) =~= rest + second);
        lemma_drain_chunks(released, rest, second, capacity, table);
        let (early, middle) = drain(released, rest, capacity, table);
        let (late, last) = drain(middle, second, capacity, table);
        let frame = seq![fed.state.pending.take(fed.state.frame->0 as int)];
        assert(frame + (early + late) =~= (frame + early) + late);
    } else {
        let late_fed = feed(fed.state, second, capacity, table);
        if late_fed.state.frame is Some {
            lemma_drain_goes_on(fed.state, second, capacity, table);
            lemma_drain_goes_on(state, whole, capacity, table);
            assert(whole.skip((first.len() + late_fed.consumed) as int) =~= second.skip(
                late_fed.consumed as int,
            ));
        }
        let (late, last) = drain(fed.state, second, capacity, table);
        assert(Seq::<Seq<u8>>::empty() + late =~= late);
    }
}

/// Frames one after the other, each behind bytes without a marker.
pub open spec fn stream_of(noise: Seq<Seq<u8>>, frames: Seq<Seq<u8>>) -> Seq<u8>
    decreases frames.len(),
{
    if frames.len() == 0 {
        Seq::empty()
    } else {
        noise[0] + frames[0] + stream_of(noise.drop_first(), frames.drop_first())
    }
}

/// A stream of frames, each behind any bytes without a marker, gives back exactly
/// these frames in their order and leaves nothing behind.
pub proof fn law_stream_gives_back_its_frames(
    noise: Seq<Seq<u8>>,
    frames: Seq<Seq<u8>>,
    capacity: nat,
    table: ExtraTable,
)
    requires
        noise.len() == frames.len(),
        forall|i: int|
            0 <= i < noise.len() ==> no_marker_below(#[trigger] noise[i], noise[i].len() as int),
        forall|i: int| 0 <= i < frames.len() ==> acceptable(#[trigger] frames[i], capacity, table),
    ensures
        drain(DecoderState::empty(), stream_of(noise, frames), capacity, table) == (
            frames,
            DecoderState::empty(),
        ),
    decreases frames.len(),
{
    let empty = DecoderState::empty();
    let input = stream_of(noise, frames);
    if frames.len() == 0 {
        lemma_feed_ends(empty, input, capacity, table);
        assert(frames =~= Seq::<Seq<u8>>::empty());
    } else {
        let frame = frames[0];
        let more = stream_of(noise.drop_first(), frames.drop_first());
        law_stream_gives_back_its_frames(noise.drop_first(), frames.drop_first(), capacity, table);
        law_frame_is_accepted_as_sent(noise[0], frame, more, capacity, table);
        let ready = feed(empty, input, capacity, table).state;
        assert(ready.advanced() == empty);
        assert(input.skip((noise[0].len() + frame.len()) as int) =~= more);
        assert(ready.pending.take(frame.len() as int) =~= frame);
        assert(seq![frame] + frames.drop_first() =~= frames);
    }
}

/// While a frame is ready, input is not consumed and nothing changes.
pub proof fn law_ready_frame_blocks_input(
    state: DecoderState,
    input: Seq<u8>,
    capacity: nat,
    table: ExtraTable,
)
    requires
        state.frame is Some,
    ensures
        feed(state, input, capacity, table) == (Fed {
            consumed: 0,
            tally: Tally::zero(),
            state,
        }),
{
    lemma_feed_ends(state, input, capacity, table);
}

/// Releasing a frame retains what is buffered behind it: only bytes in front of the
/// next marker go, and what is found later is what would be found with them.
pub proof fn law_advance_retains_what_follows(
    state: DecoderState,
    input: Seq<u8>,
    capacity: nat,
    table: ExtraTable,
)
    requires
        state.valid(capacity),
        state.frame is Some,
    ensures
        ({
            let len = state.frame->0;
            let rest = state.pending.skip(len as int);
            let advanced = state.advanced();
            &&& advanced.frame is None
            &&& advanced.pending == rest.skip(first_marker(rest) as int)
            &&& no_marker_below(rest, first_marker(rest) as int)
            &&& feed(advanced, input, capacity, table) == feed(
                state.drop_front(len),
                input,
                capacity,
                table,
            )
        }),
{
    let len = state.frame->0;
    let rest = state.pending.skip(len as int);
    let released = state.drop_front(len);
    lemma_before_first_marker(rest);
    assert(released.pending =~= rest);
    lemma_drop_front_twice(state, len, first_marker(rest));
    lemma_feed_drop_garbage(released, first_marker(rest), input, capacity, table);
    assert(state.advanced().pending =~= rest.skip(first_marker(rest) as int));
}

/// Bytes read straight into the buffer are treated like pushed ones: the frame found,
/// the rejections counted and the bytes dropped are those of one scan over the
/// retained bytes followed by the new ones.
pub proof fn law_commit_matches_bytewise_resynchronization(
    state: DecoderState,
    bytes: Seq<u8>,
    capacity: nat,
    table: ExtraTable,
)
    requires
        state.frame is None,
        capacity >= 3,
    ensures
        ({
            let taken = take_in(state, bytes, capacity, table);
            let whole = scan(state.pending + bytes, capacity, table);
            &&& taken.tally == whole.tally
            &&& taken.state.frame == whole.frame
            &&& taken.state.pending == (state.pending + bytes).skip(whole.skipped as int)
        }),
{
    let all = state.pending + bytes;
    let whole = scan(all, capacity, table);
    lemma_scan_stops(all, capacity, table);
    let grown = DecoderState { pending: all, ..state };
    let rest = all.skip(whole.skipped as int);
    assert(grown.scanned(whole).pending =~= rest);
    if whole.frame is None && rest.len() > 0 {
        lemma_waits_fits(rest, capacity);
    }
}

/// Committing bytes in two steps finds what committing them at once finds.
pub proof fn law_commit_is_independent_of_chunks(
    state: DecoderState,
    first: Seq<u8>,
    second: Seq<u8>,
    capacity: nat,
    table: ExtraTable,
)
    requires
        state.frame is None,
        capacity >= 3,
        take_in(state, first, capacity, table).state.frame is None,
    ensures
        ({
            let early = take_in(state, first, capacity, table);
            let late = take_in(early.state, second, capacity, table);
            let whole = take_in(state, first + second, capacity, table);
            &&& whole.consumed == early.consumed + late.consumed
            &&& whole.tally == early.tally.plus(late.tally)
            &&& whole.state.frame == late.state.frame
            &&& whole.state.pending == late.state.pending
        }),
{
    let early = take_in(state, first, capacity, table);
    law_commit_matches_bytewise_resynchronization(state, first, capacity, table);
    law_commit_matches_bytewise_resynchronization(early.state, second, capacity, table);
    law_commit_matches_bytewise_resynchronization(state, first + second, capacity, table);
    let begun = state.pending + first;
    assert(state.pending + (first + second) =~= begun + second);
    lemma_scan_append(begun, second, capacity, table);
    lemma_scan_stops(begun, capacity, table);
    let dropped = scan(begun, capacity, table).skipped;
    let later = early.state.pending + second;
    lemma_scan_stops(later, capacity, table);
    let gone = scan(later, capacity, table).skipped;
    assert(later.skip(gone as int) =~= (begun + second).skip((dropped + gone) as int));
}

/// Releasing a frame without looking for the next marker gives the same frames.
proof fn lemma_drain_released(
    state: DecoderState,
    input: Seq<u8>,
    capacity: nat,
    table: ExtraTable,
)
    requires
        sound(state),
        state.frame is Some,
    ensures
        drain(state.advanced(), input, capacity, table) == drain(
            state.drop_front(state.frame->0),
            input,
            capacity,
            table,
        ),
{
    let len = state.frame->0;
    let rest = state.pending.skip(len as int);
    let released = state.drop_front(len);
    lemma_before_first_marker(rest);
    assert(released.pending =~= rest);
    lemma_drop_front_twice(state, len, first_marker(rest));
    lemma_feed_drop_garbage(released, first_marker(rest), input, capacity, table);
    if feed(released, input, capacity, table).state.frame is Some {
        lemma_drain_goes_on(released, input, capacity, table);
        lemma_drain_goes_on(state.advanced(), input, capacity, table);
    }
}

/// Where the retained bytes end and the input begins does not matter.
proof fn lemma_drain_same(
    state: DecoderState,
    input: Seq<u8>,
    other: DecoderState,
    other_input: Seq<u8>,
    capacity: nat,
    table: ExtraTable,
)
    requires
        capacity >= 3,
        state.frame is None,
        other.frame is None,
        state.pending + input == other.pending + other_input,
    ensures
        ({
            let (frames, last) = drain(state, input, capacity, table);
            let (other_frames, other_last) = drain(other, other_input, capacity, table);
            &&& frames == other_frames
            &&& last.pending == other_last.pending
        }),
    decreases state.pending.len() + input.len(),
{
    let all = state.pending + input;
    let whole = scan(all, capacity, table);
    let fed = feed(state, input, capacity, table);
    let other_fed = feed(other, other_input, capacity, table);
    law_feeding_matches_bytewise_resynchronization(state, input, capacity, table);
    law_feeding_matches_bytewise_resynchronization(other, other_input, capacity, table);
    lemma_feed_bounds(state, input, capacity, table);
    lemma_feed_bounds(other, other_input, capacity, table);
    match whole.frame {
        None => {
            assert(state.pending + input.take(fed.consumed as int) =~= all);
            assert(other.pending + other_input.take(other_fed.consumed as int) =~= all);
        },
        Some(len) => {
            lemma_drain_goes_on(state, input, capacity, table);
            lemma_drain_goes_on(other, other_input, capacity, table);
            lemma_feed_sound(state, input, capacity, table);
            lemma_feed_sound(other, other_input, capacity, table);
            let later = input.skip(fed.consumed as int);
            let other_later = other_input.skip(other_fed.consumed as int);
            let front = all.skip(whole.skipped as int);
            assert(fed.state.pending + later =~= front);
            assert(other_fed.state.pending + other_later =~= front);
            assert(fed.state.pending.take(len as int) =~= front.take(len as int));
            assert(other_fed.state.pending.take(len as int) =~= front.take(len as int));
            let released = fed.state.drop_front(len);
            let other_released = other_fed.state.drop_front(len);
            assert(released.pending + later =~= front.skip(len as int));
            assert(other_released.pending + other_later =~= front.skip(len as int));
            lemma_drain_released(fed.state, later, capacity, table);
            lemma_drain_released(other_fed.state, other_later, capacity, table);
            lemma_drain_same(released, later, other_released, other_later, capacity, table);
        },
    }
}

/// So small a buffer holds no frame.
proof fn lemma_feed_tiny(state: DecoderState, input: Seq<u8>, capacity: nat, table: ExtraTable)
    requires
        capacity < 3,
        state.frame is None,
    ensures
        scan(state.pending, capacity, table).frame is None,
        feed(state, input, capacity, table).state.frame is None,
    decreases input.len(), state.pending.len(),
{
    reveal(feed);
    let outcome = scan(state.pending, capacity, table);
    let scanned = state.scanned(outcome);
    lemma_scan_stops(state.pending, capacity, table);
    assert(outcome.frame is None) by {
        reveal(classify);
    }
    if input.len() > 0 {
        let later = input.drop_first();
        if capacity == 0 {
            lemma_feed_tiny(DecoderState::empty(), later, capacity, table);
        } else if scanned.pending.len() >= capacity {
            lemma_feed_tiny(scanned.drop_front(1), input, capacity, table);
        } else {
            lemma_feed_tiny(scanned.append(input.take(1), capacity), later, capacity, table);
        }
    }
}

/// Committing bytes that were written into the buffer finds the frames that pushing
/// them finds, in the same order, whether or not a frame was ready before. What is
/// retained in the end is the same too, unless the buffer is too small for even the
/// first bytes of every candidate.
pub proof fn law_committed_bytes_give_the_frames_of_pushed_ones(
    state: DecoderState,
    bytes: Seq<u8>,
    capacity: nat,
    table: ExtraTable,
)
    requires
        state.valid(capacity),
    ensures
        ({
            let taken = take_in(state, bytes, capacity, table);
            let (committed, kept) = drain(taken.state, Seq::empty(), capacity, table);
            let (pushed, last) = drain(state, bytes, capacity, table);
            &&& committed == pushed
            &&& capacity >= 3 ==> kept.pending == last.pending
        }),
{
    let none = Seq::<u8>::empty();
    let grown = DecoderState { pending: state.pending + bytes, ..state };
    let taken = take_in(state, bytes, capacity, table).state;
    if let Some(len) = state.frame {
        lemma_feed_ends(state, bytes, capacity, table);
        lemma_feed_ends(grown, none, capacity, table);
        assert(bytes.skip(0) =~= bytes);
        assert(none.skip(0) =~= none);
        assert(grown.pending.take(len as int) =~= state.pending.take(len as int));
        if capacity >= 3 {
            lemma_drain_goes_on(state, bytes, capacity, table);
            lemma_drain_goes_on(grown, none, capacity, table);
            lemma_drain_released(state, bytes, capacity, table);
            lemma_drain_released(grown, none, capacity, table);
            let behind = grown.pending.skip(len as int);
            assert(state.drop_front(len).pending + bytes =~= behind);
            assert(grown.drop_front(len).pending + none =~= behind);
            lemma_drain_same(
                state.drop_front(len),
                bytes,
                grown.drop_front(len),
                none,
                capacity,
                table,
            );
        }
    } else if capacity >= 3 {
        let outcome = scan(grown.pending, capacity, table);
        let scanned = grown.scanned(outcome);
        let rest = grown.pending.skip(outcome.skipped as int);
        lemma_scan_stops(grown.pending, capacity, table);
        lemma_scan_again(grown.pending, capacity, table);
        assert(scanned.pending =~= rest);
        if outcome.frame is None && rest.len() > 0 {
            lemma_waits_fits(rest, capacity);
        }
        assert(taken == scanned);
        assert(grown.pending + none =~= state.pending + bytes);
        lemma_drain_same(grown, none, state, bytes, capacity, table);
        assert(feed(grown, none, capacity, table).state == scanned
            && feed(scanned, none, capacity, table).state == scanned) by {
            reveal(feed);
            assert(scanned.drop_front(0) =~= scanned || scanned.frame is Some
                || rest.len() == 0);
        }
        if outcome.frame is Some {
            lemma_feed_sound(grown, none, capacity, table);
            lemma_feed_bounds(grown, none, capacity, table);
            lemma_feed_bounds(scanned, none, capacity, table);
            lemma_drain_goes_on(grown, none, capacity, table);
            lemma_drain_goes_on(scanned, none, capacity, table);
        }
    } else {
        lemma_feed_tiny(state, bytes, capacity, table);
        lemma_feed_tiny(grown, none, capacity, table);
        let scanned = grown.scanned(scan(grown.pending, capacity, table));
        lemma_feed_tiny(scanned.drop_front(1), none, capacity, table);
        lemma_feed_tiny(taken, none, capacity, table);
    }
}

/// No more candidates are rejected than there are bytes to begin them.
pub proof fn law_rejections_are_bounded_by_bytes(
    state: DecoderState,
    input: Seq<u8>,
    capacity: nat,
    table: ExtraTable,
)
    ensures
        feed(state, input, capacity, table).tally.total() <= state.pending.len() + feed(
            state,
            input,
            capacity,
            table,
        ).consumed,
{
    lemma_feed_bounds(state, input, capacity, table);
}

/// A buffer for one maximum frame is never too small for a candidate.
pub proof fn law_maximum_capacity_is_never_too_small(
    state: DecoderState,
    input: Seq<u8>,
    capacity: nat,
    table: ExtraTable,
)
    requires
        state.frame is None,
        capacity >= MAX_FRAME_LEN,
    ensures
        feed(state, input, capacity, table).tally.buffer_too_small == 0,
{
    law_feeding_matches_bytewise_resynchronization(state, input, capacity, table);
    lemma_scan_fits(state.pending + input, capacity, table);
}

proof fn lemma_scan_fits(bytes: Seq<u8>, capacity: nat, table: ExtraTable)
    requires
        capacity >= MAX_FRAME_LEN,
    ensures
        scan(bytes, capacity, table).tally.buffer_too_small == 0,
    decreases bytes.len(),
{
    reveal(scan);
    if bytes.len() > 0 {
        lemma_scan_fits(bytes.drop_first(), capacity, table);
        reveal(classify);
    }
}

} // verus!
