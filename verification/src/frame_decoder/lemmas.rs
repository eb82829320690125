//! How scanning and feeding compose.
use vstd::prelude::*;

use super::marker::no_marker_below;
use super::model::{
    classify, complete_at, feed, scan, DecoderState, ExtraTable, Fed, Rejection, Scan, Tally,
    Verdict,
};
use crate::wire::{
    frame_len, is_marker, message_id, prefix_len, unsupported_flags, version_of, FrameVersion,
};

verus! {

/// `bytes` begins with a candidate that needs more bytes, whatever the extra bytes
/// are.
#[verifier::opaque]
pub open spec fn waits(bytes: Seq<u8>, capacity: nat) -> bool {
    &&& bytes.len() > 0
    &&& version_of(bytes[0]) matches Some(version) && {
        ||| bytes.len() < prefix_len(version)
        ||| {
            &&& !unsupported_flags(bytes, version)
            &&& frame_len(bytes, version) <= capacity
            &&& bytes.len() < frame_len(bytes, version)
        }
    }
}

/// A candidate waits exactly when it is incomplete.
pub proof fn lemma_waits(bytes: Seq<u8>, capacity: nat, table: ExtraTable)
    requires
        bytes.len() > 0,
    ensures
        waits(bytes, capacity) <==> classify(bytes, capacity, table) == Verdict::Incomplete,
{
    reveal(classify);
    reveal(waits);
}

/// A waiting candidate is not empty, and a buffer that holds the leading bytes of a
/// frame has room for more of it.
pub proof fn lemma_waits_fits(bytes: Seq<u8>, capacity: nat)
    requires
        waits(bytes, capacity),
    ensures
        bytes.len() > 0,
        capacity >= 3 ==> bytes.len() < capacity,
{
    reveal(waits);
}

/// How many bytes a waiting candidate needs before it can be judged.
pub open spec fn target_len(bytes: Seq<u8>) -> nat {
    match version_of(bytes[0]) {
        None => 0,
        Some(version) => if bytes.len() < prefix_len(version) {
            prefix_len(version)
        } else {
            frame_len(bytes, version)
        },
    }
}

/// A waiting candidate waits until it has come to the length that it waits for.
pub proof fn lemma_waits_longer(bytes: Seq<u8>, more: Seq<u8>, capacity: nat)
    requires
        waits(bytes, capacity),
        bytes.len() + more.len() < target_len(bytes),
    ensures
        waits(bytes + more, capacity),
{
    reveal(waits);
    let joined = bytes + more;
    assert(joined[0] == bytes[0]);
    assert(version_of(bytes[0]) is Some);
    let version = version_of(bytes[0])->0;
    if bytes.len() >= prefix_len(version) {
        assert(joined[1] == bytes[1]);
        if version == FrameVersion::V2 {
            assert(joined[2] == bytes[2]);
        }
    }
}

/// What the front of a buffer is judged to be decides how it begins and how long it
/// is at least.
pub proof fn lemma_verdict(bytes: Seq<u8>, capacity: nat, table: ExtraTable)
    requires
        bytes.len() > 0,
    ensures
        classify(bytes, capacity, table) == Verdict::Garbage <==> !is_marker(bytes[0]),
        classify(bytes, capacity, table) matches Verdict::Frame(len) ==> len <= bytes.len(),
{
    reveal(classify);
}

/// What is left behind the bytes that a scan drops is nothing, an incomplete
/// candidate, or a frame, and each rejected candidate costs a byte.
pub proof fn lemma_scan_stops(bytes: Seq<u8>, capacity: nat, table: ExtraTable)
    ensures
        ({
            let outcome = scan(bytes, capacity, table);
            let rest = bytes.skip(outcome.skipped as int);
            &&& outcome.skipped <= bytes.len()
            &&& outcome.tally.total() <= outcome.skipped
            &&& outcome.frame is None && rest.len() > 0 ==> waits(rest, capacity)
            &&& outcome.frame matches Some(len) ==> {
                &&& rest.len() >= len
                &&& rest.len() > 0
                &&& classify(rest, capacity, table) == Verdict::Frame(len)
            }
        }),
    decreases bytes.len(),
{
    reveal(scan);
    let outcome = scan(bytes, capacity, table);
    if bytes.len() > 0 {
        let next = bytes.drop_first();
        lemma_scan_stops(next, capacity, table);
        let dropped = scan(next, capacity, table).skipped;
        assert(next.skip(dropped as int) =~= bytes.skip(dropped as int + 1));
        assert(bytes.skip(0) =~= bytes);
        lemma_waits(bytes, capacity, table);
        lemma_verdict(bytes, capacity, table);
    }
}

/// Scanning what a scan has left finds the same and drops nothing.
pub proof fn lemma_scan_again(bytes: Seq<u8>, capacity: nat, table: ExtraTable)
    ensures
        ({
            let outcome = scan(bytes, capacity, table);
            scan(bytes.skip(outcome.skipped as int), capacity, table) == (Scan {
                skipped: 0,
                tally: Tally::zero(),
                frame: outcome.frame,
            })
        }),
{
    reveal(scan);
    lemma_scan_stops(bytes, capacity, table);
    let rest = bytes.skip(scan(bytes, capacity, table).skipped as int);
    if rest.len() > 0 {
        lemma_waits(rest, capacity, table);
    }
}

/// Bytes in front of the first marker are dropped without a rejection.
pub proof fn lemma_scan_garbage(bytes: Seq<u8>, count: nat, capacity: nat, table: ExtraTable)
    requires
        count <= bytes.len(),
        no_marker_below(bytes, count as int),
    ensures
        scan(bytes, capacity, table) == scan(bytes.skip(count as int), capacity, table).after(
            count,
            Tally::zero(),
        ),
    decreases count,
{
    reveal(scan);
    if count == 0 {
        assert(bytes.skip(0) =~= bytes);
    } else {
        assert(!is_marker(bytes[0]));
        lemma_verdict(bytes, capacity, table);
        let next = bytes.drop_first();
        assert(no_marker_below(next, count - 1)) by {
            assert forall|i: int| 0 <= i < count - 1 implies !is_marker(#[trigger] next[i]) by {
                assert(!is_marker(bytes[i + 1]));
            }
        }
        lemma_scan_garbage(next, (count - 1) as nat, capacity, table);
        assert(next.skip(count - 1) =~= bytes.skip(count as int));
    }
}

/// More bytes behind a buffer change the judgement of its front only where that was
/// incomplete.
pub proof fn lemma_classify_prefix(
    bytes: Seq<u8>,
    more: Seq<u8>,
    capacity: nat,
    table: ExtraTable,
)
    requires
        bytes.len() > 0,
        classify(bytes, capacity, table) != Verdict::Incomplete,
    ensures
        classify(bytes + more, capacity, table) == classify(bytes, capacity, table),
{
    reveal(classify);
    let joined = bytes + more;
    assert(joined[0] == bytes[0]);
    if let Some(version) = version_of(bytes[0]) {
        assert(bytes.len() >= prefix_len(version));
        assert(joined[1] == bytes[1]);
        if version == FrameVersion::V2 {
            assert(joined[2] == bytes[2]);
        }
        let len = frame_len(bytes, version);
        if !unsupported_flags(bytes, version) && len <= capacity {
            assert(bytes.len() >= len);
            assert(joined.take(len as int) =~= bytes.take(len as int));
        }
    }
}

/// Scanning a buffer and scanning what is left together with more bytes is scanning
/// everything at once; a frame that was found stays found.
#[verifier::rlimit(40)]
pub proof fn lemma_scan_append(bytes: Seq<u8>, more: Seq<u8>, capacity: nat, table: ExtraTable)
    ensures
        ({
            let first = scan(bytes, capacity, table);
            let all = scan(bytes + more, capacity, table);
            if first.frame is Some {
                all == first
            } else {
                let rest = bytes.skip(first.skipped as int) + more;
                all == scan(rest, capacity, table).after(first.skipped, first.tally)
            }
        }),
    decreases bytes.len(),
{
    reveal(scan);
    if bytes.len() == 0 {
        assert(bytes + more =~= more);
        assert(bytes.skip(0) + more =~= more);
    } else if classify(bytes, capacity, table) == Verdict::Incomplete {
        assert(bytes.skip(0) =~= bytes);
    } else {
        lemma_classify_prefix(bytes, more, capacity, table);
        let next = bytes.drop_first();
        lemma_scan_append(next, more, capacity, table);
        assert((bytes + more).drop_first() =~= next + more);
        let dropped = scan(next, capacity, table).skipped;
        lemma_scan_stops(next, capacity, table);
        assert(next.skip(dropped as int) =~= bytes.skip(dropped as int + 1));
    }
}

/// A candidate that is complete in a part of a stream is complete in the stream.
pub proof fn lemma_complete_part(
    part: Seq<u8>,
    whole: Seq<u8>,
    from: int,
    start: int,
    version: FrameVersion,
    capacity: nat,
)
    requires
        0 <= from <= from + part.len() <= whole.len(),
        part == whole.subrange(from, from + part.len()),
        complete_at(part, start, version, capacity),
    ensures
        complete_at(whole, from + start, version, capacity),
        message_id(whole.skip(from + start), version) == message_id(part.skip(start), version),
{
    let near = part.skip(start);
    let far = whole.skip(from + start);
    assert forall|i: int| 0 <= i < near.len() implies near[i] == #[trigger] far[i] by {}
    assert(far[0] == near[0]);
}

/// `bytes` is what `whole` ends with.
pub open spec fn is_suffix(bytes: Seq<u8>, whole: Seq<u8>) -> bool {
    &&& bytes.len() <= whole.len()
    &&& bytes == whole.skip(whole.len() - bytes.len())
}

/// The end of an end is an end.
pub proof fn lemma_suffix(bytes: Seq<u8>, middle: Seq<u8>, whole: Seq<u8>)
    requires
        is_suffix(bytes, middle),
        is_suffix(middle, whole),
    ensures
        is_suffix(bytes, whole),
{
    assert(bytes =~= whole.skip(whole.len() - bytes.len()));
}

/// Nothing is an end of everything.
pub proof fn lemma_suffix_empty(whole: Seq<u8>)
    ensures
        is_suffix(Seq::empty(), whole),
{
    assert(Seq::<u8>::empty() =~= whole.skip(whole.len() as int));
}

/// The end of what has arrived stays its end when both grow by the same input.
pub proof fn lemma_suffix_grows(
    bytes: Seq<u8>,
    front: Seq<u8>,
    input: Seq<u8>,
    from: int,
    to: int,
)
    requires
        is_suffix(bytes, front + input.take(from)),
        0 <= from <= to <= input.len(),
    ensures
        is_suffix(bytes + input.subrange(from, to), front + input.take(to)),
{
    let whole = front + input.take(to);
    let grown = bytes + input.subrange(from, to);
    assert(whole =~= front + input.take(from) + input.subrange(from, to));
    assert(grown =~= whole.skip(whole.len() - grown.len()));
}

/// Dropping bytes in two steps is dropping them at once.
pub proof fn lemma_drop_front_twice(state: DecoderState, first: nat, second: nat)
    ensures
        state.drop_front(first).drop_front(second) == state.drop_front(first + second),
{
    if first < state.pending.len() && first + second < state.pending.len() {
        assert(state.pending.skip(first as int).skip(second as int) =~= state.pending.skip(
            (first + second) as int,
        ));
    }
}

/// Bytes dropped from a state that has itself lost bytes in front.
pub proof fn lemma_front(all: DecoderState, before: DecoderState, after: DecoderState)
    requires
        after.pending.len() <= before.pending.len() <= all.pending.len(),
        before == all.drop_front((all.pending.len() - before.pending.len()) as nat),
        after == before.drop_front((before.pending.len() - after.pending.len()) as nat),
    ensures
        after == all.drop_front((all.pending.len() - after.pending.len()) as nat),
        after.pending == all.pending.skip(all.pending.len() - after.pending.len()),
{
    lemma_drop_front_twice(
        all,
        (all.pending.len() - before.pending.len()) as nat,
        (before.pending.len() - after.pending.len()) as nat,
    );
    assert(after.pending =~= all.pending.skip(all.pending.len() - after.pending.len()));
}

/// A rejected candidate is dropped together with the garbage behind its marker.
pub proof fn lemma_scan_reject(
    bytes: Seq<u8>,
    rejection: Rejection,
    count: nat,
    capacity: nat,
    table: ExtraTable,
)
    requires
        1 <= count <= bytes.len(),
        classify(bytes, capacity, table) == Verdict::Rejected(rejection),
        no_marker_below(bytes.drop_first(), count - 1),
    ensures
        scan(bytes, capacity, table) == scan(bytes.skip(count as int), capacity, table).after(
            count,
            Tally::one(rejection),
        ),
{
    reveal(scan);
    lemma_scan_garbage(bytes.drop_first(), (count - 1) as nat, capacity, table);
    assert(bytes.drop_first().skip(count - 1) =~= bytes.skip(count as int));
}

/// A scan of `all` comes to `rest`, having rejected what `tally` counts.
#[verifier::opaque]
pub open spec fn rejected_to(
    all: Seq<u8>,
    rest: Seq<u8>,
    tally: Tally,
    capacity: nat,
    table: ExtraTable,
) -> bool {
    scan(all, capacity, table) == scan(rest, capacity, table).after(
        (all.len() - rest.len()) as nat,
        tally,
    )
}

/// A scan begins where it begins.
pub proof fn lemma_scan_begins(all: Seq<u8>, capacity: nat, table: ExtraTable)
    ensures
        rejected_to(all, all, Tally::zero(), capacity, table),
{
    reveal(rejected_to);
}

/// A scan that comes to garbage comes to what follows it.
pub proof fn lemma_garbage_passed(
    all: DecoderState,
    before: DecoderState,
    after: DecoderState,
    tally: Tally,
    capacity: nat,
    table: ExtraTable,
)
    requires
        after.pending.len() <= before.pending.len() <= all.pending.len(),
        after == before.drop_front((before.pending.len() - after.pending.len()) as nat),
        no_marker_below(before.pending, before.pending.len() - after.pending.len()),
        rejected_to(all.pending, before.pending, tally, capacity, table),
    ensures
        rejected_to(all.pending, after.pending, tally, capacity, table),
{
    reveal(rejected_to);
    let count = (before.pending.len() - after.pending.len()) as nat;
    lemma_scan_garbage(before.pending, count, capacity, table);
    assert(before.pending.skip(count as int) =~= after.pending);
}

/// A scan ends where nothing is left, or at a candidate that is not rejected.
pub proof fn lemma_scan_ends(
    all: DecoderState,
    state: DecoderState,
    tally: Tally,
    frame: Option<nat>,
    capacity: nat,
    table: ExtraTable,
)
    requires
        state.pending.len() <= all.pending.len(),
        state == all.drop_front((all.pending.len() - state.pending.len()) as nat),
        rejected_to(all.pending, state.pending, tally, capacity, table),
        if state.pending.len() == 0 {
            frame is None
        } else {
            classify(state.pending, capacity, table) == match frame {
                Some(len) => Verdict::Frame(len),
                None => Verdict::Incomplete,
            }
        },
    ensures
        ({
            let outcome = scan(all.pending, capacity, table);
            &&& outcome.tally == tally
            &&& all.scanned(outcome) == (DecoderState { frame, ..state })
        }),
{
    reveal(rejected_to);
    reveal(scan);
}

/// A scan that comes to a rejected candidate comes to what follows it.
pub proof fn lemma_rejected(
    all: DecoderState,
    before: DecoderState,
    after: DecoderState,
    tally: Tally,
    rejection: Rejection,
    capacity: nat,
    table: ExtraTable,
)
    requires
        after.pending.len() < before.pending.len() <= all.pending.len(),
        after == before.drop_front((before.pending.len() - after.pending.len()) as nat),
        no_marker_below(
            before.pending.drop_first(),
            before.pending.len() - after.pending.len() - 1,
        ),
        classify(before.pending, capacity, table) == Verdict::Rejected(rejection),
        rejected_to(all.pending, before.pending, tally, capacity, table),
    ensures
        rejected_to(
            all.pending,
            after.pending,
            tally.plus(Tally::one(rejection)),
            capacity,
            table,
        ),
{
    reveal(rejected_to);
    let count = (before.pending.len() - after.pending.len()) as nat;
    lemma_scan_reject(before.pending, rejection, count, capacity, table);
    assert(before.pending.skip(count as int) =~= after.pending);
}

/// Scanning behind the marker of a candidate finds what scanning from the next marker
/// on finds.
pub proof fn lemma_scan_behind(
    state: DecoderState,
    shorter: DecoderState,
    capacity: nat,
    table: ExtraTable,
)
    requires
        shorter.pending.len() < state.pending.len(),
        shorter == state.drop_front((state.pending.len() - shorter.pending.len()) as nat),
        no_marker_below(
            state.pending.drop_first(),
            state.pending.len() - shorter.pending.len() - 1,
        ),
    ensures
        ({
            let behind = state.drop_front(1);
            let found = scan(behind.pending, capacity, table);
            let outcome = scan(shorter.pending, capacity, table);
            &&& found.tally == outcome.tally
            &&& behind.scanned(found) == shorter.scanned(outcome)
        }),
{
    let behind = state.drop_front(1);
    let gone = (state.pending.len() - shorter.pending.len() - 1) as nat;
    assert(behind.pending =~= state.pending.drop_first());
    lemma_scan_garbage(behind.pending, gone, capacity, table);
    assert(behind.pending.skip(gone as int) =~= shorter.pending);
    lemma_drop_front_twice(state, 1, gone);
    lemma_drop_front_twice(behind, gone, scan(shorter.pending, capacity, table).skipped);
}

/// Feeding begins by scanning what is retained.
pub proof fn lemma_feed_scanned(
    state: DecoderState,
    input: Seq<u8>,
    capacity: nat,
    table: ExtraTable,
)
    requires
        state.frame is None,
    ensures
        ({
            let outcome = scan(state.pending, capacity, table);
            feed(state, input, capacity, table) == feed(
                state.scanned(outcome),
                input,
                capacity,
                table,
            ).after(0, outcome.tally)
        }),
{
    reveal(feed);
    let outcome = scan(state.pending, capacity, table);
    let scanned = state.scanned(outcome);
    lemma_scan_stops(state.pending, capacity, table);
    if outcome.frame is None {
        lemma_scan_again(state.pending, capacity, table);
        assert(scanned.pending =~= state.pending.skip(outcome.skipped as int));
        assert(scanned.scanned(scan(scanned.pending, capacity, table)) =~= scanned);
    }
}

/// Feeding `input` to `start` comes to `state`, having consumed and rejected this
/// much.
#[verifier::opaque]
pub open spec fn fed_to(
    start: DecoderState,
    input: Seq<u8>,
    state: DecoderState,
    consumed: nat,
    tally: Tally,
    capacity: nat,
    table: ExtraTable,
) -> bool {
    feed(start, input, capacity, table) == feed(
        state,
        input.skip(consumed as int),
        capacity,
        table,
    ).after(consumed, tally)
}

/// Feeding begins where it begins.
pub proof fn lemma_fed_start(
    start: DecoderState,
    input: Seq<u8>,
    capacity: nat,
    table: ExtraTable,
)
    ensures
        fed_to(start, input, start, 0, Tally::zero(), capacity, table),
{
    reveal(fed_to);
    assert(input.skip(0) =~= input);
}

/// Feeding goes on by scanning what is retained.
pub proof fn lemma_fed_scanned(
    start: DecoderState,
    input: Seq<u8>,
    middle: DecoderState,
    consumed: nat,
    tally: Tally,
    capacity: nat,
    table: ExtraTable,
)
    requires
        middle.frame is None,
        fed_to(start, input, middle, consumed, tally, capacity, table),
    ensures
        ({
            let outcome = scan(middle.pending, capacity, table);
            fed_to(
                start,
                input,
                middle.scanned(outcome),
                consumed,
                tally.plus(outcome.tally),
                capacity,
                table,
            )
        }),
{
    reveal(fed_to);
    lemma_feed_scanned(middle, input.skip(consumed as int), capacity, table);
}

/// Feeding has come to its end where a frame is ready or no input is left.
pub proof fn lemma_fed_ends(
    start: DecoderState,
    input: Seq<u8>,
    state: DecoderState,
    consumed: nat,
    tally: Tally,
    capacity: nat,
    table: ExtraTable,
)
    requires
        consumed <= input.len(),
        fed_to(start, input, state, consumed, tally, capacity, table),
        state.frame is Some || (consumed == input.len() && settled(state, capacity)),
    ensures
        feed(start, input, capacity, table) == (Fed { consumed, tally, state }),
{
    reveal(fed_to);
    lemma_feed_ends(state, input.skip(consumed as int), capacity, table);
}

/// Feeding further from where feeding has come to.
pub proof fn lemma_fed_further(
    start: DecoderState,
    input: Seq<u8>,
    middle: DecoderState,
    consumed: nat,
    tally: Tally,
    state: DecoderState,
    taken: nat,
    added: Tally,
    capacity: nat,
    table: ExtraTable,
)
    requires
        consumed + taken <= input.len(),
        fed_to(start, input, middle, consumed, tally, capacity, table),
        fed_to(middle, input.skip(consumed as int), state, taken, added, capacity, table),
    ensures
        fed_to(start, input, state, consumed + taken, tally.plus(added), capacity, table),
{
    reveal(fed_to);
    assert(input.skip(consumed as int).skip(taken as int) =~= input.skip(
        (consumed + taken) as int,
    ));
}

/// Nothing is left to drop: no frame is ready, and what is retained waits.
pub open spec fn settled(state: DecoderState, capacity: nat) -> bool {
    &&& state.frame is None
    &&& state.pending.len() == 0 ==> state.offset == 0
    &&& state.pending.len() > 0 ==> waits(state.pending, capacity)
}

/// Scanning a settled state changes nothing.
pub proof fn lemma_settled(state: DecoderState, capacity: nat, table: ExtraTable)
    requires
        settled(state, capacity),
    ensures
        scan(state.pending, capacity, table) == (Scan {
            skipped: 0,
            tally: Tally::zero(),
            frame: None,
        }),
        state.scanned(scan(state.pending, capacity, table)) == state,
{
    reveal(scan);
    if state.pending.len() > 0 {
        lemma_waits(state.pending, capacity, table);
    }
    assert(state.scanned(scan(state.pending, capacity, table)) =~= state);
}

/// Where nothing can be retained, each marker is a rejection of its own.
pub proof fn lemma_feed_nowhere(input: Seq<u8>, table: ExtraTable)
    requires
        input.len() > 0,
        is_marker(input[0]),
    ensures
        feed(DecoderState::empty(), input, 0, table) == feed(
            DecoderState::empty(),
            input.skip(1),
            0,
            table,
        ).after(1, Tally::one(Rejection::BufferTooSmall)),
{
    reveal(feed);
    lemma_settled(DecoderState::empty(), 0, table);
    assert(input.skip(1) =~= input.drop_first());
}

/// The first byte of a candidate is retained where nothing was.
pub proof fn lemma_feed_marker(input: Seq<u8>, capacity: nat, table: ExtraTable)
    requires
        input.len() > 0,
        capacity > 0,
    ensures
        feed(DecoderState::empty(), input, capacity, table) == feed(
            DecoderState { offset: 0, pending: input.take(1), frame: None },
            input.skip(1),
            capacity,
            table,
        ).after(1, Tally::zero()),
{
    reveal(feed);
    let empty = DecoderState::empty();
    lemma_settled(empty, capacity, table);
    assert(input.skip(1) =~= input.drop_first());
    assert(empty.append(input.take(1), capacity) =~= DecoderState {
        offset: 0,
        pending: input.take(1),
        frame: None,
    });
}

/// A waiting candidate that fills the buffer is rejected together with the garbage
/// behind its marker.
pub proof fn lemma_feed_full(
    state: DecoderState,
    count: nat,
    input: Seq<u8>,
    capacity: nat,
    table: ExtraTable,
)
    requires
        settled(state, capacity),
        state.pending.len() == capacity > 0,
        input.len() > 0,
        1 <= count <= state.pending.len(),
        no_marker_below(state.pending.drop_first(), count - 1),
    ensures
        feed(state, input, capacity, table) == feed(
            state.drop_front(count),
            input,
            capacity,
            table,
        ).after(0, Tally::one(Rejection::BufferTooSmall)),
{
    reveal(feed);
    lemma_settled(state, capacity, table);
    let shortened = state.drop_front(1);
    if state.pending.len() > 1 {
        assert(shortened.pending =~= state.pending.drop_first());
        lemma_feed_drop_garbage(shortened, (count - 1) as nat, input, capacity, table);
        lemma_drop_front_twice(state, 1, (count - 1) as nat);
    }
}

/// A ready frame stops the feeding, and so does the end of the input.
pub proof fn lemma_feed_ends(
    state: DecoderState,
    input: Seq<u8>,
    capacity: nat,
    table: ExtraTable,
)
    requires
        state.frame is Some || (input.len() == 0 && settled(state, capacity)),
    ensures
        feed(state, input, capacity, table) == (Fed {
            consumed: 0,
            tally: Tally::zero(),
            state,
        }),
{
    reveal(feed);
    if state.frame is None {
        lemma_settled(state, capacity, table);
    }
}

/// Bytes in front of the first retained marker do not matter.
pub proof fn lemma_feed_drop_garbage(
    state: DecoderState,
    count: nat,
    input: Seq<u8>,
    capacity: nat,
    table: ExtraTable,
)
    requires
        state.frame is None,
        count <= state.pending.len(),
        no_marker_below(state.pending, count as int),
    ensures
        feed(state, input, capacity, table) == feed(
            state.drop_front(count),
            input,
            capacity,
            table,
        ),
{
    lemma_scan_garbage(state.pending, count, capacity, table);
    let dropped = state.drop_front(count);
    assert(dropped.pending =~= state.pending.skip(count as int));
    let outcome = scan(state.pending, capacity, table);
    let rest = scan(dropped.pending, capacity, table);
    lemma_drop_front_twice(state, count, rest.skipped);
    assert(state.scanned(outcome) == dropped.scanned(rest));
    lemma_feed_scanned(state, input, capacity, table);
    lemma_feed_scanned(dropped, input, capacity, table);
}

/// Input in front of the first marker is consumed without a trace where nothing is
/// retained.
pub proof fn lemma_feed_skip(input: Seq<u8>, count: nat, capacity: nat, table: ExtraTable)
    requires
        count <= input.len(),
        no_marker_below(input, count as int),
    ensures
        feed(DecoderState::empty(), input, capacity, table) == feed(
            DecoderState::empty(),
            input.skip(count as int),
            capacity,
            table,
        ).after(count, Tally::zero()),
    decreases count,
{
    reveal(feed);
    let empty = DecoderState::empty();
    if count == 0 {
        assert(input.skip(0) =~= input);
    } else {
        assert(!is_marker(input[0]));
        let next = input.drop_first();
        assert(no_marker_below(next, count - 1)) by {
            assert forall|i: int| 0 <= i < count - 1 implies !is_marker(#[trigger] next[i]) by {
                assert(!is_marker(input[i + 1]));
            }
        }
        lemma_feed_skip(next, (count - 1) as nat, capacity, table);
        assert(next.skip(count - 1) =~= input.skip(count as int));
        lemma_settled(empty, capacity, table);
        if capacity > 0 {
            let grown = empty.append(input.take(1), capacity);
            assert(no_marker_below(grown.pending, 1));
            lemma_feed_drop_garbage(grown, 1, next, capacity, table);
            assert(grown.drop_front(1) =~= empty);
        }
    }
}

/// While the front candidate waits, input is appended byte by byte.
pub proof fn lemma_feed_run(
    state: DecoderState,
    input: Seq<u8>,
    amount: nat,
    capacity: nat,
    table: ExtraTable,
)
    requires
        state.frame is None,
        amount <= input.len(),
        state.pending.len() + amount <= capacity,
        forall|count: int|
            0 <= count < amount ==> waits(state.pending + #[trigger] input.take(count), capacity),
    ensures
        feed(state, input, capacity, table) == feed(
            if amount == 0 { state } else {
                state.append(input.take(amount as int), capacity)
            },
            input.skip(amount as int),
            capacity,
            table,
        ).after(amount, Tally::zero()),
    decreases amount,
{
    reveal(feed);
    if amount == 0 {
        assert(input.skip(0) =~= input);
    } else {
        assert(input.take(0) =~= Seq::<u8>::empty());
        assert(state.pending + input.take(0) =~= state.pending);
        lemma_waits_fits(state.pending, capacity);
        lemma_settled(state, capacity, table);
        let next = input.drop_first();
        let grown = state.append(input.take(1), capacity);
        assert forall|count: int| 0 <= count < amount - 1 implies waits(
            grown.pending + #[trigger] next.take(count),
            capacity,
        ) by {
            assert(grown.pending + next.take(count) =~= state.pending + input.take(count + 1));
        }
        lemma_feed_run(grown, next, (amount - 1) as nat, capacity, table);
        assert(next.skip(amount - 1) =~= input.skip(amount as int));
        if amount > 1 {
            assert(grown.append(next.take(amount - 1), capacity) =~= state.append(
                input.take(amount as int),
                capacity,
            ));
        } 
    }
}

/// A ready frame is not empty and is retained.
pub open spec fn sound(state: DecoderState) -> bool {
    state.frame matches Some(len) ==> 0 < len <= state.pending.len()
}

/// Feeding retains no more than there was, and what it makes ready is not empty.
pub proof fn lemma_feed_sound(
    state: DecoderState,
    input: Seq<u8>,
    capacity: nat,
    table: ExtraTable,
)
    requires
        sound(state),
    ensures
        sound(feed(state, input, capacity, table).state),
        feed(state, input, capacity, table).state.pending.len() <= state.pending.len() + feed(
            state,
            input,
            capacity,
            table,
        ).consumed,
    decreases input.len(), state.pending.len(),
{
    reveal(feed);
    if state.frame is None {
        let outcome = scan(state.pending, capacity, table);
        let scanned = state.scanned(outcome);
        lemma_scan_stops(state.pending, capacity, table);
        if outcome.frame is Some {
            reveal(classify);
        } else if input.len() > 0 {
            if capacity == 0 {
                lemma_feed_sound(DecoderState::empty(), input.drop_first(), capacity, table);
            } else if scanned.pending.len() >= capacity {
                lemma_feed_sound(scanned.drop_front(1), input, capacity, table);
            } else {
                lemma_feed_sound(
                    scanned.append(input.take(1), capacity),
                    input.drop_first(),
                    capacity,
                    table,
                );
            }
        }
    }
}

/// Feeding never consumes more than there is, stops early only at a frame, and
/// rejects no more candidates than there are bytes.
pub proof fn lemma_feed_bounds(
    state: DecoderState,
    input: Seq<u8>,
    capacity: nat,
    table: ExtraTable,
)
    ensures
        ({
            let fed = feed(state, input, capacity, table);
            &&& fed.consumed <= input.len()
            &&& fed.state.frame is None ==> fed.consumed == input.len()
            &&& fed.tally.total() <= state.pending.len() + fed.consumed
        }),
    decreases input.len(), state.pending.len(),
{
    reveal(feed);
    if state.frame is None {
        let outcome = scan(state.pending, capacity, table);
        let scanned = state.scanned(outcome);
        lemma_scan_stops(state.pending, capacity, table);
        if outcome.frame is None && input.len() > 0 {
            if capacity == 0 {
                lemma_feed_bounds(DecoderState::empty(), input.drop_first(), capacity, table);
            } else if scanned.pending.len() >= capacity {
                lemma_feed_bounds(scanned.drop_front(1), input, capacity, table);
            } else {
                lemma_feed_bounds(
                    scanned.append(input.take(1), capacity),
                    input.drop_first(),
                    capacity,
                    table,
                );
            }
        }
    }
}

} // verus!
