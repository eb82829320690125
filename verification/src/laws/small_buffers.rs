//! Decoders whose buffer holds no packet.
use vstd::prelude::*;

use super::decoding::{
    law_scanning_goes_byte_by_byte, lemma_markers_joined, lemma_markers_split, lemma_one_marker,
    lemma_scan_counts, lemma_waiting_marker,
};
use crate::frame_decoder::lemmas::lemma_scan_stops;
use crate::frame_decoder::marker::marker_count;
use crate::frame_decoder::model::{feed, scan, take_in, DecoderState};
use crate::wire::FrameVersion;

verus! {

/// What may still become a candidate at the end of `bytes`, where no more than `capacity`
/// bytes, which are fewer than three, can be kept.
pub open spec fn last_candidate(bytes: Seq<u8>, capacity: nat) -> Seq<u8> {
    let len = bytes.len() as int;
    if capacity == 2 && len >= 2 && bytes[len - 2] == 0xfd {
        bytes.skip(len - 2)
    } else if capacity >= 1 && len >= 1 && (bytes[len - 1] == 0xfe || bytes[len - 1] == 0xfd) {
        bytes.skip(len - 1)
    } else {
        Seq::empty()
    }
}

/// What a scan of so few bytes comes to.
proof fn lemma_short_scan(
    bytes: Seq<u8>,
    capacity: nat,
    table: spec_fn(FrameVersion, u32) -> u8,
)
    requires
        bytes.len() <= capacity < 3,
    ensures
        ({
            let found = scan(bytes, capacity, table);
            &&& found.frame is None
            &&& found.tally.invalid_checksum == 0
            &&& found.tally.unsupported_flags == 0
            &&& bytes.skip(found.skipped as int) == last_candidate(bytes, capacity)
        }),
    decreases bytes.len(),
{
    law_scanning_goes_byte_by_byte(bytes, capacity, table);
    let found = scan(bytes, capacity, table);
    lemma_scan_stops(bytes, capacity, table);
    if bytes.len() > 0 {
        let rest = bytes.drop_first();
        lemma_short_scan(rest, capacity, table);
        let later = scan(rest, capacity, table);
        lemma_scan_stops(rest, capacity, table);
        assert(bytes.skip(later.skipped as int + 1) =~= rest.skip(later.skipped as int));
        assert(bytes.skip(0) =~= bytes);
        if bytes.len() == 2 {
            assert(rest.skip(0) =~= bytes.skip(1));
        }
    }
    assert(bytes.skip(found.skipped as int) =~= last_candidate(bytes, capacity));
}

/// A buffer of fewer than three bytes holds no packet: everything that could begin one is
/// rejected as too large when it does not wait any more, and only the last candidate, as far
/// as it fits, waits.
pub proof fn law_small_buffer_rejects_every_candidate(
    state: DecoderState,
    input: Seq<u8>,
    capacity: nat,
    table: spec_fn(FrameVersion, u32) -> u8,
)
    requires
        capacity < 3,
        state.frame is None,
        state.pending.len() <= capacity,
    ensures
        ({
            let fed = feed(state, input, capacity, table);
            &&& fed.state.frame is None
            &&& fed.consumed == input.len()
            &&& fed.state.pending == last_candidate(state.pending + input, capacity)
            &&& fed.tally.invalid_checksum == 0
            &&& fed.tally.unsupported_flags == 0
            &&& fed.tally.buffer_too_small + marker_count(fed.state.pending) == marker_count(
                state.pending + input,
            )
        }),
    decreases input.len(), state.pending.len(),
{
    reveal(feed);
    let before = state.pending;
    let outcome = scan(before, capacity, table);
    let scanned = state.scanned(outcome);
    let rest = before.skip(outcome.skipped as int);
    let whole = before + input;
    lemma_short_scan(before, capacity, table);
    lemma_scan_stops(before, capacity, table);
    lemma_scan_counts(before, capacity, table);
    lemma_markers_split(before, outcome.skipped as int);
    assert(scanned.pending =~= rest);
    lemma_markers_joined(before, input);
    if input.len() == 0 {
        assert(whole =~= before);
    } else {
        let later = input.drop_first();
        if capacity == 0 {
            law_small_buffer_rejects_every_candidate(
                DecoderState::empty(),
                later,
                capacity,
                table,
            );
            assert(DecoderState::empty().pending + later =~= later);
            assert(input =~= seq![input[0]] + later);
            lemma_markers_joined(seq![input[0]], later);
            lemma_one_marker(input[0]);
            assert(whole =~= input);
            assert(before.len() == 0);
        } else if scanned.pending.len() >= capacity {
            let shorter = scanned.drop_front(1);
            law_small_buffer_rejects_every_candidate(shorter, input, capacity, table);
            lemma_waiting_marker(rest, capacity);
            lemma_markers_split(rest, 1);
            assert(rest.take(1) =~= seq![rest[0]]);
            lemma_one_marker(rest[0]);
            assert(shorter.pending =~= rest.skip(1));
            lemma_markers_joined(shorter.pending, input);
            let left = shorter.pending + input;
            assert(left =~= whole.skip(whole.len() - left.len()));
            lemma_same_end(left, whole, capacity);
        } else {
            let grown = scanned.append(input.take(1), capacity);
            law_small_buffer_rejects_every_candidate(grown, later, capacity, table);
            let left = grown.pending + later;
            assert(left =~= rest + input);
            lemma_markers_joined(rest, input);
            assert(left =~= whole.skip(whole.len() - left.len()));
            lemma_same_end(left, whole, capacity);
        }
    }
}

/// Only the last two bytes matter.
proof fn lemma_same_end(first: Seq<u8>, second: Seq<u8>, capacity: nat)
    requires
        0 < first.len() <= second.len(),
        capacity < 3,
        first == second.skip(second.len() - first.len()),
        first.len() == 1 && second.len() > 1 && capacity == 2 ==> second[second.len() - 2] != 0xfd,
    ensures
        last_candidate(first, capacity) == last_candidate(second, capacity),
{
    assert(last_candidate(first, capacity) =~= last_candidate(second, capacity));
}

/// Bytes that are written into a buffer of one or two bytes are counted in the same way, and
/// a candidate that fills the buffer is rejected at once.
pub proof fn law_small_buffer_is_never_left_full(
    state: DecoderState,
    bytes: Seq<u8>,
    capacity: nat,
    table: spec_fn(FrameVersion, u32) -> u8,
)
    requires
        0 < capacity < 3,
        state.frame is None,
        state.pending.len() + bytes.len() <= capacity,
    ensures
        ({
            let taken = take_in(state, bytes, capacity, table);
            let all = state.pending + bytes;
            let candidate = last_candidate(all, capacity);
            &&& taken.state.frame is None
            &&& taken.consumed == bytes.len()
            &&& taken.state.pending == if candidate.len() == capacity {
                last_candidate(candidate.drop_first(), capacity)
            } else {
                candidate
            }
            &&& taken.tally.invalid_checksum == 0
            &&& taken.tally.unsupported_flags == 0
            &&& taken.tally.buffer_too_small + marker_count(taken.state.pending) == marker_count(
                all,
            )
        }),
{
    let all = state.pending + bytes;
    let grown = DecoderState { pending: all, ..state };
    let first = scan(all, capacity, table);
    let scanned = grown.scanned(first);
    let rest = all.skip(first.skipped as int);
    lemma_short_scan(all, capacity, table);
    lemma_scan_stops(all, capacity, table);
    lemma_scan_counts(all, capacity, table);
    lemma_markers_split(all, first.skipped as int);
    assert(scanned.pending =~= rest);
    if rest.len() == capacity {
        let shortened = scanned.drop_front(1);
        let second = scan(shortened.pending, capacity, table);
        assert(shortened.pending =~= rest.drop_first());
        lemma_waiting_marker(rest, capacity);
        lemma_markers_split(rest, 1);
        assert(rest.take(1) =~= seq![rest[0]]);
        assert(rest.skip(1) =~= rest.drop_first());
        lemma_one_marker(rest[0]);
        lemma_short_scan(shortened.pending, capacity, table);
        lemma_scan_stops(shortened.pending, capacity, table);
        lemma_scan_counts(shortened.pending, capacity, table);
        lemma_markers_split(shortened.pending, second.skipped as int);
        assert(shortened.scanned(second).pending =~= shortened.pending.skip(
            second.skipped as int,
        ));
    }
}

} // verus!
