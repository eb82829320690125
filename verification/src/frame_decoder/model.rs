//! What a decoder makes of a byte stream, byte by byte.
//!
//! A *candidate* begins at a marker. [`classify`] judges the candidate at the front
//! of a buffer, [`scan`] slides over everything that cannot be a frame, and
//! [`feed`] alternates both with the arrival of one input byte at a time.
use vstd::prelude::*;

use super::marker::first_marker;
use crate::wire::{
    checksum_matches, frame_len, is_any_frame, is_marker, message_id, prefix_len,
    unsupported_flags, version_of, FrameVersion,
};

verus! {

/// The CRC extra byte of each message, by wire version and message identifier.
pub type ExtraTable = spec_fn(FrameVersion, u32) -> u8;

/// Why a candidate is not a frame.
pub enum Rejection {
    /// The candidate is complete, but its checksum does not match.
    InvalidChecksum,
    /// The candidate carries an unsupported incompatibility flag.
    UnsupportedFlags,
    /// The candidate cannot fit in the buffer.
    BufferTooSmall,
}

/// How many candidates were rejected, by reason.
pub struct Tally {
    /// Complete candidates whose checksum did not match.
    pub invalid_checksum: nat,
    /// Candidates carrying an unsupported incompatibility flag.
    pub unsupported_flags: nat,
    /// Candidates that cannot fit in the buffer.
    pub buffer_too_small: nat,
}

impl Tally {
    /// Nothing was rejected.
    pub open spec fn zero() -> Tally {
        Tally { invalid_checksum: 0, unsupported_flags: 0, buffer_too_small: 0 }
    }

    /// One candidate was rejected.
    pub open spec fn one(rejection: Rejection) -> Tally {
        match rejection {
            Rejection::InvalidChecksum => Tally { invalid_checksum: 1, ..Tally::zero() },
            Rejection::UnsupportedFlags => Tally { unsupported_flags: 1, ..Tally::zero() },
            Rejection::BufferTooSmall => Tally { buffer_too_small: 1, ..Tally::zero() },
        }
    }

    /// So many candidates were rejected because they do not fit, and no others.
    pub open spec fn too_small(count: nat) -> Tally {
        Tally { buffer_too_small: count, ..Tally::zero() }
    }

    /// What both tallies count together.
    pub open spec fn plus(self, other: Tally) -> Tally {
        Tally {
            invalid_checksum: self.invalid_checksum + other.invalid_checksum,
            unsupported_flags: self.unsupported_flags + other.unsupported_flags,
            buffer_too_small: self.buffer_too_small + other.buffer_too_small,
        }
    }

    /// Number of rejected candidates, whatever the reason.
    pub open spec fn total(self) -> nat {
        self.invalid_checksum + self.unsupported_flags + self.buffer_too_small
    }
}

/// What stands at the front of a buffer that is not empty.
pub enum Verdict {
    /// A byte with which no frame begins.
    Garbage,
    /// A candidate that needs more bytes.
    Incomplete,
    /// A candidate that is not a frame.
    Rejected(Rejection),
    /// A frame of the given length.
    Frame(nat),
}

/// Judges what stands at the front of `bytes`, for a buffer of `capacity` bytes.
#[verifier::opaque]
pub open spec fn classify(bytes: Seq<u8>, capacity: nat, table: ExtraTable) -> Verdict {
    match version_of(bytes[0]) {
        None => Verdict::Garbage,
        Some(version) => {
            let len = frame_len(bytes, version);
            if bytes.len() < prefix_len(version) {
                Verdict::Incomplete
            } else if unsupported_flags(bytes, version) {
                Verdict::Rejected(Rejection::UnsupportedFlags)
            } else if len > capacity {
                Verdict::Rejected(Rejection::BufferTooSmall)
            } else if bytes.len() < len {
                Verdict::Incomplete
            } else if checksum_matches(
                bytes.take(len as int),
                version,
                table(version, message_id(bytes, version)),
            ) {
                Verdict::Frame(len)
            } else {
                Verdict::Rejected(Rejection::InvalidChecksum)
            }
        },
    }
}

/// A complete candidate stands at `start`: everything that its checksum is computed
/// from is there, and nothing but the checksum can turn it down.
pub open spec fn complete_at(
    bytes: Seq<u8>,
    start: int,
    version: FrameVersion,
    capacity: nat,
) -> bool {
    let candidate = bytes.skip(start);
    &&& 0 <= start < bytes.len()
    &&& version_of(candidate[0]) == Some(version)
    &&& candidate.len() >= prefix_len(version)
    &&& !unsupported_flags(candidate, version)
    &&& frame_len(candidate, version) <= capacity
    &&& frame_len(candidate, version) <= candidate.len()
}

/// Outcome of sliding over a buffer.
pub struct Scan {
    /// Number of leading bytes that are dropped.
    pub skipped: nat,
    /// Candidates rejected on the way.
    pub tally: Tally,
    /// Length of the frame that stands behind the dropped bytes, if one does.
    pub frame: Option<nat>,
}

/// Slides over `bytes` one byte at a time until a frame or an incomplete candidate
/// stands in front, or nothing is left.
///
/// A rejected candidate gives up its marker only, so a frame that begins inside it
/// is still found.
#[verifier::opaque]
pub open spec fn scan(bytes: Seq<u8>, capacity: nat, table: ExtraTable) -> Scan
    decreases bytes.len(),
{
    if bytes.len() == 0 {
        Scan { skipped: 0, tally: Tally::zero(), frame: None }
    } else {
        match classify(bytes, capacity, table) {
            Verdict::Garbage => scan(bytes.drop_first(), capacity, table).after(1, Tally::zero()),
            Verdict::Incomplete => Scan { skipped: 0, tally: Tally::zero(), frame: None },
            Verdict::Rejected(rejection) => scan(bytes.drop_first(), capacity, table).after(
                1,
                Tally::one(rejection),
            ),
            Verdict::Frame(len) => Scan { skipped: 0, tally: Tally::zero(), frame: Some(len) },
        }
    }
}

impl Scan {
    /// This outcome, with more bytes dropped and more candidates rejected before it.
    pub open spec fn after(self, skipped: nat, tally: Tally) -> Scan {
        Scan {
            skipped: skipped + self.skipped,
            tally: tally.plus(self.tally),
            frame: self.frame,
        }
    }
}

/// What a decoder holds.
#[verifier::ext_equal]
pub struct DecoderState {
    /// Where in the buffer the retained bytes begin.
    pub offset: nat,
    /// The retained bytes.
    pub pending: Seq<u8>,
    /// Length of the ready frame, which stands at the front of `pending`.
    pub frame: Option<nat>,
}

impl DecoderState {
    /// Nothing is retained.
    pub open spec fn empty() -> DecoderState {
        DecoderState { offset: 0, pending: Seq::empty(), frame: None }
    }

    /// The retained bytes lie inside a buffer of `capacity` bytes, they begin with a
    /// marker, and a ready frame is a whole frame with a matching checksum.
    pub open spec fn valid(self, capacity: nat) -> bool {
        &&& self.offset + self.pending.len() <= capacity
        &&& self.pending.len() == 0 ==> self.offset == 0
        &&& self.pending.len() > 0 ==> is_marker(self.pending[0])
        &&& self.frame matches Some(len) ==> {
            &&& len <= self.pending.len()
            &&& is_any_frame(self.pending.take(len as int))
        }
    }

    /// Number of bytes of the buffer behind the retained bytes.
    pub open spec fn room(self, capacity: nat) -> nat {
        (capacity - self.offset - self.pending.len()) as nat
    }

    /// No bytes but those behind the first `count` are retained, and no frame is
    /// ready.
    pub open spec fn drop_front(self, count: nat) -> DecoderState {
        if count >= self.pending.len() {
            DecoderState::empty()
        } else {
            DecoderState {
                offset: self.offset + count,
                pending: self.pending.skip(count as int),
                frame: None,
            }
        }
    }

    /// The ready frame, if there is one, has been released together with the garbage
    /// behind it.
    pub open spec fn advanced(self) -> DecoderState {
        match self.frame {
            Some(len) => self.drop_front(len + first_marker(self.pending.skip(len as int))),
            None => self,
        }
    }

    /// The retained bytes have moved to the front of the buffer where the tail is
    /// exhausted.
    pub open spec fn make_room(self, capacity: nat) -> DecoderState {
        DecoderState {
            offset: if self.room(capacity) == 0 {
                0
            } else {
                self.offset
            },
            ..self
        }
    }

    /// The state after the retained bytes have been scanned with this outcome.
    pub open spec fn scanned(self, outcome: Scan) -> DecoderState {
        DecoderState { frame: outcome.frame, ..self.drop_front(outcome.skipped) }
    }

    /// The retained bytes have grown by `bytes`. They move to the front of the
    /// buffer where there is no room behind them.
    pub open spec fn append(self, bytes: Seq<u8>, capacity: nat) -> DecoderState {
        DecoderState {
            offset: if self.offset + self.pending.len() + bytes.len() > capacity {
                0
            } else {
                self.offset
            },
            pending: self.pending + bytes,
            frame: self.frame,
        }
    }
}

/// Outcome of feeding input to a decoder.
pub struct Fed {
    /// Number of input bytes consumed.
    pub consumed: nat,
    /// Candidates rejected on the way.
    pub tally: Tally,
    /// State of the decoder afterwards.
    pub state: DecoderState,
}

impl Fed {
    /// This outcome, with more input consumed and more candidates rejected before
    /// it.
    pub open spec fn after(self, consumed: nat, tally: Tally) -> Fed {
        Fed {
            consumed: consumed + self.consumed,
            tally: tally.plus(self.tally),
            state: self.state,
        }
    }
}

/// Feeds `input` to a decoder, one byte at a time, until a frame is ready or no
/// input is left.
#[verifier::opaque]
pub open spec fn feed(
    state: DecoderState,
    input: Seq<u8>,
    capacity: nat,
    table: ExtraTable,
) -> Fed
    decreases input.len(), state.pending.len(),
{
    if state.frame is Some {
        Fed { consumed: 0, tally: Tally::zero(), state }
    } else {
        let outcome = scan(state.pending, capacity, table);
        let scanned = state.scanned(outcome);
        if outcome.frame is Some || input.len() == 0 {
            Fed { consumed: 0, tally: outcome.tally, state: scanned }
        } else if capacity == 0 {
            // There is nowhere to retain even a marker.
            let tally = if is_marker(input[0]) {
                Tally::one(Rejection::BufferTooSmall)
            } else {
                Tally::zero()
            };
            feed(DecoderState::empty(), input.drop_first(), capacity, table).after(
                1,
                outcome.tally.plus(tally),
            )
        } else if scanned.pending.len() >= capacity {
            // The candidate needs more bytes than can be retained.
            feed(scanned.drop_front(1), input, capacity, table).after(
                0,
                outcome.tally.plus(Tally::one(Rejection::BufferTooSmall)),
            )
        } else {
            feed(
                scanned.append(input.take(1), capacity),
                input.drop_first(),
                capacity,
                table,
            ).after(1, outcome.tally)
        }
    }
}

/// The state that a decoder reaches when `bytes`, already in place behind the
/// retained bytes, are counted in and looked at.
pub open spec fn take_in(
    state: DecoderState,
    bytes: Seq<u8>,
    capacity: nat,
    table: ExtraTable,
) -> Fed {
    let grown = DecoderState { pending: state.pending + bytes, ..state };
    if state.frame is Some {
        Fed { consumed: bytes.len(), tally: Tally::zero(), state: grown }
    } else {
        let first = scan(grown.pending, capacity, table);
        let scanned = grown.scanned(first);
        if first.frame is None && scanned.pending.len() == capacity && capacity != 0 {
            // The candidate needs more bytes than can be retained.
            let shortened = scanned.drop_front(1);
            let second = scan(shortened.pending, capacity, table);
            Fed {
                consumed: bytes.len(),
                tally: first.tally.plus(Tally::one(Rejection::BufferTooSmall)).plus(second.tally),
                state: shortened.scanned(second),
            }
        } else {
            Fed { consumed: bytes.len(), tally: first.tally, state: scanned }
        }
    }
}

} // verus!
