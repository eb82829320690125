//! Allocation-free, incremental MAVLink frame boundary detection.
//!
//! [`FrameDecoder`] owns a fixed read-ahead buffer. Callers may feed it
//! arbitrarily-sized chunks, inspect a validated frame through
//! [`FrameDecoder::frame`], and release that frame with [`FrameDecoder::advance`].
//! The decoder validates the MAVLink checksum but deliberately leaves message
//! parsing and MAVLink 2 signature policy to the caller.
use vstd::prelude::*;

pub mod frame;
pub mod laws;
pub mod lemmas;
pub mod marker;
pub mod model;
pub mod progress;

pub use self::frame::FrameRef;
pub use self::marker::find_marker;
pub use self::progress::{CommitError, DecodeProgress, DecodeStatus, Rejections};
pub use crate::wire::FrameVersion;

use self::lemmas::{
    fed_to, is_suffix, lemma_complete_part, lemma_fed_ends, lemma_fed_further,
    lemma_fed_scanned, lemma_fed_start, lemma_feed_full, lemma_feed_marker, lemma_feed_nowhere,
    lemma_feed_run, lemma_feed_skip, lemma_front, lemma_garbage_passed, lemma_rejected,
    lemma_scan_begins, lemma_scan_behind, lemma_scan_ends, lemma_suffix, lemma_suffix_empty,
    lemma_suffix_grows, lemma_waits_fits, lemma_waits_longer, rejected_to, settled, target_len,
    waits,
};
use self::marker::{
    lemma_first_marker, lemma_markers_taken, lemma_no_marker_counted, marker_count,
    no_marker_below,
};
use self::model::{
    classify, complete_at, feed, scan, take_in, DecoderState, ExtraTable, Fed, Rejection, Tally,
    Verdict,
};
use crate::consts;
use crate::consts::v1;
use crate::consts::v2;
use crate::crc;
use crate::wire;
use crate::wire::{is_marker, marker_version};

verus! {

/// Largest possible MAVLink frame: a MAVLink 2 frame with a 255-byte payload and a
/// 13-byte signature trailer.
pub const MAX_FRAME_LEN: usize = consts::MAX_FRAME_SIZE;

/// `extra_crc` may be called for every complete candidate in `bytes`. It is not called
/// for anything else.
pub open spec fn callable<F: FnMut(FrameVersion, u32) -> u8>(
    extra_crc: F,
    bytes: Seq<u8>,
    capacity: nat,
) -> bool {
    forall|start: int, version: FrameVersion| #[trigger]
        complete_at(bytes, start, version, capacity) ==> call_requires(
            extra_crc,
            (version, wire::message_id(bytes.skip(start), version)),
        )
}

/// A decoder in this state looks for frames when `bytes` arrive. It does not while a
/// frame is ready, nor where nothing has arrived since everything was looked at.
pub open spec fn looks_again(state: DecoderState, bytes: Seq<u8>, capacity: nat) -> bool {
    &&& state.frame is None
    &&& bytes.len() > 0 || !settled(state, capacity)
}

/// What may be called for all of `whole` may be called for a part of it.
proof fn lemma_callable_part<F: FnMut(FrameVersion, u32) -> u8>(
    extra_crc: F,
    part: Seq<u8>,
    whole: Seq<u8>,
    from: int,
    capacity: nat,
)
    requires
        callable(extra_crc, whole, capacity),
        0 <= from <= from + part.len() <= whole.len(),
        part == whole.subrange(from, from + part.len()),
    ensures
        callable(extra_crc, part, capacity),
{
    assert forall|start: int, version: FrameVersion| #[trigger]
        complete_at(part, start, version, capacity) implies call_requires(
        extra_crc,
        (version, wire::message_id(part.skip(start), version)),
    ) by {
        lemma_complete_part(part, whole, from, start, version, capacity);
        assert(complete_at(whole, from + start, version, capacity));
    }
}

/// `extra_crc` returns what `table` holds.
pub open spec fn agrees<F: FnMut(FrameVersion, u32) -> u8>(
    extra_crc: F,
    table: ExtraTable,
) -> bool {
    forall|version: FrameVersion, id: u32, extra: u8| #[trigger]
        call_ensures(extra_crc, (version, id), extra) ==> extra == table(version, id)
}

/// Whatever table `extra_crc` agrees with, `progress` and `after` are what feeding `input`
/// comes to.
pub open spec fn pushes_as<F: FnMut(FrameVersion, u32) -> u8>(
    extra_crc: F,
    before: DecoderState,
    input: Seq<u8>,
    capacity: nat,
    progress: DecodeProgress,
    after: DecoderState,
) -> bool {
    forall|table: ExtraTable| #[trigger]
        agrees(extra_crc, table) ==> progress.tells(feed(before, input, capacity, table), after)
}

/// Whatever table `extra_crc` agrees with, `progress` and `after` are what taking in `bytes`
/// comes to.
pub open spec fn commits_as<F: FnMut(FrameVersion, u32) -> u8>(
    extra_crc: F,
    before: DecoderState,
    bytes: Seq<u8>,
    capacity: nat,
    progress: DecodeProgress,
    after: DecoderState,
) -> bool {
    forall|table: ExtraTable| #[trigger]
        agrees(extra_crc, table) ==> progress.tells(take_in(before, bytes, capacity, table), after)
}

/// `extra_crc` may return an extra byte for which the checksum of `frame` matches.
pub open spec fn accepted<F: FnMut(FrameVersion, u32) -> u8>(
    extra_crc: F,
    frame: Seq<u8>,
) -> bool {
    exists|version: FrameVersion, extra: u8| #[trigger]
        call_ensures(extra_crc, (version, wire::message_id(frame, version)), extra)
            && wire::version_of(frame[0]) == Some(version) && wire::checksum_matches(
            frame,
            version,
            extra,
        )
}

/// What one step of feeding counts.
spec fn step_tally(too_small: bool) -> Tally {
    if too_small {
        Tally::one(Rejection::BufferTooSmall)
    } else {
        Tally::zero()
    }
}

/// A frame does not fit in so few bytes.
proof fn lemma_callable_short<F: FnMut(FrameVersion, u32) -> u8>(
    extra_crc: F,
    bytes: Seq<u8>,
    capacity: nat,
)
    requires
        bytes.len() < 3,
    ensures
        callable(extra_crc, bytes, capacity),
{
    assert forall|start: int, version: FrameVersion| #[trigger]
        complete_at(bytes, start, version, capacity) implies false by {
        assert(wire::frame_len(bytes.skip(start), version) > 3);
    }
}

/// What the candidate in front of a decoder is.
enum Judgement {
    /// It needs more bytes.
    Incomplete,
    /// Its checksum does not match.
    InvalidChecksum,
    /// It carries an unsupported incompatibility flag.
    UnsupportedFlags,
    /// It cannot fit in the buffer.
    BufferTooSmall,
    /// It is a frame of the given length.
    Frame(usize),
}

impl Judgement {
    spec fn verdict(self) -> Verdict {
        match self {
            Judgement::Incomplete => Verdict::Incomplete,
            Judgement::InvalidChecksum => Verdict::Rejected(Rejection::InvalidChecksum),
            Judgement::UnsupportedFlags => Verdict::Rejected(Rejection::UnsupportedFlags),
            Judgement::BufferTooSmall => Verdict::Rejected(Rejection::BufferTooSmall),
            Judgement::Frame(len) => Verdict::Frame(len as nat),
        }
    }
}

/// Everything from `end` on.
fn split_tail(whole: &mut [u8], end: usize) -> (tail: &mut [u8])
    requires
        end <= old(whole)@.len(),
    ensures
        tail@ == old(whole)@.skip(end as int),
        final(whole)@ == old(whole)@.take(end as int) + final(tail)@,
{
    let (_, tail) = whole.split_at_mut(end);
    tail
}

/// Fixed-capacity, allocation-free incremental MAVLink framing decoder.
///
/// A rejected candidate is rescanned beginning with its second byte. This retains
/// possible frame markers embedded in corrupt or falsely detected candidates and
/// matches byte-wise stream resynchronization.
///
/// Buffers smaller than [`MAX_FRAME_LEN`] are supported: candidates that do not fit
/// are rejected and scanning resumes from their second byte.
pub struct FrameDecoder<const BUFFER_SIZE: usize> {
    buffer: [u8; BUFFER_SIZE],
    start: usize,
    end: usize,
    frame_len: usize,
    ready: bool,
}

impl<const BUFFER_SIZE: usize> View for FrameDecoder<BUFFER_SIZE> {
    type V = DecoderState;

    closed spec fn view(&self) -> DecoderState {
        DecoderState {
            offset: self.start as nat,
            pending: self.buffer@.subrange(self.start as int, self.end as int),
            frame: if self.ready {
                Some(self.frame_len as nat)
            } else {
                None
            },
        }
    }
}

impl<const BUFFER_SIZE: usize> FrameDecoder<BUFFER_SIZE> {
    /// The retained bytes lie inside the buffer.
    pub closed spec fn in_bounds(&self) -> bool {
        &&& self.start <= self.end <= BUFFER_SIZE
        &&& self.start == self.end ==> self.start == 0
        &&& self.ready ==> self.frame_len <= self.end - self.start
        &&& !self.ready ==> self.frame_len == 0
    }

    /// The decoder holds a valid state.
    pub open spec fn wf(&self) -> bool {
        &&& self.in_bounds()
        &&& self@.valid(BUFFER_SIZE as nat)
        &&& self.spare().len() == self@.room(BUFFER_SIZE as nat)
    }

    /// The bytes of the buffer behind the retained bytes.
    pub closed spec fn spare(&self) -> Seq<u8> {
        self.buffer@.skip(self.end as int)
    }

    /// Create an empty decoder.
    #[must_use]
    pub fn new() -> (decoder: Self)
        ensures
            decoder.wf(),
            decoder@ == DecoderState::empty(),
            decoder.spare() == Seq::new(BUFFER_SIZE as nat, |i: int| 0u8),
    {
        let decoder = Self {
            buffer: [0; BUFFER_SIZE],
            start: 0,
            end: 0,
            frame_len: 0,
            ready: false,
        };
        assert(decoder@ =~= DecoderState::empty());
        assert(decoder.spare() =~= Seq::new(BUFFER_SIZE as nat, |i: int| 0u8));
        decoder
    }

    /// Feed bytes into the decoder.
    ///
    /// `extra_crc` supplies the dialect-specific CRC extra byte for a message
    /// identifier. It is called only after a complete candidate is buffered.
    ///
    /// If this method returns [`DecodeStatus::FrameReady`], inspect the frame with
    /// [`Self::frame`] and call [`Self::advance`] before feeding more data. Calling
    /// `push` while a frame is still ready consumes no input and returns
    /// `FrameReady` again.
    ///
    /// The buffer and the input together must not hold more bytes than a `usize` can
    /// count: each of them may end in a counted rejection.
    #[verifier::rlimit(30)]
    pub fn push<F>(&mut self, input: &[u8], extra_crc: F) -> (progress: DecodeProgress) where
        F: FnMut(FrameVersion, u32) -> u8,

        requires
            old(self).wf(),
            looks_again(old(self)@, input@, BUFFER_SIZE as nat) ==> callable(
                extra_crc,
                old(self)@.pending + input@,
                BUFFER_SIZE as nat,
            ),
            BUFFER_SIZE + input@.len() <= usize::MAX,
        ensures
            final(self).wf(),
            progress.consumed <= input@.len(),
            progress.rejections@.total() + final(self)@.pending.len() <= old(self)@.pending.len()
                + progress.consumed,
            progress.status is FrameReady <==> final(self)@.frame is Some,
            progress.status is NeedMore ==> progress.consumed == input@.len(),
            old(self)@.frame is Some ==> *final(self) == *old(self) && progress.consumed == 0
                && progress.rejections@ == Tally::zero(),
            old(self)@.frame is None ==> (final(self)@.frame matches Some(len) ==> accepted(
                extra_crc,
                final(self)@.pending.take(len as int),
            )),
            is_suffix(
                final(self)@.pending,
                old(self)@.pending + input@.take(progress.consumed as int),
            ),
            BUFFER_SIZE == 0 ==> progress.consumed == input@.len() && progress.rejections@
                == Tally::too_small(marker_count(input@)),
            pushes_as(
                extra_crc,
                old(self)@,
                input@,
                BUFFER_SIZE as nat,
                progress,
                final(self)@,
            ),
    {
        let mut callback = extra_crc;
        let ghost capacity = BUFFER_SIZE as nat;
        let mut consumed: usize = 0;
        let mut rejections = Rejections::default();
        proof {
            assert(old(self)@.pending + input@.take(0) =~= old(self)@.pending);
            assert(old(self)@.pending.skip(0) =~= old(self)@.pending);
            assert forall|table: ExtraTable| #[trigger] agrees(callback, table) implies fed_to(
                old(self)@,
                input@,
                self@,
                0,
                Tally::zero(),
                capacity,
                table,
            ) by {
                lemma_fed_start(self@, input@, capacity, table);
            }
        }
        loop
            invariant
                self.wf(),
                callback == extra_crc,
                looks_again(old(self)@, input@, capacity) ==> callable(
                    callback,
                    old(self)@.pending + input@,
                    capacity,
                ),
                input@.len() == 0 ==> self@ == old(self)@,
                capacity == BUFFER_SIZE as nat,
                consumed <= input@.len(),
                BUFFER_SIZE + input@.len() <= usize::MAX,
                rejections@.total() + self@.pending.len() <= old(self)@.pending.len() + consumed,
                old(self)@.pending.len() <= BUFFER_SIZE,
                old(self)@.frame is Some ==> *self == *old(self) && consumed == 0 && rejections@
                    == Tally::zero(),
                old(self)@.frame is None ==> self@.frame is None,
                is_suffix(self@.pending, old(self)@.pending + input@.take(consumed as int)),
                BUFFER_SIZE == 0 ==> rejections@ == Tally::too_small(
                    marker_count(input@.take(consumed as int)),
                ),
                forall|table: ExtraTable| #[trigger]
                    agrees(callback, table) ==> fed_to(
                        old(self)@,
                        input@,
                        self@,
                        consumed as nat,
                        rejections@,
                        capacity,
                        table,
                    ),
            decreases input@.len() - consumed, self@.pending.len(),
        {
            let ghost before = self@;
            let ghost before_tally = rejections@;
            let ghost rest = input@.skip(consumed as int);
            let ghost arrived = old(self)@.pending + input@.take(consumed as int);
            proof {
                let whole = old(self)@.pending + input@;
                let from = arrived.len() - before.pending.len();
                assert(before.pending =~= whole.subrange(from, from + before.pending.len()));
                if looks_again(old(self)@, input@, capacity) {
                    lemma_callable_part(callback, before.pending, whole, from, capacity);
                }
            }
            self.inspect(&mut callback, &mut rejections);
            let ghost scanned = self@;
            proof {
                assert forall|table: ExtraTable| #[trigger] agrees(callback, table) implies fed_to(
                    old(self)@,
                    input@,
                    scanned,
                    consumed as nat,
                    rejections@,
                    capacity,
                    table,
                ) by {
                    if before.frame is None {
                        lemma_fed_scanned(
                            old(self)@,
                            input@,
                            before,
                            consumed as nat,
                            before_tally,
                            capacity,
                            table,
                        );
                    }
                }
                lemma_suffix(scanned.pending, before.pending, arrived);
                if rest.len() == 0 {
                    assert(input@.take(consumed as int) =~= input@);
                }
                if scanned.frame is Some || rest.len() == 0 {
                    assert forall|table: ExtraTable| #[trigger]
                        agrees(callback, table) implies feed(old(self)@, input@, capacity, table)
                        == (Fed {
                        consumed: consumed as nat,
                        tally: rejections@,
                        state: scanned,
                    }) by {
                        lemma_fed_ends(
                            old(self)@,
                            input@,
                            scanned,
                            consumed as nat,
                            rejections@,
                            capacity,
                            table,
                        );
                    }
                }
            }
            if self.ready {
                return DecodeProgress { consumed, rejections, status: DecodeStatus::FrameReady };
            }
            if consumed == input.len() {
                return DecodeProgress { consumed, rejections, status: DecodeStatus::NeedMore };
            }
            let ghost counted = rejections@;
            let (taken, too_small) = self.take_step(&input[consumed..input.len()]);
            proof {
                assert(rest =~= input@.subrange(consumed as int, input@.len() as int));
                assert forall|table: ExtraTable| #[trigger] agrees(callback, table) implies fed_to(
                    old(self)@,
                    input@,
                    self@,
                    (consumed + taken) as nat,
                    counted.plus(step_tally(too_small)),
                    capacity,
                    table,
                ) by {
                    assert(fed_to(
                        scanned,
                        rest,
                        self@,
                        taken as nat,
                        step_tally(too_small),
                        capacity,
                        table,
                    ));
                    lemma_fed_further(
                        old(self)@,
                        input@,
                        scanned,
                        consumed as nat,
                        counted,
                        self@,
                        taken as nat,
                        step_tally(too_small),
                        capacity,
                        table,
                    );
                }
                lemma_suffix_grows(
                    scanned.pending,
                    old(self)@.pending,
                    input@,
                    consumed as int,
                    consumed + taken,
                );
                assert(rest.take(taken as int) =~= input@.subrange(
                    consumed as int,
                    consumed + taken,
                ));
                lemma_suffix(
                    self@.pending,
                    scanned.pending + rest.take(taken as int),
                    old(self)@.pending + input@.take(consumed + taken),
                );
                lemma_markers_taken(input@, consumed as int, taken as int);
            }
            if too_small {
                rejections.buffer_too_small += 1;
            }
            consumed += taken;
        }
    }

    /// Takes in the next piece of `rest` after everything retained has been looked at:
    /// how many bytes, and whether a candidate was rejected because it does not fit.
    fn take_step(&mut self, rest: &[u8]) -> (step: (usize, bool))
        requires
            old(self).wf(),
            settled(old(self)@, BUFFER_SIZE as nat),
            rest@.len() > 0,
        ensures
            final(self).wf(),
            final(self)@.frame is None,
            step.0 <= rest@.len(),
            step.0 > 0 || final(self)@.pending.len() < old(self)@.pending.len(),
            BUFFER_SIZE == 0 ==> marker_count(rest@.take(step.0 as int)) == step_tally(
                step.1,
            ).total(),
            step_tally(step.1).total() + final(self)@.pending.len() <= old(self)@.pending.len()
                + step.0,
            is_suffix(final(self)@.pending, old(self)@.pending + rest@.take(step.0 as int)),
            forall|table: ExtraTable| #[trigger]
                fed_to(
                    old(self)@,
                    rest@,
                    final(self)@,
                    step.0 as nat,
                    step_tally(step.1),
                    BUFFER_SIZE as nat,
                    table,
                ),
    {
        let ghost capacity = BUFFER_SIZE as nat;
        let ghost before = self@;
        let available: usize = rest.len();
        if self.buffered_len() == 0 {
            assert(before =~= DecoderState::empty());
            let marker_offset = match find_marker(rest) {
                Some(marker_offset) => marker_offset,
                None => {
                    proof {
                        assert forall|table: ExtraTable| #[trigger]
                            fed_to(
                                before,
                                rest@,
                                before,
                                rest@.len(),
                                Tally::zero(),
                                capacity,
                                table,
                            ) by {
                            reveal(fed_to);
                            lemma_feed_skip(rest@, rest@.len(), capacity, table);
                        }
                        lemma_suffix_empty(before.pending + rest@.take(rest@.len() as int));
                        lemma_no_marker_counted(rest@.take(rest@.len() as int));
                    }
                    return (available, false);
                },
            };
            let ghost found = rest@.skip(marker_offset as int);
            let taken: usize = marker_offset + 1;
            assert(found.skip(1) =~= rest@.skip(taken as int));
            if BUFFER_SIZE == 0 {
                // There is nowhere to retain even the marker. Treat each marker as a
                // capacity rejection and continue scanning.
                proof {
                    assert forall|table: ExtraTable| #[trigger]
                        fed_to(
                            before,
                            rest@,
                            before,
                            taken as nat,
                            step_tally(true),
                            capacity,
                            table,
                        ) by {
                        reveal(fed_to);
                        lemma_feed_skip(rest@, marker_offset as nat, capacity, table);
                        lemma_feed_nowhere(found, table);
                    }
                    lemma_suffix_empty(before.pending + rest@.take(taken as int));
                    let noise = rest@.take(marker_offset as int);
                    lemma_no_marker_counted(noise);
                    assert(rest@.take(taken as int).drop_last() =~= noise);
                }
                return (taken, true);
            }
            self.buffer[0] = rest[marker_offset];
            self.start = 0;
            self.end = 1;
            proof {
                assert(self@ =~= (DecoderState {
                    offset: 0,
                    pending: found.take(1),
                    frame: None,
                }));
                assert forall|table: ExtraTable| #[trigger]
                    fed_to(
                        before,
                        rest@,
                        self@,
                        taken as nat,
                        step_tally(false),
                        capacity,
                        table,
                    ) by {
                    reveal(fed_to);
                    lemma_feed_skip(rest@, marker_offset as nat, capacity, table);
                    lemma_feed_marker(found, capacity, table);
                }
                let whole = before.pending + rest@.take(taken as int);
                assert(self@.pending =~= whole.skip(whole.len() - 1));
            }
            return (taken, false);
        }
        let buffered = self.buffered_len();
        if buffered == BUFFER_SIZE {
            self.reject_candidate();
            proof {
                let count = (before.pending.len() - self@.pending.len()) as nat;
                assert(rest@.skip(0) =~= rest@);
                assert(before.pending + rest@.take(0) =~= before.pending);
                assert(self@.pending =~= before.pending.skip(count as int));
                assert forall|table: ExtraTable| #[trigger]
                    fed_to(before, rest@, self@, 0, step_tally(true), capacity, table) by {
                    reveal(fed_to);
                    lemma_feed_full(before, count, rest@, capacity, table);
                }
            }
            return (0, true);
        }
        let target = self.next_target_len();
        let mut amount: usize = target - buffered;
        if available < amount {
            amount = available;
        }
        if BUFFER_SIZE - buffered < amount {
            amount = BUFFER_SIZE - buffered;
        }
        let piece = &rest[0..amount];
        assert(piece@ =~= rest@.take(amount as int));
        self.append(piece);
        proof {
            assert forall|count: int| 0 <= count < amount implies waits(
                before.pending + #[trigger] rest@.take(count),
                capacity,
            ) by {
                lemma_waits_longer(before.pending, rest@.take(count), capacity);
            }
            assert forall|table: ExtraTable| #[trigger]
                fed_to(
                    before,
                    rest@,
                    self@,
                    amount as nat,
                    step_tally(false),
                    capacity,
                    table,
                ) by {
                reveal(fed_to);
                lemma_feed_run(before, rest@, amount as nat, capacity, table);
            }
            let whole = before.pending + rest@.take(amount as int);
            assert(whole =~= whole.skip(0));
        }
        (amount, false)
    }

    /// Appends bytes to the candidate in front.
    fn append(&mut self, bytes: &[u8])
        requires
            old(self).wf(),
            old(self)@.frame is None,
            0 < old(self)@.pending.len(),
            old(self)@.pending.len() + bytes@.len() <= BUFFER_SIZE,
        ensures
            final(self).wf(),
            final(self)@ == old(self)@.append(bytes@, BUFFER_SIZE as nat),
    {
        let amount: usize = bytes.len();
        if amount > BUFFER_SIZE - self.end {
            self.compact();
        }
        let ghost before = *self;
        let mut copied: usize = 0;
        while copied < amount
            invariant
                copied <= amount,
                amount == bytes@.len(),
                self.end + amount <= BUFFER_SIZE,
                self.start == before.start,
                self.end == before.end,
                self.frame_len == before.frame_len,
                self.ready == before.ready,
                forall|i: int| 0 <= i < self.end ==> self.buffer@[i] == before.buffer@[i],
                forall|i: int| 0 <= i < copied ==> self.buffer@[self.end + i] == bytes@[i],
            decreases amount - copied,
        {
            self.buffer[self.end + copied] = bytes[copied];
            copied += 1;
        }
        self.end += amount;
        assert(self@ =~= old(self)@.append(bytes@, BUFFER_SIZE as nat));
    }

    /// How many bytes the candidate in front needs before it can be judged.
    fn next_target_len(&self) -> (target: usize)
        requires
            self.wf(),
            waits(self@.pending, BUFFER_SIZE as nat),
        ensures
            target == target_len(self@.pending),
            target > self@.pending.len(),
    {
        reveal(waits);
        match marker_version(self.buffer[self.start]) {
            None => 0,
            Some(FrameVersion::V1) if self.buffered_len() < 2 => 2,
            Some(FrameVersion::V2) if self.buffered_len() < 3 => 3,
            Some(version) => self.candidate_frame_len(version),
        }
    }

    /// Mutable unused tail of the decoder's read-ahead buffer.
    ///
    /// Adapters can read directly into this slice, avoiding a second staging buffer.
    /// After a read completes, pass its byte count to [`Self::commit`] to append and
    /// immediately inspect for MAVLink frames. Calling this method does not logically
    /// append any bytes by itself. Where the tail is exhausted, the retained bytes
    /// move to the front of the buffer.
    #[must_use]
    pub fn spare_capacity_mut(&mut self) -> (spare: &mut [u8])
        requires
            old(self).wf(),
        ensures
            final(self).wf(),
            final(self)@ == old(self)@.make_room(BUFFER_SIZE as nat),
            spare@.len() == final(self)@.room(BUFFER_SIZE as nat),
            old(self)@.room(BUFFER_SIZE as nat) > 0 ==> spare@ == old(self).spare(),
            final(self).spare() == final(spare)@,
    {
        if self.end == BUFFER_SIZE && self.start != 0 {
            self.compact();
        }
        let ghost before = *self;
        let end: usize = self.end;
        let spare = split_tail(&mut self.buffer, end);
        assert(after_borrow(self).buffer@ == before.buffer@.take(end as int) + final(spare)@);
        assert(after_borrow(self).buffer@.len() == BUFFER_SIZE);
        assert(after_borrow(self)@ =~= before@);
        assert(after_borrow(self).spare() =~= final(spare)@);
        spare
    }

    /// Commit bytes written into [`Self::spare_capacity_mut`] and inspect the
    /// enlarged read-ahead buffer for a frame.
    ///
    /// A count larger than the previously available tail is rejected without changing
    /// decoder state. `commit(0, ..)` is useful after [`Self::advance`] to decode a
    /// complete frame already present in the retained suffix.
    #[verifier::rlimit(30)]
    pub fn commit<F>(&mut self, count: usize, extra_crc: F) -> (result: Result<
        DecodeProgress,
        CommitError,
    >) where F: FnMut(FrameVersion, u32) -> u8,
        requires
            old(self).wf(),
            count <= old(self)@.room(BUFFER_SIZE as nat) ==> ({
                let bytes = old(self).spare().take(count as int);
                looks_again(old(self)@, bytes, BUFFER_SIZE as nat) ==> callable(
                    extra_crc,
                    old(self)@.pending + bytes,
                    BUFFER_SIZE as nat,
                )
            }),
        ensures
            final(self).wf(),
            count > old(self)@.room(BUFFER_SIZE as nat) ==> {
                &&& *final(self) == *old(self)
                &&& result == Err::<DecodeProgress, CommitError>(
                    CommitError {
                        requested: count,
                        available: old(self)@.room(BUFFER_SIZE as nat) as usize,
                    },
                )
            },
            count <= old(self)@.room(BUFFER_SIZE as nat) ==> {
                &&& result matches Ok(progress)
                &&& progress.consumed == count
                &&& progress.rejections@.total() + final(self)@.pending.len() <= old(
                    self,
                )@.pending.len() + count
                &&& progress.status is FrameReady <==> final(self)@.frame is Some
                &&& old(self)@.frame is Some ==> progress.rejections@ == Tally::zero()
                    && final(self)@ == (DecoderState {
                    pending: old(self)@.pending + old(self).spare().take(count as int),
                    ..old(self)@
                })
                &&& final(self)@.pending.len() > 0 ==> final(self).spare() == old(
                    self,
                ).spare().skip(count as int)
                &&& old(self)@.frame is None ==> (final(self)@.frame matches Some(len) ==> accepted(
                    extra_crc,
                    final(self)@.pending.take(len as int),
                ))
                &&& final(self)@.frame is None ==> settled(final(self)@, BUFFER_SIZE as nat)
                    && (BUFFER_SIZE > 0 ==> final(self)@.pending.len() < BUFFER_SIZE)
                &&& is_suffix(
                    final(self)@.pending,
                    old(self)@.pending + old(self).spare().take(count as int),
                )
                &&& commits_as(
                    extra_crc,
                    old(self)@,
                    old(self).spare().take(count as int),
                    BUFFER_SIZE as nat,
                    progress,
                    final(self)@,
                )
            },
    {
        let mut callback = extra_crc;
        let ghost capacity = BUFFER_SIZE as nat;
        let available = BUFFER_SIZE - self.end;
        if count > available {
            return Err(CommitError { requested: count, available });
        }
        let ghost bytes = self.spare().take(count as int);
        self.end += count;
        let ghost grown = self@;
        proof {
            assert(grown.pending =~= old(self)@.pending + bytes);
            assert(self.spare() =~= old(self).spare().skip(count as int));
            if count == 0 {
                assert(grown =~= old(self)@);
            }
            if let Some(len) = grown.frame {
                assert(grown.pending.take(len as int) =~= old(self)@.pending.take(len as int));
            }
        }
        let mut rejections = Rejections::default();
        self.inspect(&mut callback, &mut rejections);
        let ghost scanned = self@;
        if !self.ready && self.buffered_len() == BUFFER_SIZE && BUFFER_SIZE != 0 {
            self.reject_full(&mut callback, &mut rejections);
            proof {
                lemma_suffix(self@.pending, scanned.pending, grown.pending);
            }
        }
        Ok(
            DecodeProgress {
                consumed: count,
                rejections,
                status: if self.ready {
                    DecodeStatus::FrameReady
                } else {
                    DecodeStatus::NeedMore
                },
            },
        )
    }

    /// Rejects a waiting candidate that fills the buffer, and looks at what is left.
    fn reject_full<F>(&mut self, extra_crc: &mut F, rejections: &mut Rejections) where
        F: FnMut(FrameVersion, u32) -> u8,

        requires
            old(self).wf(),
            old(self)@.frame is None,
            old(self)@.pending.len() == BUFFER_SIZE > 0,
            waits(old(self)@.pending, BUFFER_SIZE as nat),
            old(rejections)@.total() + old(self)@.pending.len() <= usize::MAX,
        ensures
            final(self).wf(),
            *final(extra_crc) == *old(extra_crc),
            final(self)@.pending.len() < BUFFER_SIZE,
            final(self)@.pending.len() > 0 ==> final(self).spare() == old(self).spare(),
            final(rejections)@.total() + final(self)@.pending.len() <= old(rejections)@.total()
                + old(self)@.pending.len(),
            is_suffix(final(self)@.pending, old(self)@.pending),
            final(self)@.frame is None ==> settled(final(self)@, BUFFER_SIZE as nat),
            final(self)@.frame matches Some(len) ==> accepted(
                *old(extra_crc),
                final(self)@.pending.take(len as int),
            ),
            forall|table: ExtraTable| #[trigger]
                agrees(*old(extra_crc), table) ==> {
                    let behind = old(self)@.drop_front(1);
                    let found = scan(behind.pending, BUFFER_SIZE as nat, table);
                    &&& final(self)@ == behind.scanned(found)
                    &&& final(rejections)@ == old(rejections)@.plus(
                        Tally::one(Rejection::BufferTooSmall),
                    ).plus(found.tally)
                },
    {
        let ghost full = self@;
        rejections.buffer_too_small += 1;
        self.reject_candidate();
        let ghost dropped = self@;
        proof {
            let gone = full.pending.len() - dropped.pending.len();
            assert(dropped.pending =~= full.pending.skip(gone));
            lemma_waits_fits(full.pending, BUFFER_SIZE as nat);
            lemma_callable_short(*extra_crc, dropped.pending, BUFFER_SIZE as nat);
        }
        self.inspect(extra_crc, rejections);
        proof {
            lemma_suffix(self@.pending, dropped.pending, full.pending);
            assert forall|table: ExtraTable| #[trigger] agrees(*extra_crc, table) implies ({
                let behind = full.drop_front(1);
                let found = scan(behind.pending, BUFFER_SIZE as nat, table);
                &&& self@ == behind.scanned(found)
                &&& rejections@ == old(rejections)@.plus(
                    Tally::one(Rejection::BufferTooSmall),
                ).plus(found.tally)
            }) by {
                lemma_scan_behind(full, dropped, BUFFER_SIZE as nat, table);
            }
        }
    }

    /// Return the currently ready frame.
    #[must_use]
    pub fn frame(&self) -> (frame: Option<FrameRef<'_>>)
        requires
            self.wf(),
        ensures
            frame is Some <==> self@.frame is Some,
            frame matches Some(frame) ==> {
                &&& frame.wf()
                &&& frame@ == self@.pending.take(self@.frame->0 as int)
            },
    {
        if !self.ready {
            return None;
        }
        let bytes = &self.buffer[self.start..self.start + self.frame_len];
        assert(bytes@ =~= self@.pending.take(self.frame_len as int));
        match marker_version(self.buffer[self.start]) {
            Some(version) => Some(FrameRef::new(bytes, version)),
            None => None,
        }
    }

    /// Release the ready frame while retaining any bytes buffered after it.
    ///
    /// Returns `false` when no frame was ready. After advancing, call [`Self::push`]
    /// again; an empty input slice is sufficient when a complete nested candidate was
    /// already buffered during resynchronization.
    pub fn advance(&mut self) -> (advanced: bool)
        requires
            old(self).wf(),
        ensures
            final(self).wf(),
            advanced == (old(self)@.frame is Some),
            final(self)@ == old(self)@.advanced(),
            final(self)@.pending.len() > 0 ==> final(self).spare() == old(self).spare(),
            !advanced ==> *final(self) == *old(self),
    {
        if !self.ready {
            return false;
        }
        let ghost len = self.frame_len as nat;
        let ghost rest = self@.pending.skip(len as int);
        self.start += self.frame_len;
        self.frame_len = 0;
        self.ready = false;
        let ghost released = self@;
        assert(released.pending =~= rest);
        self.seek_marker();
        proof {
            let gone = (rest.len() - self@.pending.len()) as nat;
            lemma_first_marker(rest, gone);
            assert(self@ =~= old(self)@.drop_front(len + gone));
        }
        true
    }

    /// Discard the ready frame or any incomplete candidate.
    pub fn reset(&mut self)
        ensures
            final(self).wf(),
            final(self)@ == DecoderState::empty(),
    {
        self.start = 0;
        self.end = 0;
        self.frame_len = 0;
        self.ready = false;
        assert(self@ =~= DecoderState::empty());
    }

    /// Configured read-ahead capacity.
    #[must_use]
    pub fn capacity(&self) -> (capacity: usize)
        ensures
            capacity == BUFFER_SIZE,
    {
        BUFFER_SIZE
    }

    /// Where in the buffer the retained bytes begin and end.
    #[must_use]
    pub fn buffered_range(&self) -> (range: (usize, usize))
        requires
            self.wf(),
        ensures
            range.0 == self@.offset,
            range.1 == self@.offset + self@.pending.len(),
    {
        (self.start, self.end)
    }

    /// Bytes retained for the current frame candidate.
    #[must_use]
    fn candidate(&self) -> (candidate: &[u8])
        requires
            self.in_bounds(),
        ensures
            candidate@ == self@.pending,
    {
        &self.buffer[self.start..self.end]
    }

    /// Number of bytes currently retained by the decoder.
    #[must_use]
    pub fn buffered_len(&self) -> (len: usize)
        requires
            self.in_bounds(),
        ensures
            len == self@.pending.len(),
    {
        self.end - self.start
    }

    fn candidate_frame_len(&self, version: FrameVersion) -> (len: usize)
        requires
            self.in_bounds(),
            self@.pending.len() >= wire::prefix_len(version),
        ensures
            len == wire::frame_len(self@.pending, version),
            len <= MAX_FRAME_LEN,
    {
        let candidate = self.candidate();
        let payload_len: usize = candidate[1] as usize;
        match version {
            FrameVersion::V1 => 1 + v1::HEADER_SIZE + payload_len + consts::CHECKSUM_SIZE,
            FrameVersion::V2 => {
                let signature_len: usize = if candidate[2] & v2::IFLAG_SIGNED == 0 {
                    0
                } else {
                    v2::SIGNATURE_SIZE
                };
                1 + v2::HEADER_SIZE + payload_len + consts::CHECKSUM_SIZE + signature_len
            },
        }
    }

    fn checksum_start(&self, version: FrameVersion) -> (start: usize)
        requires
            self.in_bounds(),
            self@.pending.len() >= 2,
        ensures
            start == wire::checksum_start(self@.pending, version),
    {
        let payload_len: usize = self.candidate()[1] as usize;
        match version {
            FrameVersion::V1 => 1 + v1::HEADER_SIZE + payload_len,
            FrameVersion::V2 => 1 + v2::HEADER_SIZE + payload_len,
        }
    }

    fn candidate_message_id(&self, version: FrameVersion) -> (id: u32)
        requires
            self.in_bounds(),
            self@.pending.len() > wire::header_len(version),
        ensures
            id == wire::message_id(self@.pending, version),
            id <= 0xff_ffff,
    {
        let candidate = self.candidate();
        match version {
            FrameVersion::V1 => candidate[5] as u32,
            FrameVersion::V2 => wire::read_u24(candidate[7], candidate[8], candidate[9]),
        }
    }

    /// Drops the marker of the candidate and everything up to the next marker.
    fn reject_candidate(&mut self)
        requires
            old(self).in_bounds(),
            old(self)@.pending.len() > 0,
        ensures
            final(self).in_bounds(),
            ({
                let kept = final(self)@.pending.len();
                let dropped = old(self)@.pending.len() - kept;
                &&& dropped >= 1
                &&& final(self)@ == old(self)@.drop_front(dropped as nat)
                &&& no_marker_below(old(self)@.pending.drop_first(), dropped - 1)
                &&& kept > 0 ==> is_marker(final(self)@.pending[0])
                &&& kept > 0 ==> final(self).spare() == old(self).spare()
            }),
    {
        let ghost body = self@.pending.drop_first();
        let tail = &self.buffer[self.start + 1..self.end];
        assert(tail@ =~= body);
        if let Some(next_marker) = find_marker(tail) {
            self.start = self.start + next_marker + 1;
            self.frame_len = 0;
            self.ready = false;
            assert(self@ =~= old(self)@.drop_front((next_marker + 1) as nat));
            assert(self@.pending[0] == body[next_marker as int]);
        } else {
            self.start = 0;
            self.end = 0;
            self.frame_len = 0;
            self.ready = false;
            assert(self@ =~= old(self)@.drop_front(old(self)@.pending.len()));
        }
    }

    /// Drops everything up to the next marker.
    fn seek_marker(&mut self)
        requires
            old(self).start <= old(self).end <= BUFFER_SIZE,
            old(self).frame_len == 0,
            !old(self).ready,
        ensures
            final(self).in_bounds(),
            ({
                let kept = final(self)@.pending.len();
                let dropped = old(self)@.pending.len() - kept;
                &&& dropped >= 0
                &&& final(self)@ == old(self)@.drop_front(dropped as nat)
                &&& no_marker_below(old(self)@.pending, dropped)
                &&& kept > 0 ==> is_marker(final(self)@.pending[0])
                &&& kept > 0 ==> final(self).spare() == old(self).spare()
            }),
    {
        let candidate = &self.buffer[self.start..self.end];
        assert(candidate@ =~= self@.pending);
        if let Some(marker) = find_marker(candidate) {
            self.start = self.start + marker;
            assert(self@ =~= old(self)@.drop_front(marker as nat));
            assert(self@.pending[0] == old(self)@.pending[marker as int]);
        } else {
            self.start = 0;
            self.end = 0;
            assert(self@ =~= old(self)@.drop_front(old(self)@.pending.len()));
        }
    }

    /// Moves the retained bytes to the front of the buffer.
    fn compact(&mut self)
        requires
            old(self).in_bounds(),
        ensures
            final(self).in_bounds(),
            final(self)@ == (DecoderState { offset: 0, ..old(self)@ }),
    {
        if self.start == 0 {
            return;
        }
        let len: usize = self.end - self.start;
        let mut moved: usize = 0;
        while moved < len
            invariant
                moved <= len,
                0 < self.start,
                self.start == old(self).start,
                self.end == old(self).end,
                self.frame_len == old(self).frame_len,
                self.ready == old(self).ready,
                self.start + len == self.end,
                self.end <= BUFFER_SIZE,
                forall|i: int|
                    0 <= i < moved ==> self.buffer@[i] == old(self).buffer@[self.start + i],
                forall|i: int|
                    moved <= i < BUFFER_SIZE ==> self.buffer@[i] == old(self).buffer@[i],
            decreases len - moved,
        {
            self.buffer[moved] = self.buffer[self.start + moved];
            moved += 1;
        }
        self.end = len;
        self.start = 0;
        assert(self@ =~= (DecoderState { offset: 0, ..old(self)@ }));
    }

    /// The version of the candidate in front, after everything up to its marker is
    /// dropped.
    fn candidate_version(&mut self) -> (version: Option<FrameVersion>)
        requires
            old(self).in_bounds(),
            old(self)@.frame is None,
        ensures
            final(self).in_bounds(),
            ({
                let kept = final(self)@.pending.len();
                let dropped = old(self)@.pending.len() - kept;
                &&& dropped >= 0
                &&& final(self)@ == old(self)@.drop_front(dropped as nat)
                &&& no_marker_below(old(self)@.pending, dropped)
                &&& version is None <==> kept == 0
                &&& kept > 0 ==> version == wire::version_of(final(self)@.pending[0])
                &&& kept > 0 ==> final(self).spare() == old(self).spare()
            }),
    {
        if self.buffered_len() == 0 {
            assert(self@ =~= self@.drop_front(0));
            return None;
        }
        if let Some(version) = marker_version(self.buffer[self.start]) {
            assert(self@ =~= self@.drop_front(0));
            return Some(version);
        }
        self.seek_marker();
        if self.buffered_len() == 0 {
            None
        } else {
            marker_version(self.buffer[self.start])
        }
    }

    /// Judges the candidate in front.
    fn judge<F>(&self, version: FrameVersion, extra_crc: &mut F) -> (judgement: Judgement) where
        F: FnMut(FrameVersion, u32) -> u8,

        requires
            self.in_bounds(),
            self@.pending.len() > 0,
            wire::version_of(self@.pending[0]) == Some(version),
            waits(self@.pending, BUFFER_SIZE as nat) || callable(
                *old(extra_crc),
                self@.pending,
                BUFFER_SIZE as nat,
            ),
        ensures
            *final(extra_crc) == *old(extra_crc),
            judgement is Incomplete <==> waits(self@.pending, BUFFER_SIZE as nat),
            judgement matches Judgement::Frame(len) ==> {
                &&& len <= self@.pending.len()
                &&& wire::is_any_frame(self@.pending.take(len as int))
                &&& accepted(*old(extra_crc), self@.pending.take(len as int))
            },
            forall|table: ExtraTable| #[trigger]
                agrees(*old(extra_crc), table) ==> classify(
                    self@.pending,
                    BUFFER_SIZE as nat,
                    table,
                ) == judgement.verdict(),
    {
        reveal(classify);
        reveal(waits);
        let header_needed: usize = match version {
            FrameVersion::V1 => 2,
            FrameVersion::V2 => 3,
        };
        if self.buffered_len() < header_needed {
            return Judgement::Incomplete;
        }
        if version == FrameVersion::V2 && self.candidate()[2] & !v2::SUPPORTED_IFLAGS != 0 {
            return Judgement::UnsupportedFlags;
        }
        let candidate_len = self.candidate_frame_len(version);
        if candidate_len > BUFFER_SIZE {
            return Judgement::BufferTooSmall;
        }
        if self.buffered_len() < candidate_len {
            return Judgement::Incomplete;
        }
        let message_id = self.candidate_message_id(version);
        let checksum_start = self.checksum_start(version);
        let candidate = self.candidate();
        let expected = wire::read_u16(candidate[checksum_start], candidate[checksum_start + 1]);
        proof {
            assert(candidate@.skip(0) =~= candidate@);
            assert(complete_at(candidate@, 0, version, BUFFER_SIZE as nat));
        }
        let extra = extra_crc(version, message_id);
        let actual = crc::calculate(&candidate[1..checksum_start], extra);
        let ghost frame = candidate@.take(candidate_len as int);
        proof {
            wire::lemma_frame_prefix(candidate@, version);
            assert(call_ensures(
                *old(extra_crc),
                (version, wire::message_id(frame, version)),
                extra,
            ));
            assert(wire::checksum_matches(frame, version, extra) <==> actual == expected);
        }
        if actual == expected {
            Judgement::Frame(candidate_len)
        } else {
            Judgement::InvalidChecksum
        }
    }

    /// Slides over the retained bytes until a frame or an incomplete candidate stands
    /// in front, or nothing is left.
    fn inspect<F>(&mut self, extra_crc: &mut F, rejections: &mut Rejections) where
        F: FnMut(FrameVersion, u32) -> u8,

        requires
            old(self).in_bounds(),
            old(self)@.frame is Some ==> old(self).wf(),
            looks_again(old(self)@, Seq::empty(), BUFFER_SIZE as nat) ==> callable(
                *old(extra_crc),
                old(self)@.pending,
                BUFFER_SIZE as nat,
            ),
            old(rejections)@.total() + old(self)@.pending.len() <= usize::MAX,
        ensures
            final(self).wf(),
            *final(extra_crc) == *old(extra_crc),
            old(self)@.frame is Some ==> *final(self) == *old(self) && *final(rejections) == *old(
                rejections,
            ),
            final(self)@.pending.len() > 0 ==> final(self).spare() == old(self).spare(),
            old(self)@.pending.len() == 0 ==> *final(rejections) == *old(rejections),
            final(self)@.pending.len() <= old(self)@.pending.len(),
            final(self)@.pending == old(self)@.pending.skip(
                old(self)@.pending.len() - final(self)@.pending.len(),
            ),
            final(rejections)@.total() + final(self)@.pending.len() <= old(rejections)@.total()
                + old(self)@.pending.len(),
            final(self)@.frame is None && final(self)@.pending.len() > 0 ==> waits(
                final(self)@.pending,
                BUFFER_SIZE as nat,
            ),
            old(self)@.frame is None ==> (final(self)@.frame matches Some(len) ==> accepted(
                *old(extra_crc),
                final(self)@.pending.take(len as int),
            )),
            old(self)@.frame is None ==> forall|table: ExtraTable| #[trigger]
                agrees(*old(extra_crc), table) ==> {
                    let outcome = scan(old(self)@.pending, BUFFER_SIZE as nat, table);
                    &&& final(self)@ == old(self)@.scanned(outcome)
                    &&& final(rejections)@ == old(rejections)@.plus(outcome.tally)
                },
    {
        if self.ready {
            assert(self@.pending =~= self@.pending.skip(0));
            return;
        }
        let ghost all = self@;
        let ghost capacity = BUFFER_SIZE as nat;
        let ghost mut tally = Tally::zero();
        proof {
            assert(all =~= all.drop_front(0));
            assert forall|table: ExtraTable| #[trigger]
                agrees(*extra_crc, table) implies rejected_to(
                all.pending,
                all.pending,
                tally,
                capacity,
                table,
            ) by {
                lemma_scan_begins(all.pending, capacity, table);
            }
        }
        loop
            invariant
                self.in_bounds(),
                self@.frame is None,
                *extra_crc == *old(extra_crc),
                settled(all, capacity) && self@ == all || callable(
                    *extra_crc,
                    all.pending,
                    capacity,
                ),
                capacity == BUFFER_SIZE as nat,
                all == old(self)@,
                all.frame is None,
                self@.pending.len() > 0 ==> self.spare() == old(self).spare(),
                all.pending.len() == 0 ==> *rejections == *old(rejections),
                self@.pending.len() <= all.pending.len(),
                self@ == all.drop_front((all.pending.len() - self@.pending.len()) as nat),
                rejections@ == old(rejections)@.plus(tally),
                rejections@.total() + self@.pending.len() <= usize::MAX,
                tally.total() + self@.pending.len() <= all.pending.len(),
                forall|table: ExtraTable| #[trigger]
                    agrees(*extra_crc, table) ==> rejected_to(
                        all.pending,
                        self@.pending,
                        tally,
                        capacity,
                        table,
                    ),
            decreases self@.pending.len(),
        {
            let ghost before = self@;
            let found = self.candidate_version();
            let ghost sought = self@;
            proof {
                lemma_front(all, before, sought);
                assert forall|table: ExtraTable| #[trigger]
                    agrees(*extra_crc, table) implies rejected_to(
                    all.pending,
                    sought.pending,
                    tally,
                    capacity,
                    table,
                ) by {
                    lemma_garbage_passed(all, before, sought, tally, capacity, table);
                }
            }
            let version = match found {
                Some(version) => version,
                None => {
                    proof {
                        assert forall|table: ExtraTable| #[trigger]
                            agrees(*extra_crc, table) implies ({
                            let outcome = scan(all.pending, capacity, table);
                            &&& outcome.tally == tally
                            &&& all.scanned(outcome) == sought
                        }) by {
                            lemma_scan_ends(all, sought, tally, None, capacity, table);
                        }
                    }
                    return;
                },
            };
            proof {
                let gone = all.pending.len() - sought.pending.len();
                assert(sought.pending =~= all.pending.subrange(gone, all.pending.len() as int));
                if callable(*extra_crc, all.pending, capacity) {
                    lemma_callable_part(*extra_crc, sought.pending, all.pending, gone, capacity);
                } else {
                    reveal(waits);
                    assert(is_marker(before.pending[0]));
                    assert(sought.pending =~= all.pending);
                }
            }
            let judgement = self.judge(version, extra_crc);
            proof {
                if judgement is Incomplete || judgement is Frame {
                    let frame = match judgement {
                        Judgement::Frame(len) => Some(len as nat),
                        _ => None,
                    };
                    assert forall|table: ExtraTable| #[trigger]
                        agrees(*extra_crc, table) implies ({
                        let outcome = scan(all.pending, capacity, table);
                        &&& outcome.tally == tally
                        &&& all.scanned(outcome) == (DecoderState { frame, ..sought })
                    }) by {
                        lemma_scan_ends(all, sought, tally, frame, capacity, table);
                    }
                }
            }
            match judgement {
                Judgement::Incomplete => {
                    return;
                },
                Judgement::Frame(candidate_len) => {
                    self.frame_len = candidate_len;
                    self.ready = true;
                    assert(self@ =~= (DecoderState {
                        frame: Some(candidate_len as nat),
                        ..sought
                    }));
                    return;
                },
                Judgement::InvalidChecksum => {
                    rejections.invalid_checksum += 1;
                },
                Judgement::UnsupportedFlags => {
                    rejections.unsupported_flags += 1;
                },
                Judgement::BufferTooSmall => {
                    rejections.buffer_too_small += 1;
                },
            }
            self.reject_candidate();
            proof {
                let reason = judgement.verdict()->Rejected_0;
                lemma_front(all, sought, self@);
                assert forall|table: ExtraTable| #[trigger]
                    agrees(*extra_crc, table) implies rejected_to(
                    all.pending,
                    self@.pending,
                    tally.plus(Tally::one(reason)),
                    capacity,
                    table,
                ) by {
                    lemma_rejected(all, sought, self@, tally, reason, capacity, table);
                }
                tally = tally.plus(Tally::one(reason));
            }
        }
    }
}

impl<const BUFFER_SIZE: usize> Default for FrameDecoder<BUFFER_SIZE> {
    fn default() -> (decoder: Self)
        ensures
            decoder.wf(),
            decoder@ == DecoderState::empty(),
            decoder.spare() == Seq::new(BUFFER_SIZE as nat, |i: int| 0u8),
    {
        Self::new()
    }
}

} // verus!
