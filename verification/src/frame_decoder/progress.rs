//! What a decoder reports.
use vstd::prelude::*;
use vstd::string::StringExecFns;

use super::model::{DecoderState, Fed, Tally};
use crate::text::{decimal, push_decimal};

verus! {

/// State reached after feeding an input chunk.
#[derive(Clone, Copy, Debug, PartialEq, Eq, Structural)]
pub enum DecodeStatus {
    /// More bytes are needed to produce a validated frame.
    NeedMore,
    /// A frame is available through [`super::FrameDecoder::frame`].
    FrameReady,
}

/// Rejected candidate counts observed during one call.
#[derive(Clone, Copy, Debug, PartialEq, Eq, Structural)]
pub struct Rejections {
    /// Complete candidates whose checksum did not match.
    pub invalid_checksum: usize,
    /// MAVLink 2 candidates carrying an unsupported incompatibility flag.
    pub unsupported_flags: usize,
    /// Candidates that cannot fit in this decoder's configured buffer.
    pub buffer_too_small: usize,
}

impl View for Rejections {
    type V = Tally;

    open spec fn view(&self) -> Tally {
        Tally {
            invalid_checksum: self.invalid_checksum as nat,
            unsupported_flags: self.unsupported_flags as nat,
            buffer_too_small: self.buffer_too_small as nat,
        }
    }
}

impl Default for Rejections {
    fn default() -> (rejections: Self)
        ensures
            rejections@ == Tally::zero(),
    {
        Rejections { invalid_checksum: 0, unsupported_flags: 0, buffer_too_small: 0 }
    }
}

impl Rejections {
    /// Total rejected candidates.
    #[must_use]
    pub fn total(self) -> (total: usize)
        requires
            self@.total() <= usize::MAX,
        ensures
            total == self@.total(),
    {
        self.invalid_checksum + self.unsupported_flags + self.buffer_too_small
    }
}

/// Error returned when more bytes are committed than were exposed by
/// [`super::FrameDecoder::spare_capacity_mut`].
#[derive(Clone, Copy, Debug, PartialEq, Eq, Structural)]
pub struct CommitError {
    /// Number of bytes the caller attempted to commit.
    pub requested: usize,
    /// Unused decoder capacity at the time of the call.
    pub available: usize,
}

impl CommitError {
    /// What [`Self::describe`] returns.
    pub open spec fn text(self) -> Seq<char> {
        "attempted to commit "@ + decimal(self.requested as nat) + " bytes with only "@ + decimal(
            self.available as nat,
        ) + " bytes available"@
    }

    /// The error in words.
    #[must_use]
    pub fn describe(&self) -> (text: String)
        ensures
            text@ == self.text(),
    {
        let mut text = String::from_str("attempted to commit ");
        push_decimal(&mut text, self.requested as u64);
        text.append(" bytes with only ");
        push_decimal(&mut text, self.available as u64);
        text.append(" bytes available");
        text
    }
}

/// Result of feeding one input chunk into a [`super::FrameDecoder`].
#[derive(Clone, Copy, Debug, PartialEq, Eq, Structural)]
pub struct DecodeProgress {
    /// Number of bytes consumed from the supplied input chunk.
    ///
    /// If a frame becomes ready before the end of a chunk, pass the unconsumed
    /// suffix again after calling [`super::FrameDecoder::advance`].
    pub consumed: usize,
    /// Candidate rejections encountered while processing the chunk.
    pub rejections: Rejections,
    /// Decoder state after consuming `consumed` bytes.
    pub status: DecodeStatus,
}

impl DecodeProgress {
    /// This is what feeding with the outcome `fed` reports, and `state` is what it
    /// leaves.
    pub open spec fn tells(self, fed: Fed, state: DecoderState) -> bool {
        &&& self.consumed == fed.consumed
        &&& self.rejections@ == fed.tally
        &&& self.status == if fed.state.frame is Some {
            DecodeStatus::FrameReady
        } else {
            DecodeStatus::NeedMore
        }
        &&& state == fed.state
    }
}

} // verus!
