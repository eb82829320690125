//! What a decoder keeps.
use vstd::prelude::*;

use super::decoding::is_noise;
use crate::consts;
use crate::consts::{v1, v2};
use crate::frame_decoder::marker::{first_marker, lemma_before_first_marker};
use crate::frame_decoder::{
    CommitError, DecodeProgress, DecodeStatus, FrameDecoder, FrameRef, FrameVersion,
    MAX_FRAME_LEN, Rejections,
};
use crate::wire;

verus! {

/// A new decoder, and one that was reset, retain nothing and have no frame ready.
pub proof fn law_fresh_decoder_is_empty<const N: usize>(
    fresh: FrameDecoder<N>,
    decoder: &mut FrameDecoder<N>,
    found: Option<FrameRef<'_>>,
    len: usize,
    range: (usize, usize),
    capacity: usize,
)
    requires
        call_ensures(FrameDecoder::<N>::new, (), fresh),
        call_ensures(FrameDecoder::<N>::frame, (&fresh,), found),
        call_ensures(FrameDecoder::<N>::buffered_len, (&fresh,), len),
        call_ensures(FrameDecoder::<N>::buffered_range, (&fresh,), range),
        call_ensures(FrameDecoder::<N>::capacity, (&fresh,), capacity),
        call_ensures(FrameDecoder::<N>::reset, (decoder,), ()),
    ensures
        found is None,
        len == 0,
        range == (0usize, 0usize),
        capacity == N,
        forall|found: Option<FrameRef<'_>>| #[trigger]
            call_ensures(FrameDecoder::<N>::frame, (final(decoder),), found) ==> found is None,
        forall|len: usize| #[trigger]
            call_ensures(FrameDecoder::<N>::buffered_len, (final(decoder),), len) ==> len == 0,
{
}

/// Releasing a frame drops its bytes and the noise behind them, and nothing else.
pub proof fn law_released_frame_and_noise_are_dropped<const N: usize>(
    decoder: &mut FrameDecoder<N>,
    frame: FrameRef<'_>,
    advanced: bool,
)
    requires
        old(decoder).wf(),
        call_ensures(FrameDecoder::<N>::frame, (old(decoder),), Some(frame)),
        call_ensures(FrameDecoder::<N>::advance, (decoder,), advanced),
    ensures
        advanced,
        forall|found: Option<FrameRef<'_>>| #[trigger]
            call_ensures(FrameDecoder::<N>::frame, (final(decoder),), found) ==> found is None,
        exists|noise: Seq<u8>| #[trigger]
            is_noise(noise) && old(decoder)@.pending == frame@ + noise + final(decoder)@.pending,
        final(decoder)@.pending.len() == 0 || final(decoder)@.pending[0] == 0xfe
            || final(decoder)@.pending[0] == 0xfd,
{
    let len = old(decoder)@.frame->0;
    let pending = old(decoder)@.pending;
    let rest = pending.skip(len as int);
    let count = first_marker(rest) as int;
    lemma_before_first_marker(rest);
    let noise = rest.take(count);
    assert forall|i: int| 0 <= i < noise.len() implies #[trigger] noise[i] != 0xfe && noise[i]
        != 0xfd by {
        assert(!wire::is_marker(rest[i]));
    }
    assert(is_noise(noise));
    assert(pending =~= frame@ + noise + final(decoder)@.pending);
}

/// Without a ready frame there is nothing to release.
pub proof fn law_nothing_is_released_without_a_frame<const N: usize>(
    decoder: &mut FrameDecoder<N>,
    advanced: bool,
)
    requires
        old(decoder).wf(),
        call_ensures(FrameDecoder::<N>::frame, (old(decoder),), None),
        call_ensures(FrameDecoder::<N>::advance, (decoder,), advanced),
    ensures
        !advanced,
        *final(decoder) == *old(decoder),
{
}

/// A commit is refused exactly where it asks for more bytes than there is room for behind
/// the retained ones, and it changes nothing where it is refused.
pub proof fn law_commit_is_refused_beyond_the_buffer<
    const N: usize,
    F: FnMut(FrameVersion, u32) -> u8,
>(
    decoder: &mut FrameDecoder<N>,
    count: usize,
    extra_crc: F,
    result: Result<DecodeProgress, CommitError>,
    range: (usize, usize),
)
    requires
        old(decoder).wf(),
        call_ensures(FrameDecoder::<N>::buffered_range, (old(decoder),), range),
        call_ensures(FrameDecoder::<N>::commit::<F>, (decoder, count, extra_crc), result),
    ensures
        match result {
            Ok(progress) => range.1 + count <= N && progress.consumed == count,
            Err(error) => {
                &&& range.1 + count > N
                &&& error.requested == count
                &&& error.available == N - range.1
                &&& *final(decoder) == *old(decoder)
            },
        },
{
}

/// While a frame is ready, pushing consumes and changes nothing.
pub proof fn law_ready_frame_is_kept<const N: usize, F: FnMut(FrameVersion, u32) -> u8>(
    decoder: &mut FrameDecoder<N>,
    input: &[u8],
    extra_crc: F,
    progress: DecodeProgress,
    frame: FrameRef<'_>,
)
    requires
        old(decoder).wf(),
        call_ensures(FrameDecoder::<N>::frame, (old(decoder),), Some(frame)),
        call_ensures(FrameDecoder::<N>::push::<F>, (decoder, input, extra_crc), progress),
    ensures
        *final(decoder) == *old(decoder),
        progress.consumed == 0,
        progress.status == DecodeStatus::FrameReady,
        progress.rejections.invalid_checksum == 0,
        progress.rejections.unsupported_flags == 0,
        progress.rejections.buffer_too_small == 0,
{
}

/// Where no frame becomes ready, all input is consumed.
pub proof fn law_input_is_consumed_until_a_frame_is_ready<
    const N: usize,
    F: FnMut(FrameVersion, u32) -> u8,
>(decoder: &mut FrameDecoder<N>, input: &[u8], extra_crc: F, progress: DecodeProgress)
    requires
        old(decoder).wf(),
        call_ensures(FrameDecoder::<N>::push::<F>, (decoder, input, extra_crc), progress),
    ensures
        progress.consumed <= input@.len(),
        progress.status == DecodeStatus::NeedMore ==> progress.consumed == input@.len(),
{
}

/// Rejections are counted by reason, and their total is the sum.
pub proof fn law_total_is_the_sum(rejections: Rejections, total: usize, none: Rejections)
    requires
        rejections.invalid_checksum + rejections.unsupported_flags + rejections.buffer_too_small
            <= usize::MAX,
        call_ensures(Rejections::total, (rejections,), total),
        call_ensures(<Rejections as Default>::default, (), none),
    ensures
        total == rejections.invalid_checksum + rejections.unsupported_flags
            + rejections.buffer_too_small,
        none.invalid_checksum == 0,
        none.unsupported_flags == 0,
        none.buffer_too_small == 0,
{
}

/// The sizes of the two formats.
pub proof fn law_sizes_follow_from_the_formats(payload: int, signature: int)
    requires
        payload == 255,
        signature == 13,
    ensures
        v1::MAX_FRAME_SIZE == 1 + 5 + payload + 2,
        v2::MAX_FRAME_SIZE == 1 + 9 + payload + 2 + signature,
        consts::MAX_FRAME_SIZE == v2::MAX_FRAME_SIZE,
        MAX_FRAME_LEN == v2::MAX_FRAME_SIZE,
{
}

} // verus!
