//! Framing tests.
use mavlink_core::consts::v1::STX as V1_STX;
use mavlink_core::consts::v2::{IFLAG_SIGNED as V2_SIGNED_FLAG, SIGNATURE_SIZE as SIGNATURE_LEN};
use mavlink_core::consts::v2::STX as V2_STX;
use mavlink_core::crc;
use mavlink_core::frame_decoder::{
    find_marker, CommitError, DecodeStatus, FrameDecoder, FrameVersion, Rejections, MAX_FRAME_LEN,
};

const EXTRA_CRC: u8 = 77;

fn v1_frame(message_id: u8, payload: &[u8]) -> Vec<u8> {
    let mut frame = vec![V1_STX, payload.len() as u8, 7, 42, 9, message_id];
    frame.extend_from_slice(payload);
    let crc = crc::calculate(&frame[1..], EXTRA_CRC);
    frame.extend_from_slice(&crc.to_le_bytes());
    frame
}

fn v2_frame(message_id: u32, payload: &[u8], signed: bool) -> Vec<u8> {
    let id = message_id.to_le_bytes();
    let mut frame = vec![
        V2_STX,
        payload.len() as u8,
        u8::from(signed),
        0,
        8,
        43,
        10,
        id[0],
        id[1],
        id[2],
    ];
    frame.extend_from_slice(payload);
    let crc = crc::calculate(&frame[1..], EXTRA_CRC);
    frame.extend_from_slice(&crc.to_le_bytes());
    if signed {
        frame.extend(0_u8..SIGNATURE_LEN as u8);
    }
    frame
}

fn extra(_: FrameVersion, _: u32) -> u8 {
    EXTRA_CRC
}

fn feed_chunks<const BUFFER_SIZE: usize>(
    decoder: &mut FrameDecoder<BUFFER_SIZE>,
    bytes: &[u8],
    chunk_len: usize,
) -> Vec<Vec<u8>> {
    let mut frames = Vec::new();
    let mut offset = 0;
    while offset < bytes.len() {
        let chunk_end = (offset + chunk_len).min(bytes.len());
        let mut chunk_offset = offset;
        while chunk_offset < chunk_end {
            let progress = decoder.push(&bytes[chunk_offset..chunk_end], extra);
            chunk_offset += progress.consumed;
            if progress.status == DecodeStatus::FrameReady {
                frames.push(decoder.frame().unwrap().bytes().to_vec());
                assert!(decoder.advance());
            } else {
                assert_eq!(chunk_offset, chunk_end);
            }
        }
        offset = chunk_end;
    }

    loop {
        let progress = decoder.push(&[], extra);
        if progress.status != DecodeStatus::FrameReady {
            break;
        }
        frames.push(decoder.frame().unwrap().bytes().to_vec());
        assert!(decoder.advance());
    }
    frames
}

#[test]
fn marker_search_matches_scalar_reference() {
    let mut bytes = [0x55; 512];
    for length in 0..=bytes.len() {
        assert_eq!(find_marker(&bytes[..length]), None);
        for position in 0..length {
            for marker in [V1_STX, V2_STX] {
                bytes[position] = marker;
                assert_eq!(find_marker(&bytes[..length]), Some(position));
                bytes[position] = 0x55;
            }
        }
    }
}

#[test]
fn accepts_v1_one_byte_at_a_time() {
    let expected = v1_frame(33, &[1, 2, 3, 4, 5]);
    let mut decoder = FrameDecoder::<MAX_FRAME_LEN>::new();
    assert_eq!(feed_chunks(&mut decoder, &expected, 1), [expected]);
}

#[test]
fn accepts_v2_in_arbitrary_chunks() {
    let expected = v2_frame(0x00ab_cdef, &[1, 2, 3, 4, 5, 6, 7], false);
    for chunk_len in 1..=expected.len() + 2 {
        let mut decoder = FrameDecoder::<MAX_FRAME_LEN>::new();
        let frames = feed_chunks(&mut decoder, &expected, chunk_len);
        assert_eq!(frames.len(), 1);
        assert_eq!(frames[0], expected);
    }
}

#[test]
fn accepts_maximum_v1_and_signed_v2_frames() {
    let v1 = v1_frame(1, &[0x55; 255]);
    let v2 = v2_frame(0x00ff_ffff, &[0xaa; 255], true);
    assert_eq!(v1.len(), 263);
    assert_eq!(v2.len(), MAX_FRAME_LEN);

    let mut decoder = FrameDecoder::<MAX_FRAME_LEN>::new();
    let mut stream = v1.clone();
    stream.extend_from_slice(&v2);
    assert_eq!(feed_chunks(&mut decoder, &stream, 17), [v1, v2]);
}

#[test]
fn exposes_protocol_neutral_metadata_and_signature() {
    let expected = v2_frame(0x0003_0201, &[9, 8, 7], true);
    let mut decoder = FrameDecoder::<MAX_FRAME_LEN>::new();
    let progress = decoder.push(&expected, extra);
    assert_eq!(progress.status, DecodeStatus::FrameReady);

    let frame = decoder.frame().unwrap();
    assert_eq!(frame.version(), FrameVersion::V2);
    assert_eq!(frame.message_id(), 0x0003_0201);
    assert_eq!(frame.sequence(), 8);
    assert_eq!(frame.system_id(), 43);
    assert_eq!(frame.component_id(), 10);
    assert_eq!(frame.payload(), [9, 8, 7]);
    assert_eq!(frame.incompatibility_flags(), Some(V2_SIGNED_FLAG));
    assert!(frame.is_signed());
    assert_eq!(frame.signature(), Some(&(0_u8..13).collect::<Vec<_>>()[..]));
    assert_eq!(
        frame.checksum(),
        u16::from_le_bytes([expected[13], expected[14]])
    );
}

#[test]
fn skips_garbage_and_decodes_adjacent_versions() {
    let v1 = v1_frame(2, &[1, 2]);
    let v2 = v2_frame(300, &[3, 4, 5], false);
    let mut stream = vec![0, 1, 2, 3, 4];
    stream.extend_from_slice(&v1);
    stream.extend_from_slice(&v2);

    let mut decoder = FrameDecoder::<MAX_FRAME_LEN>::new();
    assert_eq!(feed_chunks(&mut decoder, &stream, stream.len()), [v1, v2]);
}

#[test]
fn invalid_checksum_rescans_from_the_next_byte() {
    let nested = v2_frame(44, &[1, 2, 3], false);

    // A false outer candidate contains an entire valid frame. Once the
    // outer checksum fails, byte-wise resynchronization must retain and
    // recognize the nested marker rather than discard the outer body.
    let mut corrupt = vec![V2_STX, nested.len() as u8, 0, 0, 1, 2, 3, 4, 0, 0];
    corrupt.extend_from_slice(&nested);
    corrupt.extend_from_slice(&[0, 0]);

    let mut decoder = FrameDecoder::<MAX_FRAME_LEN>::new();
    let progress = decoder.push(&corrupt, extra);
    assert_eq!(progress.rejections.invalid_checksum, 1);
    assert_eq!(progress.status, DecodeStatus::FrameReady);
    assert_eq!(decoder.frame().unwrap().bytes(), nested);
    assert_eq!(progress.consumed, corrupt.len());
}

#[test]
fn advancing_a_recovered_frame_retains_buffered_suffix() {
    let nested = v1_frame(11, &[4]);
    let following = v1_frame(12, &[5]);

    // Both valid frames reside inside a larger corrupt candidate. The
    // decoder first recovers `nested`, then `advance` must retain
    // `following` without asking the caller to replay any bytes.
    let outer_payload_len = nested.len() + following.len();
    let mut corrupt = vec![V2_STX, outer_payload_len as u8, 0, 0, 1, 2, 3, 4, 0, 0];
    corrupt.extend_from_slice(&nested);
    corrupt.extend_from_slice(&following);
    corrupt.extend_from_slice(&[0, 0]);

    let mut decoder = FrameDecoder::<MAX_FRAME_LEN>::new();
    let progress = decoder.push(&corrupt, extra);
    assert_eq!(progress.status, DecodeStatus::FrameReady);
    assert_eq!(decoder.frame().unwrap().bytes(), nested);
    assert!(decoder.advance());

    let progress = decoder.push(&[], extra);
    assert_eq!(progress.consumed, 0);
    assert_eq!(progress.status, DecodeStatus::FrameReady);
    assert_eq!(decoder.frame().unwrap().bytes(), following);
}

#[test]
fn unsupported_flags_rescan_from_the_next_byte() {
    let valid = v1_frame(17, &[5, 6]);
    let mut stream = vec![V2_STX, 200, 0x80, 12, 13];
    stream.extend_from_slice(&valid);

    let mut decoder = FrameDecoder::<MAX_FRAME_LEN>::new();
    let progress = decoder.push(&stream, extra);
    assert_eq!(progress.rejections.unsupported_flags, 1);
    assert_eq!(progress.status, DecodeStatus::FrameReady);
    assert_eq!(decoder.frame().unwrap().bytes(), valid);
}

#[test]
fn wrong_extra_crc_rejects_an_otherwise_complete_frame() {
    let expected = v1_frame(1, &[9, 9, 9]);
    let mut decoder = FrameDecoder::<MAX_FRAME_LEN>::new();
    let progress = decoder.push(&expected, |_, _| EXTRA_CRC.wrapping_add(1));
    assert_eq!(progress.status, DecodeStatus::NeedMore);
    assert_eq!(progress.rejections.invalid_checksum, 1);
    assert_eq!(progress.rejections.total(), 1);
    assert!(decoder.frame().is_none());
}

#[test]
fn ready_frame_must_be_advanced_before_more_input_is_consumed() {
    let first = v1_frame(1, &[1]);
    let second = v1_frame(2, &[2]);
    let mut decoder = FrameDecoder::<MAX_FRAME_LEN>::new();
    let mut checksum_callbacks = 0;
    let first_progress = decoder.push(&first, |_, _| {
        checksum_callbacks += 1;
        EXTRA_CRC
    });
    assert_eq!(first_progress.status, DecodeStatus::FrameReady);
    assert_eq!(checksum_callbacks, 1);

    let blocked = decoder.push(&second, |_, _| {
        checksum_callbacks += 1;
        EXTRA_CRC
    });
    assert_eq!(blocked.consumed, 0);
    assert_eq!(blocked.status, DecodeStatus::FrameReady);
    assert_eq!(checksum_callbacks, 1);

    let recommitted = decoder
        .commit(0, |_, _| {
            checksum_callbacks += 1;
            EXTRA_CRC
        })
        .unwrap();
    assert_eq!(recommitted.status, DecodeStatus::FrameReady);
    assert_eq!(checksum_callbacks, 1);
    assert!(decoder.advance());

    let second_progress = decoder.push(&second, extra);
    assert_eq!(second_progress.status, DecodeStatus::FrameReady);
    assert_eq!(decoder.frame().unwrap().message_id(), 2);
}

#[test]
fn direct_buffer_fill_retains_multiple_frames() {
    let first = v1_frame(1, &[1, 2]);
    let second = v2_frame(2, &[3, 4], false);
    let mut stream = first.clone();
    stream.extend_from_slice(&second);

    let mut decoder = FrameDecoder::<64>::new();
    assert_eq!(decoder.capacity(), 64);
    let count = {
        let spare = decoder.spare_capacity_mut();
        spare[..stream.len()].copy_from_slice(&stream);
        stream.len()
    };
    let progress = decoder.commit(count, extra).unwrap();
    assert_eq!(progress.consumed, stream.len());
    assert_eq!(progress.status, DecodeStatus::FrameReady);
    assert_eq!(decoder.frame().unwrap().bytes(), first);

    assert!(decoder.advance());
    let progress = decoder.commit(0, extra).unwrap();
    assert_eq!(progress.status, DecodeStatus::FrameReady);
    assert_eq!(decoder.frame().unwrap().bytes(), second);
}

#[test]
fn advancing_many_adjacent_frames_defers_compaction() {
    let frames: Vec<_> = (0..35)
        .map(|message_id| v1_frame(message_id, &[]))
        .collect();
    let stream: Vec<_> = frames.iter().flatten().copied().collect();
    assert_eq!(stream.len(), MAX_FRAME_LEN);

    let mut decoder = FrameDecoder::<MAX_FRAME_LEN>::new();
    decoder.spare_capacity_mut().copy_from_slice(&stream);
    assert_eq!(
        decoder.commit(stream.len(), extra).unwrap().status,
        DecodeStatus::FrameReady
    );

    for (index, expected) in frames.iter().enumerate() {
        assert_eq!(decoder.frame().unwrap().bytes(), expected);
        assert_eq!(decoder.buffered_range().1, stream.len());
        assert!(decoder.advance());

        if index + 1 == frames.len() {
            assert_eq!(decoder.buffered_range(), (0, 0));
        } else {
            assert_eq!(decoder.buffered_range().0, expected.len() * (index + 1));
            assert_eq!(
                decoder.commit(0, extra).unwrap().status,
                DecodeStatus::FrameReady
            );
        }
    }
}

#[test]
fn exhausted_tail_compacts_once_and_preserves_ready_frame_and_suffix() {
    let first = v1_frame(1, &[]);
    let second = v1_frame(2, &[]);
    let third = v1_frame(3, &[]);
    let fourth = v1_frame(4, &[]);
    let mut initial = first.clone();
    initial.extend_from_slice(&second);
    initial.extend_from_slice(&third);

    let mut decoder = FrameDecoder::<24>::new();
    decoder.spare_capacity_mut().copy_from_slice(&initial);
    decoder.commit(initial.len(), extra).unwrap();
    assert_eq!(decoder.frame().unwrap().bytes(), first);
    assert!(decoder.advance());
    decoder.commit(0, extra).unwrap();
    assert_eq!(decoder.frame().unwrap().bytes(), second);
    assert_eq!(decoder.buffered_range(), (8, 24));

    let count = {
        let spare = decoder.spare_capacity_mut();
        assert_eq!(spare.len(), fourth.len());
        spare.copy_from_slice(&fourth);
        fourth.len()
    };
    assert_eq!(decoder.buffered_range(), (0, 16));
    assert_eq!(
        decoder.commit(count, extra).unwrap().status,
        DecodeStatus::FrameReady
    );
    assert_eq!(decoder.frame().unwrap().bytes(), second);

    for expected in [&third, &fourth] {
        assert!(decoder.advance());
        assert_eq!(
            decoder.commit(0, extra).unwrap().status,
            DecodeStatus::FrameReady
        );
        assert_eq!(decoder.frame().unwrap().bytes(), expected);
    }
}

#[test]
fn too_small_capacity_rejects_without_panicking_and_recovers() {
    let oversized = v2_frame(1, &[0x55; 20], false);
    let following = v1_frame(2, &[7]);
    let mut stream = oversized;
    stream.extend_from_slice(&following);

    let mut decoder = FrameDecoder::<12>::new();
    let progress = decoder.push(&stream, extra);
    assert!(progress.rejections.buffer_too_small >= 1);
    assert_eq!(progress.status, DecodeStatus::FrameReady);
    assert_eq!(decoder.frame().unwrap().bytes(), following);
}

#[test]
fn zero_capacity_and_overcommit_are_reported_safely() {
    let frame = v1_frame(1, &[1]);
    let mut zero = FrameDecoder::<0>::new();
    let progress = zero.push(&frame, extra);
    assert_eq!(progress.consumed, frame.len());
    assert_eq!(progress.status, DecodeStatus::NeedMore);
    assert_eq!(progress.rejections.buffer_too_small, 1);
    assert!(zero.spare_capacity_mut().is_empty());
    assert_eq!(zero.commit(1, extra).unwrap_err().available, 0);

    let mut decoder = FrameDecoder::<8>::new();
    assert_eq!(
        decoder.commit(9, extra),
        Err(CommitError {
            requested: 9,
            available: 8
        })
    );
    assert_eq!(decoder.buffered_len(), 0);
}

#[test]
fn tiny_capacities_reject_headers_without_indexing_past_the_buffer() {
    let frame = v2_frame(1, &[], false);

    let mut one = FrameDecoder::<1>::new();
    let progress = one.push(&frame, extra);
    assert_eq!(progress.consumed, frame.len());
    assert_eq!(progress.status, DecodeStatus::NeedMore);
    assert!(progress.rejections.buffer_too_small >= 1);

    let mut two = FrameDecoder::<2>::new();
    let progress = two.push(&frame, extra);
    assert_eq!(progress.consumed, frame.len());
    assert_eq!(progress.status, DecodeStatus::NeedMore);
    assert!(progress.rejections.buffer_too_small >= 1);
}

#[test]
fn reset_discards_partial_candidate() {
    let expected = v2_frame(8, &[1, 2, 3], false);
    let mut decoder = FrameDecoder::<MAX_FRAME_LEN>::new();
    assert_eq!(
        decoder.push(&expected[..5], extra).status,
        DecodeStatus::NeedMore
    );
    assert_eq!(decoder.buffered_len(), 5);
    decoder.reset();
    assert_eq!(decoder.buffered_len(), 0);
    assert!(!decoder.advance());
}

#[test]
fn frames_do_not_depend_on_chunk_length() {
    let mut stream = vec![9, 9, V2_STX, 3, 0x40, V1_STX];
    stream.extend_from_slice(&v1_frame(2, &[1, 2]));
    stream.extend_from_slice(&[1, 2, 3]);
    stream.extend_from_slice(&v2_frame(300, &[3, 4, 5], true));
    stream.extend_from_slice(&v1_frame(3, &[V1_STX, V2_STX]));
    let mut whole = FrameDecoder::<MAX_FRAME_LEN>::new();
    let expected = feed_chunks(&mut whole, &stream, stream.len());
    for chunk_len in 1..stream.len() {
        let mut decoder = FrameDecoder::<MAX_FRAME_LEN>::new();
        assert_eq!(feed_chunks(&mut decoder, &stream, chunk_len), expected);
    }
}

#[test]
fn frame_behind_noise_is_ready_with_its_last_byte() {
    let frame = v2_frame(7, &[1, 2, 3], false);
    let mut stream = vec![0, 1, 2];
    stream.extend_from_slice(&frame);
    stream.extend_from_slice(&[V1_STX, 4]);
    let mut decoder = FrameDecoder::<64>::new();
    let progress = decoder.push(&stream, extra);
    assert_eq!(progress.consumed, 3 + frame.len());
    assert_eq!(progress.rejections, Rejections::default());
    assert_eq!(decoder.frame().unwrap().bytes(), frame);
    assert_eq!(decoder.buffered_range(), (0, frame.len()));
}

#[test]
fn advance_drops_noise_in_front_of_the_next_marker() {
    let frame = v1_frame(7, &[1]);
    let mut stream = frame.clone();
    stream.extend_from_slice(&[1, 2, 3, V2_STX, 5]);
    let mut decoder = FrameDecoder::<64>::new();
    decoder.spare_capacity_mut()[..stream.len()].copy_from_slice(&stream);
    decoder.commit(stream.len(), extra).unwrap();
    assert!(decoder.advance());
    assert_eq!(decoder.buffered_len(), 2);
    assert_eq!(decoder.buffered_range(), (frame.len() + 3, stream.len()));
    assert!(decoder.frame().is_none());
}

#[test]
fn committing_in_pieces_finds_what_committing_at_once_finds() {
    let frame = v1_frame(9, &[4, 5]);
    let mut stream = vec![V2_STX, 1, 0x20];
    stream.extend_from_slice(&frame);
    let mut pieces = FrameDecoder::<64>::new();
    let mut rejected = 0;
    for (index, &byte) in stream.iter().enumerate() {
        pieces.spare_capacity_mut()[0] = byte;
        let progress = pieces.commit(1, extra).unwrap();
        rejected += progress.rejections.total();
        let last = index + 1 == stream.len();
        assert_eq!(progress.status == DecodeStatus::FrameReady, last);
    }
    assert_eq!(pieces.frame().unwrap().bytes(), frame);

    let mut whole = FrameDecoder::<64>::new();
    whole.spare_capacity_mut()[..stream.len()].copy_from_slice(&stream);
    let progress = whole.commit(stream.len(), extra).unwrap();
    assert_eq!(progress.rejections.total(), rejected);
    assert_eq!(whole.frame().unwrap().bytes(), frame);
}

#[test]
fn full_buffer_of_a_waiting_candidate_is_rejected_on_commit() {
    let mut decoder = FrameDecoder::<2>::new();
    decoder.spare_capacity_mut().copy_from_slice(&[V2_STX, V1_STX]);
    let progress = decoder.commit(2, extra).unwrap();
    assert_eq!(progress.rejections.buffer_too_small, 1);
    assert_eq!(progress.status, DecodeStatus::NeedMore);
    assert_eq!(decoder.buffered_range(), (1, 2));
    assert_eq!(decoder.spare_capacity_mut().len(), 1);
    assert_eq!(decoder.buffered_range(), (0, 1));
}

#[test]
fn version_one_metadata() {
    let expected = v1_frame(200, &[9, 8, 7]);
    let mut decoder = FrameDecoder::<MAX_FRAME_LEN>::default();
    decoder.push(&expected, extra);
    let frame = decoder.frame().unwrap();
    assert_eq!(frame.version(), FrameVersion::V1);
    assert_eq!(frame.message_id(), 200);
    assert_eq!(frame.sequence(), 7);
    assert_eq!(frame.system_id(), 42);
    assert_eq!(frame.component_id(), 9);
    assert_eq!(frame.payload(), [9, 8, 7]);
    assert_eq!(frame.incompatibility_flags(), None);
    assert!(!frame.is_signed());
    assert_eq!(frame.signature(), None);
    assert_eq!(
        frame.checksum(),
        u16::from_le_bytes([expected[9], expected[10]])
    );
}

#[test]
fn overcommit_changes_nothing_and_says_why() {
    let frame = v1_frame(1, &[1]);
    let mut decoder = FrameDecoder::<16>::new();
    decoder.push(&frame[..4], extra);
    let error = decoder.commit(13, extra).unwrap_err();
    assert_eq!(
        error.describe(),
        "attempted to commit 13 bytes with only 12 bytes available"
    );
    assert_eq!(decoder.buffered_range(), (0, 4));
    assert_eq!(
        decoder.push(&frame[4..], extra).status,
        DecodeStatus::FrameReady
    );
}

#[test]
fn rejections_are_bounded_by_bytes() {
    let mut state: u32 = 1;
    let mut stream = Vec::new();
    for _ in 0..2000 {
        state = state.wrapping_mul(1_664_525).wrapping_add(1_013_904_223);
        stream.push([V1_STX, V2_STX, 0, (state >> 24) as u8][(state >> 16) as usize % 4]);
    }
    let mut small = FrameDecoder::<20>::new();
    let mut large = FrameDecoder::<MAX_FRAME_LEN>::new();
    let mut offset = 0;
    while offset < stream.len() {
        let progress = small.push(&stream[offset..], extra);
        assert!(progress.rejections.total() <= 20 + progress.consumed);
        offset += progress.consumed;
        small.advance();
    }
    let mut offset = 0;
    let mut too_small = 0;
    while offset < stream.len() {
        let progress = large.push(&stream[offset..], extra);
        offset += progress.consumed;
        too_small += progress.rejections.buffer_too_small;
        large.advance();
    }
    assert_eq!(too_small, 0);
}

#[test]
fn extra_byte_is_asked_for_only_when_a_candidate_is_complete() {
    let frame = v2_frame(300, &[1, 2, 3], false);
    let mut decoder = FrameDecoder::<MAX_FRAME_LEN>::new();
    let (last, start) = frame.split_last().unwrap();
    let progress = decoder.push(start, |_, _| -> u8 { unreachable!() });
    assert_eq!(progress.status, DecodeStatus::NeedMore);
    let idle = decoder.commit(0, |_, _| -> u8 { unreachable!() }).unwrap();
    assert_eq!(idle.status, DecodeStatus::NeedMore);
    assert_eq!(decoder.push(&[*last], extra).status, DecodeStatus::FrameReady);
    let blocked = decoder.push(&[1], |_, _| -> u8 { unreachable!() });
    assert_eq!(blocked.consumed, 0);
    let ready = decoder.commit(0, |_, _| -> u8 { unreachable!() }).unwrap();
    assert_eq!(ready.status, DecodeStatus::FrameReady);
}

#[test]
fn advancing_without_a_frame_changes_nothing() {
    let frame = v1_frame(1, &[1]);
    let mut decoder = FrameDecoder::<16>::new();
    decoder.push(&frame[..4], extra);
    decoder.spare_capacity_mut().copy_from_slice(&[9; 12]);
    assert!(!decoder.advance());
    assert_eq!(decoder.buffered_range(), (0, 4));
    assert_eq!(decoder.spare_capacity_mut(), [9; 12]);
    assert_eq!(
        decoder.push(&frame[4..], extra).status,
        DecodeStatus::FrameReady
    );
}

#[test]
fn commit_beside_a_ready_frame_retains_the_new_bytes() {
    let frame = v1_frame(1, &[1]);
    let mut decoder = FrameDecoder::<32>::new();
    assert_eq!(decoder.push(&frame, extra).status, DecodeStatus::FrameReady);
    let spare = decoder.spare_capacity_mut();
    spare[..5].copy_from_slice(&[1, 2, 3, 4, 5]);
    let progress = decoder.commit(3, |_, _| -> u8 { unreachable!() }).unwrap();
    assert_eq!(progress.status, DecodeStatus::FrameReady);
    assert_eq!(progress.consumed, 3);
    assert_eq!(progress.rejections, Rejections::default());
    assert_eq!(decoder.buffered_len(), frame.len() + 3);
    assert_eq!(decoder.frame().unwrap().bytes(), frame);
    assert_eq!(decoder.spare_capacity_mut()[..2], [4, 5]);
}

#[test]
fn written_bytes_stay_until_they_are_committed() {
    let mut stream = v1_frame(1, &[1]);
    let second = v1_frame(2, &[2, 3]);
    let first_len = stream.len();
    stream.extend_from_slice(&second);
    let mut decoder = FrameDecoder::<64>::new();
    decoder.spare_capacity_mut()[..stream.len()].copy_from_slice(&stream);
    let progress = decoder.commit(first_len + 4, extra).unwrap();
    assert_eq!(progress.status, DecodeStatus::FrameReady);
    assert_eq!(decoder.spare_capacity_mut()[..second.len() - 4], second[4..]);
    assert!(decoder.advance());
    assert_eq!(decoder.spare_capacity_mut()[..second.len() - 4], second[4..]);
    let progress = decoder.commit(second.len() - 4, extra).unwrap();
    assert_eq!(progress.status, DecodeStatus::FrameReady);
    assert_eq!(decoder.frame().unwrap().bytes(), second);
}

#[test]
fn zero_capacity_counts_every_marker_and_asks_for_nothing() {
    let mut decoder = FrameDecoder::<0>::new();
    let input = [0, V1_STX, V2_STX, 7, V2_STX, 8];
    let progress = decoder.push(&input, |_, _| -> u8 { unreachable!() });
    assert_eq!(progress.status, DecodeStatus::NeedMore);
    assert_eq!(progress.consumed, input.len());
    assert_eq!(
        progress.rejections,
        Rejections {
            buffer_too_small: 3,
            ..Rejections::default()
        }
    );
}

fn commit_all<const BUFFER_SIZE: usize>(stream: &[u8], piece: usize) -> Vec<Vec<u8>> {
    let mut decoder = FrameDecoder::<BUFFER_SIZE>::new();
    let mut frames = Vec::new();
    let mut offset = 0;
    loop {
        let spare = decoder.spare_capacity_mut();
        let count = spare.len().min(piece).min(stream.len() - offset);
        spare[..count].copy_from_slice(&stream[offset..offset + count]);
        offset += count;
        let mut status = decoder.commit(count, extra).unwrap().status;
        while status == DecodeStatus::FrameReady {
            frames.push(decoder.frame().unwrap().bytes().to_vec());
            assert!(decoder.advance());
            status = decoder.commit(0, extra).unwrap().status;
        }
        if offset == stream.len() {
            return frames;
        }
    }
}

#[test]
fn committed_bytes_give_the_frames_of_pushed_ones() {
    let mut stream = vec![3, V2_STX, 0, 0, V1_STX];
    for value in 0..12 {
        stream.extend_from_slice(&v1_frame(value, &[value]));
        stream.extend_from_slice(&[V2_STX, value, 2]);
        stream.extend_from_slice(&v2_frame(500, &[value, 9], value % 2 == 0));
    }
    for piece in [1, 2, 7, 40] {
        let mut small = FrameDecoder::<12>::new();
        let pushed = feed_chunks(&mut small, &stream, piece);
        assert!(!pushed.is_empty());
        assert_eq!(commit_all::<12>(&stream, piece), pushed);
        let mut large = FrameDecoder::<MAX_FRAME_LEN>::new();
        let pushed = feed_chunks(&mut large, &stream, piece);
        assert_eq!(commit_all::<MAX_FRAME_LEN>(&stream, piece), pushed);
        let mut tiny = FrameDecoder::<2>::new();
        assert!(feed_chunks(&mut tiny, &stream, piece).is_empty());
        assert!(commit_all::<2>(&stream, piece).is_empty());
    }
}
