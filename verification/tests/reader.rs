//! Public reader and streaming-behavior regressions.
use core::cell::Cell;
use core::convert::Infallible;

use mavlink_core::consts::v2::STX as MAV_STX_V2;
use mavlink_core::crc::calculate as calculate_crc;
use mavlink_core::embedded::{Read, SliceReader, Write};
use mavlink_core::error::{IoError, MessageReadError, ParserError};
use mavlink_core::frame_decoder::{DecodeStatus, FrameDecoder, MAX_FRAME_LEN};
use mavlink_core::reader::decode::{raw_header, signature_is_valid};
use mavlink_core::{
    AsyncMavlinkReader, MAVLinkMessageRaw, MAVLinkV2MessageRaw, MavHeader, MavlinkReader,
    MavlinkVersion, Message, NoSigning, ReadVersion, SignatureVerifier, SigningConfig, SigningData,
};

const MESSAGE_ID: u32 = 42;
const EXTRA_CRC: u8 = 91;
const INVALID_VALUE: u8 = u8::MAX;
const HEADER: MavHeader = MavHeader {
    system_id: 11,
    component_id: 22,
    sequence: 33,
};

#[derive(Debug, Clone, Copy, PartialEq, Eq)]
struct TestMessage(u8);

impl Message for TestMessage {
    fn parse(_version: MavlinkVersion, msgid: u32, payload: &[u8]) -> Result<Self, ParserError> {
        if msgid != MESSAGE_ID {
            return Err(ParserError::UnknownMessage { id: msgid });
        }

        let value = payload.first().copied().unwrap_or(INVALID_VALUE);
        if value == INVALID_VALUE {
            return Err(ParserError::InvalidEnum {
                enum_type: "TestEnum",
                value: value.into(),
            });
        }
        Ok(Self(value))
    }

    fn extra_crc(id: u32) -> u8 {
        if id == MESSAGE_ID {
            EXTRA_CRC
        } else {
            0
        }
    }
}

fn v1_frame(value: u8) -> Vec<u8> {
    let mut frame = vec![
        0xfe,
        1,
        HEADER.sequence,
        HEADER.system_id,
        HEADER.component_id,
        MESSAGE_ID as u8,
        value,
    ];
    let crc = calculate_crc(&frame[1..], EXTRA_CRC);
    frame.extend_from_slice(&crc.to_le_bytes());
    frame
}

fn v2_frame_with_flags(value: u8, flags: u8) -> Vec<u8> {
    let mut frame = vec![
        MAV_STX_V2,
        1,
        flags,
        0,
        HEADER.sequence,
        HEADER.system_id,
        HEADER.component_id,
        MESSAGE_ID as u8,
        0,
        0,
        value,
    ];
    let crc = calculate_crc(&frame[1..], EXTRA_CRC);
    frame.extend_from_slice(&crc.to_le_bytes());
    if flags & 1 != 0 {
        frame.extend_from_slice(&[value; 13]);
    }
    frame
}

fn v2_frame(value: u8) -> Vec<u8> {
    v2_frame_with_flags(value, 0)
}

/// Hands out a stream in pieces of the given length.
struct Pieces {
    bytes: Vec<u8>,
    position: usize,
    piece: usize,
}

impl Read for Pieces {
    fn read(&mut self, buf: &mut [u8]) -> Result<usize, MessageReadError> {
        let count = (self.bytes.len() - self.position)
            .min(self.piece)
            .min(buf.len());
        buf[..count].copy_from_slice(&self.bytes[self.position..self.position + count]);
        self.position += count;
        Ok(count)
    }
}

/// Fails on every read.
struct Broken;

impl Read for Broken {
    fn read(&mut self, _buf: &mut [u8]) -> Result<usize, MessageReadError> {
        Err(MessageReadError::Io(IoError::Failed))
    }
}

/// Reads from an embedded source.
struct Embedded<R>(R);

impl<R: embedded_io::Read> Read for Embedded<R> {
    fn read(&mut self, buf: &mut [u8]) -> Result<usize, MessageReadError> {
        embedded_io::Read::read(&mut self.0, buf)
            .map_err(|_| MessageReadError::Io(IoError::Failed))
    }
}

/// Accepts messages whose last signature byte is the one given.
struct LastByte(u8);

impl SignatureVerifier for LastByte {
    fn verify_signature(&self, message: &MAVLinkV2MessageRaw) -> bool {
        let raw = MAVLinkMessageRaw::V2(*message);
        message.0[2] & 1 != 0 && raw.raw_bytes().last() == Some(&self.0)
    }
}

#[test]
fn adjacent_v1_and_v2_frames_are_independently_readable() {
    let v1 = v1_frame(7);
    let v2 = v2_frame(8);
    let mut stream = Vec::with_capacity(v1.len() + v2.len());
    stream.extend_from_slice(&v1);
    stream.extend_from_slice(&v2);
    let mut reader = MavlinkReader::new(SliceReader::new(stream.as_slice()));

    assert_eq!(
        reader
            .read_message::<TestMessage>(ReadVersion::Any)
            .unwrap(),
        (HEADER, TestMessage(7))
    );
    assert_eq!(
        reader
            .read_message::<TestMessage>(ReadVersion::Any)
            .unwrap(),
        (HEADER, TestMessage(8))
    );
}

#[test]
fn invalid_crc_candidate_uses_sliding_recovery() {
    let valid = v2_frame(8);

    // The real frame begins inside a complete false candidate. A decoder
    // that skips the whole rejected candidate instead of sliding one byte
    // loses the valid frame's marker.
    let mut stream = vec![MAV_STX_V2, 0, 0];
    stream.extend_from_slice(&valid);

    let false_checksum = u16::from_le_bytes([stream[10], stream[11]]);
    let false_message_id = u32::from_le_bytes([stream[7], stream[8], stream[9], 0]);
    assert_ne!(
        calculate_crc(&stream[1..10], TestMessage::extra_crc(false_message_id)),
        false_checksum,
        "test setup must begin with a checksum-invalid candidate"
    );
    let mut reader = MavlinkReader::new(SliceReader::new(stream.as_slice()));

    assert_eq!(
        reader
            .read_message::<TestMessage>(MavlinkVersion::V2.into())
            .unwrap(),
        (HEADER, TestMessage(8))
    );
}

#[test]
fn valid_crc_parse_error_consumes_exactly_one_frame() {
    let invalid = v2_frame(INVALID_VALUE);
    let valid = v2_frame(8);
    let mut stream = invalid;
    stream.extend_from_slice(&valid);
    let mut reader = MavlinkReader::new(SliceReader::new(stream.as_slice()));

    assert!(matches!(
        reader.read_message::<TestMessage>(MavlinkVersion::V2.into()),
        Err(MessageReadError::Parse(ParserError::InvalidEnum { .. }))
    ));
    assert_eq!(
        reader
            .read_message::<TestMessage>(MavlinkVersion::V2.into())
            .unwrap(),
        (HEADER, TestMessage(8))
    );
}

#[test]
fn version_selection_remains_public() {
    let version = ReadVersion::from(MavlinkVersion::V2);
    assert_eq!(version, ReadVersion::Single(MavlinkVersion::V2));
}

struct OneFrame {
    bytes: [u8; 280],
    len: usize,
    delivered: bool,
}

impl embedded_io::ErrorType for OneFrame {
    type Error = Infallible;
}

impl embedded_io::Read for OneFrame {
    fn read(&mut self, destination: &mut [u8]) -> Result<usize, Self::Error> {
        assert!(
            !self.delivered,
            "read-ahead must use one read-some operation, not fill the tail exactly"
        );
        destination[..self.len].copy_from_slice(&self.bytes[..self.len]);
        self.delivered = true;
        Ok(self.len)
    }
}

#[test]
fn embedded_prefetch_uses_read_some_semantics() {
    let frame = v2_frame(9);
    let mut bytes = [0; 280];
    let len = frame.len();
    bytes[..len].copy_from_slice(&frame);
    let source = OneFrame {
        bytes,
        len,
        delivered: false,
    };
    let mut reader = MavlinkReader::new(Embedded(source));

    assert_eq!(
        reader
            .read_message::<TestMessage>(MavlinkVersion::V2.into())
            .unwrap(),
        (HEADER, TestMessage(9))
    );
}

#[test]
fn read_sizes_do_not_matter() {
    let mut stream = vec![1, 2, 3];
    stream.extend_from_slice(&v1_frame(1));
    stream.extend_from_slice(&[MAV_STX_V2, 9]);
    stream.extend_from_slice(&v2_frame(2));
    stream.extend_from_slice(&v2_frame(3));
    for piece in 1..=stream.len() {
        let mut reader = MavlinkReader::new(Pieces {
            bytes: stream.clone(),
            position: 0,
            piece,
        });
        for value in 1..=3 {
            assert_eq!(
                reader
                    .read_message::<TestMessage>(ReadVersion::Any)
                    .unwrap(),
                (HEADER, TestMessage(value))
            );
        }
        assert!(matches!(
            reader.read_message::<TestMessage>(ReadVersion::Any),
            Err(MessageReadError::Io(IoError::UnexpectedEof))
        ));
        assert_eq!(reader.get_ref().position, stream.len());
    }
}

#[test]
fn buffered_message_is_returned_without_reading() {
    let mut stream = v1_frame(1);
    stream.extend_from_slice(&v1_frame(2));
    let mut reader = MavlinkReader::new(Pieces {
        bytes: stream.clone(),
        position: 0,
        piece: stream.len(),
    });
    reader
        .read_message::<TestMessage>(ReadVersion::Any)
        .unwrap();
    assert_eq!(reader.get_ref().position, stream.len());
    reader.get_mut().bytes.clear();
    reader.get_mut().position = 0;
    assert_eq!(
        reader
            .read_message::<TestMessage>(ReadVersion::Any)
            .unwrap()
            .1,
        TestMessage(2)
    );
    assert_eq!(reader.into_inner().piece, stream.len());
}

#[test]
fn other_versions_are_passed_over() {
    let mut stream = v1_frame(1);
    stream.extend_from_slice(&v2_frame(2));
    stream.extend_from_slice(&v1_frame(3));
    let mut reader = MavlinkReader::new(SliceReader::new(&stream));
    assert_eq!(
        reader
            .read_message::<TestMessage>(MavlinkVersion::V2.into())
            .unwrap()
            .1,
        TestMessage(2)
    );
    assert_eq!(
        reader
            .read_message::<TestMessage>(MavlinkVersion::V1.into())
            .unwrap()
            .1,
        TestMessage(3)
    );
    assert!(matches!(
        reader.read_message::<TestMessage>(ReadVersion::Any),
        Err(MessageReadError::Io(IoError::UnexpectedEof))
    ));
}

#[test]
fn source_failure_is_passed_on() {
    let mut reader = MavlinkReader::new(Broken);
    assert!(matches!(
        reader.read_message::<TestMessage>(ReadVersion::Any),
        Err(MessageReadError::Io(IoError::Failed))
    ));
    assert!(matches!(
        reader.read_raw_message::<TestMessage>(ReadVersion::Any),
        Err(MessageReadError::Io(IoError::Failed))
    ));
}

#[test]
fn raw_messages_hold_their_frames() {
    let v1 = v1_frame(5);
    let v2 = v2_frame_with_flags(6, 1);
    let mut stream = v1.clone();
    stream.extend_from_slice(&v2);
    let mut reader = MavlinkReader::new(SliceReader::new(&stream));
    let first = reader
        .read_raw_message::<TestMessage>(ReadVersion::Any)
        .unwrap();
    assert_eq!(first.raw_bytes(), v1);
    assert_eq!(first.version(), MavlinkVersion::V1);
    assert_eq!(first.message_id(), MESSAGE_ID);
    assert_eq!(first.payload(), [5]);
    assert_eq!(raw_header(&first), HEADER);
    let second = reader
        .read_raw_message::<TestMessage>(ReadVersion::Any)
        .unwrap();
    assert_eq!(second.raw_bytes(), v2);
    assert_eq!(second.version(), MavlinkVersion::V2);
    assert_eq!(second.message_id(), MESSAGE_ID);
    assert_eq!(second.payload(), [6]);
    assert_eq!(second.sequence(), 33);
    assert_eq!(second.system_id(), 11);
    assert_eq!(second.component_id(), 22);
}

#[test]
fn signed_reads_pass_over_invalid_signatures() {
    let mut stream = v1_frame(1);
    stream.extend_from_slice(&v2_frame_with_flags(2, 1));
    stream.extend_from_slice(&v2_frame_with_flags(3, 1));
    stream.extend_from_slice(&v2_frame(3));
    let strict = SigningData {
        config: SigningConfig {
            allow_unsigned: false,
        },
        verifier: LastByte(3),
    };
    let mut reader = MavlinkReader::new(SliceReader::new(&stream));
    assert_eq!(
        reader
            .read_message_signed::<TestMessage, LastByte>(ReadVersion::Any, &strict)
            .unwrap(),
        (HEADER, TestMessage(3))
    );
    assert!(matches!(
        reader.read_raw_message_signed::<TestMessage, LastByte>(ReadVersion::Any, &strict),
        Err(MessageReadError::Io(IoError::UnexpectedEof))
    ));

    let lenient = SigningData {
        config: SigningConfig {
            allow_unsigned: true,
        },
        verifier: LastByte(2),
    };
    let mut reader = MavlinkReader::new(SliceReader::new(&stream));
    let first = reader
        .read_raw_message_signed::<TestMessage, LastByte>(ReadVersion::Any, &lenient)
        .unwrap();
    assert_eq!(first.raw_bytes(), v1_frame(1));
    let second = reader
        .read_raw_message_signed::<TestMessage, LastByte>(ReadVersion::Any, &lenient)
        .unwrap();
    assert_eq!(second.raw_bytes(), v2_frame_with_flags(2, 1));
}

#[test]
fn signing_is_ignored_for_version_one_reads() {
    let stream = v1_frame(1);
    let strict = SigningData {
        config: SigningConfig {
            allow_unsigned: false,
        },
        verifier: LastByte(0),
    };
    let mut reader = MavlinkReader::new(SliceReader::new(&stream));
    let raw = reader
        .read_raw_message_signed::<TestMessage, LastByte>(MavlinkVersion::V1.into(), &strict)
        .unwrap();
    assert_eq!(raw.raw_bytes(), stream);
    assert!(!signature_is_valid(&raw, ReadVersion::Any, &strict));
    assert!(signature_is_valid(
        &raw,
        ReadVersion::Single(MavlinkVersion::V1),
        &strict
    ));
}

#[test]
fn asynchronous_state_reads_like_the_blocking_reader() {
    let mut stream = vec![7, 7];
    stream.extend_from_slice(&v1_frame(1));
    stream.extend_from_slice(&v2_frame(2));
    let mut reader = AsyncMavlinkReader::new(stream.as_slice());
    let mut messages = Vec::new();
    while messages.len() < 2 {
        if let Some(message) =
            reader.poll_message::<TestMessage, NoSigning>(ReadVersion::Any, None)
        {
            messages.push(message.unwrap());
            continue;
        }
        let (destination, source) = reader.read_parts();
        let count = source.len().min(3).min(destination.len());
        destination[..count].copy_from_slice(&source[..count]);
        *source = &source[count..];
        reader.finish_read::<TestMessage>(count).unwrap();
    }
    assert_eq!(messages, [(HEADER, TestMessage(1)), (HEADER, TestMessage(2))]);
    assert!(reader
        .poll_raw_message::<TestMessage, NoSigning>(ReadVersion::Any, None)
        .is_none());
    assert!(matches!(
        reader.finish_read::<TestMessage>(0),
        Err(MessageReadError::Io(IoError::UnexpectedEof))
    ));
    assert!(reader.get_ref().is_empty());
    *reader.get_mut() = &stream;
    assert_eq!(reader.into_inner(), stream);
}

#[test]
fn bytes_in_memory_can_be_read_and_written() {
    let mut source = SliceReader::new(&[1, 2, 3]);
    let mut buffer = [9; 2];
    assert_eq!(source.read(&mut buffer).unwrap(), 2);
    assert_eq!(buffer, [1, 2]);
    assert_eq!(source.read(&mut buffer).unwrap(), 1);
    assert_eq!(buffer, [3, 2]);
    assert_eq!(source.read(&mut buffer).unwrap(), 0);

    let mut sink = vec![5];
    sink.write_all(&[6, 7]).unwrap();
    assert_eq!(sink, [5, 6, 7]);
}

/// Noise, broken candidates, and messages of both versions, one of which does not parse.
fn mixed_stream() -> Vec<u8> {
    let mut stream = vec![1, 2, 3, MAV_STX_V2, 0, 0];
    stream.extend_from_slice(&v2_frame(1));
    stream.extend_from_slice(&v1_frame(2));
    stream.extend_from_slice(&[0xfe, 1, 0]);
    stream.extend_from_slice(&v2_frame(INVALID_VALUE));
    stream.extend_from_slice(&v2_frame_with_flags(3, 1));
    stream.extend_from_slice(&v1_frame(4));
    stream.extend_from_slice(&v2_frame(5)[..9]);
    stream
}

fn decoded_frames(stream: &[u8]) -> Vec<Vec<u8>> {
    let mut decoder = FrameDecoder::<MAX_FRAME_LEN>::new();
    let mut frames = Vec::new();
    let mut offset = 0;
    loop {
        let progress = decoder.push(&stream[offset..], |_, id| TestMessage::extra_crc(id));
        offset += progress.consumed;
        if progress.status != DecodeStatus::FrameReady {
            return frames;
        }
        frames.push(decoder.frame().unwrap().bytes().to_vec());
        assert!(decoder.advance());
    }
}

#[test]
fn repeated_reads_give_the_decoded_frames_and_the_end() {
    let stream = mixed_stream();
    let all = decoded_frames(&stream);
    assert_eq!(
        all,
        [
            v2_frame(1),
            v1_frame(2),
            v2_frame(INVALID_VALUE),
            v2_frame_with_flags(3, 1),
            v1_frame(4)
        ]
    );
    for version in [
        ReadVersion::Any,
        ReadVersion::Single(MavlinkVersion::V1),
        ReadVersion::Single(MavlinkVersion::V2),
    ] {
        let mut reader = MavlinkReader::new(SliceReader::new(&stream));
        for frame in &all {
            let passed = match version {
                ReadVersion::Any => true,
                ReadVersion::Single(MavlinkVersion::V1) => frame[0] == 0xfe,
                ReadVersion::Single(MavlinkVersion::V2) => frame[0] == MAV_STX_V2,
            };
            if passed {
                let raw = reader.read_raw_message::<TestMessage>(version).unwrap();
                assert_eq!(raw.raw_bytes(), frame.as_slice());
            }
        }
        for _ in 0..3 {
            assert!(matches!(
                reader.read_raw_message::<TestMessage>(version),
                Err(MessageReadError::Io(IoError::UnexpectedEof))
            ));
        }
    }
}

#[test]
fn raw_and_parsed_reads_pick_the_same_frames() {
    let stream = mixed_stream();
    let mut raw_reader = MavlinkReader::new(SliceReader::new(&stream));
    let mut reader = MavlinkReader::new(SliceReader::new(&stream));
    for _ in 0..5 {
        let raw = raw_reader
            .read_raw_message::<TestMessage>(ReadVersion::Any)
            .unwrap();
        match (
            TestMessage::parse(raw.version(), raw.message_id(), raw.payload()),
            reader.read_message::<TestMessage>(ReadVersion::Any),
        ) {
            (Ok(expected), Ok((header, message))) => {
                assert_eq!(message, expected);
                assert_eq!(header, raw_header(&raw));
            }
            (Err(expected), Err(MessageReadError::Parse(error))) => {
                assert_eq!(error.describe(), expected.describe());
            }
            other => panic!("the reads disagree: {other:?}"),
        }
    }
    assert!(matches!(
        raw_reader.read_raw_message::<TestMessage>(ReadVersion::Any),
        Err(MessageReadError::Io(IoError::UnexpectedEof))
    ));
    assert!(matches!(
        reader.read_message::<TestMessage>(ReadVersion::Any),
        Err(MessageReadError::Io(IoError::UnexpectedEof))
    ));
}

/// One asynchronous read that gets at most `piece` bytes at a time.
fn asynchronous_read(
    reader: &mut AsyncMavlinkReader<&[u8]>,
    piece: usize,
) -> Result<(MavHeader, TestMessage), MessageReadError> {
    loop {
        if let Some(result) = reader.poll_message::<TestMessage, NoSigning>(ReadVersion::Any, None)
        {
            return result;
        }
        let (destination, source) = reader.read_parts();
        let count = source.len().min(piece).min(destination.len());
        destination[..count].copy_from_slice(&source[..count]);
        *source = &source[count..];
        reader.finish_read::<TestMessage>(count)?;
    }
}

#[test]
fn asynchronous_reads_match_blocking_reads_call_by_call() {
    let stream = mixed_stream();
    for piece in 1..=stream.len() {
        let mut blocking = MavlinkReader::new(SliceReader::new(&stream));
        let mut asynchronous = AsyncMavlinkReader::new(stream.as_slice());
        for _ in 0..7 {
            let expected = blocking.read_message::<TestMessage>(ReadVersion::Any);
            let result = asynchronous_read(&mut asynchronous, piece);
            assert_eq!(format!("{result:?}"), format!("{expected:?}"));
        }
        assert!(asynchronous.get_ref().is_empty());
    }
}

/// Refuses every other signature.
struct Alternating(Cell<bool>);

impl SignatureVerifier for Alternating {
    fn verify_signature(&self, _message: &MAVLinkV2MessageRaw) -> bool {
        self.0.replace(!self.0.get())
    }
}

#[test]
fn each_frame_is_judged_once_in_order() {
    let mut stream = Vec::new();
    for value in [1, 1, 2, 3, 3] {
        stream.extend_from_slice(&v2_frame_with_flags(value, 1));
    }
    let signing = SigningData {
        config: SigningConfig {
            allow_unsigned: false,
        },
        verifier: Alternating(Cell::new(false)),
    };
    let mut reader = MavlinkReader::new(SliceReader::new(&stream));
    for value in [1, 3] {
        assert_eq!(
            reader
                .read_message_signed::<TestMessage, Alternating>(ReadVersion::Any, &signing)
                .unwrap()
                .1,
            TestMessage(value)
        );
    }
    assert!(matches!(
        reader.read_message_signed::<TestMessage, Alternating>(ReadVersion::Any, &signing),
        Err(MessageReadError::Io(IoError::UnexpectedEof))
    ));
    assert!(signing.verifier.0.get());
}

/// Delivers single bytes, and is never asked for none.
struct Asked<'a>(&'a [u8]);

impl Read for Asked<'_> {
    fn read(&mut self, buf: &mut [u8]) -> Result<usize, MessageReadError> {
        assert!(!buf.is_empty() && buf.len() <= MAX_FRAME_LEN);
        match self.0.split_first() {
            None => Ok(0),
            Some((first, rest)) => {
                buf[0] = *first;
                self.0 = rest;
                Ok(1)
            }
        }
    }
}

#[test]
fn source_is_always_asked_for_some_bytes() {
    let mut stream = vec![MAV_STX_V2, 255];
    stream.extend_from_slice(&[MAV_STX_V2; 600]);
    stream.extend_from_slice(&v2_frame(6));
    stream.extend_from_slice(&[0; MAX_FRAME_LEN]);
    let mut reader = MavlinkReader::new(Asked(&stream));
    assert_eq!(
        reader
            .read_message::<TestMessage>(ReadVersion::Any)
            .unwrap(),
        (HEADER, TestMessage(6))
    );
    assert!(matches!(
        reader.read_message::<TestMessage>(ReadVersion::Any),
        Err(MessageReadError::Io(IoError::UnexpectedEof))
    ));
}
