//! Checksum tests.
use mavlink_core::crc::folding::update_if_supported;
use mavlink_core::crc::scalar;
use mavlink_core::crc::tables::TABLES;
use mavlink_core::crc::{calculate, Digest, INITIAL};

const POLYNOMIAL: u16 = 0x8408;

fn reference_byte(mut crc: u16, byte: u8) -> u16 {
    crc ^= u16::from(byte);
    for _ in 0..8 {
        crc = (crc >> 1) ^ ((crc & 1) * POLYNOMIAL);
    }
    crc
}

fn reference(initial: u16, bytes: &[u8]) -> u16 {
    bytes
        .iter()
        .fold(initial, |crc, &byte| reference_byte(crc, byte))
}

fn data() -> [u8; 266] {
    let mut data = [0; 266];
    for (index, byte) in data.iter_mut().enumerate() {
        *byte = index.wrapping_mul(73).wrapping_add(41) as u8;
    }
    data
}

#[test]
fn standard_check_value() {
    assert_eq!(reference(INITIAL, b"123456789"), 0x6f91);
    let mut digest = Digest::new();
    digest.update(b"123456789");
    assert_eq!(digest.finalize(), 0x6f91);
}

#[test]
fn every_byte_matches_independent_bitwise_reference() {
    for initial in [0, 1, 0x00ff, 0x0100, 0x5555, 0xaaaa, INITIAL] {
        for byte in u8::MIN..=u8::MAX {
            assert_eq!(
                scalar::update_byte(initial, byte),
                reference_byte(initial, byte)
            );
        }
    }
}

#[test]
fn every_generated_table_entry_matches_bitwise_reference() {
    let tables = scalar::make_tables(std::hint::black_box(POLYNOMIAL));
    assert_eq!(tables, TABLES);

    for (zero_count, table) in tables.iter().enumerate() {
        for (byte, &actual) in table.iter().enumerate() {
            let mut expected = reference_byte(0, byte as u8);
            for _ in 0..zero_count {
                expected = reference_byte(expected, 0);
            }
            assert_eq!(actual, expected, "table={zero_count}, byte={byte}");
        }
    }
}

#[test]
fn every_mavlink_length_and_extra_byte_matches_reference() {
    let data = data();
    for length in 0..=265 {
        for extra in u8::MIN..=u8::MAX {
            let expected = reference_byte(reference(INITIAL, &data[..length]), extra);
            assert_eq!(calculate(&data[..length], extra), expected);
        }
    }
}

#[test]
fn streaming_matches_every_split() {
    let data = data();
    for length in 0..=265 {
        let expected = reference(INITIAL, &data[..length]);
        for split in 0..=length {
            let mut digest = Digest::new();
            digest.update(&data[..split]);
            digest.update(&data[split..length]);
            assert_eq!(
                digest.finalize(),
                expected,
                "length={length}, split={split}"
            );
        }
    }
}

#[test]
fn scalar_chunk_boundaries_match_reference() {
    let data = data();
    for length in 0..=data.len() {
        for initial in [0, 1, 0x5555, INITIAL] {
            assert_eq!(
                scalar::update(initial, &data[..length]),
                reference(initial, &data[..length])
            );
        }
    }
}

#[test]
fn digest_traits_and_single_byte_api() {
    let mut digest = Digest::default();
    assert_eq!(digest, Digest::new());
    digest.update_byte(42);
    let copy = digest;
    assert_eq!(copy.finalize(), reference_byte(INITIAL, 42));
    assert!(format!("{digest:?}").contains("Digest"));
}

#[test]
fn miri_checks_public_api_boundaries() {
    const LENGTHS: &[usize] = &[
        0, 1, 4, 5, 6, 7, 8, 9, 10, 13, 14, 15, 16, 31, 32, 47, 48, 63, 64, 65, 127, 128, 129, 255,
        265,
    ];
    const EXTRA_CRC_VALUES: &[u8] = &[0, 1, 50, u8::MAX];

    let data = data();
    for &length in LENGTHS {
        let bytes = &data[..length];
        for &extra_crc in EXTRA_CRC_VALUES {
            let expected = reference_byte(reference(INITIAL, bytes), extra_crc);
            assert_eq!(calculate(bytes, extra_crc), expected);
        }

        for split in [0, length / 2, length] {
            let mut digest = Digest::new();
            digest.update(&bytes[..split]);
            digest.update(&bytes[split..]);
            assert_eq!(digest.finalize(), reference(INITIAL, bytes));
        }
    }
}

fn check_accelerated_backend(update_backend: fn(u16, &[u8]) -> Option<u16>) {
    const LENGTHS: &[usize] = &[
        64, 65, 79, 80, 95, 96, 112, 127, 128, 129, 191, 192, 255, 256, 265,
    ];

    let data = data();
    for &length in LENGTHS {
        let bytes = &data[..length];
        for initial in [0, 1, 0x5555, INITIAL] {
            let actual =
                update_backend(initial, bytes).expect("long inputs are handled by folding");
            assert_eq!(actual, reference(initial, bytes));
        }
    }
}

#[test]
fn miri_checks_x86_accelerated_backend() {
    check_accelerated_backend(update_if_supported);
}

#[test]
fn miri_checks_aarch64_accelerated_backend() {
    check_accelerated_backend(update_if_supported);
}

#[test]
fn folding_needs_a_whole_block() {
    let data = data();
    for length in 0..16 {
        assert_eq!(update_if_supported(INITIAL, &data[..length]), None);
    }
    for length in 16..=data.len() {
        assert_eq!(
            update_if_supported(0x1234, &data[..length]),
            Some(reference(0x1234, &data[..length]))
        );
    }
}

#[test]
fn extra_byte_is_appended() {
    let data = data();
    for length in [0, 3, 9, 20, 100, 250] {
        let mut digest = Digest::new();
        digest.update(&data[..length]);
        digest.update_byte(0xa5);
        assert_eq!(digest.finalize(), calculate(&data[..length], 0xa5));
    }
}

#[test]
fn single_byte_is_a_piece() {
    let mut piece = Digest::new();
    piece.update(&[0x7e]);
    let mut byte = Digest::new();
    byte.update_byte(0x7e);
    assert_eq!(piece, byte);
    assert_eq!(piece.finalize(), reference(INITIAL, &[0x7e]));
}
