//! Mathematical model of CRC-16/MCRF4XX and the algebra that its fast
//! implementations rest on.
//!
//! The checksum is defined one bit at a time. Shifting a bit through the
//! register is linear over exclusive-or, and everything else follows from that:
//! a byte may be looked up in a table, and the bytes of a block may be looked up
//! independently and combined at the end.
use vstd::prelude::*;

verus! {

/// CRC-16/MCRF4XX generator polynomial, least significant bit first.
pub const POLYNOMIAL: u16 = 0x8408;

/// One bit shifted out of the register.
pub open spec fn shift_bit(value: u16, polynomial: u16) -> u16 {
    if value & 1 == 1 {
        (value >> 1) ^ polynomial
    } else {
        value >> 1
    }
}

/// `count` bits shifted out of the register.
pub open spec fn shift_bits(value: u16, polynomial: u16, count: nat) -> u16
    decreases count,
{
    if count == 0 {
        value
    } else {
        shift_bit(shift_bits(value, polynomial, (count - 1) as nat), polynomial)
    }
}

/// The register after one more byte of input.
pub open spec fn crc_byte(crc: u16, byte: u8) -> u16 {
    shift_bits(crc ^ (byte as u16), POLYNOMIAL, 8)
}

/// The register after the bytes of `bytes`, first to last.
pub open spec fn crc_bytes(crc: u16, bytes: Seq<u8>) -> u16
    decreases bytes.len(),
{
    if bytes.len() == 0 {
        crc
    } else {
        crc_byte(crc_bytes(crc, bytes.drop_last()), bytes.last())
    }
}

/// What a byte contributes to the register when `lane` more bytes follow it.
pub open spec fn lane_value(lane: nat, byte: u8) -> u16 {
    shift_bits(byte as u16, POLYNOMIAL, 8 * (lane + 1))
}

/// Combined contribution of the last `count` bytes of `bytes`.
pub open spec fn lanes(bytes: Seq<u8>, count: nat) -> u16
    decreases count,
{
    if count <= 1 {
        lane_value(0, bytes.last())
    } else {
        lanes(bytes, (count - 1) as nat) ^ lane_value(
            (count - 1) as nat,
            bytes[bytes.len() - count],
        )
    }
}

/// `bytes` with the register folded into its first two bytes.
pub open spec fn absorb(crc: u16, bytes: Seq<u8>) -> Seq<u8> {
    bytes.update(0, bytes[0] ^ (crc as u8)).update(1, bytes[1] ^ ((crc >> 8) as u8))
}

pub proof fn lemma_xor(x: u16, y: u16, z: u16)
    by (bit_vector)
    ensures
        x ^ y == y ^ x,
        (x ^ y) ^ z == x ^ (y ^ z),
        x ^ 0 == x,
        0 ^ x == x,
        x ^ x == 0,
{
}

proof fn lemma_shift_bit_linear(x: u16, y: u16, polynomial: u16)
    by (bit_vector)
    ensures
        shift_bit(x ^ y, polynomial) == shift_bit(x, polynomial) ^ shift_bit(y, polynomial),
        shift_bit(0, polynomial) == 0,
{
}

/// Shifting distributes over exclusive-or.
pub proof fn lemma_shift_bits_linear(x: u16, y: u16, polynomial: u16, count: nat)
    ensures
        shift_bits(x ^ y, polynomial, count) == shift_bits(x, polynomial, count) ^ shift_bits(
            y,
            polynomial,
            count,
        ),
        shift_bits(0, polynomial, count) == 0,
    decreases count,
{
    if count > 0 {
        let less = (count - 1) as nat;
        lemma_shift_bits_linear(x, y, polynomial, less);
        lemma_shift_bit_linear(
            shift_bits(x, polynomial, less),
            shift_bits(y, polynomial, less),
            polynomial,
        );
    }
}

/// Shifts compose.
pub proof fn lemma_shift_bits_add(value: u16, polynomial: u16, first: nat, second: nat)
    ensures
        shift_bits(shift_bits(value, polynomial, first), polynomial, second) == shift_bits(
            value,
            polynomial,
            first + second,
        ),
    decreases second,
{
    if second > 0 {
        lemma_shift_bits_add(value, polynomial, first, (second - 1) as nat);
    }
}

proof fn lemma_zero_low_byte(v: u16, polynomial: u16)
    by (bit_vector)
    requires
        v & 0xff == 0,
    ensures
        shift_bit(v, polynomial) == v >> 1,
        shift_bit(v >> 1, polynomial) == v >> 2,
        shift_bit(v >> 2, polynomial) == v >> 3,
        shift_bit(v >> 3, polynomial) == v >> 4,
        shift_bit(v >> 4, polynomial) == v >> 5,
        shift_bit(v >> 5, polynomial) == v >> 6,
        shift_bit(v >> 6, polynomial) == v >> 7,
        shift_bit(v >> 7, polynomial) == v >> 8,
{
}

/// Eight shifts move the high byte down and feed back only the low byte.
pub proof fn lemma_shift_byte(value: u16, polynomial: u16)
    ensures
        shift_bits(value, polynomial, 8) == (value >> 8) ^ shift_bits(
            value & 0xff,
            polynomial,
            8,
        ),
{
    let high = value & 0xff00;
    let low = value & 0xff;
    assert(high ^ low == value && high & 0xff == 0 && high >> 8 == value >> 8) by (bit_vector)
        requires
            high == value & 0xff00,
            low == value & 0xff,
    ;
    lemma_shift_bits_linear(high, low, polynomial, 8);
    lemma_zero_low_byte(high, polynomial);
    reveal_with_fuel(shift_bits, 9);
}

/// One table lookup updates the register by a byte.
pub proof fn lemma_crc_byte(crc: u16, byte: u8)
    ensures
        crc_byte(crc, byte) == (crc >> 8) ^ lane_value(0, (crc as u8) ^ byte),
{
    let value = crc ^ (byte as u16);
    lemma_shift_byte(value, POLYNOMIAL);
    assert(value >> 8 == crc >> 8 && value & 0xff == ((crc as u8) ^ byte) as u16) by (bit_vector)
        requires
            value == crc ^ (byte as u16),
    ;
}

/// Checksums compose over concatenation.
pub proof fn lemma_crc_concat(crc: u16, first: Seq<u8>, second: Seq<u8>)
    ensures
        crc_bytes(crc, first + second) == crc_bytes(crc_bytes(crc, first), second),
    decreases second.len(),
{
    if second.len() == 0 {
        assert(first + second =~= first);
    } else {
        assert((first + second).drop_last() =~= first + second.drop_last());
        lemma_crc_concat(crc, first, second.drop_last());
    }
}

proof fn lemma_crc_single(crc: u16, byte: u8)
    ensures
        crc_bytes(crc, seq![byte]) == crc_byte(crc, byte),
{
    assert(seq![byte].drop_last() =~= Seq::<u8>::empty());
    assert(crc_bytes(crc, Seq::<u8>::empty()) == crc);
}

/// The bytes of a block contribute to the register independently of each other.
pub proof fn lemma_lanes(crc: u16, bytes: Seq<u8>, count: nat)
    requires
        1 <= count <= bytes.len(),
    ensures
        crc_bytes(crc, bytes.skip(bytes.len() - count)) == shift_bits(crc, POLYNOMIAL, 8 * count)
            ^ lanes(bytes, count),
    decreases count,
{
    let tail = bytes.skip(bytes.len() - count);
    let byte = bytes[bytes.len() - count];
    let shifted = shift_bits(crc, POLYNOMIAL, 8);
    let own = shift_bits(byte as u16, POLYNOMIAL, 8);
    lemma_shift_bits_linear(crc, byte as u16, POLYNOMIAL, 8);
    lemma_crc_single(crc, byte);
    if count == 1 {
        assert(tail =~= seq![byte]);
    } else {
        let less = (count - 1) as nat;
        let rest = bytes.skip(bytes.len() - less);
        assert(tail =~= seq![byte] + rest);
        lemma_crc_concat(crc, seq![byte], rest);
        lemma_lanes(crc_byte(crc, byte), bytes, less);
        lemma_shift_bits_linear(shifted, own, POLYNOMIAL, 8 * less);
        lemma_shift_bits_add(crc, POLYNOMIAL, 8, 8 * less);
        lemma_shift_bits_add(byte as u16, POLYNOMIAL, 8, 8 * less);
        assert(8 + 8 * less == 8 * count);
        let a = shift_bits(crc, POLYNOMIAL, 8 * count);
        let b = lane_value(less, byte);
        let c = lanes(bytes, less);
        lemma_xor(a, b, c);
        lemma_xor(b, c, a);
    }
}

/// A register may be folded into the first two bytes that follow it.
pub proof fn lemma_absorb(crc: u16, bytes: Seq<u8>)
    requires
        bytes.len() >= 2,
    ensures
        crc_bytes(crc, bytes) == crc_bytes(0, absorb(crc, bytes)),
{
    let folded = absorb(crc, bytes);
    let rest = bytes.skip(2);
    let b0 = bytes[0];
    let b1 = bytes[1];
    let f0 = folded[0];
    let f1 = folded[1];
    assert(bytes =~= (seq![b0] + seq![b1]) + rest);
    assert(folded =~= (seq![f0] + seq![f1]) + rest);
    lemma_crc_concat(crc, seq![b0] + seq![b1], rest);
    lemma_crc_concat(0, seq![f0] + seq![f1], rest);
    lemma_crc_concat(crc, seq![b0], seq![b1]);
    lemma_crc_concat(0, seq![f0], seq![f1]);
    lemma_crc_single(crc, b0);
    lemma_crc_single(0, f0);
    lemma_crc_single(crc_byte(crc, b0), b1);
    lemma_crc_single(crc_byte(0, f0), f1);

    lemma_crc_byte(crc, b0);
    lemma_crc_byte(0, f0);
    let own = lane_value(0, f0);
    assert((crc as u8) ^ b0 == f0) by {
        assert((crc as u8) ^ b0 == b0 ^ (crc as u8)) by (bit_vector);
    }
    assert((0u16 as u8) ^ f0 == f0 && 0u16 >> 8 == 0) by (bit_vector);
    lemma_xor(own, 0, 0);
    assert(((crc >> 8) ^ own) ^ (b1 as u16) == own ^ ((b1 ^ ((crc >> 8) as u8)) as u16))
        by (bit_vector);
}

/// A block is checksummed by combining one lookup per byte.
pub proof fn lemma_parallel(crc: u16, bytes: Seq<u8>)
    requires
        bytes.len() >= 2,
    ensures
        crc_bytes(crc, bytes) == lanes(absorb(crc, bytes), bytes.len()),
{
    let folded = absorb(crc, bytes);
    lemma_absorb(crc, bytes);
    lemma_lanes(0, folded, folded.len());
    assert(folded.skip(0) =~= folded);
    lemma_shift_bits_linear(0, 0, POLYNOMIAL, 8 * folded.len());
    lemma_xor(lanes(folded, folded.len()), 0, 0);
}

} // verus!
