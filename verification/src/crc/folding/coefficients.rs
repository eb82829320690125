//! The coefficients of CRC-16/MCRF4XX folding and reduction.
use vstd::prelude::*;

use super::algebra::{folds, power, reduced};
use crate::crc::model::{lemma_shift_bits_add, shift_bit, shift_bits, POLYNOMIAL};

verus! {

/// Moves the upper word of a block by 16 bytes.
pub const FOLD_16_LOW: u64 = 0x0000_0000_0001_89ae;

/// Moves the lower word of a block by 16 bytes.
pub const FOLD_16_HIGH: u64 = 0x0000_0000_0000_8e10;

/// Moves the upper word of a block by 32 bytes.
pub const FOLD_32_LOW: u64 = 0x0000_0000_0000_5b44;

/// Moves the lower word of a block by 32 bytes.
pub const FOLD_32_HIGH: u64 = 0x0000_0000_0000_7762;

/// Moves the upper word of a block by 48 bytes.
pub const FOLD_48_LOW: u64 = 0x0000_0000_0000_0e3a;

/// Moves the lower word of a block by 48 bytes.
pub const FOLD_48_HIGH: u64 = 0x0000_0000_0000_4d7a;

/// Moves the upper word of a block by 64 bytes.
pub const FOLD_64_LOW: u64 = 0x0000_0000_0001_4ff2;

/// Moves the lower word of a block by 64 bytes.
pub const FOLD_64_HIGH: u64 = 0x0000_0000_0001_9a3c;

/// Moves a word by eight bytes.
pub const FOLD_8: u64 = 0x0000_0000_0001_89ae;

/// Moves a half word by four bytes.
pub const FOLD_4: u64 = 0x0000_0000_0001_14aa;

/// Inverse of the polynomial, as far as a reduction needs it.
pub const BARRETT_MU: u64 = 0x0000_0001_1c58_1911;

/// The polynomial with its leading term, least significant bit first.
pub const BARRETT_POLYNOMIAL: u64 = 0x0000_0000_0001_0811;

spec fn shift_8(value: u16) -> u16 {
    let two = shift_bit(shift_bit(value, POLYNOMIAL), POLYNOMIAL);
    let four = shift_bit(shift_bit(two, POLYNOMIAL), POLYNOMIAL);
    let six = shift_bit(shift_bit(four, POLYNOMIAL), POLYNOMIAL);
    shift_bit(shift_bit(six, POLYNOMIAL), POLYNOMIAL)
}

spec fn shift_32(value: u16) -> u16 {
    shift_8(shift_8(shift_8(shift_8(value))))
}

proof fn lemma_shift_32(value: u16)
    ensures
        shift_32(value) == shift_bits(value, POLYNOMIAL, 32),
{
    let one = shift_8(value);
    let two = shift_8(one);
    let three = shift_8(two);
    lemma_shift_8(value);
    lemma_shift_8(one);
    lemma_shift_8(two);
    lemma_shift_8(three);
    lemma_shift_bits_add(value, POLYNOMIAL, 8, 8);
    lemma_shift_bits_add(value, POLYNOMIAL, 16, 8);
    lemma_shift_bits_add(value, POLYNOMIAL, 24, 8);
}

proof fn lemma_shift_8(value: u16)
    ensures
        shift_8(value) == shift_bits(value, POLYNOMIAL, 8),
{
    reveal_with_fuel(shift_bits, 9);
}

proof fn lemma_chain()
    by (bit_vector)
    ensures
        shift_bit(1, POLYNOMIAL) == 0x8408,
        shift_32(0x8408) == 0x8a55,
        shift_32(0x8a55) == 0xc4d7,
        shift_32(0xc4d7) == 0xc6a2,
        shift_32(0xc6a2) == 0x4708,
        shift_32(0x4708) == 0x6fab,
        shift_32(0x6fab) == 0x2da2,
        shift_32(0x2da2) == 0x670f,
        shift_32(0x670f) == 0x3bb1,
        shift_32(0x3bb1) == 0xd22f,
        shift_32(0xd22f) == 0x071d,
        shift_32(0x071d) == 0xc42b,
        shift_32(0xc42b) == 0x26bd,
        shift_32(0x26bd) == 0x3ff1,
        shift_32(0x3ff1) == 0xa7f9,
        shift_32(0xa7f9) == 0x0d9a,
        shift_32(0x0d9a) == 0xcd1e,
{
}

proof fn lemma_next_power(count: nat, value: u16, next: u16)
    requires
        power(count) == value,
        shift_32(value) == next,
    ensures
        power(count + 32) == next,
{
    lemma_shift_32(value);
    lemma_shift_bits_add(1, POLYNOMIAL, count, 32);
}

proof fn lemma_reduced()
    by (bit_vector)
    ensures
        reduced(FOLD_4) == 0x8a55,
        reduced(FOLD_8) == 0xc4d7,
        reduced(FOLD_16_LOW) == 0xc4d7,
        reduced(FOLD_16_HIGH) == 0x4708,
        reduced(FOLD_32_LOW) == 0x2da2,
        reduced(FOLD_32_HIGH) == 0x3bb1,
        reduced(FOLD_48_LOW) == 0x071d,
        reduced(FOLD_48_HIGH) == 0x26bd,
        reduced(FOLD_64_LOW) == 0xa7f9,
        reduced(FOLD_64_HIGH) == 0xcd1e,
        reduced(BARRETT_POLYNOMIAL) == 0,
{
}

/// Each pair of coefficients moves a block as far as its name says, in bytes.
pub proof fn lemma_coefficients()
    ensures
        folds(FOLD_16_LOW, FOLD_16_HIGH, 128),
        folds(FOLD_32_LOW, FOLD_32_HIGH, 256),
        folds(FOLD_48_LOW, FOLD_48_HIGH, 384),
        folds(FOLD_64_LOW, FOLD_64_HIGH, 512),
        reduced(FOLD_8) == power(65),
        reduced(FOLD_4) == power(33),
        reduced(BARRETT_POLYNOMIAL) == 0,
{
    lemma_chain();
    lemma_reduced();
    assert(power(1) == 0x8408) by {
        reveal_with_fuel(shift_bits, 2);
    }
    lemma_next_power(1, 0x8408, 0x8a55);
    lemma_next_power(33, 0x8a55, 0xc4d7);
    lemma_next_power(65, 0xc4d7, 0xc6a2);
    lemma_next_power(97, 0xc6a2, 0x4708);
    lemma_next_power(129, 0x4708, 0x6fab);
    lemma_next_power(161, 0x6fab, 0x2da2);
    lemma_next_power(193, 0x2da2, 0x670f);
    lemma_next_power(225, 0x670f, 0x3bb1);
    lemma_next_power(257, 0x3bb1, 0xd22f);
    lemma_next_power(289, 0xd22f, 0x071d);
    lemma_next_power(321, 0x071d, 0xc42b);
    lemma_next_power(353, 0xc42b, 0x26bd);
    lemma_next_power(385, 0x26bd, 0x3ff1);
    lemma_next_power(417, 0x3ff1, 0xa7f9);
    lemma_next_power(449, 0xa7f9, 0x0d9a);
    lemma_next_power(481, 0x0d9a, 0xcd1e);
}

} // verus!
