//! Checksums of 128-bit blocks, and what carry-less products do to them.
//!
//! A block is fed to an empty register least significant bit first. That is linear
//! over exclusive-or, so a bit at a given place has the same effect whatever stands
//! around it, and a product replaces the bits of one factor by shifted copies of the
//! other.
use vstd::prelude::*;

use crate::crc::model::{
    lemma_shift_bits_add, lemma_shift_bits_linear, lemma_xor, shift_bit, shift_bits, POLYNOMIAL,
};

verus! {

/// Bit `index` of a block.
pub open spec fn bit(block: u128, index: nat) -> u16 {
    ((block >> (index as u128)) & 1) as u16
}

/// The register after the first `count` bits of a block, starting from zero.
pub open spec fn absorbed(block: u128, count: nat) -> u16
    decreases count,
{
    if count == 0 {
        0
    } else {
        let less = (count - 1) as nat;
        shift_bit(absorbed(block, less) ^ bit(block, less), POLYNOMIAL)
    }
}

/// The register after `count` shifts of a single bit.
pub open spec fn power(count: nat) -> u16 {
    shift_bits(1, POLYNOMIAL, count)
}

/// The register after the lowest bit of a coefficient of seventeen bits, with the
/// others folded in.
pub open spec fn reduced(coefficient: u64) -> u16 {
    shift_bit((coefficient & 1) as u16, POLYNOMIAL) ^ ((coefficient >> 1) as u16)
}

/// Carry-less product of the first `count` bits of `factor` and of `coefficient`.
pub open spec fn product(factor: u64, coefficient: u64, count: nat) -> u128
    decreases count,
{
    if count == 0 {
        0
    } else {
        let less = (count - 1) as nat;
        product(factor, coefficient, less) ^ if (factor >> (less as u64)) & 1 == 1 {
            (coefficient as u128) << (less as u128)
        } else {
            0
        }
    }
}

pub proof fn lemma_xor_block(x: u128, y: u128, z: u128)
    by (bit_vector)
    ensures
        x ^ y == y ^ x,
        (x ^ y) ^ z == x ^ (y ^ z),
        x ^ 0 == x,
        0 ^ x == x,
{
}

#[verifier::rlimit(50)]
proof fn lemma_bits(x: u128, y: u128, index: u128)
    by (bit_vector)
    requires
        index < 128,
    ensures
        (((x ^ y) >> index) & 1) as u16 == ((x >> index) & 1) as u16 ^ ((y >> index) & 1) as u16,
        (0u128 >> index) & 1 == 0,
        index < 127 ==> ((x << 1) >> one_more(index)) & 1 == (x >> index) & 1,
        (x << 1) & 1 == 0,
        index < 127 ==> (x << index) << 1 == x << one_more(index),
        x << 0 == x,
        x >> 0 == x,
        index < 64 ==> ((x >> 64) >> index) & 1 == (x >> sixty_four_more(index)) & 1,
        index < 64 ==> ((x as u64) as u128 >> index) & 1 == (x >> index) & 1,
{
}

spec fn one_more(index: u128) -> u128 {
    (index + 1) as u128
}

spec fn sixty_four_more(index: u128) -> u128 {
    (index + 64) as u128
}

/// Feeding is linear.
pub proof fn lemma_absorbed_linear(x: u128, y: u128, count: nat)
    requires
        count <= 128,
    ensures
        absorbed(x ^ y, count) == absorbed(x, count) ^ absorbed(y, count),
        absorbed(0, count) == 0,
    decreases count,
{
    if count > 0 {
        let less = (count - 1) as nat;
        lemma_absorbed_linear(x, y, less);
        lemma_bits(x, y, less as u128);
        let (a, b) = (absorbed(x, less), absorbed(y, less));
        let (c, d) = (bit(x, less), bit(y, less));
        assert((a ^ b) ^ (c ^ d) == (a ^ c) ^ (b ^ d)) by {
            lemma_xor(a, b, c ^ d);
            lemma_xor(b, c, d);
            lemma_xor(c, b, d);
            lemma_xor(a, c, b ^ d);
        }
        lemma_shift_bits_linear(a ^ c, b ^ d, POLYNOMIAL, 1);
        lemma_one_shift(a ^ c);
        lemma_one_shift(b ^ d);
        lemma_one_shift((a ^ c) ^ (b ^ d));
        lemma_shift_bits_linear(0, 0, POLYNOMIAL, 1);
        lemma_one_shift(0);
    }
    lemma_xor(0, 0, 0);
}

/// One shift is one bit.
proof fn lemma_one_shift(value: u16)
    ensures
        shift_bits(value, POLYNOMIAL, 1) == shift_bit(value, POLYNOMIAL),
{
    assert(shift_bits(value, POLYNOMIAL, 0) == value);
}

/// A block moved up by one bit is fed one bit later.
proof fn lemma_absorbed_up(block: u128, count: nat)
    requires
        count < 128,
    ensures
        absorbed(block << 1, count + 1) == absorbed(block, count),
    decreases count,
{
    let up = block << 1;
    if count == 0 {
        lemma_bits(block, 0, 0);
        lemma_bits(up, 0, 0);
        assert(absorbed(up, 0) == 0);
        lemma_xor(0, 0, 0);
        lemma_shift_bits_linear(0, 0, POLYNOMIAL, 1);
        lemma_one_shift(0);
        assert(bit(up, 0) == 0);
    } else {
        let less = (count - 1) as nat;
        lemma_absorbed_up(block, less);
        lemma_bits(block, 0, less as u128);
        assert(bit(up, count) == bit(block, less));
    }
}

/// A block moved up is fed later.
pub proof fn lemma_absorbed_shifted(block: u128, places: nat)
    requires
        places < 128,
    ensures
        absorbed(block << (places as u128), 128) == absorbed(block, (128 - places) as nat),
    decreases places,
{
    lemma_bits(block, 0, 0);
    if places > 0 {
        let less = (places - 1) as nat;
        lemma_bits(block, 0, less as u128);
        lemma_absorbed_moved(block, less, (128 - places) as nat);
    }
}

/// Moving a block up by `places` and feeding as many more bits changes nothing.
pub proof fn lemma_absorbed_moved(block: u128, places: nat, count: nat)
    requires
        places + count < 128,
    ensures
        absorbed((block << (places as u128)) << 1, places + 1 + count) == absorbed(block, count),
    decreases places,
{
    lemma_absorbed_up(block << (places as u128), places + count);
    lemma_bits(block, 0, places as u128);
    if places == 0 {
        lemma_bits(block, 0, 0);
    } else {
        let less = (places - 1) as nat;
        lemma_bits(block, 0, less as u128);
        lemma_absorbed_moved(block, less, count);
    }
}

/// Feeding goes on from where it stopped.
pub proof fn lemma_absorbed_split(block: u128, count: nat)
    requires
        count <= 64,
    ensures
        absorbed(block, 64 + count) == shift_bits(absorbed(block, 64), POLYNOMIAL, count)
            ^ absorbed(block >> 64, count),
    decreases count,
{
    let upper = block >> 64;
    let start = absorbed(block, 64);
    if count == 0 {
        lemma_xor(start, 0, 0);
    } else {
        let less = (count - 1) as nat;
        lemma_absorbed_split(block, less);
        lemma_bits(block, 0, less as u128);
        let a = shift_bits(start, POLYNOMIAL, less);
        let b = absorbed(upper, less);
        let c = bit(upper, less);
        assert(bit(block, 64 + less) == c);
        lemma_xor(a, b, c);
        lemma_shift_bits_linear(a, b ^ c, POLYNOMIAL, 1);
        lemma_one_shift(a);
        lemma_one_shift(b ^ c);
        lemma_one_shift(a ^ (b ^ c));
    }
}

/// Only the bits that are fed matter.
pub proof fn lemma_absorbed_lower(block: u128, count: nat)
    requires
        count <= 64,
    ensures
        absorbed((block as u64) as u128, count) == absorbed(block, count),
    decreases count,
{
    if count > 0 {
        let less = (count - 1) as nat;
        lemma_absorbed_lower(block, less);
        lemma_bits(block, 0, less as u128);
    }
}

proof fn lemma_low_step(value: u16, index: u128)
    by (bit_vector)
    requires
        index < 128,
    ensures
        ((value as u128) >> index) as u16 == (((value as u128) >> index) & 1) as u16 ^ ((((
        value as u128) >> one_more(index)) as u16) << 1),
        shift_bit((((value as u128) >> one_more(index)) as u16) << 1, POLYNOMIAL) == ((
        value as u128) >> one_more(index)) as u16,
        index >= 16 ==> ((value as u128) >> index) as u16 == 0,
        index >= 8 && value < 0x100 ==> ((value as u128) >> index) as u16 == 0,
        ((value as u128) >> 0) as u16 == value,
{
}

/// Bits of a short block that are still to be fed, on top of the register, are the
/// short block shifted.
proof fn lemma_absorbed_partly(value: u16, count: nat)
    requires
        count < 128,
    ensures
        absorbed(value as u128, count) ^ (((value as u128) >> (count as u128)) as u16)
            == shift_bits(value, POLYNOMIAL, count),
    decreases count,
{
    let block = value as u128;
    lemma_low_step(value, 0);
    if count == 0 {
        lemma_xor(value, 0, 0);
    } else {
        let less = (count - 1) as nat;
        lemma_absorbed_partly(value, less);
        lemma_low_step(value, less as u128);
        let a = absorbed(block, less);
        let b = bit(block, less);
        let rest = (block >> (count as u128)) as u16;
        assert(one_more(less as u128) == count as u128);
        lemma_xor(a, b, rest << 1);
        lemma_shift_bits_linear(a ^ b, rest << 1, POLYNOMIAL, 1);
        lemma_one_shift(a ^ b);
        lemma_one_shift(rest << 1);
        lemma_one_shift((a ^ b) ^ (rest << 1));
    }
}

/// Feeding a byte, or sixteen bits, and zeros behind them is shifting.
pub proof fn lemma_absorbed_short(value: u16, count: nat)
    requires
        count <= 128,
        16 <= count || (8 <= count && value < 0x100),
    ensures
        absorbed(value as u128, count) == shift_bits(value, POLYNOMIAL, count),
{
    if count < 128 {
        lemma_absorbed_partly(value, count);
        lemma_low_step(value, count as u128);
        lemma_xor(absorbed(value as u128, count), 0, 0);
    } else {
        lemma_absorbed_partly(value, 127);
        lemma_last_bit(value);
        lemma_xor(absorbed(value as u128, 127), 0, 0);
    }
}

proof fn lemma_last_bit(value: u16)
    by (bit_vector)
    ensures
        ((value as u128) >> 127) & 1 == 0,
        ((value as u128) >> 127) as u16 == 0,
{
}

proof fn lemma_coefficient_parts(coefficient: u64)
    by (bit_vector)
    requires
        coefficient < 0x2_0000,
    ensures
        coefficient as u128 == (((coefficient & 1) as u16) as u128) ^ (((((coefficient
            >> 1) as u16) as u128)) << 1),
{
}

/// Feeding a coefficient and zeros behind it is shifting what it reduces to.
pub proof fn lemma_absorbed_coefficient(coefficient: u64, count: nat)
    requires
        coefficient < 0x2_0000,
        17 <= count <= 128,
    ensures
        absorbed(coefficient as u128, count) == shift_bits(
            reduced(coefficient),
            POLYNOMIAL,
            (count - 1) as nat,
        ),
{
    let less = (count - 1) as nat;
    let low = (coefficient & 1) as u16;
    let high = (coefficient >> 1) as u16;
    lemma_coefficient_parts(coefficient);
    lemma_absorbed_linear(low as u128, (high as u128) << 1, count);
    lemma_absorbed_short(low, count);
    lemma_absorbed_up(high as u128, less);
    lemma_absorbed_short(high, less);
    lemma_shift_bits_add(low, POLYNOMIAL, 1, less);
    lemma_one_shift(low);
    lemma_shift_bits_linear(shift_bit(low, POLYNOMIAL), high, POLYNOMIAL, less);
}

proof fn lemma_factor_bit(factor: u64, index: u64)
    by (bit_vector)
    requires
        index < 64,
    ensures
        (((factor as u128) >> (index as u128)) & 1) as u16 == ((factor >> index) & 1) as u16,
        (factor >> index) & 1 == 0 || (factor >> index) & 1 == 1,
        1u64 as u16 == 1u16,
        0u64 as u16 == 0u16,
{
}

/// Each bit of the first factor contributes a shifted copy of what the coefficient
/// reduces to.
proof fn lemma_product_partly(factor: u64, coefficient: u64, exponent: nat, count: nat)
    requires
        coefficient < 0x2_0000,
        reduced(coefficient) == power(exponent),
        count <= 64,
    ensures
        absorbed(product(factor, coefficient, count), 128) == shift_bits(
            absorbed(factor as u128, count),
            POLYNOMIAL,
            (64 - count) as nat + exponent + 63,
        ),
    decreases count,
{
    let block = factor as u128;
    if count == 0 {
        lemma_absorbed_linear(0, 0, 128);
        lemma_shift_bits_linear(0, 0, POLYNOMIAL, 64 + exponent + 63);
    } else {
        let less = (count - 1) as nat;
        let shifts = (64 - count) as nat + exponent + 63;
        let earlier = product(factor, coefficient, less);
        let copy = (coefficient as u128) << (less as u128);
        let register = absorbed(block, less);
        let own = bit(block, less);
        lemma_product_partly(factor, coefficient, exponent, less);
        lemma_factor_bit(factor, less as u64);
        // What this bit adds to the register.
        lemma_shift_bits_linear(register, own, POLYNOMIAL, shifts + 1);
        lemma_shift_bits_add(register ^ own, POLYNOMIAL, 1, shifts);
        lemma_one_shift(register ^ own);
        // What it adds to the product.
        if own == 1 {
            lemma_absorbed_linear(earlier, copy, 128);
            lemma_absorbed_shifted(coefficient as u128, less);
            lemma_absorbed_coefficient(coefficient, (128 - less) as nat);
            lemma_shift_bits_add(1, POLYNOMIAL, exponent, (127 - less) as nat);
        } else {
            lemma_xor_block(earlier, 0, 0);
            lemma_shift_bits_linear(0, 0, POLYNOMIAL, shifts + 1);
            lemma_xor(shift_bits(register, POLYNOMIAL, shifts + 1), 0, 0);
        }
    }
}

/// Multiplying a word by a coefficient shifts what it feeds.
pub proof fn lemma_product(factor: u64, coefficient: u64, exponent: nat)
    requires
        coefficient < 0x2_0000,
        reduced(coefficient) == power(exponent),
    ensures
        absorbed(product(factor, coefficient, 64), 128) == shift_bits(
            absorbed(factor as u128, 64),
            POLYNOMIAL,
            exponent + 63,
        ),
{
    lemma_product_partly(factor, coefficient, exponent, 64);
}

/// A multiple of a coefficient that reduces to nothing feeds nothing.
pub proof fn lemma_product_vanishes(factor: u64, coefficient: u64, count: nat)
    requires
        coefficient < 0x2_0000,
        reduced(coefficient) == 0,
        count <= 64,
    ensures
        absorbed(product(factor, coefficient, count), 128) == 0,
    decreases count,
{
    lemma_absorbed_linear(0, 0, 128);
    if count > 0 {
        let less = (count - 1) as nat;
        let earlier = product(factor, coefficient, less);
        let copy = (coefficient as u128) << (less as u128);
        lemma_product_vanishes(factor, coefficient, less);
        lemma_absorbed_linear(earlier, copy, 128);
        lemma_absorbed_linear(earlier, 0, 128);
        lemma_absorbed_shifted(coefficient as u128, less);
        lemma_absorbed_coefficient(coefficient, (128 - less) as nat);
        lemma_shift_bits_linear(0, 0, POLYNOMIAL, (127 - less) as nat);
        lemma_xor(0, 0, 0);
    }
}

/// What a block feeds, by its words.
pub proof fn lemma_absorbed_words(block: u128)
    ensures
        absorbed(block, 128) == shift_bits(
            absorbed((block as u64) as u128, 64),
            POLYNOMIAL,
            64,
        ) ^ absorbed(((block >> 64) as u64) as u128, 64),
{
    lemma_absorbed_split(block, 64);
    lemma_absorbed_lower(block, 64);
    lemma_absorbed_lower(block >> 64, 64);
}

/// `low` and `high` are coefficients that move a block `distance` bits further from
/// the end of the input.
pub open spec fn folds(low: u64, high: u64, distance: nat) -> bool {
    &&& distance >= 64
    &&& low < 0x2_0000
    &&& high < 0x2_0000
    &&& reduced(low) == power((distance - 63) as nat)
    &&& reduced(high) == power(distance + 1)
}

/// Folding a block feeds what feeding the block, shifting, and feeding the next block
/// feeds.
pub proof fn lemma_fold(block: u128, low: u64, high: u64, next: u128, distance: nat)
    requires
        folds(low, high, distance),
    ensures
        absorbed(
            (product((block >> 64) as u64, low, 64) ^ product(block as u64, high, 64)) ^ next,
            128,
        ) == shift_bits(absorbed(block, 128), POLYNOMIAL, distance) ^ absorbed(next, 128),
{
    let upper = (block >> 64) as u64;
    let lower = block as u64;
    let a = product(upper, low, 64);
    let b = product(lower, high, 64);
    let u = absorbed(upper as u128, 64);
    let l = absorbed(lower as u128, 64);
    lemma_absorbed_linear(a ^ b, next, 128);
    lemma_absorbed_linear(a, b, 128);
    lemma_product(upper, low, (distance - 63) as nat);
    lemma_product(lower, high, distance + 1);
    lemma_absorbed_words(block);
    lemma_shift_bits_linear(shift_bits(l, POLYNOMIAL, 64), u, POLYNOMIAL, distance);
    lemma_shift_bits_add(l, POLYNOMIAL, 64, distance);
    assert(64 + distance == distance + 1 + 63);
    lemma_xor(
        shift_bits(l, POLYNOMIAL, 64 + distance),
        shift_bits(u, POLYNOMIAL, distance),
        0,
    );
}

} // verus!
