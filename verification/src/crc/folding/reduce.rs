//! Reduction of a folded block to a register.
use vstd::prelude::*;

use super::algebra::{
    absorbed, lemma_absorbed_linear, lemma_absorbed_lower, lemma_absorbed_moved,
    lemma_absorbed_shifted, lemma_absorbed_short, lemma_absorbed_split, lemma_absorbed_words,
    lemma_product, lemma_product_vanishes, product,
};
use super::coefficients::{lemma_coefficients, BARRETT_MU, BARRETT_POLYNOMIAL, FOLD_4, FOLD_8};
use super::multiply::{lemma_spread, low_bits, multiply, spread};
use crate::crc::model::{
    lemma_shift_bits_add, lemma_shift_bits_linear, lemma_xor, shift_bit, shift_bits, POLYNOMIAL,
};

verus! {

proof fn lemma_barrett_words(word: u64)
    by (bit_vector)
    requires
        word & 0xffff_ffff == 0,
    ensures
        spread(spread(word, BARRETT_MU, 33) as u64, BARRETT_POLYNOMIAL, 17) as u64 == word,
{
}

/// Multiplying by the approximate inverse and then by the polynomial gives a word back
/// whose lower half is empty.
proof fn lemma_barrett(word: u64)
    requires
        word & 0xffff_ffff == 0,
    ensures
        ({
            let quotient = product(word, BARRETT_MU, 64) as u64;
            product(quotient, BARRETT_POLYNOMIAL, 64) as u64 == word
        }),
{
    let quotient = product(word, BARRETT_MU, 64) as u64;
    assert(low_bits(BARRETT_MU, 33) == BARRETT_MU && low_bits(BARRETT_POLYNOMIAL, 17)
        == BARRETT_POLYNOMIAL) by (bit_vector);
    lemma_spread(word, BARRETT_MU, 33);
    lemma_spread(quotient, BARRETT_POLYNOMIAL, 17);
    lemma_barrett_words(word);
}

proof fn lemma_term(earlier: u128, factor: u64, coefficient: u64, index: u64)
    by (bit_vector)
    requires
        index < 64,
        coefficient < 0x2_0000,
    ensures
        earlier < 0x1_0000_0000_0000_0000_0000 ==> earlier ^ ((coefficient as u128) << (
        index as u128)) < 0x1_0000_0000_0000_0000_0000,
        factor & 0xffff_ffff == 0 && (factor >> index) & 1 == 1 && earlier & 0xffff_ffff == 0
            ==> (earlier ^ ((coefficient as u128) << (index as u128))) & 0xffff_ffff == 0,
        earlier ^ 0 == earlier,
        0u128 & 0xffff_ffff == 0,
{
}

/// A product with a coefficient has at most eighty bits, and its lower half word is
/// empty where that of the factor is.
proof fn lemma_product_shape(factor: u64, coefficient: u64, count: nat)
    requires
        coefficient < 0x2_0000,
        count <= 64,
    ensures
        product(factor, coefficient, count) < 0x1_0000_0000_0000_0000_0000,
        factor & 0xffff_ffff == 0 ==> product(factor, coefficient, count) & 0xffff_ffff == 0,
    decreases count,
{
    lemma_term(0, factor, coefficient, 0);
    if count > 0 {
        let less = (count - 1) as nat;
        lemma_product_shape(factor, coefficient, less);
        lemma_term(product(factor, coefficient, less), factor, coefficient, less as u64);
    }
}

proof fn lemma_no_bit(block: u128, index: u128)
    by (bit_vector)
    requires
        index < 128,
    ensures
        block < 0x1_0000_0000 && 32 <= index ==> (block >> index) & 1 == 0,
        (block >> 64) >> 64 == 0,
{
}

/// Zeros behind a half word only shift what it feeds.
proof fn lemma_half_word(block: u128, count: nat)
    requires
        block < 0x1_0000_0000,
        count <= 96,
    ensures
        absorbed(block, 32 + count) == shift_bits(absorbed(block, 32), POLYNOMIAL, count),
    decreases count,
{
    if count > 0 {
        let less = (count - 1) as nat;
        lemma_half_word(block, less);
        lemma_no_bit(block, (32 + less) as u128);
        lemma_xor(absorbed(block, 32 + less), 0, 0);
    }
}

proof fn lemma_shift_bit_injective(x: u16, y: u16)
    by (bit_vector)
    requires
        shift_bit(x, POLYNOMIAL) == shift_bit(y, POLYNOMIAL),
    ensures
        x == y,
{
}

/// Shifting loses nothing.
proof fn lemma_shift_bits_injective(x: u16, y: u16, count: nat)
    requires
        shift_bits(x, POLYNOMIAL, count) == shift_bits(y, POLYNOMIAL, count),
    ensures
        x == y,
    decreases count,
{
    if count > 0 {
        let less = (count - 1) as nat;
        lemma_shift_bit_injective(
            shift_bits(x, POLYNOMIAL, less),
            shift_bits(y, POLYNOMIAL, less),
        );
        lemma_shift_bits_injective(x, y, less);
    }
}

/// A block whose lower word has been folded into its upper word.
proof fn lemma_upper_word(block: u128, folded: u128)
    requires
        folded == product(block as u64, FOLD_8, 64) ^ (block >> 64),
    ensures
        absorbed(folded, 128) == shift_bits(absorbed(block, 128), POLYNOMIAL, 64),
        folded < 0x1_0000_0000_0000_0000_0000,
{
    let lower = block as u64;
    let upper = block >> 64;
    let l = absorbed(lower as u128, 64);
    let u = absorbed(upper, 64);
    lemma_coefficients();
    lemma_absorbed_linear(product(lower, FOLD_8, 64), upper, 128);
    lemma_product(lower, FOLD_8, 65);
    lemma_absorbed_split(upper, 64);
    lemma_no_bit(block, 0);
    lemma_absorbed_linear(0, 0, 64);
    lemma_xor(shift_bits(u, POLYNOMIAL, 64), 0, 0);
    lemma_absorbed_words(block);
    lemma_absorbed_lower(upper, 64);
    lemma_shift_bits_linear(shift_bits(l, POLYNOMIAL, 64), u, POLYNOMIAL, 64);
    lemma_shift_bits_add(l, POLYNOMIAL, 64, 64);
    lemma_product_shape(lower, FOLD_8, 64);
    let folded_lower = product(lower, FOLD_8, 64);
    assert(folded_lower ^ (block >> 64) < 0x1_0000_0000_0000_0000_0000) by (bit_vector)
        requires
            folded_lower < 0x1_0000_0000_0000_0000_0000,
    ;
}

proof fn lemma_halves(block: u128, half: u64)
    by (bit_vector)
    requires
        half == (block as u64) & 0xffff_ffff,
    ensures
        (half as u128) ^ (block & !0xffff_ffffu128) == block,
        (half << 32) as u128 == ((half as u128) << 31) << 1,
        (half as u128) < 0x1_0000_0000,
        (half << 32) & 0xffff_ffff == 0,
        (block & !0xffff_ffffu128) & 0xffff_ffff == 0,
        block < 0x1_0000_0000_0000_0000_0000 ==> block & !0xffff_ffffu128
            < 0x1_0000_0000_0000_0000_0000,
{
}

proof fn lemma_joined(x: u128, y: u128)
    by (bit_vector)
    requires
        x & 0xffff_ffff == 0,
        y & 0xffff_ffff == 0,
        x < 0x1_0000_0000_0000_0000_0000,
        y < 0x1_0000_0000_0000_0000_0000,
    ensures
        (x ^ y) < 0x1_0000_0000_0000_0000_0000,
        ((x ^ y) as u64) & 0xffff_ffff == 0,
{
}

/// The lower half word of a block folded into what stands above it.
proof fn lemma_upper_half(block: u128, half: u64, folded: u128)
    requires
        block < 0x1_0000_0000_0000_0000_0000,
        half == (block as u64) & 0xffff_ffff,
        folded == product(half << 32, FOLD_4, 64) ^ (block & !0xffff_ffffu128),
    ensures
        absorbed(folded, 128) == absorbed(block, 128),
        folded < 0x1_0000_0000_0000_0000_0000,
        (folded as u64) & 0xffff_ffff == 0,
{
    let moved = product(half << 32, FOLD_4, 64);
    let rest = block & !0xffff_ffffu128;
    lemma_coefficients();
    lemma_halves(block, half);
    lemma_absorbed_linear(moved, rest, 128);
    lemma_absorbed_linear(half as u128, rest, 128);
    lemma_product(half << 32, FOLD_4, 33);
    lemma_absorbed_moved(half as u128, 31, 32);
    lemma_half_word(half as u128, 96);
    lemma_product_shape(half << 32, FOLD_4, 64);
    lemma_joined(moved, rest);
}

proof fn lemma_result(x: u128, y: u128, result: u128)
    by (bit_vector)
    requires
        result == x ^ y,
        x < 0x1_0000_0000_0000_0000_0000,
        y < 0x1_0000_0000_0000_0000_0000,
        x as u64 == y as u64,
    ensures
        result == (((result >> 64) as u16) as u128) << 64,
{
}

/// The register that feeding a whole block leads to.
pub fn reduce(block: u128) -> (register: u16)
    ensures
        register == absorbed(block, 128),
{
    let folded = multiply(block as u64, FOLD_8) ^ (block >> 64);
    let half = (folded as u64) & 0xffff_ffff;
    let state = multiply(half << 32, FOLD_4) ^ (folded & !0xffff_ffffu128);
    let quotient = multiply(state as u64, BARRETT_MU);
    let multiple = multiply(quotient as u64, BARRETT_POLYNOMIAL);
    let result = state ^ multiple;
    let register = (result >> 64) as u16;
    proof {
        lemma_upper_word(block, folded);
        lemma_upper_half(folded, half, state);
        lemma_barrett(state as u64);
        lemma_coefficients();
        lemma_product_shape(quotient as u64, BARRETT_POLYNOMIAL, 64);
        lemma_result(state, multiple, result);
        lemma_absorbed_linear(state, multiple, 128);
        lemma_product_vanishes(quotient as u64, BARRETT_POLYNOMIAL, 64);
        lemma_xor(absorbed(state, 128), 0, 0);
        lemma_absorbed_shifted(register as u128, 64);
        lemma_absorbed_short(register, 64);
        lemma_shift_bits_injective(register, absorbed(block, 128), 64);
    }
    register
}

} // verus!
