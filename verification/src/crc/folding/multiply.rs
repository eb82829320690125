//! Carry-less multiplication.
use vstd::prelude::*;

use super::algebra::{lemma_xor_block, product};

verus! {

/// Carry-less product of `factor` and the first `count` bits of `coefficient`.
pub open spec fn spread(factor: u64, coefficient: u64, count: nat) -> u128
    decreases count,
{
    if count == 0 {
        0
    } else {
        let less = (count - 1) as nat;
        spread(factor, coefficient, less) ^ if (coefficient >> (less as u64)) & 1 == 1 {
            (factor as u128) << (less as u128)
        } else {
            0
        }
    }
}

/// The first `count` bits of `word`.
pub open spec fn low_bits(word: u64, count: u64) -> u64 {
    if count < 64 {
        word ^ ((word >> count) << count)
    } else {
        word
    }
}

spec fn one_more(index: u64) -> u64 {
    (index + 1) as u64
}

proof fn lemma_low_bits(word: u64, index: u64)
    by (bit_vector)
    requires
        index < 64,
    ensures
        (word >> index) & 1 == 1 ==> low_bits(word, one_more(index)) == low_bits(word, index) ^ (
        1u64 << index),
        (word >> index) & 1 != 1 ==> low_bits(word, one_more(index)) == low_bits(word, index),
        low_bits(word, 0) == 0,
        low_bits(word, 64) == word,
        word >> index == 0 ==> low_bits(word, index) == word,
        word >> 0 == word,
        index < 63 ==> (word >> index) >> 1 == word >> one_more(index),
{
}

#[verifier::rlimit(100)]
proof fn lemma_copies(word: u64, other: u64, index: u64, place: u64)
    by (bit_vector)
    requires
        index < 64,
        place < 64,
    ensures
        ((word ^ other) as u128) << (index as u128) == ((word as u128) << (index as u128)) ^ ((
        other as u128) << (index as u128)),
        0u128 << (place as u128) == 0,
        (word as u128) << 0 == word as u128,
        ((word as u128) << (index as u128)) << 1 == (word as u128) << (one_more(index) as u128),
{
}

#[verifier::rlimit(100)]
proof fn lemma_single_bits(index: u64, place: u64)
    by (bit_vector)
    requires
        index < 64,
        place < 64,
    ensures
        ((1u64 << place) as u128) << (index as u128) == ((1u64 << index) as u128) << (
        place as u128),
{
}

proof fn lemma_words(word: u64, other: u64, index: u64, place: u64)
    requires
        index < 64,
        place < 64,
    ensures
        (word >> index) & 1 == 1 ==> low_bits(word, one_more(index)) == low_bits(word, index) ^ (
        1u64 << index),
        (word >> index) & 1 != 1 ==> low_bits(word, one_more(index)) == low_bits(word, index),
        low_bits(word, 0) == 0,
        low_bits(word, 64) == word,
        word >> index == 0 ==> low_bits(word, index) == word,
        word >> 0 == word,
        index < 63 ==> (word >> index) >> 1 == word >> one_more(index),
        ((word ^ other) as u128) << (index as u128) == ((word as u128) << (index as u128)) ^ ((
        other as u128) << (index as u128)),
        ((1u64 << place) as u128) << (index as u128) == ((1u64 << index) as u128) << (
        place as u128),
        0u128 << (place as u128) == 0,
        (word as u128) << 0 == word as u128,
        ((word as u128) << (index as u128)) << 1 == (word as u128) << (one_more(index) as u128),
{
    lemma_low_bits(word, index);
    lemma_copies(word, other, index, place);
    lemma_single_bits(index, place);
}

/// Products distribute over exclusive-or.
proof fn lemma_product_linear(factor: u64, first: u64, second: u64, count: nat)
    requires
        count <= 64,
    ensures
        product(factor, first ^ second, count) == product(factor, first, count) ^ product(
            factor,
            second,
            count,
        ),
        product(factor, 0, count) == 0,
    decreases count,
{
    lemma_xor_block(0, 0, 0);
    if count > 0 {
        let less = (count - 1) as nat;
        lemma_product_linear(factor, first, second, less);
        lemma_words(first, second, less as u64, less as u64);
        let (a, b) = (product(factor, first, less), product(factor, second, less));
        let c = (first as u128) << (less as u128);
        let d = (second as u128) << (less as u128);
        assert((a ^ b) ^ (c ^ d) == (a ^ c) ^ (b ^ d)) by {
            lemma_xor_block(a, b, c ^ d);
            lemma_xor_block(b, c, d);
            lemma_xor_block(c, b, d);
            lemma_xor_block(a, c, b ^ d);
        }
        lemma_xor_block(a, 0, 0);
        lemma_xor_block(b, 0, 0);
        lemma_xor_block(a ^ b, 0, 0);
    }
}

/// Multiplying by a single bit moves the factor up.
proof fn lemma_product_single(factor: u64, place: nat, count: nat)
    requires
        place < 64,
        count <= 64,
    ensures
        product(factor, 1u64 << (place as u64), count) == (low_bits(
            factor,
            count as u64,
        ) as u128) << (place as u128),
    decreases count,
{
    if count == 0 {
        lemma_words(factor, 0, 0, place as u64);
    } else {
        let less = (count - 1) as nat;
        lemma_product_single(factor, place, less);
        lemma_words(factor, 0, less as u64, place as u64);
        lemma_words(
            low_bits(factor, less as u64),
            1u64 << (less as u64),
            place as u64,
            less as u64,
        );
        lemma_xor_block(product(factor, 1u64 << (place as u64), less), 0, 0);
    }
}

/// Either factor may be taken bit by bit.
pub proof fn lemma_spread(factor: u64, coefficient: u64, count: nat)
    requires
        count <= 64,
    ensures
        spread(factor, coefficient, count) == product(
            factor,
            low_bits(coefficient, count as u64),
            64,
        ),
        count == 64 ==> spread(factor, coefficient, count) == product(factor, coefficient, 64),
    decreases count,
{
    lemma_words(coefficient, 0, 0, 0);
    if count == 0 {
        lemma_product_linear(factor, 0, 0, 64);
    } else {
        let less = (count - 1) as nat;
        lemma_spread(factor, coefficient, less);
        lemma_words(coefficient, 0, less as u64, 0);
        lemma_words(factor, 0, 0, 0);
        lemma_product_linear(
            factor,
            low_bits(coefficient, less as u64),
            1u64 << (less as u64),
            64,
        );
        lemma_product_single(factor, less, 64);
        lemma_xor_block(spread(factor, coefficient, less), 0, 0);
    }
}

/// Carry-less product of two words.
pub fn multiply(factor: u64, coefficient: u64) -> (block: u128)
    ensures
        block == product(factor, coefficient, 64),
{
    let mut block: u128 = 0;
    let mut rest: u64 = coefficient;
    let mut copy: u128 = factor as u128;
    let mut place: u64 = 0;
    proof {
        lemma_words(coefficient, 0, 0, 0);
        lemma_words(factor, 0, 0, 0);
    }
    while place < 64 && rest != 0
        invariant
            place <= 64,
            block == spread(factor, coefficient, place as nat),
            place < 64 ==> rest == coefficient >> place,
            place < 64 ==> copy == (factor as u128) << (place as u128),
        decreases 64 - place,
    {
        proof {
            lemma_words(coefficient, 0, place, 0);
            lemma_words(factor, 0, place, 0);
            lemma_xor_block(block, 0, 0);
        }
        if rest & 1 == 1 {
            block = block ^ copy;
        }
        rest = rest >> 1;
        copy = copy << 1;
        place = place + 1;
    }
    proof {
        lemma_spread(factor, coefficient, place as nat);
        if place < 64 {
            lemma_words(coefficient, 0, place, 0);
        }
    }
    block
}

} // verus!
