//! Folding of long inputs, sixteen bytes at a time.
//!
//! This is a fixed-polynomial folding implementation for CRC-16/MCRF4XX. All
//! coefficients are constants, so the hot path has no generic algorithm
//! configuration or key setup. The carry-less products are computed portably.
use vstd::prelude::*;

pub mod algebra;
pub mod coefficients;
pub mod multiply;
pub mod reduce;

use self::algebra::{
    absorbed, folds, lemma_absorbed_linear, lemma_absorbed_shifted, lemma_absorbed_short,
    lemma_fold,
};
use self::coefficients::{
    lemma_coefficients, FOLD_16_HIGH, FOLD_16_LOW, FOLD_32_HIGH, FOLD_32_LOW, FOLD_48_HIGH,
    FOLD_48_LOW, FOLD_64_HIGH, FOLD_64_LOW,
};
use self::multiply::multiply;
use self::reduce::reduce;
use crate::crc::model::{
    crc_bytes, lane_value, lanes, lemma_crc_concat, lemma_lanes, lemma_shift_bits_add,
    lemma_shift_bits_linear, lemma_xor, shift_bits, POLYNOMIAL,
};
use crate::crc::scalar;

verus! {

/// Number of bytes in a block.
const BLOCK: usize = 16;

/// Shortest input for which four independent streams pay off.
const FOUR_LANES_MINIMUM: usize = 128;

/// A pair of coefficients: the one for the upper and the one for the lower word of a
/// block.
#[derive(Clone, Copy)]
struct Coefficient {
    low: u64,
    high: u64,
}

impl Coefficient {
    spec fn moves(self, distance: nat) -> bool {
        folds(self.low, self.high, distance)
    }
}

/// Loads sixteen bytes, the first one lowest.
fn load(chunk: &[u8]) -> (block: u128)
    requires
        chunk@.len() == 16,
    ensures
        absorbed(block, 128) == crc_bytes(0, chunk@),
{
    let mut block: u128 = 0;
    let mut index: usize = 16;
    proof {
        lemma_absorbed_linear(0, 0, 128);
    }
    while index > 0
        invariant
            index <= 16,
            chunk@.len() == 16,
            index == 16 ==> absorbed(block, 128) == 0,
            index < 16 ==> absorbed(block, 128) == lanes(chunk@, (16 - index) as nat),
        decreases index,
    {
        index = index - 1;
        let byte = chunk[index];
        let shift: u32 = 8 * (index as u32);
        proof {
            let own = (byte as u128) << (shift as u128);
            lemma_absorbed_linear(block, own, 128);
            lemma_absorbed_shifted(byte as u128, shift as nat);
            lemma_absorbed_short(byte as u16, (128 - shift) as nat);
            lemma_xor(lane_value(0, byte), 0, 0);
        }
        block = block ^ ((byte as u128) << shift);
    }
    proof {
        lemma_lanes(0, chunk@, 16);
        assert(chunk@.skip(0) =~= chunk@);
        lemma_shift_bits_linear(0, 0, POLYNOMIAL, 128);
        lemma_xor(lanes(chunk@, 16), 0, 0);
    }
    block
}

/// Feeding a block after a register.
proof fn lemma_next_block(register: u16, chunk: Seq<u8>)
    requires
        chunk.len() == 16,
    ensures
        crc_bytes(register, chunk) == shift_bits(register, POLYNOMIAL, 128) ^ crc_bytes(0, chunk),
{
    lemma_lanes(register, chunk, 16);
    lemma_lanes(0, chunk, 16);
    assert(chunk.skip(0) =~= chunk);
    lemma_shift_bits_linear(0, 0, POLYNOMIAL, 128);
    lemma_xor(lanes(chunk, 16), 0, 0);
}

/// Loads the first block of an input, with the register folded in.
fn load_first(initial: u16, chunk: &[u8]) -> (block: u128)
    requires
        chunk@.len() == 16,
    ensures
        absorbed(block, 128) == crc_bytes(initial, chunk@),
{
    let block = load(chunk);
    proof {
        lemma_next_block(initial, chunk@);
        lemma_absorbed_linear(block, initial as u128, 128);
        lemma_absorbed_short(initial, 128);
        lemma_xor(crc_bytes(0, chunk@), shift_bits(initial, POLYNOMIAL, 128), 0);
    }
    block ^ (initial as u128)
}

/// Moves a block away from the end of the input and adds the block that follows.
fn fold(state: u128, coefficient: Coefficient, next: u128) -> (folded: u128)
    ensures
        forall|distance: nat| #[trigger]
            coefficient.moves(distance) ==> absorbed(folded, 128) == shift_bits(
                absorbed(state, 128),
                POLYNOMIAL,
                distance,
            ) ^ absorbed(next, 128),
{
    let high = multiply((state >> 64) as u64, coefficient.low);
    let low = multiply(state as u64, coefficient.high);
    proof {
        assert forall|distance: nat| #[trigger] coefficient.moves(distance) implies absorbed(
            (high ^ low) ^ next,
            128,
        ) == shift_bits(absorbed(state, 128), POLYNOMIAL, distance) ^ absorbed(next, 128) by {
            lemma_fold(state, coefficient.low, coefficient.high, next, distance);
        }
    }
    (high ^ low) ^ next
}

/// Folds the blocks of `bytes` from `start` on into `state`, reduces it, and adds what
/// is left.
fn finish(state: u128, bytes: &[u8], start: usize, Ghost(initial): Ghost<u16>) -> (crc: u16)
    requires
        start <= bytes@.len(),
        absorbed(state, 128) == crc_bytes(initial, bytes@.take(start as int)),
    ensures
        crc == crc_bytes(initial, bytes@),
{
    let fold16 = Coefficient { low: FOLD_16_LOW, high: FOLD_16_HIGH };
    let mut state = state;
    let mut position = start;
    proof {
        lemma_coefficients();
        assert(fold16.moves(128));
    }
    while bytes.len() - position >= BLOCK
        invariant
            position <= bytes@.len(),
            fold16.moves(128),
            absorbed(state, 128) == crc_bytes(initial, bytes@.take(position as int)),
        decreases bytes@.len() - position,
    {
        let chunk = &bytes[position..position + BLOCK];
        proof {
            let before = bytes@.take(position as int);
            assert(bytes@.take(position + BLOCK) =~= before + chunk@);
            lemma_crc_concat(initial, before, chunk@);
            lemma_next_block(crc_bytes(initial, before), chunk@);
        }
        state = fold(state, fold16, load(chunk));
        position += BLOCK;
    }
    let mut crc = reduce(state);
    while position < bytes.len()
        invariant
            position <= bytes@.len(),
            crc == crc_bytes(initial, bytes@.take(position as int)),
        decreases bytes@.len() - position,
    {
        assert(bytes@.take(position + 1).drop_last() =~= bytes@.take(position as int));
        crc = scalar::update_byte(crc, bytes[position]);
        position += 1;
    }
    assert(bytes@.take(position as int) =~= bytes@);
    crc
}

/// Adds an input of at least sixteen bytes to the register.
fn update_folded(initial: u16, bytes: &[u8]) -> (crc: u16)
    requires
        bytes@.len() >= 16,
    ensures
        crc == crc_bytes(initial, bytes@),
{
    if bytes.len() >= FOUR_LANES_MINIMUM {
        return update_four_lanes(initial, bytes);
    }
    let first = &bytes[0..BLOCK];
    assert(first@ =~= bytes@.take(16));
    let state = load_first(initial, first);
    finish(state, bytes, BLOCK, Ghost(initial))
}

/// What four blocks in a row feed, given what each of them feeds.
spec fn joined(first: u16, second: u16, third: u16, fourth: u16) -> u16 {
    shift_bits(first, POLYNOMIAL, 384) ^ (shift_bits(second, POLYNOMIAL, 256) ^ (shift_bits(
        third,
        POLYNOMIAL,
        128,
    ) ^ fourth))
}

/// Feeding four blocks after a register.
proof fn lemma_four_blocks(
    register: u16,
    first: Seq<u8>,
    second: Seq<u8>,
    third: Seq<u8>,
    fourth: Seq<u8>,
)
    requires
        first.len() == 16,
        second.len() == 16,
        third.len() == 16,
        fourth.len() == 16,
    ensures
        crc_bytes(register, first + second + third + fourth) == joined(
            crc_bytes(register, first),
            crc_bytes(0, second),
            crc_bytes(0, third),
            crc_bytes(0, fourth),
        ),
{
    let a = crc_bytes(register, first);
    let b = crc_bytes(0, second);
    let c = crc_bytes(0, third);
    let d = crc_bytes(0, fourth);
    lemma_crc_concat(register, first + second + third, fourth);
    lemma_crc_concat(register, first + second, third);
    lemma_crc_concat(register, first, second);
    let two = crc_bytes(a, second);
    let three = crc_bytes(two, third);
    lemma_next_block(a, second);
    lemma_next_block(two, third);
    lemma_next_block(three, fourth);
    let a1 = shift_bits(a, POLYNOMIAL, 128);
    lemma_shift_bits_linear(a1, b, POLYNOMIAL, 128);
    lemma_shift_bits_add(a, POLYNOMIAL, 128, 128);
    let a2 = shift_bits(a, POLYNOMIAL, 256);
    let b1 = shift_bits(b, POLYNOMIAL, 128);
    lemma_shift_bits_linear(a2 ^ b1, c, POLYNOMIAL, 128);
    lemma_shift_bits_linear(a2, b1, POLYNOMIAL, 128);
    lemma_shift_bits_add(a, POLYNOMIAL, 256, 128);
    lemma_shift_bits_add(b, POLYNOMIAL, 128, 128);
    let a3 = shift_bits(a, POLYNOMIAL, 384);
    let b2 = shift_bits(b, POLYNOMIAL, 256);
    let c1 = shift_bits(c, POLYNOMIAL, 128);
    lemma_xor(a3 ^ b2, c1, d);
    lemma_xor(a3, b2, c1 ^ d);
}

/// Moving four blocks and adding the next four.
proof fn lemma_joined_further(
    a: u16,
    b: u16,
    c: u16,
    d: u16,
    e: u16,
    f: u16,
    g: u16,
    h: u16,
)
    ensures
        joined(
            shift_bits(a, POLYNOMIAL, 512) ^ e,
            shift_bits(b, POLYNOMIAL, 512) ^ f,
            shift_bits(c, POLYNOMIAL, 512) ^ g,
            shift_bits(d, POLYNOMIAL, 512) ^ h,
        ) == shift_bits(joined(a, b, c, d), POLYNOMIAL, 512) ^ joined(e, f, g, h),
{
    let a5 = shift_bits(a, POLYNOMIAL, 512);
    let b5 = shift_bits(b, POLYNOMIAL, 512);
    let c5 = shift_bits(c, POLYNOMIAL, 512);
    let d5 = shift_bits(d, POLYNOMIAL, 512);
    lemma_joined_linear(a5, b5, c5, d5, e, f, g, h);
    lemma_shift_bits_add(a, POLYNOMIAL, 512, 384);
    lemma_shift_bits_add(a, POLYNOMIAL, 384, 512);
    lemma_shift_bits_add(b, POLYNOMIAL, 512, 256);
    lemma_shift_bits_add(b, POLYNOMIAL, 256, 512);
    lemma_shift_bits_add(c, POLYNOMIAL, 512, 128);
    lemma_shift_bits_add(c, POLYNOMIAL, 128, 512);
    let a3 = shift_bits(a, POLYNOMIAL, 384);
    let b2 = shift_bits(b, POLYNOMIAL, 256);
    let c1 = shift_bits(c, POLYNOMIAL, 128);
    lemma_shift_bits_linear(a3, b2 ^ (c1 ^ d), POLYNOMIAL, 512);
    lemma_shift_bits_linear(b2, c1 ^ d, POLYNOMIAL, 512);
    lemma_shift_bits_linear(c1, d, POLYNOMIAL, 512);
}

proof fn lemma_joined_linear(
    a: u16,
    b: u16,
    c: u16,
    d: u16,
    e: u16,
    f: u16,
    g: u16,
    h: u16,
)
    ensures
        joined(a ^ e, b ^ f, c ^ g, d ^ h) == joined(a, b, c, d) ^ joined(e, f, g, h),
{
    lemma_shift_bits_linear(a, e, POLYNOMIAL, 384);
    lemma_shift_bits_linear(b, f, POLYNOMIAL, 256);
    lemma_shift_bits_linear(c, g, POLYNOMIAL, 128);
    lemma_xor_pairs(
        shift_bits(a, POLYNOMIAL, 384),
        shift_bits(b, POLYNOMIAL, 256),
        shift_bits(c, POLYNOMIAL, 128),
        d,
        shift_bits(e, POLYNOMIAL, 384),
        shift_bits(f, POLYNOMIAL, 256),
        shift_bits(g, POLYNOMIAL, 128),
        h,
    );
}

proof fn lemma_xor_pairs(
    a: u16,
    b: u16,
    c: u16,
    d: u16,
    e: u16,
    f: u16,
    g: u16,
    h: u16,
)
    by (bit_vector)
    ensures
        (a ^ e) ^ ((b ^ f) ^ ((c ^ g) ^ (d ^ h))) == (a ^ (b ^ (c ^ d))) ^ (e ^ (f ^ (g ^ h))),
{
}

/// Adds an input of at least 128 bytes to the register, in four independent streams.
fn update_four_lanes(initial: u16, bytes: &[u8]) -> (crc: u16)
    requires
        bytes@.len() >= 64,
    ensures
        crc == crc_bytes(initial, bytes@),
{
    let fold64 = Coefficient { low: FOLD_64_LOW, high: FOLD_64_HIGH };
    let fold48 = Coefficient { low: FOLD_48_LOW, high: FOLD_48_HIGH };
    let fold32 = Coefficient { low: FOLD_32_LOW, high: FOLD_32_HIGH };
    let fold16 = Coefficient { low: FOLD_16_LOW, high: FOLD_16_HIGH };
    proof {
        lemma_coefficients();
        assert(fold64.moves(512));
        assert(fold48.moves(384));
        assert(fold32.moves(256));
        assert(fold16.moves(128));
    }
    let first = &bytes[0..16];
    let second = &bytes[16..32];
    let third = &bytes[32..48];
    let fourth = &bytes[48..64];
    let mut lane0 = load_first(initial, first);
    let mut lane1 = load(second);
    let mut lane2 = load(third);
    let mut lane3 = load(fourth);
    let mut position: usize = 64;
    proof {
        assert(bytes@.take(64) =~= first@ + second@ + third@ + fourth@);
        lemma_four_blocks(initial, first@, second@, third@, fourth@);
    }
    while bytes.len() - position >= 64
        invariant
            64 <= position <= bytes@.len(),
            fold64.moves(512),
            joined(
                absorbed(lane0, 128),
                absorbed(lane1, 128),
                absorbed(lane2, 128),
                absorbed(lane3, 128),
            ) == crc_bytes(initial, bytes@.take(position as int)),
        decreases bytes@.len() - position,
    {
        let next0 = &bytes[position..position + 16];
        let next1 = &bytes[position + 16..position + 32];
        let next2 = &bytes[position + 32..position + 48];
        let next3 = &bytes[position + 48..position + 64];
        proof {
            let before = bytes@.take(position as int);
            let register = crc_bytes(initial, before);
            let group = next0@ + next1@ + next2@ + next3@;
            assert(bytes@.take(position + 64) =~= before + group);
            lemma_crc_concat(initial, before, group);
            lemma_four_blocks(register, next0@, next1@, next2@, next3@);
            lemma_next_group(register, next0@, next1@, next2@, next3@);
            lemma_joined_further(
                absorbed(lane0, 128),
                absorbed(lane1, 128),
                absorbed(lane2, 128),
                absorbed(lane3, 128),
                crc_bytes(0, next0@),
                crc_bytes(0, next1@),
                crc_bytes(0, next2@),
                crc_bytes(0, next3@),
            );
        }
        lane0 = fold(lane0, fold64, load(next0));
        lane1 = fold(lane1, fold64, load(next1));
        lane2 = fold(lane2, fold64, load(next2));
        lane3 = fold(lane3, fold64, load(next3));
        position += 64;
    }
    // Collapse the independent streams in byte order.
    let state = fold(lane0, fold48, lane3);
    let state = fold(lane1, fold32, state);
    let state = fold(lane2, fold16, state);
    proof {
        let a = shift_bits(absorbed(lane0, 128), POLYNOMIAL, 384);
        let b = shift_bits(absorbed(lane1, 128), POLYNOMIAL, 256);
        let c = shift_bits(absorbed(lane2, 128), POLYNOMIAL, 128);
        let d = absorbed(lane3, 128);
        lemma_xor_order(a, b, c, d);
    }
    finish(state, bytes, position, Ghost(initial))
}

proof fn lemma_xor_order(a: u16, b: u16, c: u16, d: u16)
    ensures
        c ^ (b ^ (a ^ d)) == a ^ (b ^ (c ^ d)),
{
    lemma_xor(c, b, a ^ d);
    lemma_xor(c ^ b, a, d);
    lemma_xor(c, b, a);
    lemma_xor(b, c, a);
    lemma_xor(c, a, d);
    lemma_xor(b ^ c, a, d);
    lemma_xor(a, b ^ c, d);
    lemma_xor(a, b, c);
    lemma_xor(a, b ^ c, d);
    lemma_xor(b, c, d);
}

/// Feeding four blocks after a register is shifting the register and adding what the
/// four blocks feed by themselves.
proof fn lemma_next_group(
    register: u16,
    first: Seq<u8>,
    second: Seq<u8>,
    third: Seq<u8>,
    fourth: Seq<u8>,
)
    requires
        first.len() == 16,
        second.len() == 16,
        third.len() == 16,
        fourth.len() == 16,
    ensures
        joined(
            crc_bytes(register, first),
            crc_bytes(0, second),
            crc_bytes(0, third),
            crc_bytes(0, fourth),
        ) == shift_bits(register, POLYNOMIAL, 512) ^ joined(
            crc_bytes(0, first),
            crc_bytes(0, second),
            crc_bytes(0, third),
            crc_bytes(0, fourth),
        ),
{
    lemma_next_block(register, first);
    let moved = shift_bits(register, POLYNOMIAL, 128);
    lemma_shift_bits_linear(moved, crc_bytes(0, first), POLYNOMIAL, 384);
    lemma_shift_bits_add(register, POLYNOMIAL, 128, 384);
    let rest = shift_bits(crc_bytes(0, second), POLYNOMIAL, 256) ^ (shift_bits(
        crc_bytes(0, third),
        POLYNOMIAL,
        128,
    ) ^ crc_bytes(0, fourth));
    lemma_xor(
        shift_bits(register, POLYNOMIAL, 512),
        shift_bits(crc_bytes(0, first), POLYNOMIAL, 384),
        rest,
    );
}

/// Adds an input to the register by folding, where it is long enough for that.
#[inline]
pub fn update_if_supported(initial: u16, bytes: &[u8]) -> (updated: Option<u16>)
    ensures
        updated is Some <==> bytes@.len() >= 16,
        updated matches Some(crc) ==> crc == crc_bytes(initial, bytes@),
{
    if bytes.len() < BLOCK {
        return None;
    }
    Some(update_folded(initial, bytes))
}

} // verus!
