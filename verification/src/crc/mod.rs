//! Fast CRC-16/MCRF4XX for MAVLink.
//!
//! One algorithm, no allocation, and a portable implementation throughout.
use vstd::prelude::*;

pub mod backend;
pub mod folding;
pub mod model;
pub mod scalar;
pub mod tables;

use self::model::{crc_byte, crc_bytes, lemma_crc_concat};

verus! {

/// CRC-16/MCRF4XX initial value used by MAVLink.
pub const INITIAL: u16 = 0xffff;

/// Shortest input that is handed to the long-input backend.
const LONG_MESSAGE_MINIMUM: usize = 64;

/// The MAVLink checksum of `bytes`, followed by `extra_crc`.
pub open spec fn mavlink_crc(bytes: Seq<u8>, extra_crc: u8) -> u16 {
    crc_byte(crc_bytes(INITIAL, bytes), extra_crc)
}

/// Calculates the MAVLink CRC over `bytes`, followed by `extra_crc`.
#[must_use]
#[inline]
pub fn calculate(bytes: &[u8], extra_crc: u8) -> (crc: u16)
    ensures
        crc == mavlink_crc(bytes@, extra_crc),
{
    if bytes.len() == 5 {
        return scalar::update_5_and_extra(INITIAL, bytes, extra_crc);
    }
    if bytes.len() == 9 {
        return scalar::update_9_and_extra(INITIAL, bytes, extra_crc);
    }
    if bytes.len() == 14 {
        return scalar::update_14_and_extra(INITIAL, bytes, extra_crc);
    }
    if bytes.len() < 8 {
        return scalar::update_small_and_extra(INITIAL, bytes, extra_crc);
    }
    if bytes.len() < 15 {
        return scalar::update_tail_and_extra(INITIAL, bytes, extra_crc);
    }
    let remainder: usize = bytes.len() % 16;
    let final_block: usize = bytes.len() - remainder;
    proof {
        let head = bytes@.subrange(0, final_block as int);
        let tail = bytes@.subrange(final_block as int, bytes@.len() as int);
        assert(bytes@ =~= head + tail);
        lemma_crc_concat(INITIAL, head, tail);
    }
    if remainder == 15 {
        let crc = update(INITIAL, &bytes[0..final_block]);
        return scalar::update_15_and_extra(crc, &bytes[final_block..bytes.len()], extra_crc);
    }
    if bytes.len() >= LONG_MESSAGE_MINIMUM && remainder >= 8 {
        let crc = update(INITIAL, &bytes[0..final_block]);
        return scalar::update_tail_and_extra(crc, &bytes[final_block..bytes.len()], extra_crc);
    }
    scalar::update_byte(update(INITIAL, bytes), extra_crc)
}

/// Incremental CRC-16/MCRF4XX state.
#[derive(Clone, Copy, Debug, PartialEq, Eq, Structural)]
pub struct Digest {
    value: u16,
}

impl View for Digest {
    type V = u16;

    /// The register.
    closed spec fn view(&self) -> u16 {
        self.value
    }
}

impl Digest {
    /// Creates a new MAVLink CRC digest.
    #[must_use]
    pub fn new() -> (digest: Self)
        ensures
            digest@ == INITIAL,
    {
        Self { value: INITIAL }
    }

    /// Adds bytes to this digest.
    #[inline]
    pub fn update(&mut self, bytes: &[u8])
        ensures
            final(self)@ == crc_bytes(old(self)@, bytes@),
    {
        self.value = update(self.value, bytes);
    }

    /// Adds one byte to this digest.
    #[inline]
    pub fn update_byte(&mut self, byte: u8)
        ensures
            final(self)@ == crc_byte(old(self)@, byte),
    {
        self.value = scalar::update_byte(self.value, byte);
    }

    /// Returns the current CRC value.
    #[must_use]
    pub fn finalize(self) -> (crc: u16)
        ensures
            crc == self@,
    {
        self.value
    }
}

impl Default for Digest {
    fn default() -> (digest: Self)
        ensures
            digest@ == INITIAL,
    {
        Self::new()
    }
}

#[inline]
fn update(initial: u16, bytes: &[u8]) -> (updated: u16)
    ensures
        updated == crc_bytes(initial, bytes@),
{
    if bytes.len() < LONG_MESSAGE_MINIMUM {
        scalar::update(initial, bytes)
    } else {
        backend::update(initial, bytes)
    }
}

/// Adding two pieces one after the other is adding them joined together, wherever
/// the input is split.
pub proof fn law_streaming_matches_every_split(register: u16, first: Seq<u8>, second: Seq<u8>)
    ensures
        crc_bytes(crc_bytes(register, first), second) == crc_bytes(register, first + second),
{
    lemma_crc_concat(register, first, second);
}

/// Adding one byte is adding a piece that holds only that byte.
pub proof fn law_single_byte_is_a_piece(register: u16, byte: u8)
    ensures
        crc_byte(register, byte) == crc_bytes(register, seq![byte]),
{
    assert(seq![byte].drop_last() =~= Seq::<u8>::empty());
    assert(crc_bytes(register, Seq::<u8>::empty()) == register);
}

/// The checksum of a message is the checksum of its bytes with the extra byte
/// appended.
pub proof fn law_extra_byte_is_appended(bytes: Seq<u8>, extra_crc: u8)
    ensures
        mavlink_crc(bytes, extra_crc) == crc_bytes(INITIAL, bytes.push(extra_crc)),
{
    assert(bytes.push(extra_crc).drop_last() =~= bytes);
}

} // verus!
