//! Backend selection for long inputs.
//!
//! Keeping selection here leaves the public API independent of how long inputs are
//! handled and gives future backends one small integration point.
use vstd::prelude::*;

use super::folding;
use super::model::crc_bytes;
use super::scalar;

verus! {

/// Adds a long input to the register.
#[inline]
pub fn update(initial: u16, bytes: &[u8]) -> (updated: u16)
    ensures
        updated == crc_bytes(initial, bytes@),
{
    if let Some(crc) = folding::update_if_supported(initial, bytes) {
        return crc;
    }
    scalar::update(initial, bytes)
}

} // verus!
