//! Lookup tables of the portable checksum.
use vstd::prelude::*;

use super::model::lane_value;

mod lane_0;
mod lane_1;
mod lane_2;
mod lane_3;
mod lane_4;
mod lane_5;
mod lane_6;
mod lane_7;
mod lane_8;
mod lane_9;
mod lane_10;
mod lane_11;
mod lane_12;
mod lane_13;
mod lane_14;
mod lane_15;
mod forms;

verus! {

/// `TABLES[lane][byte]` is what `byte` contributes to the register when `lane`
/// more bytes follow it.
pub const TABLES: [[u16; 256]; 16] = [
    lane_0::LANE, lane_1::LANE, lane_2::LANE, lane_3::LANE,
    lane_4::LANE, lane_5::LANE, lane_6::LANE, lane_7::LANE,
    lane_8::LANE, lane_9::LANE, lane_10::LANE, lane_11::LANE,
    lane_12::LANE, lane_13::LANE, lane_14::LANE, lane_15::LANE,
];

/// Every entry of every lane is the lane value of its index.
pub proof fn law_tables_match_their_definition(lane: int, byte: u8)
    requires
        0 <= lane < 16,
    ensures
        TABLES@[lane]@[byte as int] == lane_value(lane as nat, byte),
{
    if lane == 0 {
        lane_0::lemma_lane();
    } else if lane == 1 {
        lane_1::lemma_lane();
    } else if lane == 2 {
        lane_2::lemma_lane();
    } else if lane == 3 {
        lane_3::lemma_lane();
    } else if lane == 4 {
        lane_4::lemma_lane();
    } else if lane == 5 {
        lane_5::lemma_lane();
    } else if lane == 6 {
        lane_6::lemma_lane();
    } else if lane == 7 {
        lane_7::lemma_lane();
    } else if lane == 8 {
        lane_8::lemma_lane();
    } else if lane == 9 {
        lane_9::lemma_lane();
    } else if lane == 10 {
        lane_10::lemma_lane();
    } else if lane == 11 {
        lane_11::lemma_lane();
    } else if lane == 12 {
        lane_12::lemma_lane();
    } else if lane == 13 {
        lane_13::lemma_lane();
    } else if lane == 14 {
        lane_14::lemma_lane();
    } else {
        lane_15::lemma_lane();
    }
    assert((byte as int) as u8 == byte);
}

/// Looks up what `byte` contributes when `lane` more bytes follow it.
#[inline]
pub fn table(lane: usize, byte: u8) -> (value: u16)
    requires
        lane < 16,
    ensures
        value == lane_value(lane as nat, byte),
{
    proof {
        law_tables_match_their_definition(lane as int, byte);
    }
    let tables: &[[u16; 256]; 16] = &TABLES;
    tables[lane][byte as usize]
}

} // verus!
