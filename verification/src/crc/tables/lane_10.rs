//! Contribution of a byte that is followed by 10 more bytes.
use vstd::prelude::*;

use super::super::model::lane_value;
use super::lane_9;
use super::forms::{combine, holds_lane, lemma_indices, lemma_lane_above, next};

verus! {

/// The lane, indexed by the byte.
#[verifier::opaque]
pub const LANE: [u16; 256] = [
    0x0000, 0x5591, 0xab22, 0xfeb3, 0x5e55, 0x0bc4, 0xf577, 0xa0e6,
    0xbcaa, 0xe93b, 0x1788, 0x4219, 0xe2ff, 0xb76e, 0x49dd, 0x1c4c,
    0x7145, 0x24d4, 0xda67, 0x8ff6, 0x2f10, 0x7a81, 0x8432, 0xd1a3,
    0xcdef, 0x987e, 0x66cd, 0x335c, 0x93ba, 0xc62b, 0x3898, 0x6d09,
    0xe28a, 0xb71b, 0x49a8, 0x1c39, 0xbcdf, 0xe94e, 0x17fd, 0x426c,
    0x5e20, 0x0bb1, 0xf502, 0xa093, 0x0075, 0x55e4, 0xab57, 0xfec6,
    0x93cf, 0xc65e, 0x38ed, 0x6d7c, 0xcd9a, 0x980b, 0x66b8, 0x3329,
    0x2f65, 0x7af4, 0x8447, 0xd1d6, 0x7130, 0x24a1, 0xda12, 0x8f83,
    0xcd05, 0x9894, 0x6627, 0x33b6, 0x9350, 0xc6c1, 0x3872, 0x6de3,
    0x71af, 0x243e, 0xda8d, 0x8f1c, 0x2ffa, 0x7a6b, 0x84d8, 0xd149,
    0xbc40, 0xe9d1, 0x1762, 0x42f3, 0xe215, 0xb784, 0x4937, 0x1ca6,
    0x00ea, 0x557b, 0xabc8, 0xfe59, 0x5ebf, 0x0b2e, 0xf59d, 0xa00c,
    0x2f8f, 0x7a1e, 0x84ad, 0xd13c, 0x71da, 0x244b, 0xdaf8, 0x8f69,
    0x9325, 0xc6b4, 0x3807, 0x6d96, 0xcd70, 0x98e1, 0x6652, 0x33c3,
    0x5eca, 0x0b5b, 0xf5e8, 0xa079, 0x009f, 0x550e, 0xabbd, 0xfe2c,
    0xe260, 0xb7f1, 0x4942, 0x1cd3, 0xbc35, 0xe9a4, 0x1717, 0x4286,
    0x921b, 0xc78a, 0x3939, 0x6ca8, 0xcc4e, 0x99df, 0x676c, 0x32fd,
    0x2eb1, 0x7b20, 0x8593, 0xd002, 0x70e4, 0x2575, 0xdbc6, 0x8e57,
    0xe35e, 0xb6cf, 0x487c, 0x1ded, 0xbd0b, 0xe89a, 0x1629, 0x43b8,
    0x5ff4, 0x0a65, 0xf4d6, 0xa147, 0x01a1, 0x5430, 0xaa83, 0xff12,
    0x7091, 0x2500, 0xdbb3, 0x8e22, 0x2ec4, 0x7b55, 0x85e6, 0xd077,
    0xcc3b, 0x99aa, 0x6719, 0x3288, 0x926e, 0xc7ff, 0x394c, 0x6cdd,
    0x01d4, 0x5445, 0xaaf6, 0xff67, 0x5f81, 0x0a10, 0xf4a3, 0xa132,
    0xbd7e, 0xe8ef, 0x165c, 0x43cd, 0xe32b, 0xb6ba, 0x4809, 0x1d98,
    0x5f1e, 0x0a8f, 0xf43c, 0xa1ad, 0x014b, 0x54da, 0xaa69, 0xfff8,
    0xe3b4, 0xb625, 0x4896, 0x1d07, 0xbde1, 0xe870, 0x16c3, 0x4352,
    0x2e5b, 0x7bca, 0x8579, 0xd0e8, 0x700e, 0x259f, 0xdb2c, 0x8ebd,
    0x92f1, 0xc760, 0x39d3, 0x6c42, 0xcca4, 0x9935, 0x6786, 0x3217,
    0xbd94, 0xe805, 0x16b6, 0x4327, 0xe3c1, 0xb650, 0x48e3, 0x1d72,
    0x013e, 0x54af, 0xaa1c, 0xff8d, 0x5f6b, 0x0afa, 0xf449, 0xa1d8,
    0xccd1, 0x9940, 0x67f3, 0x3262, 0x9284, 0xc715, 0x39a6, 0x6c37,
    0x707b, 0x25ea, 0xdb59, 0x8ec8, 0x2e2e, 0x7bbf, 0x850c, 0xd09d,
];

/// The lane as a combination of its entries for single bits.
pub open spec fn form(byte: u8) -> u16 {
    combine(byte, 0x5591, 0xab22, 0x5e55, 0xbcaa, 0x7145, 0xe28a, 0xcd05, 0x921b)
}

proof fn lemma_entries(byte: u8)
    by (bit_vector)
    ensures
        form(byte) == next(lane_9::form(byte)),
        form(0) == 0x0000, form(1) == 0x5591, form(2) == 0xab22, form(3) == 0xfeb3,
        form(4) == 0x5e55, form(5) == 0x0bc4, form(6) == 0xf577, form(7) == 0xa0e6,
        form(8) == 0xbcaa, form(9) == 0xe93b, form(10) == 0x1788, form(11) == 0x4219,
        form(12) == 0xe2ff, form(13) == 0xb76e, form(14) == 0x49dd, form(15) == 0x1c4c,
        form(16) == 0x7145, form(17) == 0x24d4, form(18) == 0xda67, form(19) == 0x8ff6,
        form(20) == 0x2f10, form(21) == 0x7a81, form(22) == 0x8432, form(23) == 0xd1a3,
        form(24) == 0xcdef, form(25) == 0x987e, form(26) == 0x66cd, form(27) == 0x335c,
        form(28) == 0x93ba, form(29) == 0xc62b, form(30) == 0x3898, form(31) == 0x6d09,
        form(32) == 0xe28a, form(33) == 0xb71b, form(34) == 0x49a8, form(35) == 0x1c39,
        form(36) == 0xbcdf, form(37) == 0xe94e, form(38) == 0x17fd, form(39) == 0x426c,
        form(40) == 0x5e20, form(41) == 0x0bb1, form(42) == 0xf502, form(43) == 0xa093,
        form(44) == 0x0075, form(45) == 0x55e4, form(46) == 0xab57, form(47) == 0xfec6,
        form(48) == 0x93cf, form(49) == 0xc65e, form(50) == 0x38ed, form(51) == 0x6d7c,
        form(52) == 0xcd9a, form(53) == 0x980b, form(54) == 0x66b8, form(55) == 0x3329,
        form(56) == 0x2f65, form(57) == 0x7af4, form(58) == 0x8447, form(59) == 0xd1d6,
        form(60) == 0x7130, form(61) == 0x24a1, form(62) == 0xda12, form(63) == 0x8f83,
        form(64) == 0xcd05, form(65) == 0x9894, form(66) == 0x6627, form(67) == 0x33b6,
        form(68) == 0x9350, form(69) == 0xc6c1, form(70) == 0x3872, form(71) == 0x6de3,
        form(72) == 0x71af, form(73) == 0x243e, form(74) == 0xda8d, form(75) == 0x8f1c,
        form(76) == 0x2ffa, form(77) == 0x7a6b, form(78) == 0x84d8, form(79) == 0xd149,
        form(80) == 0xbc40, form(81) == 0xe9d1, form(82) == 0x1762, form(83) == 0x42f3,
        form(84) == 0xe215, form(85) == 0xb784, form(86) == 0x4937, form(87) == 0x1ca6,
        form(88) == 0x00ea, form(89) == 0x557b, form(90) == 0xabc8, form(91) == 0xfe59,
        form(92) == 0x5ebf, form(93) == 0x0b2e, form(94) == 0xf59d, form(95) == 0xa00c,
        form(96) == 0x2f8f, form(97) == 0x7a1e, form(98) == 0x84ad, form(99) == 0xd13c,
        form(100) == 0x71da, form(101) == 0x244b, form(102) == 0xdaf8, form(103) == 0x8f69,
        form(104) == 0x9325, form(105) == 0xc6b4, form(106) == 0x3807, form(107) == 0x6d96,
        form(108) == 0xcd70, form(109) == 0x98e1, form(110) == 0x6652, form(111) == 0x33c3,
        form(112) == 0x5eca, form(113) == 0x0b5b, form(114) == 0xf5e8, form(115) == 0xa079,
        form(116) == 0x009f, form(117) == 0x550e, form(118) == 0xabbd, form(119) == 0xfe2c,
        form(120) == 0xe260, form(121) == 0xb7f1, form(122) == 0x4942, form(123) == 0x1cd3,
        form(124) == 0xbc35, form(125) == 0xe9a4, form(126) == 0x1717, form(127) == 0x4286,
        form(128) == 0x921b, form(129) == 0xc78a, form(130) == 0x3939, form(131) == 0x6ca8,
        form(132) == 0xcc4e, form(133) == 0x99df, form(134) == 0x676c, form(135) == 0x32fd,
        form(136) == 0x2eb1, form(137) == 0x7b20, form(138) == 0x8593, form(139) == 0xd002,
        form(140) == 0x70e4, form(141) == 0x2575, form(142) == 0xdbc6, form(143) == 0x8e57,
        form(144) == 0xe35e, form(145) == 0xb6cf, form(146) == 0x487c, form(147) == 0x1ded,
        form(148) == 0xbd0b, form(149) == 0xe89a, form(150) == 0x1629, form(151) == 0x43b8,
        form(152) == 0x5ff4, form(153) == 0x0a65, form(154) == 0xf4d6, form(155) == 0xa147,
        form(156) == 0x01a1, form(157) == 0x5430, form(158) == 0xaa83, form(159) == 0xff12,
        form(160) == 0x7091, form(161) == 0x2500, form(162) == 0xdbb3, form(163) == 0x8e22,
        form(164) == 0x2ec4, form(165) == 0x7b55, form(166) == 0x85e6, form(167) == 0xd077,
        form(168) == 0xcc3b, form(169) == 0x99aa, form(170) == 0x6719, form(171) == 0x3288,
        form(172) == 0x926e, form(173) == 0xc7ff, form(174) == 0x394c, form(175) == 0x6cdd,
        form(176) == 0x01d4, form(177) == 0x5445, form(178) == 0xaaf6, form(179) == 0xff67,
        form(180) == 0x5f81, form(181) == 0x0a10, form(182) == 0xf4a3, form(183) == 0xa132,
        form(184) == 0xbd7e, form(185) == 0xe8ef, form(186) == 0x165c, form(187) == 0x43cd,
        form(188) == 0xe32b, form(189) == 0xb6ba, form(190) == 0x4809, form(191) == 0x1d98,
        form(192) == 0x5f1e, form(193) == 0x0a8f, form(194) == 0xf43c, form(195) == 0xa1ad,
        form(196) == 0x014b, form(197) == 0x54da, form(198) == 0xaa69, form(199) == 0xfff8,
        form(200) == 0xe3b4, form(201) == 0xb625, form(202) == 0x4896, form(203) == 0x1d07,
        form(204) == 0xbde1, form(205) == 0xe870, form(206) == 0x16c3, form(207) == 0x4352,
        form(208) == 0x2e5b, form(209) == 0x7bca, form(210) == 0x8579, form(211) == 0xd0e8,
        form(212) == 0x700e, form(213) == 0x259f, form(214) == 0xdb2c, form(215) == 0x8ebd,
        form(216) == 0x92f1, form(217) == 0xc760, form(218) == 0x39d3, form(219) == 0x6c42,
        form(220) == 0xcca4, form(221) == 0x9935, form(222) == 0x6786, form(223) == 0x3217,
        form(224) == 0xbd94, form(225) == 0xe805, form(226) == 0x16b6, form(227) == 0x4327,
        form(228) == 0xe3c1, form(229) == 0xb650, form(230) == 0x48e3, form(231) == 0x1d72,
        form(232) == 0x013e, form(233) == 0x54af, form(234) == 0xaa1c, form(235) == 0xff8d,
        form(236) == 0x5f6b, form(237) == 0x0afa, form(238) == 0xf449, form(239) == 0xa1d8,
        form(240) == 0xccd1, form(241) == 0x9940, form(242) == 0x67f3, form(243) == 0x3262,
        form(244) == 0x9284, form(245) == 0xc715, form(246) == 0x39a6, form(247) == 0x6c37,
        form(248) == 0x707b, form(249) == 0x25ea, form(250) == 0xdb59, form(251) == 0x8ec8,
        form(252) == 0x2e2e, form(253) == 0x7bbf, form(254) == 0x850c, form(255) == 0xd09d,
{
}

/// The combination is the lane value.
pub proof fn lemma_form(byte: u8)
    ensures
        form(byte) == lane_value(10, byte),
{
    lemma_entries(byte);
    lane_9::lemma_form(byte);
    lemma_lane_above(byte, 9);
}

/// Every entry is the lane value of its index.
pub proof fn lemma_lane()
    ensures
        holds_lane(LANE, 10),
{
    assert forall|i: int| 0 <= i < 256 implies #[trigger] LANE@[i] == lane_value(10, i as u8) by {
        reveal(LANE);
        lemma_form(i as u8);
        lemma_entries(0);
        lemma_indices(i);
    }
}

} // verus!
