//! Contribution of a byte that is followed by 15 more bytes.
use vstd::prelude::*;

use super::super::model::lane_value;
use super::lane_14;
use super::forms::{combine, holds_lane, lemma_indices, lemma_lane_above, next};

verus! {

/// The lane, indexed by the byte.
#[verifier::opaque]
pub const LANE: [u16; 256] = [
    0x0000, 0x8e10, 0x1431, 0x9a21, 0x2862, 0xa672, 0x3c53, 0xb243,
    0x50c4, 0xded4, 0x44f5, 0xcae5, 0x78a6, 0xf6b6, 0x6c97, 0xe287,
    0xa188, 0x2f98, 0xb5b9, 0x3ba9, 0x89ea, 0x07fa, 0x9ddb, 0x13cb,
    0xf14c, 0x7f5c, 0xe57d, 0x6b6d, 0xd92e, 0x573e, 0xcd1f, 0x430f,
    0x4b01, 0xc511, 0x5f30, 0xd120, 0x6363, 0xed73, 0x7752, 0xf942,
    0x1bc5, 0x95d5, 0x0ff4, 0x81e4, 0x33a7, 0xbdb7, 0x2796, 0xa986,
    0xea89, 0x6499, 0xfeb8, 0x70a8, 0xc2eb, 0x4cfb, 0xd6da, 0x58ca,
    0xba4d, 0x345d, 0xae7c, 0x206c, 0x922f, 0x1c3f, 0x861e, 0x080e,
    0x9602, 0x1812, 0x8233, 0x0c23, 0xbe60, 0x3070, 0xaa51, 0x2441,
    0xc6c6, 0x48d6, 0xd2f7, 0x5ce7, 0xeea4, 0x60b4, 0xfa95, 0x7485,
    0x378a, 0xb99a, 0x23bb, 0xadab, 0x1fe8, 0x91f8, 0x0bd9, 0x85c9,
    0x674e, 0xe95e, 0x737f, 0xfd6f, 0x4f2c, 0xc13c, 0x5b1d, 0xd50d,
    0xdd03, 0x5313, 0xc932, 0x4722, 0xf561, 0x7b71, 0xe150, 0x6f40,
    0x8dc7, 0x03d7, 0x99f6, 0x17e6, 0xa5a5, 0x2bb5, 0xb194, 0x3f84,
    0x7c8b, 0xf29b, 0x68ba, 0xe6aa, 0x54e9, 0xdaf9, 0x40d8, 0xcec8,
    0x2c4f, 0xa25f, 0x387e, 0xb66e, 0x042d, 0x8a3d, 0x101c, 0x9e0c,
    0x2415, 0xaa05, 0x3024, 0xbe34, 0x0c77, 0x8267, 0x1846, 0x9656,
    0x74d1, 0xfac1, 0x60e0, 0xeef0, 0x5cb3, 0xd2a3, 0x4882, 0xc692,
    0x859d, 0x0b8d, 0x91ac, 0x1fbc, 0xadff, 0x23ef, 0xb9ce, 0x37de,
    0xd559, 0x5b49, 0xc168, 0x4f78, 0xfd3b, 0x732b, 0xe90a, 0x671a,
    0x6f14, 0xe104, 0x7b25, 0xf535, 0x4776, 0xc966, 0x5347, 0xdd57,
    0x3fd0, 0xb1c0, 0x2be1, 0xa5f1, 0x17b2, 0x99a2, 0x0383, 0x8d93,
    0xce9c, 0x408c, 0xdaad, 0x54bd, 0xe6fe, 0x68ee, 0xf2cf, 0x7cdf,
    0x9e58, 0x1048, 0x8a69, 0x0479, 0xb63a, 0x382a, 0xa20b, 0x2c1b,
    0xb217, 0x3c07, 0xa626, 0x2836, 0x9a75, 0x1465, 0x8e44, 0x0054,
    0xe2d3, 0x6cc3, 0xf6e2, 0x78f2, 0xcab1, 0x44a1, 0xde80, 0x5090,
    0x139f, 0x9d8f, 0x07ae, 0x89be, 0x3bfd, 0xb5ed, 0x2fcc, 0xa1dc,
    0x435b, 0xcd4b, 0x576a, 0xd97a, 0x6b39, 0xe529, 0x7f08, 0xf118,
    0xf916, 0x7706, 0xed27, 0x6337, 0xd174, 0x5f64, 0xc545, 0x4b55,
    0xa9d2, 0x27c2, 0xbde3, 0x33f3, 0x81b0, 0x0fa0, 0x9581, 0x1b91,
    0x589e, 0xd68e, 0x4caf, 0xc2bf, 0x70fc, 0xfeec, 0x64cd, 0xeadd,
    0x085a, 0x864a, 0x1c6b, 0x927b, 0x2038, 0xae28, 0x3409, 0xba19,
];

/// The lane as a combination of its entries for single bits.
pub open spec fn form(byte: u8) -> u16 {
    combine(byte, 0x8e10, 0x1431, 0x2862, 0x50c4, 0xa188, 0x4b01, 0x9602, 0x2415)
}

proof fn lemma_entries(byte: u8)
    by (bit_vector)
    ensures
        form(byte) == next(lane_14::form(byte)),
        form(0) == 0x0000, form(1) == 0x8e10, form(2) == 0x1431, form(3) == 0x9a21,
        form(4) == 0x2862, form(5) == 0xa672, form(6) == 0x3c53, form(7) == 0xb243,
        form(8) == 0x50c4, form(9) == 0xded4, form(10) == 0x44f5, form(11) == 0xcae5,
        form(12) == 0x78a6, form(13) == 0xf6b6, form(14) == 0x6c97, form(15) == 0xe287,
        form(16) == 0xa188, form(17) == 0x2f98, form(18) == 0xb5b9, form(19) == 0x3ba9,
        form(20) == 0x89ea, form(21) == 0x07fa, form(22) == 0x9ddb, form(23) == 0x13cb,
        form(24) == 0xf14c, form(25) == 0x7f5c, form(26) == 0xe57d, form(27) == 0x6b6d,
        form(28) == 0xd92e, form(29) == 0x573e, form(30) == 0xcd1f, form(31) == 0x430f,
        form(32) == 0x4b01, form(33) == 0xc511, form(34) == 0x5f30, form(35) == 0xd120,
        form(36) == 0x6363, form(37) == 0xed73, form(38) == 0x7752, form(39) == 0xf942,
        form(40) == 0x1bc5, form(41) == 0x95d5, form(42) == 0x0ff4, form(43) == 0x81e4,
        form(44) == 0x33a7, form(45) == 0xbdb7, form(46) == 0x2796, form(47) == 0xa986,
        form(48) == 0xea89, form(49) == 0x6499, form(50) == 0xfeb8, form(51) == 0x70a8,
        form(52) == 0xc2eb, form(53) == 0x4cfb, form(54) == 0xd6da, form(55) == 0x58ca,
        form(56) == 0xba4d, form(57) == 0x345d, form(58) == 0xae7c, form(59) == 0x206c,
        form(60) == 0x922f, form(61) == 0x1c3f, form(62) == 0x861e, form(63) == 0x080e,
        form(64) == 0x9602, form(65) == 0x1812, form(66) == 0x8233, form(67) == 0x0c23,
        form(68) == 0xbe60, form(69) == 0x3070, form(70) == 0xaa51, form(71) == 0x2441,
        form(72) == 0xc6c6, form(73) == 0x48d6, form(74) == 0xd2f7, form(75) == 0x5ce7,
        form(76) == 0xeea4, form(77) == 0x60b4, form(78) == 0xfa95, form(79) == 0x7485,
        form(80) == 0x378a, form(81) == 0xb99a, form(82) == 0x23bb, form(83) == 0xadab,
        form(84) == 0x1fe8, form(85) == 0x91f8, form(86) == 0x0bd9, form(87) == 0x85c9,
        form(88) == 0x674e, form(89) == 0xe95e, form(90) == 0x737f, form(91) == 0xfd6f,
        form(92) == 0x4f2c, form(93) == 0xc13c, form(94) == 0x5b1d, form(95) == 0xd50d,
        form(96) == 0xdd03, form(97) == 0x5313, form(98) == 0xc932, form(99) == 0x4722,
        form(100) == 0xf561, form(101) == 0x7b71, form(102) == 0xe150, form(103) == 0x6f40,
        form(104) == 0x8dc7, form(105) == 0x03d7, form(106) == 0x99f6, form(107) == 0x17e6,
        form(108) == 0xa5a5, form(109) == 0x2bb5, form(110) == 0xb194, form(111) == 0x3f84,
        form(112) == 0x7c8b, form(113) == 0xf29b, form(114) == 0x68ba, form(115) == 0xe6aa,
        form(116) == 0x54e9, form(117) == 0xdaf9, form(118) == 0x40d8, form(119) == 0xcec8,
        form(120) == 0x2c4f, form(121) == 0xa25f, form(122) == 0x387e, form(123) == 0xb66e,
        form(124) == 0x042d, form(125) == 0x8a3d, form(126) == 0x101c, form(127) == 0x9e0c,
        form(128) == 0x2415, form(129) == 0xaa05, form(130) == 0x3024, form(131) == 0xbe34,
        form(132) == 0x0c77, form(133) == 0x8267, form(134) == 0x1846, form(135) == 0x9656,
        form(136) == 0x74d1, form(137) == 0xfac1, form(138) == 0x60e0, form(139) == 0xeef0,
        form(140) == 0x5cb3, form(141) == 0xd2a3, form(142) == 0x4882, form(143) == 0xc692,
        form(144) == 0x859d, form(145) == 0x0b8d, form(146) == 0x91ac, form(147) == 0x1fbc,
        form(148) == 0xadff, form(149) == 0x23ef, form(150) == 0xb9ce, form(151) == 0x37de,
        form(152) == 0xd559, form(153) == 0x5b49, form(154) == 0xc168, form(155) == 0x4f78,
        form(156) == 0xfd3b, form(157) == 0x732b, form(158) == 0xe90a, form(159) == 0x671a,
        form(160) == 0x6f14, form(161) == 0xe104, form(162) == 0x7b25, form(163) == 0xf535,
        form(164) == 0x4776, form(165) == 0xc966, form(166) == 0x5347, form(167) == 0xdd57,
        form(168) == 0x3fd0, form(169) == 0xb1c0, form(170) == 0x2be1, form(171) == 0xa5f1,
        form(172) == 0x17b2, form(173) == 0x99a2, form(174) == 0x0383, form(175) == 0x8d93,
        form(176) == 0xce9c, form(177) == 0x408c, form(178) == 0xdaad, form(179) == 0x54bd,
        form(180) == 0xe6fe, form(181) == 0x68ee, form(182) == 0xf2cf, form(183) == 0x7cdf,
        form(184) == 0x9e58, form(185) == 0x1048, form(186) == 0x8a69, form(187) == 0x0479,
        form(188) == 0xb63a, form(189) == 0x382a, form(190) == 0xa20b, form(191) == 0x2c1b,
        form(192) == 0xb217, form(193) == 0x3c07, form(194) == 0xa626, form(195) == 0x2836,
        form(196) == 0x9a75, form(197) == 0x1465, form(198) == 0x8e44, form(199) == 0x0054,
        form(200) == 0xe2d3, form(201) == 0x6cc3, form(202) == 0xf6e2, form(203) == 0x78f2,
        form(204) == 0xcab1, form(205) == 0x44a1, form(206) == 0xde80, form(207) == 0x5090,
        form(208) == 0x139f, form(209) == 0x9d8f, form(210) == 0x07ae, form(211) == 0x89be,
        form(212) == 0x3bfd, form(213) == 0xb5ed, form(214) == 0x2fcc, form(215) == 0xa1dc,
        form(216) == 0x435b, form(217) == 0xcd4b, form(218) == 0x576a, form(219) == 0xd97a,
        form(220) == 0x6b39, form(221) == 0xe529, form(222) == 0x7f08, form(223) == 0xf118,
        form(224) == 0xf916, form(225) == 0x7706, form(226) == 0xed27, form(227) == 0x6337,
        form(228) == 0xd174, form(229) == 0x5f64, form(230) == 0xc545, form(231) == 0x4b55,
        form(232) == 0xa9d2, form(233) == 0x27c2, form(234) == 0xbde3, form(235) == 0x33f3,
        form(236) == 0x81b0, form(237) == 0x0fa0, form(238) == 0x9581, form(239) == 0x1b91,
        form(240) == 0x589e, form(241) == 0xd68e, form(242) == 0x4caf, form(243) == 0xc2bf,
        form(244) == 0x70fc, form(245) == 0xfeec, form(246) == 0x64cd, form(247) == 0xeadd,
        form(248) == 0x085a, form(249) == 0x864a, form(250) == 0x1c6b, form(251) == 0x927b,
        form(252) == 0x2038, form(253) == 0xae28, form(254) == 0x3409, form(255) == 0xba19,
{
}

/// The combination is the lane value.
pub proof fn lemma_form(byte: u8)
    ensures
        form(byte) == lane_value(15, byte),
{
    lemma_entries(byte);
    lane_14::lemma_form(byte);
    lemma_lane_above(byte, 14);
}

/// Every entry is the lane value of its index.
pub proof fn lemma_lane()
    ensures
        holds_lane(LANE, 15),
{
    assert forall|i: int| 0 <= i < 256 implies #[trigger] LANE@[i] == lane_value(15, i as u8) by {
        reveal(LANE);
        lemma_form(i as u8);
        lemma_entries(0);
        lemma_indices(i);
    }
}

} // verus!
