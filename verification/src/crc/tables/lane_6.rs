//! Contribution of a byte that is followed by 6 more bytes.
use vstd::prelude::*;

use super::super::model::lane_value;
use super::lane_5;
use super::forms::{combine, holds_lane, lemma_indices, lemma_lane_above, next};

verus! {

/// The lane, indexed by the byte.
#[verifier::opaque]
pub const LANE: [u16; 256] = [
    0x0000, 0x9fd5, 0x37bb, 0xa86e, 0x6f76, 0xf0a3, 0x58cd, 0xc718,
    0xdeec, 0x4139, 0xe957, 0x7682, 0xb19a, 0x2e4f, 0x8621, 0x19f4,
    0xb5c9, 0x2a1c, 0x8272, 0x1da7, 0xdabf, 0x456a, 0xed04, 0x72d1,
    0x6b25, 0xf4f0, 0x5c9e, 0xc34b, 0x0453, 0x9b86, 0x33e8, 0xac3d,
    0x6383, 0xfc56, 0x5438, 0xcbed, 0x0cf5, 0x9320, 0x3b4e, 0xa49b,
    0xbd6f, 0x22ba, 0x8ad4, 0x1501, 0xd219, 0x4dcc, 0xe5a2, 0x7a77,
    0xd64a, 0x499f, 0xe1f1, 0x7e24, 0xb93c, 0x26e9, 0x8e87, 0x1152,
    0x08a6, 0x9773, 0x3f1d, 0xa0c8, 0x67d0, 0xf805, 0x506b, 0xcfbe,
    0xc706, 0x58d3, 0xf0bd, 0x6f68, 0xa870, 0x37a5, 0x9fcb, 0x001e,
    0x19ea, 0x863f, 0x2e51, 0xb184, 0x769c, 0xe949, 0x4127, 0xdef2,
    0x72cf, 0xed1a, 0x4574, 0xdaa1, 0x1db9, 0x826c, 0x2a02, 0xb5d7,
    0xac23, 0x33f6, 0x9b98, 0x044d, 0xc355, 0x5c80, 0xf4ee, 0x6b3b,
    0xa485, 0x3b50, 0x933e, 0x0ceb, 0xcbf3, 0x5426, 0xfc48, 0x639d,
    0x7a69, 0xe5bc, 0x4dd2, 0xd207, 0x151f, 0x8aca, 0x22a4, 0xbd71,
    0x114c, 0x8e99, 0x26f7, 0xb922, 0x7e3a, 0xe1ef, 0x4981, 0xd654,
    0xcfa0, 0x5075, 0xf81b, 0x67ce, 0xa0d6, 0x3f03, 0x976d, 0x08b8,
    0x861d, 0x19c8, 0xb1a6, 0x2e73, 0xe96b, 0x76be, 0xded0, 0x4105,
    0x58f1, 0xc724, 0x6f4a, 0xf09f, 0x3787, 0xa852, 0x003c, 0x9fe9,
    0x33d4, 0xac01, 0x046f, 0x9bba, 0x5ca2, 0xc377, 0x6b19, 0xf4cc,
    0xed38, 0x72ed, 0xda83, 0x4556, 0x824e, 0x1d9b, 0xb5f5, 0x2a20,
    0xe59e, 0x7a4b, 0xd225, 0x4df0, 0x8ae8, 0x153d, 0xbd53, 0x2286,
    0x3b72, 0xa4a7, 0x0cc9, 0x931c, 0x5404, 0xcbd1, 0x63bf, 0xfc6a,
    0x5057, 0xcf82, 0x67ec, 0xf839, 0x3f21, 0xa0f4, 0x089a, 0x974f,
    0x8ebb, 0x116e, 0xb900, 0x26d5, 0xe1cd, 0x7e18, 0xd676, 0x49a3,
    0x411b, 0xdece, 0x76a0, 0xe975, 0x2e6d, 0xb1b8, 0x19d6, 0x8603,
    0x9ff7, 0x0022, 0xa84c, 0x3799, 0xf081, 0x6f54, 0xc73a, 0x58ef,
    0xf4d2, 0x6b07, 0xc369, 0x5cbc, 0x9ba4, 0x0471, 0xac1f, 0x33ca,
    0x2a3e, 0xb5eb, 0x1d85, 0x8250, 0x4548, 0xda9d, 0x72f3, 0xed26,
    0x2298, 0xbd4d, 0x1523, 0x8af6, 0x4dee, 0xd23b, 0x7a55, 0xe580,
    0xfc74, 0x63a1, 0xcbcf, 0x541a, 0x9302, 0x0cd7, 0xa4b9, 0x3b6c,
    0x9751, 0x0884, 0xa0ea, 0x3f3f, 0xf827, 0x67f2, 0xcf9c, 0x5049,
    0x49bd, 0xd668, 0x7e06, 0xe1d3, 0x26cb, 0xb91e, 0x1170, 0x8ea5,
];

/// The lane as a combination of its entries for single bits.
pub open spec fn form(byte: u8) -> u16 {
    combine(byte, 0x9fd5, 0x37bb, 0x6f76, 0xdeec, 0xb5c9, 0x6383, 0xc706, 0x861d)
}

proof fn lemma_entries(byte: u8)
    by (bit_vector)
    ensures
        form(byte) == next(lane_5::form(byte)),
        form(0) == 0x0000, form(1) == 0x9fd5, form(2) == 0x37bb, form(3) == 0xa86e,
        form(4) == 0x6f76, form(5) == 0xf0a3, form(6) == 0x58cd, form(7) == 0xc718,
        form(8) == 0xdeec, form(9) == 0x4139, form(10) == 0xe957, form(11) == 0x7682,
        form(12) == 0xb19a, form(13) == 0x2e4f, form(14) == 0x8621, form(15) == 0x19f4,
        form(16) == 0xb5c9, form(17) == 0x2a1c, form(18) == 0x8272, form(19) == 0x1da7,
        form(20) == 0xdabf, form(21) == 0x456a, form(22) == 0xed04, form(23) == 0x72d1,
        form(24) == 0x6b25, form(25) == 0xf4f0, form(26) == 0x5c9e, form(27) == 0xc34b,
        form(28) == 0x0453, form(29) == 0x9b86, form(30) == 0x33e8, form(31) == 0xac3d,
        form(32) == 0x6383, form(33) == 0xfc56, form(34) == 0x5438, form(35) == 0xcbed,
        form(36) == 0x0cf5, form(37) == 0x9320, form(38) == 0x3b4e, form(39) == 0xa49b,
        form(40) == 0xbd6f, form(41) == 0x22ba, form(42) == 0x8ad4, form(43) == 0x1501,
        form(44) == 0xd219, form(45) == 0x4dcc, form(46) == 0xe5a2, form(47) == 0x7a77,
        form(48) == 0xd64a, form(49) == 0x499f, form(50) == 0xe1f1, form(51) == 0x7e24,
        form(52) == 0xb93c, form(53) == 0x26e9, form(54) == 0x8e87, form(55) == 0x1152,
        form(56) == 0x08a6, form(57) == 0x9773, form(58) == 0x3f1d, form(59) == 0xa0c8,
        form(60) == 0x67d0, form(61) == 0xf805, form(62) == 0x506b, form(63) == 0xcfbe,
        form(64) == 0xc706, form(65) == 0x58d3, form(66) == 0xf0bd, form(67) == 0x6f68,
        form(68) == 0xa870, form(69) == 0x37a5, form(70) == 0x9fcb, form(71) == 0x001e,
        form(72) == 0x19ea, form(73) == 0x863f, form(74) == 0x2e51, form(75) == 0xb184,
        form(76) == 0x769c, form(77) == 0xe949, form(78) == 0x4127, form(79) == 0xdef2,
        form(80) == 0x72cf, form(81) == 0xed1a, form(82) == 0x4574, form(83) == 0xdaa1,
        form(84) == 0x1db9, form(85) == 0x826c, form(86) == 0x2a02, form(87) == 0xb5d7,
        form(88) == 0xac23, form(89) == 0x33f6, form(90) == 0x9b98, form(91) == 0x044d,
        form(92) == 0xc355, form(93) == 0x5c80, form(94) == 0xf4ee, form(95) == 0x6b3b,
        form(96) == 0xa485, form(97) == 0x3b50, form(98) == 0x933e, form(99) == 0x0ceb,
        form(100) == 0xcbf3, form(101) == 0x5426, form(102) == 0xfc48, form(103) == 0x639d,
        form(104) == 0x7a69, form(105) == 0xe5bc, form(106) == 0x4dd2, form(107) == 0xd207,
        form(108) == 0x151f, form(109) == 0x8aca, form(110) == 0x22a4, form(111) == 0xbd71,
        form(112) == 0x114c, form(113) == 0x8e99, form(114) == 0x26f7, form(115) == 0xb922,
        form(116) == 0x7e3a, form(117) == 0xe1ef, form(118) == 0x4981, form(119) == 0xd654,
        form(120) == 0xcfa0, form(121) == 0x5075, form(122) == 0xf81b, form(123) == 0x67ce,
        form(124) == 0xa0d6, form(125) == 0x3f03, form(126) == 0x976d, form(127) == 0x08b8,
        form(128) == 0x861d, form(129) == 0x19c8, form(130) == 0xb1a6, form(131) == 0x2e73,
        form(132) == 0xe96b, form(133) == 0x76be, form(134) == 0xded0, form(135) == 0x4105,
        form(136) == 0x58f1, form(137) == 0xc724, form(138) == 0x6f4a, form(139) == 0xf09f,
        form(140) == 0x3787, form(141) == 0xa852, form(142) == 0x003c, form(143) == 0x9fe9,
        form(144) == 0x33d4, form(145) == 0xac01, form(146) == 0x046f, form(147) == 0x9bba,
        form(148) == 0x5ca2, form(149) == 0xc377, form(150) == 0x6b19, form(151) == 0xf4cc,
        form(152) == 0xed38, form(153) == 0x72ed, form(154) == 0xda83, form(155) == 0x4556,
        form(156) == 0x824e, form(157) == 0x1d9b, form(158) == 0xb5f5, form(159) == 0x2a20,
        form(160) == 0xe59e, form(161) == 0x7a4b, form(162) == 0xd225, form(163) == 0x4df0,
        form(164) == 0x8ae8, form(165) == 0x153d, form(166) == 0xbd53, form(167) == 0x2286,
        form(168) == 0x3b72, form(169) == 0xa4a7, form(170) == 0x0cc9, form(171) == 0x931c,
        form(172) == 0x5404, form(173) == 0xcbd1, form(174) == 0x63bf, form(175) == 0xfc6a,
        form(176) == 0x5057, form(177) == 0xcf82, form(178) == 0x67ec, form(179) == 0xf839,
        form(180) == 0x3f21, form(181) == 0xa0f4, form(182) == 0x089a, form(183) == 0x974f,
        form(184) == 0x8ebb, form(185) == 0x116e, form(186) == 0xb900, form(187) == 0x26d5,
        form(188) == 0xe1cd, form(189) == 0x7e18, form(190) == 0xd676, form(191) == 0x49a3,
        form(192) == 0x411b, form(193) == 0xdece, form(194) == 0x76a0, form(195) == 0xe975,
        form(196) == 0x2e6d, form(197) == 0xb1b8, form(198) == 0x19d6, form(199) == 0x8603,
        form(200) == 0x9ff7, form(201) == 0x0022, form(202) == 0xa84c, form(203) == 0x3799,
        form(204) == 0xf081, form(205) == 0x6f54, form(206) == 0xc73a, form(207) == 0x58ef,
        form(208) == 0xf4d2, form(209) == 0x6b07, form(210) == 0xc369, form(211) == 0x5cbc,
        form(212) == 0x9ba4, form(213) == 0x0471, form(214) == 0xac1f, form(215) == 0x33ca,
        form(216) == 0x2a3e, form(217) == 0xb5eb, form(218) == 0x1d85, form(219) == 0x8250,
        form(220) == 0x4548, form(221) == 0xda9d, form(222) == 0x72f3, form(223) == 0xed26,
        form(224) == 0x2298, form(225) == 0xbd4d, form(226) == 0x1523, form(227) == 0x8af6,
        form(228) == 0x4dee, form(229) == 0xd23b, form(230) == 0x7a55, form(231) == 0xe580,
        form(232) == 0xfc74, form(233) == 0x63a1, form(234) == 0xcbcf, form(235) == 0x541a,
        form(236) == 0x9302, form(237) == 0x0cd7, form(238) == 0xa4b9, form(239) == 0x3b6c,
        form(240) == 0x9751, form(241) == 0x0884, form(242) == 0xa0ea, form(243) == 0x3f3f,
        form(244) == 0xf827, form(245) == 0x67f2, form(246) == 0xcf9c, form(247) == 0x5049,
        form(248) == 0x49bd, form(249) == 0xd668, form(250) == 0x7e06, form(251) == 0xe1d3,
        form(252) == 0x26cb, form(253) == 0xb91e, form(254) == 0x1170, form(255) == 0x8ea5,
{
}

/// The combination is the lane value.
pub proof fn lemma_form(byte: u8)
    ensures
        form(byte) == lane_value(6, byte),
{
    lemma_entries(byte);
    lane_5::lemma_form(byte);
    lemma_lane_above(byte, 5);
}

/// Every entry is the lane value of its index.
pub proof fn lemma_lane()
    ensures
        holds_lane(LANE, 6),
{
    assert forall|i: int| 0 <= i < 256 implies #[trigger] LANE@[i] == lane_value(6, i as u8) by {
        reveal(LANE);
        lemma_form(i as u8);
        lemma_entries(0);
        lemma_indices(i);
    }
}

} // verus!
