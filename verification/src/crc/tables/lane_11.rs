//! Contribution of a byte that is followed by 11 more bytes.
use vstd::prelude::*;

use super::super::model::lane_value;
use super::lane_10;
use super::forms::{combine, holds_lane, lemma_indices, lemma_lane_above, next};

verus! {

/// The lane, indexed by the byte.
#[verifier::opaque]
pub const LANE: [u16; 256] = [
    0x0000, 0x8555, 0x02bb, 0x87ee, 0x0576, 0x8023, 0x07cd, 0x8298,
    0x0aec, 0x8fb9, 0x0857, 0x8d02, 0x0f9a, 0x8acf, 0x0d21, 0x8874,
    0x15d8, 0x908d, 0x1763, 0x9236, 0x10ae, 0x95fb, 0x1215, 0x9740,
    0x1f34, 0x9a61, 0x1d8f, 0x98da, 0x1a42, 0x9f17, 0x18f9, 0x9dac,
    0x2bb0, 0xaee5, 0x290b, 0xac5e, 0x2ec6, 0xab93, 0x2c7d, 0xa928,
    0x215c, 0xa409, 0x23e7, 0xa6b2, 0x242a, 0xa17f, 0x2691, 0xa3c4,
    0x3e68, 0xbb3d, 0x3cd3, 0xb986, 0x3b1e, 0xbe4b, 0x39a5, 0xbcf0,
    0x3484, 0xb1d1, 0x363f, 0xb36a, 0x31f2, 0xb4a7, 0x3349, 0xb61c,
    0x5760, 0xd235, 0x55db, 0xd08e, 0x5216, 0xd743, 0x50ad, 0xd5f8,
    0x5d8c, 0xd8d9, 0x5f37, 0xda62, 0x58fa, 0xddaf, 0x5a41, 0xdf14,
    0x42b8, 0xc7ed, 0x4003, 0xc556, 0x47ce, 0xc29b, 0x4575, 0xc020,
    0x4854, 0xcd01, 0x4aef, 0xcfba, 0x4d22, 0xc877, 0x4f99, 0xcacc,
    0x7cd0, 0xf985, 0x7e6b, 0xfb3e, 0x79a6, 0xfcf3, 0x7b1d, 0xfe48,
    0x763c, 0xf369, 0x7487, 0xf1d2, 0x734a, 0xf61f, 0x71f1, 0xf4a4,
    0x6908, 0xec5d, 0x6bb3, 0xeee6, 0x6c7e, 0xe92b, 0x6ec5, 0xeb90,
    0x63e4, 0xe6b1, 0x615f, 0xe40a, 0x6692, 0xe3c7, 0x6429, 0xe17c,
    0xaec0, 0x2b95, 0xac7b, 0x292e, 0xabb6, 0x2ee3, 0xa90d, 0x2c58,
    0xa42c, 0x2179, 0xa697, 0x23c2, 0xa15a, 0x240f, 0xa3e1, 0x26b4,
    0xbb18, 0x3e4d, 0xb9a3, 0x3cf6, 0xbe6e, 0x3b3b, 0xbcd5, 0x3980,
    0xb1f4, 0x34a1, 0xb34f, 0x361a, 0xb482, 0x31d7, 0xb639, 0x336c,
    0x8570, 0x0025, 0x87cb, 0x029e, 0x8006, 0x0553, 0x82bd, 0x07e8,
    0x8f9c, 0x0ac9, 0x8d27, 0x0872, 0x8aea, 0x0fbf, 0x8851, 0x0d04,
    0x90a8, 0x15fd, 0x9213, 0x1746, 0x95de, 0x108b, 0x9765, 0x1230,
    0x9a44, 0x1f11, 0x98ff, 0x1daa, 0x9f32, 0x1a67, 0x9d89, 0x18dc,
    0xf9a0, 0x7cf5, 0xfb1b, 0x7e4e, 0xfcd6, 0x7983, 0xfe6d, 0x7b38,
    0xf34c, 0x7619, 0xf1f7, 0x74a2, 0xf63a, 0x736f, 0xf481, 0x71d4,
    0xec78, 0x692d, 0xeec3, 0x6b96, 0xe90e, 0x6c5b, 0xebb5, 0x6ee0,
    0xe694, 0x63c1, 0xe42f, 0x617a, 0xe3e2, 0x66b7, 0xe159, 0x640c,
    0xd210, 0x5745, 0xd0ab, 0x55fe, 0xd766, 0x5233, 0xd5dd, 0x5088,
    0xd8fc, 0x5da9, 0xda47, 0x5f12, 0xdd8a, 0x58df, 0xdf31, 0x5a64,
    0xc7c8, 0x429d, 0xc573, 0x4026, 0xc2be, 0x47eb, 0xc005, 0x4550,
    0xcd24, 0x4871, 0xcf9f, 0x4aca, 0xc852, 0x4d07, 0xcae9, 0x4fbc,
];

/// The lane as a combination of its entries for single bits.
pub open spec fn form(byte: u8) -> u16 {
    combine(byte, 0x8555, 0x02bb, 0x0576, 0x0aec, 0x15d8, 0x2bb0, 0x5760, 0xaec0)
}

proof fn lemma_entries(byte: u8)
    by (bit_vector)
    ensures
        form(byte) == next(lane_10::form(byte)),
        form(0) == 0x0000, form(1) == 0x8555, form(2) == 0x02bb, form(3) == 0x87ee,
        form(4) == 0x0576, form(5) == 0x8023, form(6) == 0x07cd, form(7) == 0x8298,
        form(8) == 0x0aec, form(9) == 0x8fb9, form(10) == 0x0857, form(11) == 0x8d02,
        form(12) == 0x0f9a, form(13) == 0x8acf, form(14) == 0x0d21, form(15) == 0x8874,
        form(16) == 0x15d8, form(17) == 0x908d, form(18) == 0x1763, form(19) == 0x9236,
        form(20) == 0x10ae, form(21) == 0x95fb, form(22) == 0x1215, form(23) == 0x9740,
        form(24) == 0x1f34, form(25) == 0x9a61, form(26) == 0x1d8f, form(27) == 0x98da,
        form(28) == 0x1a42, form(29) == 0x9f17, form(30) == 0x18f9, form(31) == 0x9dac,
        form(32) == 0x2bb0, form(33) == 0xaee5, form(34) == 0x290b, form(35) == 0xac5e,
        form(36) == 0x2ec6, form(37) == 0xab93, form(38) == 0x2c7d, form(39) == 0xa928,
        form(40) == 0x215c, form(41) == 0xa409, form(42) == 0x23e7, form(43) == 0xa6b2,
        form(44) == 0x242a, form(45) == 0xa17f, form(46) == 0x2691, form(47) == 0xa3c4,
        form(48) == 0x3e68, form(49) == 0xbb3d, form(50) == 0x3cd3, form(51) == 0xb986,
        form(52) == 0x3b1e, form(53) == 0xbe4b, form(54) == 0x39a5, form(55) == 0xbcf0,
        form(56) == 0x3484, form(57) == 0xb1d1, form(58) == 0x363f, form(59) == 0xb36a,
        form(60) == 0x31f2, form(61) == 0xb4a7, form(62) == 0x3349, form(63) == 0xb61c,
        form(64) == 0x5760, form(65) == 0xd235, form(66) == 0x55db, form(67) == 0xd08e,
        form(68) == 0x5216, form(69) == 0xd743, form(70) == 0x50ad, form(71) == 0xd5f8,
        form(72) == 0x5d8c, form(73) == 0xd8d9, form(74) == 0x5f37, form(75) == 0xda62,
        form(76) == 0x58fa, form(77) == 0xddaf, form(78) == 0x5a41, form(79) == 0xdf14,
        form(80) == 0x42b8, form(81) == 0xc7ed, form(82) == 0x4003, form(83) == 0xc556,
        form(84) == 0x47ce, form(85) == 0xc29b, form(86) == 0x4575, form(87) == 0xc020,
        form(88) == 0x4854, form(89) == 0xcd01, form(90) == 0x4aef, form(91) == 0xcfba,
        form(92) == 0x4d22, form(93) == 0xc877, form(94) == 0x4f99, form(95) == 0xcacc,
        form(96) == 0x7cd0, form(97) == 0xf985, form(98) == 0x7e6b, form(99) == 0xfb3e,
        form(100) == 0x79a6, form(101) == 0xfcf3, form(102) == 0x7b1d, form(103) == 0xfe48,
        form(104) == 0x763c, form(105) == 0xf369, form(106) == 0x7487, form(107) == 0xf1d2,
        form(108) == 0x734a, form(109) == 0xf61f, form(110) == 0x71f1, form(111) == 0xf4a4,
        form(112) == 0x6908, form(113) == 0xec5d, form(114) == 0x6bb3, form(115) == 0xeee6,
        form(116) == 0x6c7e, form(117) == 0xe92b, form(118) == 0x6ec5, form(119) == 0xeb90,
        form(120) == 0x63e4, form(121) == 0xe6b1, form(122) == 0x615f, form(123) == 0xe40a,
        form(124) == 0x6692, form(125) == 0xe3c7, form(126) == 0x6429, form(127) == 0xe17c,
        form(128) == 0xaec0, form(129) == 0x2b95, form(130) == 0xac7b, form(131) == 0x292e,
        form(132) == 0xabb6, form(133) == 0x2ee3, form(134) == 0xa90d, form(135) == 0x2c58,
        form(136) == 0xa42c, form(137) == 0x2179, form(138) == 0xa697, form(139) == 0x23c2,
        form(140) == 0xa15a, form(141) == 0x240f, form(142) == 0xa3e1, form(143) == 0x26b4,
        form(144) == 0xbb18, form(145) == 0x3e4d, form(146) == 0xb9a3, form(147) == 0x3cf6,
        form(148) == 0xbe6e, form(149) == 0x3b3b, form(150) == 0xbcd5, form(151) == 0x3980,
        form(152) == 0xb1f4, form(153) == 0x34a1, form(154) == 0xb34f, form(155) == 0x361a,
        form(156) == 0xb482, form(157) == 0x31d7, form(158) == 0xb639, form(159) == 0x336c,
        form(160) == 0x8570, form(161) == 0x0025, form(162) == 0x87cb, form(163) == 0x029e,
        form(164) == 0x8006, form(165) == 0x0553, form(166) == 0x82bd, form(167) == 0x07e8,
        form(168) == 0x8f9c, form(169) == 0x0ac9, form(170) == 0x8d27, form(171) == 0x0872,
        form(172) == 0x8aea, form(173) == 0x0fbf, form(174) == 0x8851, form(175) == 0x0d04,
        form(176) == 0x90a8, form(177) == 0x15fd, form(178) == 0x9213, form(179) == 0x1746,
        form(180) == 0x95de, form(181) == 0x108b, form(182) == 0x9765, form(183) == 0x1230,
        form(184) == 0x9a44, form(185) == 0x1f11, form(186) == 0x98ff, form(187) == 0x1daa,
        form(188) == 0x9f32, form(189) == 0x1a67, form(190) == 0x9d89, form(191) == 0x18dc,
        form(192) == 0xf9a0, form(193) == 0x7cf5, form(194) == 0xfb1b, form(195) == 0x7e4e,
        form(196) == 0xfcd6, form(197) == 0x7983, form(198) == 0xfe6d, form(199) == 0x7b38,
        form(200) == 0xf34c, form(201) == 0x7619, form(202) == 0xf1f7, form(203) == 0x74a2,
        form(204) == 0xf63a, form(205) == 0x736f, form(206) == 0xf481, form(207) == 0x71d4,
        form(208) == 0xec78, form(209) == 0x692d, form(210) == 0xeec3, form(211) == 0x6b96,
        form(212) == 0xe90e, form(213) == 0x6c5b, form(214) == 0xebb5, form(215) == 0x6ee0,
        form(216) == 0xe694, form(217) == 0x63c1, form(218) == 0xe42f, form(219) == 0x617a,
        form(220) == 0xe3e2, form(221) == 0x66b7, form(222) == 0xe159, form(223) == 0x640c,
        form(224) == 0xd210, form(225) == 0x5745, form(226) == 0xd0ab, form(227) == 0x55fe,
        form(228) == 0xd766, form(229) == 0x5233, form(230) == 0xd5dd, form(231) == 0x5088,
        form(232) == 0xd8fc, form(233) == 0x5da9, form(234) == 0xda47, form(235) == 0x5f12,
        form(236) == 0xdd8a, form(237) == 0x58df, form(238) == 0xdf31, form(239) == 0x5a64,
        form(240) == 0xc7c8, form(241) == 0x429d, form(242) == 0xc573, form(243) == 0x4026,
        form(244) == 0xc2be, form(245) == 0x47eb, form(246) == 0xc005, form(247) == 0x4550,
        form(248) == 0xcd24, form(249) == 0x4871, form(250) == 0xcf9f, form(251) == 0x4aca,
        form(252) == 0xc852, form(253) == 0x4d07, form(254) == 0xcae9, form(255) == 0x4fbc,
{
}

/// The combination is the lane value.
pub proof fn lemma_form(byte: u8)
    ensures
        form(byte) == lane_value(11, byte),
{
    lemma_entries(byte);
    lane_10::lemma_form(byte);
    lemma_lane_above(byte, 10);
}

/// Every entry is the lane value of its index.
pub proof fn lemma_lane()
    ensures
        holds_lane(LANE, 11),
{
    assert forall|i: int| 0 <= i < 256 implies #[trigger] LANE@[i] == lane_value(11, i as u8) by {
        reveal(LANE);
        lemma_form(i as u8);
        lemma_entries(0);
        lemma_indices(i);
    }
}

} // verus!
