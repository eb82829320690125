//! Contribution of a byte that is followed by 8 more bytes.
use vstd::prelude::*;

use super::super::model::lane_value;
use super::lane_7;
use super::forms::{combine, holds_lane, lemma_indices, lemma_lane_above, next};

verus! {

/// The lane, indexed by the byte.
#[verifier::opaque]
pub const LANE: [u16; 256] = [
    0x0000, 0x4dfd, 0x9bfa, 0xd607, 0x3fe5, 0x7218, 0xa41f, 0xe9e2,
    0x7fca, 0x3237, 0xe430, 0xa9cd, 0x402f, 0x0dd2, 0xdbd5, 0x9628,
    0xff94, 0xb269, 0x646e, 0x2993, 0xc071, 0x8d8c, 0x5b8b, 0x1676,
    0x805e, 0xcda3, 0x1ba4, 0x5659, 0xbfbb, 0xf246, 0x2441, 0x69bc,
    0xf739, 0xbac4, 0x6cc3, 0x213e, 0xc8dc, 0x8521, 0x5326, 0x1edb,
    0x88f3, 0xc50e, 0x1309, 0x5ef4, 0xb716, 0xfaeb, 0x2cec, 0x6111,
    0x08ad, 0x4550, 0x9357, 0xdeaa, 0x3748, 0x7ab5, 0xacb2, 0xe14f,
    0x7767, 0x3a9a, 0xec9d, 0xa160, 0x4882, 0x057f, 0xd378, 0x9e85,
    0xe663, 0xab9e, 0x7d99, 0x3064, 0xd986, 0x947b, 0x427c, 0x0f81,
    0x99a9, 0xd454, 0x0253, 0x4fae, 0xa64c, 0xebb1, 0x3db6, 0x704b,
    0x19f7, 0x540a, 0x820d, 0xcff0, 0x2612, 0x6bef, 0xbde8, 0xf015,
    0x663d, 0x2bc0, 0xfdc7, 0xb03a, 0x59d8, 0x1425, 0xc222, 0x8fdf,
    0x115a, 0x5ca7, 0x8aa0, 0xc75d, 0x2ebf, 0x6342, 0xb545, 0xf8b8,
    0x6e90, 0x236d, 0xf56a, 0xb897, 0x5175, 0x1c88, 0xca8f, 0x8772,
    0xeece, 0xa333, 0x7534, 0x38c9, 0xd12b, 0x9cd6, 0x4ad1, 0x072c,
    0x9104, 0xdcf9, 0x0afe, 0x4703, 0xaee1, 0xe31c, 0x351b, 0x78e6,
    0xc4d7, 0x892a, 0x5f2d, 0x12d0, 0xfb32, 0xb6cf, 0x60c8, 0x2d35,
    0xbb1d, 0xf6e0, 0x20e7, 0x6d1a, 0x84f8, 0xc905, 0x1f02, 0x52ff,
    0x3b43, 0x76be, 0xa0b9, 0xed44, 0x04a6, 0x495b, 0x9f5c, 0xd2a1,
    0x4489, 0x0974, 0xdf73, 0x928e, 0x7b6c, 0x3691, 0xe096, 0xad6b,
    0x33ee, 0x7e13, 0xa814, 0xe5e9, 0x0c0b, 0x41f6, 0x97f1, 0xda0c,
    0x4c24, 0x01d9, 0xd7de, 0x9a23, 0x73c1, 0x3e3c, 0xe83b, 0xa5c6,
    0xcc7a, 0x8187, 0x5780, 0x1a7d, 0xf39f, 0xbe62, 0x6865, 0x2598,
    0xb3b0, 0xfe4d, 0x284a, 0x65b7, 0x8c55, 0xc1a8, 0x17af, 0x5a52,
    0x22b4, 0x6f49, 0xb94e, 0xf4b3, 0x1d51, 0x50ac, 0x86ab, 0xcb56,
    0x5d7e, 0x1083, 0xc684, 0x8b79, 0x629b, 0x2f66, 0xf961, 0xb49c,
    0xdd20, 0x90dd, 0x46da, 0x0b27, 0xe2c5, 0xaf38, 0x793f, 0x34c2,
    0xa2ea, 0xef17, 0x3910, 0x74ed, 0x9d0f, 0xd0f2, 0x06f5, 0x4b08,
    0xd58d, 0x9870, 0x4e77, 0x038a, 0xea68, 0xa795, 0x7192, 0x3c6f,
    0xaa47, 0xe7ba, 0x31bd, 0x7c40, 0x95a2, 0xd85f, 0x0e58, 0x43a5,
    0x2a19, 0x67e4, 0xb1e3, 0xfc1e, 0x15fc, 0x5801, 0x8e06, 0xc3fb,
    0x55d3, 0x182e, 0xce29, 0x83d4, 0x6a36, 0x27cb, 0xf1cc, 0xbc31,
];

/// The lane as a combination of its entries for single bits.
pub open spec fn form(byte: u8) -> u16 {
    combine(byte, 0x4dfd, 0x9bfa, 0x3fe5, 0x7fca, 0xff94, 0xf739, 0xe663, 0xc4d7)
}

proof fn lemma_entries(byte: u8)
    by (bit_vector)
    ensures
        form(byte) == next(lane_7::form(byte)),
        form(0) == 0x0000, form(1) == 0x4dfd, form(2) == 0x9bfa, form(3) == 0xd607,
        form(4) == 0x3fe5, form(5) == 0x7218, form(6) == 0xa41f, form(7) == 0xe9e2,
        form(8) == 0x7fca, form(9) == 0x3237, form(10) == 0xe430, form(11) == 0xa9cd,
        form(12) == 0x402f, form(13) == 0x0dd2, form(14) == 0xdbd5, form(15) == 0x9628,
        form(16) == 0xff94, form(17) == 0xb269, form(18) == 0x646e, form(19) == 0x2993,
        form(20) == 0xc071, form(21) == 0x8d8c, form(22) == 0x5b8b, form(23) == 0x1676,
        form(24) == 0x805e, form(25) == 0xcda3, form(26) == 0x1ba4, form(27) == 0x5659,
        form(28) == 0xbfbb, form(29) == 0xf246, form(30) == 0x2441, form(31) == 0x69bc,
        form(32) == 0xf739, form(33) == 0xbac4, form(34) == 0x6cc3, form(35) == 0x213e,
        form(36) == 0xc8dc, form(37) == 0x8521, form(38) == 0x5326, form(39) == 0x1edb,
        form(40) == 0x88f3, form(41) == 0xc50e, form(42) == 0x1309, form(43) == 0x5ef4,
        form(44) == 0xb716, form(45) == 0xfaeb, form(46) == 0x2cec, form(47) == 0x6111,
        form(48) == 0x08ad, form(49) == 0x4550, form(50) == 0x9357, form(51) == 0xdeaa,
        form(52) == 0x3748, form(53) == 0x7ab5, form(54) == 0xacb2, form(55) == 0xe14f,
        form(56) == 0x7767, form(57) == 0x3a9a, form(58) == 0xec9d, form(59) == 0xa160,
        form(60) == 0x4882, form(61) == 0x057f, form(62) == 0xd378, form(63) == 0x9e85,
        form(64) == 0xe663, form(65) == 0xab9e, form(66) == 0x7d99, form(67) == 0x3064,
        form(68) == 0xd986, form(69) == 0x947b, form(70) == 0x427c, form(71) == 0x0f81,
        form(72) == 0x99a9, form(73) == 0xd454, form(74) == 0x0253, form(75) == 0x4fae,
        form(76) == 0xa64c, form(77) == 0xebb1, form(78) == 0x3db6, form(79) == 0x704b,
        form(80) == 0x19f7, form(81) == 0x540a, form(82) == 0x820d, form(83) == 0xcff0,
        form(84) == 0x2612, form(85) == 0x6bef, form(86) == 0xbde8, form(87) == 0xf015,
        form(88) == 0x663d, form(89) == 0x2bc0, form(90) == 0xfdc7, form(91) == 0xb03a,
        form(92) == 0x59d8, form(93) == 0x1425, form(94) == 0xc222, form(95) == 0x8fdf,
        form(96) == 0x115a, form(97) == 0x5ca7, form(98) == 0x8aa0, form(99) == 0xc75d,
        form(100) == 0x2ebf, form(101) == 0x6342, form(102) == 0xb545, form(103) == 0xf8b8,
        form(104) == 0x6e90, form(105) == 0x236d, form(106) == 0xf56a, form(107) == 0xb897,
        form(108) == 0x5175, form(109) == 0x1c88, form(110) == 0xca8f, form(111) == 0x8772,
        form(112) == 0xeece, form(113) == 0xa333, form(114) == 0x7534, form(115) == 0x38c9,
        form(116) == 0xd12b, form(117) == 0x9cd6, form(118) == 0x4ad1, form(119) == 0x072c,
        form(120) == 0x9104, form(121) == 0xdcf9, form(122) == 0x0afe, form(123) == 0x4703,
        form(124) == 0xaee1, form(125) == 0xe31c, form(126) == 0x351b, form(127) == 0x78e6,
        form(128) == 0xc4d7, form(129) == 0x892a, form(130) == 0x5f2d, form(131) == 0x12d0,
        form(132) == 0xfb32, form(133) == 0xb6cf, form(134) == 0x60c8, form(135) == 0x2d35,
        form(136) == 0xbb1d, form(137) == 0xf6e0, form(138) == 0x20e7, form(139) == 0x6d1a,
        form(140) == 0x84f8, form(141) == 0xc905, form(142) == 0x1f02, form(143) == 0x52ff,
        form(144) == 0x3b43, form(145) == 0x76be, form(146) == 0xa0b9, form(147) == 0xed44,
        form(148) == 0x04a6, form(149) == 0x495b, form(150) == 0x9f5c, form(151) == 0xd2a1,
        form(152) == 0x4489, form(153) == 0x0974, form(154) == 0xdf73, form(155) == 0x928e,
        form(156) == 0x7b6c, form(157) == 0x3691, form(158) == 0xe096, form(159) == 0xad6b,
        form(160) == 0x33ee, form(161) == 0x7e13, form(162) == 0xa814, form(163) == 0xe5e9,
        form(164) == 0x0c0b, form(165) == 0x41f6, form(166) == 0x97f1, form(167) == 0xda0c,
        form(168) == 0x4c24, form(169) == 0x01d9, form(170) == 0xd7de, form(171) == 0x9a23,
        form(172) == 0x73c1, form(173) == 0x3e3c, form(174) == 0xe83b, form(175) == 0xa5c6,
        form(176) == 0xcc7a, form(177) == 0x8187, form(178) == 0x5780, form(179) == 0x1a7d,
        form(180) == 0xf39f, form(181) == 0xbe62, form(182) == 0x6865, form(183) == 0x2598,
        form(184) == 0xb3b0, form(185) == 0xfe4d, form(186) == 0x284a, form(187) == 0x65b7,
        form(188) == 0x8c55, form(189) == 0xc1a8, form(190) == 0x17af, form(191) == 0x5a52,
        form(192) == 0x22b4, form(193) == 0x6f49, form(194) == 0xb94e, form(195) == 0xf4b3,
        form(196) == 0x1d51, form(197) == 0x50ac, form(198) == 0x86ab, form(199) == 0xcb56,
        form(200) == 0x5d7e, form(201) == 0x1083, form(202) == 0xc684, form(203) == 0x8b79,
        form(204) == 0x629b, form(205) == 0x2f66, form(206) == 0xf961, form(207) == 0xb49c,
        form(208) == 0xdd20, form(209) == 0x90dd, form(210) == 0x46da, form(211) == 0x0b27,
        form(212) == 0xe2c5, form(213) == 0xaf38, form(214) == 0x793f, form(215) == 0x34c2,
        form(216) == 0xa2ea, form(217) == 0xef17, form(218) == 0x3910, form(219) == 0x74ed,
        form(220) == 0x9d0f, form(221) == 0xd0f2, form(222) == 0x06f5, form(223) == 0x4b08,
        form(224) == 0xd58d, form(225) == 0x9870, form(226) == 0x4e77, form(227) == 0x038a,
        form(228) == 0xea68, form(229) == 0xa795, form(230) == 0x7192, form(231) == 0x3c6f,
        form(232) == 0xaa47, form(233) == 0xe7ba, form(234) == 0x31bd, form(235) == 0x7c40,
        form(236) == 0x95a2, form(237) == 0xd85f, form(238) == 0x0e58, form(239) == 0x43a5,
        form(240) == 0x2a19, form(241) == 0x67e4, form(242) == 0xb1e3, form(243) == 0xfc1e,
        form(244) == 0x15fc, form(245) == 0x5801, form(246) == 0x8e06, form(247) == 0xc3fb,
        form(248) == 0x55d3, form(249) == 0x182e, form(250) == 0xce29, form(251) == 0x83d4,
        form(252) == 0x6a36, form(253) == 0x27cb, form(254) == 0xf1cc, form(255) == 0xbc31,
{
}

/// The combination is the lane value.
pub proof fn lemma_form(byte: u8)
    ensures
        form(byte) == lane_value(8, byte),
{
    lemma_entries(byte);
    lane_7::lemma_form(byte);
    lemma_lane_above(byte, 7);
}

/// Every entry is the lane value of its index.
pub proof fn lemma_lane()
    ensures
        holds_lane(LANE, 8),
{
    assert forall|i: int| 0 <= i < 256 implies #[trigger] LANE@[i] == lane_value(8, i as u8) by {
        reveal(LANE);
        lemma_form(i as u8);
        lemma_entries(0);
        lemma_indices(i);
    }
}

} // verus!
