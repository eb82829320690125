//! Contribution of a byte that is followed by 5 more bytes.
use vstd::prelude::*;

use super::super::model::lane_value;
use super::lane_4;
use super::forms::{combine, holds_lane, lemma_indices, lemma_lane_above, next};

verus! {

/// The lane, indexed by the byte.
#[verifier::opaque]
pub const LANE: [u16; 256] = [
    0x0000, 0x042b, 0x0856, 0x0c7d, 0x10ac, 0x1487, 0x18fa, 0x1cd1,
    0x2158, 0x2573, 0x290e, 0x2d25, 0x31f4, 0x35df, 0x39a2, 0x3d89,
    0x42b0, 0x469b, 0x4ae6, 0x4ecd, 0x521c, 0x5637, 0x5a4a, 0x5e61,
    0x63e8, 0x67c3, 0x6bbe, 0x6f95, 0x7344, 0x776f, 0x7b12, 0x7f39,
    0x8560, 0x814b, 0x8d36, 0x891d, 0x95cc, 0x91e7, 0x9d9a, 0x99b1,
    0xa438, 0xa013, 0xac6e, 0xa845, 0xb494, 0xb0bf, 0xbcc2, 0xb8e9,
    0xc7d0, 0xc3fb, 0xcf86, 0xcbad, 0xd77c, 0xd357, 0xdf2a, 0xdb01,
    0xe688, 0xe2a3, 0xeede, 0xeaf5, 0xf624, 0xf20f, 0xfe72, 0xfa59,
    0x02d1, 0x06fa, 0x0a87, 0x0eac, 0x127d, 0x1656, 0x1a2b, 0x1e00,
    0x2389, 0x27a2, 0x2bdf, 0x2ff4, 0x3325, 0x370e, 0x3b73, 0x3f58,
    0x4061, 0x444a, 0x4837, 0x4c1c, 0x50cd, 0x54e6, 0x589b, 0x5cb0,
    0x6139, 0x6512, 0x696f, 0x6d44, 0x7195, 0x75be, 0x79c3, 0x7de8,
    0x87b1, 0x839a, 0x8fe7, 0x8bcc, 0x971d, 0x9336, 0x9f4b, 0x9b60,
    0xa6e9, 0xa2c2, 0xaebf, 0xaa94, 0xb645, 0xb26e, 0xbe13, 0xba38,
    0xc501, 0xc12a, 0xcd57, 0xc97c, 0xd5ad, 0xd186, 0xddfb, 0xd9d0,
    0xe459, 0xe072, 0xec0f, 0xe824, 0xf4f5, 0xf0de, 0xfca3, 0xf888,
    0x05a2, 0x0189, 0x0df4, 0x09df, 0x150e, 0x1125, 0x1d58, 0x1973,
    0x24fa, 0x20d1, 0x2cac, 0x2887, 0x3456, 0x307d, 0x3c00, 0x382b,
    0x4712, 0x4339, 0x4f44, 0x4b6f, 0x57be, 0x5395, 0x5fe8, 0x5bc3,
    0x664a, 0x6261, 0x6e1c, 0x6a37, 0x76e6, 0x72cd, 0x7eb0, 0x7a9b,
    0x80c2, 0x84e9, 0x8894, 0x8cbf, 0x906e, 0x9445, 0x9838, 0x9c13,
    0xa19a, 0xa5b1, 0xa9cc, 0xade7, 0xb136, 0xb51d, 0xb960, 0xbd4b,
    0xc272, 0xc659, 0xca24, 0xce0f, 0xd2de, 0xd6f5, 0xda88, 0xdea3,
    0xe32a, 0xe701, 0xeb7c, 0xef57, 0xf386, 0xf7ad, 0xfbd0, 0xfffb,
    0x0773, 0x0358, 0x0f25, 0x0b0e, 0x17df, 0x13f4, 0x1f89, 0x1ba2,
    0x262b, 0x2200, 0x2e7d, 0x2a56, 0x3687, 0x32ac, 0x3ed1, 0x3afa,
    0x45c3, 0x41e8, 0x4d95, 0x49be, 0x556f, 0x5144, 0x5d39, 0x5912,
    0x649b, 0x60b0, 0x6ccd, 0x68e6, 0x7437, 0x701c, 0x7c61, 0x784a,
    0x8213, 0x8638, 0x8a45, 0x8e6e, 0x92bf, 0x9694, 0x9ae9, 0x9ec2,
    0xa34b, 0xa760, 0xab1d, 0xaf36, 0xb3e7, 0xb7cc, 0xbbb1, 0xbf9a,
    0xc0a3, 0xc488, 0xc8f5, 0xccde, 0xd00f, 0xd424, 0xd859, 0xdc72,
    0xe1fb, 0xe5d0, 0xe9ad, 0xed86, 0xf157, 0xf57c, 0xf901, 0xfd2a,
];

/// The lane as a combination of its entries for single bits.
pub open spec fn form(byte: u8) -> u16 {
    combine(byte, 0x042b, 0x0856, 0x10ac, 0x2158, 0x42b0, 0x8560, 0x02d1, 0x05a2)
}

proof fn lemma_entries(byte: u8)
    by (bit_vector)
    ensures
        form(byte) == next(lane_4::form(byte)),
        form(0) == 0x0000, form(1) == 0x042b, form(2) == 0x0856, form(3) == 0x0c7d,
        form(4) == 0x10ac, form(5) == 0x1487, form(6) == 0x18fa, form(7) == 0x1cd1,
        form(8) == 0x2158, form(9) == 0x2573, form(10) == 0x290e, form(11) == 0x2d25,
        form(12) == 0x31f4, form(13) == 0x35df, form(14) == 0x39a2, form(15) == 0x3d89,
        form(16) == 0x42b0, form(17) == 0x469b, form(18) == 0x4ae6, form(19) == 0x4ecd,
        form(20) == 0x521c, form(21) == 0x5637, form(22) == 0x5a4a, form(23) == 0x5e61,
        form(24) == 0x63e8, form(25) == 0x67c3, form(26) == 0x6bbe, form(27) == 0x6f95,
        form(28) == 0x7344, form(29) == 0x776f, form(30) == 0x7b12, form(31) == 0x7f39,
        form(32) == 0x8560, form(33) == 0x814b, form(34) == 0x8d36, form(35) == 0x891d,
        form(36) == 0x95cc, form(37) == 0x91e7, form(38) == 0x9d9a, form(39) == 0x99b1,
        form(40) == 0xa438, form(41) == 0xa013, form(42) == 0xac6e, form(43) == 0xa845,
        form(44) == 0xb494, form(45) == 0xb0bf, form(46) == 0xbcc2, form(47) == 0xb8e9,
        form(48) == 0xc7d0, form(49) == 0xc3fb, form(50) == 0xcf86, form(51) == 0xcbad,
        form(52) == 0xd77c, form(53) == 0xd357, form(54) == 0xdf2a, form(55) == 0xdb01,
        form(56) == 0xe688, form(57) == 0xe2a3, form(58) == 0xeede, form(59) == 0xeaf5,
        form(60) == 0xf624, form(61) == 0xf20f, form(62) == 0xfe72, form(63) == 0xfa59,
        form(64) == 0x02d1, form(65) == 0x06fa, form(66) == 0x0a87, form(67) == 0x0eac,
        form(68) == 0x127d, form(69) == 0x1656, form(70) == 0x1a2b, form(71) == 0x1e00,
        form(72) == 0x2389, form(73) == 0x27a2, form(74) == 0x2bdf, form(75) == 0x2ff4,
        form(76) == 0x3325, form(77) == 0x370e, form(78) == 0x3b73, form(79) == 0x3f58,
        form(80) == 0x4061, form(81) == 0x444a, form(82) == 0x4837, form(83) == 0x4c1c,
        form(84) == 0x50cd, form(85) == 0x54e6, form(86) == 0x589b, form(87) == 0x5cb0,
        form(88) == 0x6139, form(89) == 0x6512, form(90) == 0x696f, form(91) == 0x6d44,
        form(92) == 0x7195, form(93) == 0x75be, form(94) == 0x79c3, form(95) == 0x7de8,
        form(96) == 0x87b1, form(97) == 0x839a, form(98) == 0x8fe7, form(99) == 0x8bcc,
        form(100) == 0x971d, form(101) == 0x9336, form(102) == 0x9f4b, form(103) == 0x9b60,
        form(104) == 0xa6e9, form(105) == 0xa2c2, form(106) == 0xaebf, form(107) == 0xaa94,
        form(108) == 0xb645, form(109) == 0xb26e, form(110) == 0xbe13, form(111) == 0xba38,
        form(112) == 0xc501, form(113) == 0xc12a, form(114) == 0xcd57, form(115) == 0xc97c,
        form(116) == 0xd5ad, form(117) == 0xd186, form(118) == 0xddfb, form(119) == 0xd9d0,
        form(120) == 0xe459, form(121) == 0xe072, form(122) == 0xec0f, form(123) == 0xe824,
        form(124) == 0xf4f5, form(125) == 0xf0de, form(126) == 0xfca3, form(127) == 0xf888,
        form(128) == 0x05a2, form(129) == 0x0189, form(130) == 0x0df4, form(131) == 0x09df,
        form(132) == 0x150e, form(133) == 0x1125, form(134) == 0x1d58, form(135) == 0x1973,
        form(136) == 0x24fa, form(137) == 0x20d1, form(138) == 0x2cac, form(139) == 0x2887,
        form(140) == 0x3456, form(141) == 0x307d, form(142) == 0x3c00, form(143) == 0x382b,
        form(144) == 0x4712, form(145) == 0x4339, form(146) == 0x4f44, form(147) == 0x4b6f,
        form(148) == 0x57be, form(149) == 0x5395, form(150) == 0x5fe8, form(151) == 0x5bc3,
        form(152) == 0x664a, form(153) == 0x6261, form(154) == 0x6e1c, form(155) == 0x6a37,
        form(156) == 0x76e6, form(157) == 0x72cd, form(158) == 0x7eb0, form(159) == 0x7a9b,
        form(160) == 0x80c2, form(161) == 0x84e9, form(162) == 0x8894, form(163) == 0x8cbf,
        form(164) == 0x906e, form(165) == 0x9445, form(166) == 0x9838, form(167) == 0x9c13,
        form(168) == 0xa19a, form(169) == 0xa5b1, form(170) == 0xa9cc, form(171) == 0xade7,
        form(172) == 0xb136, form(173) == 0xb51d, form(174) == 0xb960, form(175) == 0xbd4b,
        form(176) == 0xc272, form(177) == 0xc659, form(178) == 0xca24, form(179) == 0xce0f,
        form(180) == 0xd2de, form(181) == 0xd6f5, form(182) == 0xda88, form(183) == 0xdea3,
        form(184) == 0xe32a, form(185) == 0xe701, form(186) == 0xeb7c, form(187) == 0xef57,
        form(188) == 0xf386, form(189) == 0xf7ad, form(190) == 0xfbd0, form(191) == 0xfffb,
        form(192) == 0x0773, form(193) == 0x0358, form(194) == 0x0f25, form(195) == 0x0b0e,
        form(196) == 0x17df, form(197) == 0x13f4, form(198) == 0x1f89, form(199) == 0x1ba2,
        form(200) == 0x262b, form(201) == 0x2200, form(202) == 0x2e7d, form(203) == 0x2a56,
        form(204) == 0x3687, form(205) == 0x32ac, form(206) == 0x3ed1, form(207) == 0x3afa,
        form(208) == 0x45c3, form(209) == 0x41e8, form(210) == 0x4d95, form(211) == 0x49be,
        form(212) == 0x556f, form(213) == 0x5144, form(214) == 0x5d39, form(215) == 0x5912,
        form(216) == 0x649b, form(217) == 0x60b0, form(218) == 0x6ccd, form(219) == 0x68e6,
        form(220) == 0x7437, form(221) == 0x701c, form(222) == 0x7c61, form(223) == 0x784a,
        form(224) == 0x8213, form(225) == 0x8638, form(226) == 0x8a45, form(227) == 0x8e6e,
        form(228) == 0x92bf, form(229) == 0x9694, form(230) == 0x9ae9, form(231) == 0x9ec2,
        form(232) == 0xa34b, form(233) == 0xa760, form(234) == 0xab1d, form(235) == 0xaf36,
        form(236) == 0xb3e7, form(237) == 0xb7cc, form(238) == 0xbbb1, form(239) == 0xbf9a,
        form(240) == 0xc0a3, form(241) == 0xc488, form(242) == 0xc8f5, form(243) == 0xccde,
        form(244) == 0xd00f, form(245) == 0xd424, form(246) == 0xd859, form(247) == 0xdc72,
        form(248) == 0xe1fb, form(249) == 0xe5d0, form(250) == 0xe9ad, form(251) == 0xed86,
        form(252) == 0xf157, form(253) == 0xf57c, form(254) == 0xf901, form(255) == 0xfd2a,
{
}

/// The combination is the lane value.
pub proof fn lemma_form(byte: u8)
    ensures
        form(byte) == lane_value(5, byte),
{
    lemma_entries(byte);
    lane_4::lemma_form(byte);
    lemma_lane_above(byte, 4);
}

/// Every entry is the lane value of its index.
pub proof fn lemma_lane()
    ensures
        holds_lane(LANE, 5),
{
    assert forall|i: int| 0 <= i < 256 implies #[trigger] LANE@[i] == lane_value(5, i as u8) by {
        reveal(LANE);
        lemma_form(i as u8);
        lemma_entries(0);
        lemma_indices(i);
    }
}

} // verus!
