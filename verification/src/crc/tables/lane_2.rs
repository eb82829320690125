//! Contribution of a byte that is followed by 2 more bytes.
use vstd::prelude::*;

use super::super::model::lane_value;
use super::lane_1;
use super::forms::{combine, holds_lane, lemma_indices, lemma_lane_above, next};

verus! {

/// The lane, indexed by the byte.
#[verifier::opaque]
pub const LANE: [u16; 256] = [
    0x0000, 0x5adc, 0xb5b8, 0xef64, 0x6361, 0x39bd, 0xd6d9, 0x8c05,
    0xc6c2, 0x9c1e, 0x737a, 0x29a6, 0xa5a3, 0xff7f, 0x101b, 0x4ac7,
    0x8595, 0xdf49, 0x302d, 0x6af1, 0xe6f4, 0xbc28, 0x534c, 0x0990,
    0x4357, 0x198b, 0xf6ef, 0xac33, 0x2036, 0x7aea, 0x958e, 0xcf52,
    0x033b, 0x59e7, 0xb683, 0xec5f, 0x605a, 0x3a86, 0xd5e2, 0x8f3e,
    0xc5f9, 0x9f25, 0x7041, 0x2a9d, 0xa698, 0xfc44, 0x1320, 0x49fc,
    0x86ae, 0xdc72, 0x3316, 0x69ca, 0xe5cf, 0xbf13, 0x5077, 0x0aab,
    0x406c, 0x1ab0, 0xf5d4, 0xaf08, 0x230d, 0x79d1, 0x96b5, 0xcc69,
    0x0676, 0x5caa, 0xb3ce, 0xe912, 0x6517, 0x3fcb, 0xd0af, 0x8a73,
    0xc0b4, 0x9a68, 0x750c, 0x2fd0, 0xa3d5, 0xf909, 0x166d, 0x4cb1,
    0x83e3, 0xd93f, 0x365b, 0x6c87, 0xe082, 0xba5e, 0x553a, 0x0fe6,
    0x4521, 0x1ffd, 0xf099, 0xaa45, 0x2640, 0x7c9c, 0x93f8, 0xc924,
    0x054d, 0x5f91, 0xb0f5, 0xea29, 0x662c, 0x3cf0, 0xd394, 0x8948,
    0xc38f, 0x9953, 0x7637, 0x2ceb, 0xa0ee, 0xfa32, 0x1556, 0x4f8a,
    0x80d8, 0xda04, 0x3560, 0x6fbc, 0xe3b9, 0xb965, 0x5601, 0x0cdd,
    0x461a, 0x1cc6, 0xf3a2, 0xa97e, 0x257b, 0x7fa7, 0x90c3, 0xca1f,
    0x0cec, 0x5630, 0xb954, 0xe388, 0x6f8d, 0x3551, 0xda35, 0x80e9,
    0xca2e, 0x90f2, 0x7f96, 0x254a, 0xa94f, 0xf393, 0x1cf7, 0x462b,
    0x8979, 0xd3a5, 0x3cc1, 0x661d, 0xea18, 0xb0c4, 0x5fa0, 0x057c,
    0x4fbb, 0x1567, 0xfa03, 0xa0df, 0x2cda, 0x7606, 0x9962, 0xc3be,
    0x0fd7, 0x550b, 0xba6f, 0xe0b3, 0x6cb6, 0x366a, 0xd90e, 0x83d2,
    0xc915, 0x93c9, 0x7cad, 0x2671, 0xaa74, 0xf0a8, 0x1fcc, 0x4510,
    0x8a42, 0xd09e, 0x3ffa, 0x6526, 0xe923, 0xb3ff, 0x5c9b, 0x0647,
    0x4c80, 0x165c, 0xf938, 0xa3e4, 0x2fe1, 0x753d, 0x9a59, 0xc085,
    0x0a9a, 0x5046, 0xbf22, 0xe5fe, 0x69fb, 0x3327, 0xdc43, 0x869f,
    0xcc58, 0x9684, 0x79e0, 0x233c, 0xaf39, 0xf5e5, 0x1a81, 0x405d,
    0x8f0f, 0xd5d3, 0x3ab7, 0x606b, 0xec6e, 0xb6b2, 0x59d6, 0x030a,
    0x49cd, 0x1311, 0xfc75, 0xa6a9, 0x2aac, 0x7070, 0x9f14, 0xc5c8,
    0x09a1, 0x537d, 0xbc19, 0xe6c5, 0x6ac0, 0x301c, 0xdf78, 0x85a4,
    0xcf63, 0x95bf, 0x7adb, 0x2007, 0xac02, 0xf6de, 0x19ba, 0x4366,
    0x8c34, 0xd6e8, 0x398c, 0x6350, 0xef55, 0xb589, 0x5aed, 0x0031,
    0x4af6, 0x102a, 0xff4e, 0xa592, 0x2997, 0x734b, 0x9c2f, 0xc6f3,
];

/// The lane as a combination of its entries for single bits.
pub open spec fn form(byte: u8) -> u16 {
    combine(byte, 0x5adc, 0xb5b8, 0x6361, 0xc6c2, 0x8595, 0x033b, 0x0676, 0x0cec)
}

proof fn lemma_entries(byte: u8)
    by (bit_vector)
    ensures
        form(byte) == next(lane_1::form(byte)),
        form(0) == 0x0000, form(1) == 0x5adc, form(2) == 0xb5b8, form(3) == 0xef64,
        form(4) == 0x6361, form(5) == 0x39bd, form(6) == 0xd6d9, form(7) == 0x8c05,
        form(8) == 0xc6c2, form(9) == 0x9c1e, form(10) == 0x737a, form(11) == 0x29a6,
        form(12) == 0xa5a3, form(13) == 0xff7f, form(14) == 0x101b, form(15) == 0x4ac7,
        form(16) == 0x8595, form(17) == 0xdf49, form(18) == 0x302d, form(19) == 0x6af1,
        form(20) == 0xe6f4, form(21) == 0xbc28, form(22) == 0x534c, form(23) == 0x0990,
        form(24) == 0x4357, form(25) == 0x198b, form(26) == 0xf6ef, form(27) == 0xac33,
        form(28) == 0x2036, form(29) == 0x7aea, form(30) == 0x958e, form(31) == 0xcf52,
        form(32) == 0x033b, form(33) == 0x59e7, form(34) == 0xb683, form(35) == 0xec5f,
        form(36) == 0x605a, form(37) == 0x3a86, form(38) == 0xd5e2, form(39) == 0x8f3e,
        form(40) == 0xc5f9, form(41) == 0x9f25, form(42) == 0x7041, form(43) == 0x2a9d,
        form(44) == 0xa698, form(45) == 0xfc44, form(46) == 0x1320, form(47) == 0x49fc,
        form(48) == 0x86ae, form(49) == 0xdc72, form(50) == 0x3316, form(51) == 0x69ca,
        form(52) == 0xe5cf, form(53) == 0xbf13, form(54) == 0x5077, form(55) == 0x0aab,
        form(56) == 0x406c, form(57) == 0x1ab0, form(58) == 0xf5d4, form(59) == 0xaf08,
        form(60) == 0x230d, form(61) == 0x79d1, form(62) == 0x96b5, form(63) == 0xcc69,
        form(64) == 0x0676, form(65) == 0x5caa, form(66) == 0xb3ce, form(67) == 0xe912,
        form(68) == 0x6517, form(69) == 0x3fcb, form(70) == 0xd0af, form(71) == 0x8a73,
        form(72) == 0xc0b4, form(73) == 0x9a68, form(74) == 0x750c, form(75) == 0x2fd0,
        form(76) == 0xa3d5, form(77) == 0xf909, form(78) == 0x166d, form(79) == 0x4cb1,
        form(80) == 0x83e3, form(81) == 0xd93f, form(82) == 0x365b, form(83) == 0x6c87,
        form(84) == 0xe082, form(85) == 0xba5e, form(86) == 0x553a, form(87) == 0x0fe6,
        form(88) == 0x4521, form(89) == 0x1ffd, form(90) == 0xf099, form(91) == 0xaa45,
        form(92) == 0x2640, form(93) == 0x7c9c, form(94) == 0x93f8, form(95) == 0xc924,
        form(96) == 0x054d, form(97) == 0x5f91, form(98) == 0xb0f5, form(99) == 0xea29,
        form(100) == 0x662c, form(101) == 0x3cf0, form(102) == 0xd394, form(103) == 0x8948,
        form(104) == 0xc38f, form(105) == 0x9953, form(106) == 0x7637, form(107) == 0x2ceb,
        form(108) == 0xa0ee, form(109) == 0xfa32, form(110) == 0x1556, form(111) == 0x4f8a,
        form(112) == 0x80d8, form(113) == 0xda04, form(114) == 0x3560, form(115) == 0x6fbc,
        form(116) == 0xe3b9, form(117) == 0xb965, form(118) == 0x5601, form(119) == 0x0cdd,
        form(120) == 0x461a, form(121) == 0x1cc6, form(122) == 0xf3a2, form(123) == 0xa97e,
        form(124) == 0x257b, form(125) == 0x7fa7, form(126) == 0x90c3, form(127) == 0xca1f,
        form(128) == 0x0cec, form(129) == 0x5630, form(130) == 0xb954, form(131) == 0xe388,
        form(132) == 0x6f8d, form(133) == 0x3551, form(134) == 0xda35, form(135) == 0x80e9,
        form(136) == 0xca2e, form(137) == 0x90f2, form(138) == 0x7f96, form(139) == 0x254a,
        form(140) == 0xa94f, form(141) == 0xf393, form(142) == 0x1cf7, form(143) == 0x462b,
        form(144) == 0x8979, form(145) == 0xd3a5, form(146) == 0x3cc1, form(147) == 0x661d,
        form(148) == 0xea18, form(149) == 0xb0c4, form(150) == 0x5fa0, form(151) == 0x057c,
        form(152) == 0x4fbb, form(153) == 0x1567, form(154) == 0xfa03, form(155) == 0xa0df,
        form(156) == 0x2cda, form(157) == 0x7606, form(158) == 0x9962, form(159) == 0xc3be,
        form(160) == 0x0fd7, form(161) == 0x550b, form(162) == 0xba6f, form(163) == 0xe0b3,
        form(164) == 0x6cb6, form(165) == 0x366a, form(166) == 0xd90e, form(167) == 0x83d2,
        form(168) == 0xc915, form(169) == 0x93c9, form(170) == 0x7cad, form(171) == 0x2671,
        form(172) == 0xaa74, form(173) == 0xf0a8, form(174) == 0x1fcc, form(175) == 0x4510,
        form(176) == 0x8a42, form(177) == 0xd09e, form(178) == 0x3ffa, form(179) == 0x6526,
        form(180) == 0xe923, form(181) == 0xb3ff, form(182) == 0x5c9b, form(183) == 0x0647,
        form(184) == 0x4c80, form(185) == 0x165c, form(186) == 0xf938, form(187) == 0xa3e4,
        form(188) == 0x2fe1, form(189) == 0x753d, form(190) == 0x9a59, form(191) == 0xc085,
        form(192) == 0x0a9a, form(193) == 0x5046, form(194) == 0xbf22, form(195) == 0xe5fe,
        form(196) == 0x69fb, form(197) == 0x3327, form(198) == 0xdc43, form(199) == 0x869f,
        form(200) == 0xcc58, form(201) == 0x9684, form(202) == 0x79e0, form(203) == 0x233c,
        form(204) == 0xaf39, form(205) == 0xf5e5, form(206) == 0x1a81, form(207) == 0x405d,
        form(208) == 0x8f0f, form(209) == 0xd5d3, form(210) == 0x3ab7, form(211) == 0x606b,
        form(212) == 0xec6e, form(213) == 0xb6b2, form(214) == 0x59d6, form(215) == 0x030a,
        form(216) == 0x49cd, form(217) == 0x1311, form(218) == 0xfc75, form(219) == 0xa6a9,
        form(220) == 0x2aac, form(221) == 0x7070, form(222) == 0x9f14, form(223) == 0xc5c8,
        form(224) == 0x09a1, form(225) == 0x537d, form(226) == 0xbc19, form(227) == 0xe6c5,
        form(228) == 0x6ac0, form(229) == 0x301c, form(230) == 0xdf78, form(231) == 0x85a4,
        form(232) == 0xcf63, form(233) == 0x95bf, form(234) == 0x7adb, form(235) == 0x2007,
        form(236) == 0xac02, form(237) == 0xf6de, form(238) == 0x19ba, form(239) == 0x4366,
        form(240) == 0x8c34, form(241) == 0xd6e8, form(242) == 0x398c, form(243) == 0x6350,
        form(244) == 0xef55, form(245) == 0xb589, form(246) == 0x5aed, form(247) == 0x0031,
        form(248) == 0x4af6, form(249) == 0x102a, form(250) == 0xff4e, form(251) == 0xa592,
        form(252) == 0x2997, form(253) == 0x734b, form(254) == 0x9c2f, form(255) == 0xc6f3,
{
}

/// The combination is the lane value.
pub proof fn lemma_form(byte: u8)
    ensures
        form(byte) == lane_value(2, byte),
{
    lemma_entries(byte);
    lane_1::lemma_form(byte);
    lemma_lane_above(byte, 1);
}

/// Every entry is the lane value of its index.
pub proof fn lemma_lane()
    ensures
        holds_lane(LANE, 2),
{
    assert forall|i: int| 0 <= i < 256 implies #[trigger] LANE@[i] == lane_value(2, i as u8) by {
        reveal(LANE);
        lemma_form(i as u8);
        lemma_entries(0);
        lemma_indices(i);
    }
}

} // verus!
