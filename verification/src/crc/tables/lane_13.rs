//! Contribution of a byte that is followed by 13 more bytes.
use vstd::prelude::*;

use super::super::model::lane_value;
use super::lane_12;
use super::forms::{combine, holds_lane, lemma_indices, lemma_lane_above, next};

verus! {

/// The lane, indexed by the byte.
#[verifier::opaque]
pub const LANE: [u16; 256] = [
    0x0000, 0x7eea, 0xfdd4, 0x833e, 0xf3b9, 0x8d53, 0x0e6d, 0x7087,
    0xef63, 0x9189, 0x12b7, 0x6c5d, 0x1cda, 0x6230, 0xe10e, 0x9fe4,
    0xd6d7, 0xa83d, 0x2b03, 0x55e9, 0x256e, 0x5b84, 0xd8ba, 0xa650,
    0x39b4, 0x475e, 0xc460, 0xba8a, 0xca0d, 0xb4e7, 0x37d9, 0x4933,
    0xa5bf, 0xdb55, 0x586b, 0x2681, 0x5606, 0x28ec, 0xabd2, 0xd538,
    0x4adc, 0x3436, 0xb708, 0xc9e2, 0xb965, 0xc78f, 0x44b1, 0x3a5b,
    0x7368, 0x0d82, 0x8ebc, 0xf056, 0x80d1, 0xfe3b, 0x7d05, 0x03ef,
    0x9c0b, 0xe2e1, 0x61df, 0x1f35, 0x6fb2, 0x1158, 0x9266, 0xec8c,
    0x436f, 0x3d85, 0xbebb, 0xc051, 0xb0d6, 0xce3c, 0x4d02, 0x33e8,
    0xac0c, 0xd2e6, 0x51d8, 0x2f32, 0x5fb5, 0x215f, 0xa261, 0xdc8b,
    0x95b8, 0xeb52, 0x686c, 0x1686, 0x6601, 0x18eb, 0x9bd5, 0xe53f,
    0x7adb, 0x0431, 0x870f, 0xf9e5, 0x8962, 0xf788, 0x74b6, 0x0a5c,
    0xe6d0, 0x983a, 0x1b04, 0x65ee, 0x1569, 0x6b83, 0xe8bd, 0x9657,
    0x09b3, 0x7759, 0xf467, 0x8a8d, 0xfa0a, 0x84e0, 0x07de, 0x7934,
    0x3007, 0x4eed, 0xcdd3, 0xb339, 0xc3be, 0xbd54, 0x3e6a, 0x4080,
    0xdf64, 0xa18e, 0x22b0, 0x5c5a, 0x2cdd, 0x5237, 0xd109, 0xafe3,
    0x86de, 0xf834, 0x7b0a, 0x05e0, 0x7567, 0x0b8d, 0x88b3, 0xf659,
    0x69bd, 0x1757, 0x9469, 0xea83, 0x9a04, 0xe4ee, 0x67d0, 0x193a,
    0x5009, 0x2ee3, 0xaddd, 0xd337, 0xa3b0, 0xdd5a, 0x5e64, 0x208e,
    0xbf6a, 0xc180, 0x42be, 0x3c54, 0x4cd3, 0x3239, 0xb107, 0xcfed,
    0x2361, 0x5d8b, 0xdeb5, 0xa05f, 0xd0d8, 0xae32, 0x2d0c, 0x53e6,
    0xcc02, 0xb2e8, 0x31d6, 0x4f3c, 0x3fbb, 0x4151, 0xc26f, 0xbc85,
    0xf5b6, 0x8b5c, 0x0862, 0x7688, 0x060f, 0x78e5, 0xfbdb, 0x8531,
    0x1ad5, 0x643f, 0xe701, 0x99eb, 0xe96c, 0x9786, 0x14b8, 0x6a52,
    0xc5b1, 0xbb5b, 0x3865, 0x468f, 0x3608, 0x48e2, 0xcbdc, 0xb536,
    0x2ad2, 0x5438, 0xd706, 0xa9ec, 0xd96b, 0xa781, 0x24bf, 0x5a55,
    0x1366, 0x6d8c, 0xeeb2, 0x9058, 0xe0df, 0x9e35, 0x1d0b, 0x63e1,
    0xfc05, 0x82ef, 0x01d1, 0x7f3b, 0x0fbc, 0x7156, 0xf268, 0x8c82,
    0x600e, 0x1ee4, 0x9dda, 0xe330, 0x93b7, 0xed5d, 0x6e63, 0x1089,
    0x8f6d, 0xf187, 0x72b9, 0x0c53, 0x7cd4, 0x023e, 0x8100, 0xffea,
    0xb6d9, 0xc833, 0x4b0d, 0x35e7, 0x4560, 0x3b8a, 0xb8b4, 0xc65e,
    0x59ba, 0x2750, 0xa46e, 0xda84, 0xaa03, 0xd4e9, 0x57d7, 0x293d,
];

/// The lane as a combination of its entries for single bits.
pub open spec fn form(byte: u8) -> u16 {
    combine(byte, 0x7eea, 0xfdd4, 0xf3b9, 0xef63, 0xd6d7, 0xa5bf, 0x436f, 0x86de)
}

proof fn lemma_entries(byte: u8)
    by (bit_vector)
    ensures
        form(byte) == next(lane_12::form(byte)),
        form(0) == 0x0000, form(1) == 0x7eea, form(2) == 0xfdd4, form(3) == 0x833e,
        form(4) == 0xf3b9, form(5) == 0x8d53, form(6) == 0x0e6d, form(7) == 0x7087,
        form(8) == 0xef63, form(9) == 0x9189, form(10) == 0x12b7, form(11) == 0x6c5d,
        form(12) == 0x1cda, form(13) == 0x6230, form(14) == 0xe10e, form(15) == 0x9fe4,
        form(16) == 0xd6d7, form(17) == 0xa83d, form(18) == 0x2b03, form(19) == 0x55e9,
        form(20) == 0x256e, form(21) == 0x5b84, form(22) == 0xd8ba, form(23) == 0xa650,
        form(24) == 0x39b4, form(25) == 0x475e, form(26) == 0xc460, form(27) == 0xba8a,
        form(28) == 0xca0d, form(29) == 0xb4e7, form(30) == 0x37d9, form(31) == 0x4933,
        form(32) == 0xa5bf, form(33) == 0xdb55, form(34) == 0x586b, form(35) == 0x2681,
        form(36) == 0x5606, form(37) == 0x28ec, form(38) == 0xabd2, form(39) == 0xd538,
        form(40) == 0x4adc, form(41) == 0x3436, form(42) == 0xb708, form(43) == 0xc9e2,
        form(44) == 0xb965, form(45) == 0xc78f, form(46) == 0x44b1, form(47) == 0x3a5b,
        form(48) == 0x7368, form(49) == 0x0d82, form(50) == 0x8ebc, form(51) == 0xf056,
        form(52) == 0x80d1, form(53) == 0xfe3b, form(54) == 0x7d05, form(55) == 0x03ef,
        form(56) == 0x9c0b, form(57) == 0xe2e1, form(58) == 0x61df, form(59) == 0x1f35,
        form(60) == 0x6fb2, form(61) == 0x1158, form(62) == 0x9266, form(63) == 0xec8c,
        form(64) == 0x436f, form(65) == 0x3d85, form(66) == 0xbebb, form(67) == 0xc051,
        form(68) == 0xb0d6, form(69) == 0xce3c, form(70) == 0x4d02, form(71) == 0x33e8,
        form(72) == 0xac0c, form(73) == 0xd2e6, form(74) == 0x51d8, form(75) == 0x2f32,
        form(76) == 0x5fb5, form(77) == 0x215f, form(78) == 0xa261, form(79) == 0xdc8b,
        form(80) == 0x95b8, form(81) == 0xeb52, form(82) == 0x686c, form(83) == 0x1686,
        form(84) == 0x6601, form(85) == 0x18eb, form(86) == 0x9bd5, form(87) == 0xe53f,
        form(88) == 0x7adb, form(89) == 0x0431, form(90) == 0x870f, form(91) == 0xf9e5,
        form(92) == 0x8962, form(93) == 0xf788, form(94) == 0x74b6, form(95) == 0x0a5c,
        form(96) == 0xe6d0, form(97) == 0x983a, form(98) == 0x1b04, form(99) == 0x65ee,
        form(100) == 0x1569, form(101) == 0x6b83, form(102) == 0xe8bd, form(103) == 0x9657,
        form(104) == 0x09b3, form(105) == 0x7759, form(106) == 0xf467, form(107) == 0x8a8d,
        form(108) == 0xfa0a, form(109) == 0x84e0, form(110) == 0x07de, form(111) == 0x7934,
        form(112) == 0x3007, form(113) == 0x4eed, form(114) == 0xcdd3, form(115) == 0xb339,
        form(116) == 0xc3be, form(117) == 0xbd54, form(118) == 0x3e6a, form(119) == 0x4080,
        form(120) == 0xdf64, form(121) == 0xa18e, form(122) == 0x22b0, form(123) == 0x5c5a,
        form(124) == 0x2cdd, form(125) == 0x5237, form(126) == 0xd109, form(127) == 0xafe3,
        form(128) == 0x86de, form(129) == 0xf834, form(130) == 0x7b0a, form(131) == 0x05e0,
        form(132) == 0x7567, form(133) == 0x0b8d, form(134) == 0x88b3, form(135) == 0xf659,
        form(136) == 0x69bd, form(137) == 0x1757, form(138) == 0x9469, form(139) == 0xea83,
        form(140) == 0x9a04, form(141) == 0xe4ee, form(142) == 0x67d0, form(143) == 0x193a,
        form(144) == 0x5009, form(145) == 0x2ee3, form(146) == 0xaddd, form(147) == 0xd337,
        form(148) == 0xa3b0, form(149) == 0xdd5a, form(150) == 0x5e64, form(151) == 0x208e,
        form(152) == 0xbf6a, form(153) == 0xc180, form(154) == 0x42be, form(155) == 0x3c54,
        form(156) == 0x4cd3, form(157) == 0x3239, form(158) == 0xb107, form(159) == 0xcfed,
        form(160) == 0x2361, form(161) == 0x5d8b, form(162) == 0xdeb5, form(163) == 0xa05f,
        form(164) == 0xd0d8, form(165) == 0xae32, form(166) == 0x2d0c, form(167) == 0x53e6,
        form(168) == 0xcc02, form(169) == 0xb2e8, form(170) == 0x31d6, form(171) == 0x4f3c,
        form(172) == 0x3fbb, form(173) == 0x4151, form(174) == 0xc26f, form(175) == 0xbc85,
        form(176) == 0xf5b6, form(177) == 0x8b5c, form(178) == 0x0862, form(179) == 0x7688,
        form(180) == 0x060f, form(181) == 0x78e5, form(182) == 0xfbdb, form(183) == 0x8531,
        form(184) == 0x1ad5, form(185) == 0x643f, form(186) == 0xe701, form(187) == 0x99eb,
        form(188) == 0xe96c, form(189) == 0x9786, form(190) == 0x14b8, form(191) == 0x6a52,
        form(192) == 0xc5b1, form(193) == 0xbb5b, form(194) == 0x3865, form(195) == 0x468f,
        form(196) == 0x3608, form(197) == 0x48e2, form(198) == 0xcbdc, form(199) == 0xb536,
        form(200) == 0x2ad2, form(201) == 0x5438, form(202) == 0xd706, form(203) == 0xa9ec,
        form(204) == 0xd96b, form(205) == 0xa781, form(206) == 0x24bf, form(207) == 0x5a55,
        form(208) == 0x1366, form(209) == 0x6d8c, form(210) == 0xeeb2, form(211) == 0x9058,
        form(212) == 0xe0df, form(213) == 0x9e35, form(214) == 0x1d0b, form(215) == 0x63e1,
        form(216) == 0xfc05, form(217) == 0x82ef, form(218) == 0x01d1, form(219) == 0x7f3b,
        form(220) == 0x0fbc, form(221) == 0x7156, form(222) == 0xf268, form(223) == 0x8c82,
        form(224) == 0x600e, form(225) == 0x1ee4, form(226) == 0x9dda, form(227) == 0xe330,
        form(228) == 0x93b7, form(229) == 0xed5d, form(230) == 0x6e63, form(231) == 0x1089,
        form(232) == 0x8f6d, form(233) == 0xf187, form(234) == 0x72b9, form(235) == 0x0c53,
        form(236) == 0x7cd4, form(237) == 0x023e, form(238) == 0x8100, form(239) == 0xffea,
        form(240) == 0xb6d9, form(241) == 0xc833, form(242) == 0x4b0d, form(243) == 0x35e7,
        form(244) == 0x4560, form(245) == 0x3b8a, form(246) == 0xb8b4, form(247) == 0xc65e,
        form(248) == 0x59ba, form(249) == 0x2750, form(250) == 0xa46e, form(251) == 0xda84,
        form(252) == 0xaa03, form(253) == 0xd4e9, form(254) == 0x57d7, form(255) == 0x293d,
{
}

/// The combination is the lane value.
pub proof fn lemma_form(byte: u8)
    ensures
        form(byte) == lane_value(13, byte),
{
    lemma_entries(byte);
    lane_12::lemma_form(byte);
    lemma_lane_above(byte, 12);
}

/// Every entry is the lane value of its index.
pub proof fn lemma_lane()
    ensures
        holds_lane(LANE, 13),
{
    assert forall|i: int| 0 <= i < 256 implies #[trigger] LANE@[i] == lane_value(13, i as u8) by {
        reveal(LANE);
        lemma_form(i as u8);
        lemma_entries(0);
        lemma_indices(i);
    }
}

} // verus!
