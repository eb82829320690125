//! Contribution of a byte that is followed by 14 more bytes.
use vstd::prelude::*;

use super::super::model::lane_value;
use super::lane_13;
use super::forms::{combine, holds_lane, lemma_indices, lemma_lane_above, next};

verus! {

/// The lane, indexed by the byte.
#[verifier::opaque]
pub const LANE: [u16; 256] = [
    0x0000, 0x482a, 0x9054, 0xd87e, 0x28b9, 0x6093, 0xb8ed, 0xf0c7,
    0x5172, 0x1958, 0xc126, 0x890c, 0x79cb, 0x31e1, 0xe99f, 0xa1b5,
    0xa2e4, 0xeace, 0x32b0, 0x7a9a, 0x8a5d, 0xc277, 0x1a09, 0x5223,
    0xf396, 0xbbbc, 0x63c2, 0x2be8, 0xdb2f, 0x9305, 0x4b7b, 0x0351,
    0x4dd9, 0x05f3, 0xdd8d, 0x95a7, 0x6560, 0x2d4a, 0xf534, 0xbd1e,
    0x1cab, 0x5481, 0x8cff, 0xc4d5, 0x3412, 0x7c38, 0xa446, 0xec6c,
    0xef3d, 0xa717, 0x7f69, 0x3743, 0xc784, 0x8fae, 0x57d0, 0x1ffa,
    0xbe4f, 0xf665, 0x2e1b, 0x6631, 0x96f6, 0xdedc, 0x06a2, 0x4e88,
    0x9bb2, 0xd398, 0x0be6, 0x43cc, 0xb30b, 0xfb21, 0x235f, 0x6b75,
    0xcac0, 0x82ea, 0x5a94, 0x12be, 0xe279, 0xaa53, 0x722d, 0x3a07,
    0x3956, 0x717c, 0xa902, 0xe128, 0x11ef, 0x59c5, 0x81bb, 0xc991,
    0x6824, 0x200e, 0xf870, 0xb05a, 0x409d, 0x08b7, 0xd0c9, 0x98e3,
    0xd66b, 0x9e41, 0x463f, 0x0e15, 0xfed2, 0xb6f8, 0x6e86, 0x26ac,
    0x8719, 0xcf33, 0x174d, 0x5f67, 0xafa0, 0xe78a, 0x3ff4, 0x77de,
    0x748f, 0x3ca5, 0xe4db, 0xacf1, 0x5c36, 0x141c, 0xcc62, 0x8448,
    0x25fd, 0x6dd7, 0xb5a9, 0xfd83, 0x0d44, 0x456e, 0x9d10, 0xd53a,
    0x3f75, 0x775f, 0xaf21, 0xe70b, 0x17cc, 0x5fe6, 0x8798, 0xcfb2,
    0x6e07, 0x262d, 0xfe53, 0xb679, 0x46be, 0x0e94, 0xd6ea, 0x9ec0,
    0x9d91, 0xd5bb, 0x0dc5, 0x45ef, 0xb528, 0xfd02, 0x257c, 0x6d56,
    0xcce3, 0x84c9, 0x5cb7, 0x149d, 0xe45a, 0xac70, 0x740e, 0x3c24,
    0x72ac, 0x3a86, 0xe2f8, 0xaad2, 0x5a15, 0x123f, 0xca41, 0x826b,
    0x23de, 0x6bf4, 0xb38a, 0xfba0, 0x0b67, 0x434d, 0x9b33, 0xd319,
    0xd048, 0x9862, 0x401c, 0x0836, 0xf8f1, 0xb0db, 0x68a5, 0x208f,
    0x813a, 0xc910, 0x116e, 0x5944, 0xa983, 0xe1a9, 0x39d7, 0x71fd,
    0xa4c7, 0xeced, 0x3493, 0x7cb9, 0x8c7e, 0xc454, 0x1c2a, 0x5400,
    0xf5b5, 0xbd9f, 0x65e1, 0x2dcb, 0xdd0c, 0x9526, 0x4d58, 0x0572,
    0x0623, 0x4e09, 0x9677, 0xde5d, 0x2e9a, 0x66b0, 0xbece, 0xf6e4,
    0x5751, 0x1f7b, 0xc705, 0x8f2f, 0x7fe8, 0x37c2, 0xefbc, 0xa796,
    0xe91e, 0xa134, 0x794a, 0x3160, 0xc1a7, 0x898d, 0x51f3, 0x19d9,
    0xb86c, 0xf046, 0x2838, 0x6012, 0x90d5, 0xd8ff, 0x0081, 0x48ab,
    0x4bfa, 0x03d0, 0xdbae, 0x9384, 0x6343, 0x2b69, 0xf317, 0xbb3d,
    0x1a88, 0x52a2, 0x8adc, 0xc2f6, 0x3231, 0x7a1b, 0xa265, 0xea4f,
];

/// The lane as a combination of its entries for single bits.
pub open spec fn form(byte: u8) -> u16 {
    combine(byte, 0x482a, 0x9054, 0x28b9, 0x5172, 0xa2e4, 0x4dd9, 0x9bb2, 0x3f75)
}

proof fn lemma_entries(byte: u8)
    by (bit_vector)
    ensures
        form(byte) == next(lane_13::form(byte)),
        form(0) == 0x0000, form(1) == 0x482a, form(2) == 0x9054, form(3) == 0xd87e,
        form(4) == 0x28b9, form(5) == 0x6093, form(6) == 0xb8ed, form(7) == 0xf0c7,
        form(8) == 0x5172, form(9) == 0x1958, form(10) == 0xc126, form(11) == 0x890c,
        form(12) == 0x79cb, form(13) == 0x31e1, form(14) == 0xe99f, form(15) == 0xa1b5,
        form(16) == 0xa2e4, form(17) == 0xeace, form(18) == 0x32b0, form(19) == 0x7a9a,
        form(20) == 0x8a5d, form(21) == 0xc277, form(22) == 0x1a09, form(23) == 0x5223,
        form(24) == 0xf396, form(25) == 0xbbbc, form(26) == 0x63c2, form(27) == 0x2be8,
        form(28) == 0xdb2f, form(29) == 0x9305, form(30) == 0x4b7b, form(31) == 0x0351,
        form(32) == 0x4dd9, form(33) == 0x05f3, form(34) == 0xdd8d, form(35) == 0x95a7,
        form(36) == 0x6560, form(37) == 0x2d4a, form(38) == 0xf534, form(39) == 0xbd1e,
        form(40) == 0x1cab, form(41) == 0x5481, form(42) == 0x8cff, form(43) == 0xc4d5,
        form(44) == 0x3412, form(45) == 0x7c38, form(46) == 0xa446, form(47) == 0xec6c,
        form(48) == 0xef3d, form(49) == 0xa717, form(50) == 0x7f69, form(51) == 0x3743,
        form(52) == 0xc784, form(53) == 0x8fae, form(54) == 0x57d0, form(55) == 0x1ffa,
        form(56) == 0xbe4f, form(57) == 0xf665, form(58) == 0x2e1b, form(59) == 0x6631,
        form(60) == 0x96f6, form(61) == 0xdedc, form(62) == 0x06a2, form(63) == 0x4e88,
        form(64) == 0x9bb2, form(65) == 0xd398, form(66) == 0x0be6, form(67) == 0x43cc,
        form(68) == 0xb30b, form(69) == 0xfb21, form(70) == 0x235f, form(71) == 0x6b75,
        form(72) == 0xcac0, form(73) == 0x82ea, form(74) == 0x5a94, form(75) == 0x12be,
        form(76) == 0xe279, form(77) == 0xaa53, form(78) == 0x722d, form(79) == 0x3a07,
        form(80) == 0x3956, form(81) == 0x717c, form(82) == 0xa902, form(83) == 0xe128,
        form(84) == 0x11ef, form(85) == 0x59c5, form(86) == 0x81bb, form(87) == 0xc991,
        form(88) == 0x6824, form(89) == 0x200e, form(90) == 0xf870, form(91) == 0xb05a,
        form(92) == 0x409d, form(93) == 0x08b7, form(94) == 0xd0c9, form(95) == 0x98e3,
        form(96) == 0xd66b, form(97) == 0x9e41, form(98) == 0x463f, form(99) == 0x0e15,
        form(100) == 0xfed2, form(101) == 0xb6f8, form(102) == 0x6e86, form(103) == 0x26ac,
        form(104) == 0x8719, form(105) == 0xcf33, form(106) == 0x174d, form(107) == 0x5f67,
        form(108) == 0xafa0, form(109) == 0xe78a, form(110) == 0x3ff4, form(111) == 0x77de,
        form(112) == 0x748f, form(113) == 0x3ca5, form(114) == 0xe4db, form(115) == 0xacf1,
        form(116) == 0x5c36, form(117) == 0x141c, form(118) == 0xcc62, form(119) == 0x8448,
        form(120) == 0x25fd, form(121) == 0x6dd7, form(122) == 0xb5a9, form(123) == 0xfd83,
        form(124) == 0x0d44, form(125) == 0x456e, form(126) == 0x9d10, form(127) == 0xd53a,
        form(128) == 0x3f75, form(129) == 0x775f, form(130) == 0xaf21, form(131) == 0xe70b,
        form(132) == 0x17cc, form(133) == 0x5fe6, form(134) == 0x8798, form(135) == 0xcfb2,
        form(136) == 0x6e07, form(137) == 0x262d, form(138) == 0xfe53, form(139) == 0xb679,
        form(140) == 0x46be, form(141) == 0x0e94, form(142) == 0xd6ea, form(143) == 0x9ec0,
        form(144) == 0x9d91, form(145) == 0xd5bb, form(146) == 0x0dc5, form(147) == 0x45ef,
        form(148) == 0xb528, form(149) == 0xfd02, form(150) == 0x257c, form(151) == 0x6d56,
        form(152) == 0xcce3, form(153) == 0x84c9, form(154) == 0x5cb7, form(155) == 0x149d,
        form(156) == 0xe45a, form(157) == 0xac70, form(158) == 0x740e, form(159) == 0x3c24,
        form(160) == 0x72ac, form(161) == 0x3a86, form(162) == 0xe2f8, form(163) == 0xaad2,
        form(164) == 0x5a15, form(165) == 0x123f, form(166) == 0xca41, form(167) == 0x826b,
        form(168) == 0x23de, form(169) == 0x6bf4, form(170) == 0xb38a, form(171) == 0xfba0,
        form(172) == 0x0b67, form(173) == 0x434d, form(174) == 0x9b33, form(175) == 0xd319,
        form(176) == 0xd048, form(177) == 0x9862, form(178) == 0x401c, form(179) == 0x0836,
        form(180) == 0xf8f1, form(181) == 0xb0db, form(182) == 0x68a5, form(183) == 0x208f,
        form(184) == 0x813a, form(185) == 0xc910, form(186) == 0x116e, form(187) == 0x5944,
        form(188) == 0xa983, form(189) == 0xe1a9, form(190) == 0x39d7, form(191) == 0x71fd,
        form(192) == 0xa4c7, form(193) == 0xeced, form(194) == 0x3493, form(195) == 0x7cb9,
        form(196) == 0x8c7e, form(197) == 0xc454, form(198) == 0x1c2a, form(199) == 0x5400,
        form(200) == 0xf5b5, form(201) == 0xbd9f, form(202) == 0x65e1, form(203) == 0x2dcb,
        form(204) == 0xdd0c, form(205) == 0x9526, form(206) == 0x4d58, form(207) == 0x0572,
        form(208) == 0x0623, form(209) == 0x4e09, form(210) == 0x9677, form(211) == 0xde5d,
        form(212) == 0x2e9a, form(213) == 0x66b0, form(214) == 0xbece, form(215) == 0xf6e4,
        form(216) == 0x5751, form(217) == 0x1f7b, form(218) == 0xc705, form(219) == 0x8f2f,
        form(220) == 0x7fe8, form(221) == 0x37c2, form(222) == 0xefbc, form(223) == 0xa796,
        form(224) == 0xe91e, form(225) == 0xa134, form(226) == 0x794a, form(227) == 0x3160,
        form(228) == 0xc1a7, form(229) == 0x898d, form(230) == 0x51f3, form(231) == 0x19d9,
        form(232) == 0xb86c, form(233) == 0xf046, form(234) == 0x2838, form(235) == 0x6012,
        form(236) == 0x90d5, form(237) == 0xd8ff, form(238) == 0x0081, form(239) == 0x48ab,
        form(240) == 0x4bfa, form(241) == 0x03d0, form(242) == 0xdbae, form(243) == 0x9384,
        form(244) == 0x6343, form(245) == 0x2b69, form(246) == 0xf317, form(247) == 0xbb3d,
        form(248) == 0x1a88, form(249) == 0x52a2, form(250) == 0x8adc, form(251) == 0xc2f6,
        form(252) == 0x3231, form(253) == 0x7a1b, form(254) == 0xa265, form(255) == 0xea4f,
{
}

/// The combination is the lane value.
pub proof fn lemma_form(byte: u8)
    ensures
        form(byte) == lane_value(14, byte),
{
    lemma_entries(byte);
    lane_13::lemma_form(byte);
    lemma_lane_above(byte, 13);
}

/// Every entry is the lane value of its index.
pub proof fn lemma_lane()
    ensures
        holds_lane(LANE, 14),
{
    assert forall|i: int| 0 <= i < 256 implies #[trigger] LANE@[i] == lane_value(14, i as u8) by {
        reveal(LANE);
        lemma_form(i as u8);
        lemma_entries(0);
        lemma_indices(i);
    }
}

} // verus!
