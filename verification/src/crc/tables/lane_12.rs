//! Contribution of a byte that is followed by 12 more bytes.
use vstd::prelude::*;

use super::super::model::lane_value;
use super::lane_11;
use super::forms::{combine, holds_lane, lemma_indices, lemma_lane_above, next};

verus! {

/// The lane, indexed by the byte.
#[verifier::opaque]
pub const LANE: [u16; 256] = [
    0x0000, 0x05ad, 0x0b5a, 0x0ef7, 0x16b4, 0x1319, 0x1dee, 0x1843,
    0x2d68, 0x28c5, 0x2632, 0x239f, 0x3bdc, 0x3e71, 0x3086, 0x352b,
    0x5ad0, 0x5f7d, 0x518a, 0x5427, 0x4c64, 0x49c9, 0x473e, 0x4293,
    0x77b8, 0x7215, 0x7ce2, 0x794f, 0x610c, 0x64a1, 0x6a56, 0x6ffb,
    0xb5a0, 0xb00d, 0xbefa, 0xbb57, 0xa314, 0xa6b9, 0xa84e, 0xade3,
    0x98c8, 0x9d65, 0x9392, 0x963f, 0x8e7c, 0x8bd1, 0x8526, 0x808b,
    0xef70, 0xeadd, 0xe42a, 0xe187, 0xf9c4, 0xfc69, 0xf29e, 0xf733,
    0xc218, 0xc7b5, 0xc942, 0xccef, 0xd4ac, 0xd101, 0xdff6, 0xda5b,
    0x6351, 0x66fc, 0x680b, 0x6da6, 0x75e5, 0x7048, 0x7ebf, 0x7b12,
    0x4e39, 0x4b94, 0x4563, 0x40ce, 0x588d, 0x5d20, 0x53d7, 0x567a,
    0x3981, 0x3c2c, 0x32db, 0x3776, 0x2f35, 0x2a98, 0x246f, 0x21c2,
    0x14e9, 0x1144, 0x1fb3, 0x1a1e, 0x025d, 0x07f0, 0x0907, 0x0caa,
    0xd6f1, 0xd35c, 0xddab, 0xd806, 0xc045, 0xc5e8, 0xcb1f, 0xceb2,
    0xfb99, 0xfe34, 0xf0c3, 0xf56e, 0xed2d, 0xe880, 0xe677, 0xe3da,
    0x8c21, 0x898c, 0x877b, 0x82d6, 0x9a95, 0x9f38, 0x91cf, 0x9462,
    0xa149, 0xa4e4, 0xaa13, 0xafbe, 0xb7fd, 0xb250, 0xbca7, 0xb90a,
    0xc6a2, 0xc30f, 0xcdf8, 0xc855, 0xd016, 0xd5bb, 0xdb4c, 0xdee1,
    0xebca, 0xee67, 0xe090, 0xe53d, 0xfd7e, 0xf8d3, 0xf624, 0xf389,
    0x9c72, 0x99df, 0x9728, 0x9285, 0x8ac6, 0x8f6b, 0x819c, 0x8431,
    0xb11a, 0xb4b7, 0xba40, 0xbfed, 0xa7ae, 0xa203, 0xacf4, 0xa959,
    0x7302, 0x76af, 0x7858, 0x7df5, 0x65b6, 0x601b, 0x6eec, 0x6b41,
    0x5e6a, 0x5bc7, 0x5530, 0x509d, 0x48de, 0x4d73, 0x4384, 0x4629,
    0x29d2, 0x2c7f, 0x2288, 0x2725, 0x3f66, 0x3acb, 0x343c, 0x3191,
    0x04ba, 0x0117, 0x0fe0, 0x0a4d, 0x120e, 0x17a3, 0x1954, 0x1cf9,
    0xa5f3, 0xa05e, 0xaea9, 0xab04, 0xb347, 0xb6ea, 0xb81d, 0xbdb0,
    0x889b, 0x8d36, 0x83c1, 0x866c, 0x9e2f, 0x9b82, 0x9575, 0x90d8,
    0xff23, 0xfa8e, 0xf479, 0xf1d4, 0xe997, 0xec3a, 0xe2cd, 0xe760,
    0xd24b, 0xd7e6, 0xd911, 0xdcbc, 0xc4ff, 0xc152, 0xcfa5, 0xca08,
    0x1053, 0x15fe, 0x1b09, 0x1ea4, 0x06e7, 0x034a, 0x0dbd, 0x0810,
    0x3d3b, 0x3896, 0x3661, 0x33cc, 0x2b8f, 0x2e22, 0x20d5, 0x2578,
    0x4a83, 0x4f2e, 0x41d9, 0x4474, 0x5c37, 0x599a, 0x576d, 0x52c0,
    0x67eb, 0x6246, 0x6cb1, 0x691c, 0x715f, 0x74f2, 0x7a05, 0x7fa8,
];

/// The lane as a combination of its entries for single bits.
pub open spec fn form(byte: u8) -> u16 {
    combine(byte, 0x05ad, 0x0b5a, 0x16b4, 0x2d68, 0x5ad0, 0xb5a0, 0x6351, 0xc6a2)
}

proof fn lemma_entries(byte: u8)
    by (bit_vector)
    ensures
        form(byte) == next(lane_11::form(byte)),
        form(0) == 0x0000, form(1) == 0x05ad, form(2) == 0x0b5a, form(3) == 0x0ef7,
        form(4) == 0x16b4, form(5) == 0x1319, form(6) == 0x1dee, form(7) == 0x1843,
        form(8) == 0x2d68, form(9) == 0x28c5, form(10) == 0x2632, form(11) == 0x239f,
        form(12) == 0x3bdc, form(13) == 0x3e71, form(14) == 0x3086, form(15) == 0x352b,
        form(16) == 0x5ad0, form(17) == 0x5f7d, form(18) == 0x518a, form(19) == 0x5427,
        form(20) == 0x4c64, form(21) == 0x49c9, form(22) == 0x473e, form(23) == 0x4293,
        form(24) == 0x77b8, form(25) == 0x7215, form(26) == 0x7ce2, form(27) == 0x794f,
        form(28) == 0x610c, form(29) == 0x64a1, form(30) == 0x6a56, form(31) == 0x6ffb,
        form(32) == 0xb5a0, form(33) == 0xb00d, form(34) == 0xbefa, form(35) == 0xbb57,
        form(36) == 0xa314, form(37) == 0xa6b9, form(38) == 0xa84e, form(39) == 0xade3,
        form(40) == 0x98c8, form(41) == 0x9d65, form(42) == 0x9392, form(43) == 0x963f,
        form(44) == 0x8e7c, form(45) == 0x8bd1, form(46) == 0x8526, form(47) == 0x808b,
        form(48) == 0xef70, form(49) == 0xeadd, form(50) == 0xe42a, form(51) == 0xe187,
        form(52) == 0xf9c4, form(53) == 0xfc69, form(54) == 0xf29e, form(55) == 0xf733,
        form(56) == 0xc218, form(57) == 0xc7b5, form(58) == 0xc942, form(59) == 0xccef,
        form(60) == 0xd4ac, form(61) == 0xd101, form(62) == 0xdff6, form(63) == 0xda5b,
        form(64) == 0x6351, form(65) == 0x66fc, form(66) == 0x680b, form(67) == 0x6da6,
        form(68) == 0x75e5, form(69) == 0x7048, form(70) == 0x7ebf, form(71) == 0x7b12,
        form(72) == 0x4e39, form(73) == 0x4b94, form(74) == 0x4563, form(75) == 0x40ce,
        form(76) == 0x588d, form(77) == 0x5d20, form(78) == 0x53d7, form(79) == 0x567a,
        form(80) == 0x3981, form(81) == 0x3c2c, form(82) == 0x32db, form(83) == 0x3776,
        form(84) == 0x2f35, form(85) == 0x2a98, form(86) == 0x246f, form(87) == 0x21c2,
        form(88) == 0x14e9, form(89) == 0x1144, form(90) == 0x1fb3, form(91) == 0x1a1e,
        form(92) == 0x025d, form(93) == 0x07f0, form(94) == 0x0907, form(95) == 0x0caa,
        form(96) == 0xd6f1, form(97) == 0xd35c, form(98) == 0xddab, form(99) == 0xd806,
        form(100) == 0xc045, form(101) == 0xc5e8, form(102) == 0xcb1f, form(103) == 0xceb2,
        form(104) == 0xfb99, form(105) == 0xfe34, form(106) == 0xf0c3, form(107) == 0xf56e,
        form(108) == 0xed2d, form(109) == 0xe880, form(110) == 0xe677, form(111) == 0xe3da,
        form(112) == 0x8c21, form(113) == 0x898c, form(114) == 0x877b, form(115) == 0x82d6,
        form(116) == 0x9a95, form(117) == 0x9f38, form(118) == 0x91cf, form(119) == 0x9462,
        form(120) == 0xa149, form(121) == 0xa4e4, form(122) == 0xaa13, form(123) == 0xafbe,
        form(124) == 0xb7fd, form(125) == 0xb250, form(126) == 0xbca7, form(127) == 0xb90a,
        form(128) == 0xc6a2, form(129) == 0xc30f, form(130) == 0xcdf8, form(131) == 0xc855,
        form(132) == 0xd016, form(133) == 0xd5bb, form(134) == 0xdb4c, form(135) == 0xdee1,
        form(136) == 0xebca, form(137) == 0xee67, form(138) == 0xe090, form(139) == 0xe53d,
        form(140) == 0xfd7e, form(141) == 0xf8d3, form(142) == 0xf624, form(143) == 0xf389,
        form(144) == 0x9c72, form(145) == 0x99df, form(146) == 0x9728, form(147) == 0x9285,
        form(148) == 0x8ac6, form(149) == 0x8f6b, form(150) == 0x819c, form(151) == 0x8431,
        form(152) == 0xb11a, form(153) == 0xb4b7, form(154) == 0xba40, form(155) == 0xbfed,
        form(156) == 0xa7ae, form(157) == 0xa203, form(158) == 0xacf4, form(159) == 0xa959,
        form(160) == 0x7302, form(161) == 0x76af, form(162) == 0x7858, form(163) == 0x7df5,
        form(164) == 0x65b6, form(165) == 0x601b, form(166) == 0x6eec, form(167) == 0x6b41,
        form(168) == 0x5e6a, form(169) == 0x5bc7, form(170) == 0x5530, form(171) == 0x509d,
        form(172) == 0x48de, form(173) == 0x4d73, form(174) == 0x4384, form(175) == 0x4629,
        form(176) == 0x29d2, form(177) == 0x2c7f, form(178) == 0x2288, form(179) == 0x2725,
        form(180) == 0x3f66, form(181) == 0x3acb, form(182) == 0x343c, form(183) == 0x3191,
        form(184) == 0x04ba, form(185) == 0x0117, form(186) == 0x0fe0, form(187) == 0x0a4d,
        form(188) == 0x120e, form(189) == 0x17a3, form(190) == 0x1954, form(191) == 0x1cf9,
        form(192) == 0xa5f3, form(193) == 0xa05e, form(194) == 0xaea9, form(195) == 0xab04,
        form(196) == 0xb347, form(197) == 0xb6ea, form(198) == 0xb81d, form(199) == 0xbdb0,
        form(200) == 0x889b, form(201) == 0x8d36, form(202) == 0x83c1, form(203) == 0x866c,
        form(204) == 0x9e2f, form(205) == 0x9b82, form(206) == 0x9575, form(207) == 0x90d8,
        form(208) == 0xff23, form(209) == 0xfa8e, form(210) == 0xf479, form(211) == 0xf1d4,
        form(212) == 0xe997, form(213) == 0xec3a, form(214) == 0xe2cd, form(215) == 0xe760,
        form(216) == 0xd24b, form(217) == 0xd7e6, form(218) == 0xd911, form(219) == 0xdcbc,
        form(220) == 0xc4ff, form(221) == 0xc152, form(222) == 0xcfa5, form(223) == 0xca08,
        form(224) == 0x1053, form(225) == 0x15fe, form(226) == 0x1b09, form(227) == 0x1ea4,
        form(228) == 0x06e7, form(229) == 0x034a, form(230) == 0x0dbd, form(231) == 0x0810,
        form(232) == 0x3d3b, form(233) == 0x3896, form(234) == 0x3661, form(235) == 0x33cc,
        form(236) == 0x2b8f, form(237) == 0x2e22, form(238) == 0x20d5, form(239) == 0x2578,
        form(240) == 0x4a83, form(241) == 0x4f2e, form(242) == 0x41d9, form(243) == 0x4474,
        form(244) == 0x5c37, form(245) == 0x599a, form(246) == 0x576d, form(247) == 0x52c0,
        form(248) == 0x67eb, form(249) == 0x6246, form(250) == 0x6cb1, form(251) == 0x691c,
        form(252) == 0x715f, form(253) == 0x74f2, form(254) == 0x7a05, form(255) == 0x7fa8,
{
}

/// The combination is the lane value.
pub proof fn lemma_form(byte: u8)
    ensures
        form(byte) == lane_value(12, byte),
{
    lemma_entries(byte);
    lane_11::lemma_form(byte);
    lemma_lane_above(byte, 11);
}

/// Every entry is the lane value of its index.
pub proof fn lemma_lane()
    ensures
        holds_lane(LANE, 12),
{
    assert forall|i: int| 0 <= i < 256 implies #[trigger] LANE@[i] == lane_value(12, i as u8) by {
        reveal(LANE);
        lemma_form(i as u8);
        lemma_entries(0);
        lemma_indices(i);
    }
}

} // verus!
