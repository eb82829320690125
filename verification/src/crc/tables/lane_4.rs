//! Contribution of a byte that is followed by 4 more bytes.
use vstd::prelude::*;

use super::super::model::lane_value;
use super::lane_3;
use super::forms::{combine, holds_lane, lemma_indices, lemma_lane_above, next};

verus! {

/// The lane, indexed by the byte.
#[verifier::opaque]
pub const LANE: [u16; 256] = [
    0x0000, 0x0b44, 0x1688, 0x1dcc, 0x2d10, 0x2654, 0x3b98, 0x30dc,
    0x5a20, 0x5164, 0x4ca8, 0x47ec, 0x7730, 0x7c74, 0x61b8, 0x6afc,
    0xb440, 0xbf04, 0xa2c8, 0xa98c, 0x9950, 0x9214, 0x8fd8, 0x849c,
    0xee60, 0xe524, 0xf8e8, 0xf3ac, 0xc370, 0xc834, 0xd5f8, 0xdebc,
    0x6091, 0x6bd5, 0x7619, 0x7d5d, 0x4d81, 0x46c5, 0x5b09, 0x504d,
    0x3ab1, 0x31f5, 0x2c39, 0x277d, 0x17a1, 0x1ce5, 0x0129, 0x0a6d,
    0xd4d1, 0xdf95, 0xc259, 0xc91d, 0xf9c1, 0xf285, 0xef49, 0xe40d,
    0x8ef1, 0x85b5, 0x9879, 0x933d, 0xa3e1, 0xa8a5, 0xb569, 0xbe2d,
    0xc122, 0xca66, 0xd7aa, 0xdcee, 0xec32, 0xe776, 0xfaba, 0xf1fe,
    0x9b02, 0x9046, 0x8d8a, 0x86ce, 0xb612, 0xbd56, 0xa09a, 0xabde,
    0x7562, 0x7e26, 0x63ea, 0x68ae, 0x5872, 0x5336, 0x4efa, 0x45be,
    0x2f42, 0x2406, 0x39ca, 0x328e, 0x0252, 0x0916, 0x14da, 0x1f9e,
    0xa1b3, 0xaaf7, 0xb73b, 0xbc7f, 0x8ca3, 0x87e7, 0x9a2b, 0x916f,
    0xfb93, 0xf0d7, 0xed1b, 0xe65f, 0xd683, 0xddc7, 0xc00b, 0xcb4f,
    0x15f3, 0x1eb7, 0x037b, 0x083f, 0x38e3, 0x33a7, 0x2e6b, 0x252f,
    0x4fd3, 0x4497, 0x595b, 0x521f, 0x62c3, 0x6987, 0x744b, 0x7f0f,
    0x8a55, 0x8111, 0x9cdd, 0x9799, 0xa745, 0xac01, 0xb1cd, 0xba89,
    0xd075, 0xdb31, 0xc6fd, 0xcdb9, 0xfd65, 0xf621, 0xebed, 0xe0a9,
    0x3e15, 0x3551, 0x289d, 0x23d9, 0x1305, 0x1841, 0x058d, 0x0ec9,
    0x6435, 0x6f71, 0x72bd, 0x79f9, 0x4925, 0x4261, 0x5fad, 0x54e9,
    0xeac4, 0xe180, 0xfc4c, 0xf708, 0xc7d4, 0xcc90, 0xd15c, 0xda18,
    0xb0e4, 0xbba0, 0xa66c, 0xad28, 0x9df4, 0x96b0, 0x8b7c, 0x8038,
    0x5e84, 0x55c0, 0x480c, 0x4348, 0x7394, 0x78d0, 0x651c, 0x6e58,
    0x04a4, 0x0fe0, 0x122c, 0x1968, 0x29b4, 0x22f0, 0x3f3c, 0x3478,
    0x4b77, 0x4033, 0x5dff, 0x56bb, 0x6667, 0x6d23, 0x70ef, 0x7bab,
    0x1157, 0x1a13, 0x07df, 0x0c9b, 0x3c47, 0x3703, 0x2acf, 0x218b,
    0xff37, 0xf473, 0xe9bf, 0xe2fb, 0xd227, 0xd963, 0xc4af, 0xcfeb,
    0xa517, 0xae53, 0xb39f, 0xb8db, 0x8807, 0x8343, 0x9e8f, 0x95cb,
    0x2be6, 0x20a2, 0x3d6e, 0x362a, 0x06f6, 0x0db2, 0x107e, 0x1b3a,
    0x71c6, 0x7a82, 0x674e, 0x6c0a, 0x5cd6, 0x5792, 0x4a5e, 0x411a,
    0x9fa6, 0x94e2, 0x892e, 0x826a, 0xb2b6, 0xb9f2, 0xa43e, 0xaf7a,
    0xc586, 0xcec2, 0xd30e, 0xd84a, 0xe896, 0xe3d2, 0xfe1e, 0xf55a,
];

/// The lane as a combination of its entries for single bits.
pub open spec fn form(byte: u8) -> u16 {
    combine(byte, 0x0b44, 0x1688, 0x2d10, 0x5a20, 0xb440, 0x6091, 0xc122, 0x8a55)
}

proof fn lemma_entries(byte: u8)
    by (bit_vector)
    ensures
        form(byte) == next(lane_3::form(byte)),
        form(0) == 0x0000, form(1) == 0x0b44, form(2) == 0x1688, form(3) == 0x1dcc,
        form(4) == 0x2d10, form(5) == 0x2654, form(6) == 0x3b98, form(7) == 0x30dc,
        form(8) == 0x5a20, form(9) == 0x5164, form(10) == 0x4ca8, form(11) == 0x47ec,
        form(12) == 0x7730, form(13) == 0x7c74, form(14) == 0x61b8, form(15) == 0x6afc,
        form(16) == 0xb440, form(17) == 0xbf04, form(18) == 0xa2c8, form(19) == 0xa98c,
        form(20) == 0x9950, form(21) == 0x9214, form(22) == 0x8fd8, form(23) == 0x849c,
        form(24) == 0xee60, form(25) == 0xe524, form(26) == 0xf8e8, form(27) == 0xf3ac,
        form(28) == 0xc370, form(29) == 0xc834, form(30) == 0xd5f8, form(31) == 0xdebc,
        form(32) == 0x6091, form(33) == 0x6bd5, form(34) == 0x7619, form(35) == 0x7d5d,
        form(36) == 0x4d81, form(37) == 0x46c5, form(38) == 0x5b09, form(39) == 0x504d,
        form(40) == 0x3ab1, form(41) == 0x31f5, form(42) == 0x2c39, form(43) == 0x277d,
        form(44) == 0x17a1, form(45) == 0x1ce5, form(46) == 0x0129, form(47) == 0x0a6d,
        form(48) == 0xd4d1, form(49) == 0xdf95, form(50) == 0xc259, form(51) == 0xc91d,
        form(52) == 0xf9c1, form(53) == 0xf285, form(54) == 0xef49, form(55) == 0xe40d,
        form(56) == 0x8ef1, form(57) == 0x85b5, form(58) == 0x9879, form(59) == 0x933d,
        form(60) == 0xa3e1, form(61) == 0xa8a5, form(62) == 0xb569, form(63) == 0xbe2d,
        form(64) == 0xc122, form(65) == 0xca66, form(66) == 0xd7aa, form(67) == 0xdcee,
        form(68) == 0xec32, form(69) == 0xe776, form(70) == 0xfaba, form(71) == 0xf1fe,
        form(72) == 0x9b02, form(73) == 0x9046, form(74) == 0x8d8a, form(75) == 0x86ce,
        form(76) == 0xb612, form(77) == 0xbd56, form(78) == 0xa09a, form(79) == 0xabde,
        form(80) == 0x7562, form(81) == 0x7e26, form(82) == 0x63ea, form(83) == 0x68ae,
        form(84) == 0x5872, form(85) == 0x5336, form(86) == 0x4efa, form(87) == 0x45be,
        form(88) == 0x2f42, form(89) == 0x2406, form(90) == 0x39ca, form(91) == 0x328e,
        form(92) == 0x0252, form(93) == 0x0916, form(94) == 0x14da, form(95) == 0x1f9e,
        form(96) == 0xa1b3, form(97) == 0xaaf7, form(98) == 0xb73b, form(99) == 0xbc7f,
        form(100) == 0x8ca3, form(101) == 0x87e7, form(102) == 0x9a2b, form(103) == 0x916f,
        form(104) == 0xfb93, form(105) == 0xf0d7, form(106) == 0xed1b, form(107) == 0xe65f,
        form(108) == 0xd683, form(109) == 0xddc7, form(110) == 0xc00b, form(111) == 0xcb4f,
        form(112) == 0x15f3, form(113) == 0x1eb7, form(114) == 0x037b, form(115) == 0x083f,
        form(116) == 0x38e3, form(117) == 0x33a7, form(118) == 0x2e6b, form(119) == 0x252f,
        form(120) == 0x4fd3, form(121) == 0x4497, form(122) == 0x595b, form(123) == 0x521f,
        form(124) == 0x62c3, form(125) == 0x6987, form(126) == 0x744b, form(127) == 0x7f0f,
        form(128) == 0x8a55, form(129) == 0x8111, form(130) == 0x9cdd, form(131) == 0x9799,
        form(132) == 0xa745, form(133) == 0xac01, form(134) == 0xb1cd, form(135) == 0xba89,
        form(136) == 0xd075, form(137) == 0xdb31, form(138) == 0xc6fd, form(139) == 0xcdb9,
        form(140) == 0xfd65, form(141) == 0xf621, form(142) == 0xebed, form(143) == 0xe0a9,
        form(144) == 0x3e15, form(145) == 0x3551, form(146) == 0x289d, form(147) == 0x23d9,
        form(148) == 0x1305, form(149) == 0x1841, form(150) == 0x058d, form(151) == 0x0ec9,
        form(152) == 0x6435, form(153) == 0x6f71, form(154) == 0x72bd, form(155) == 0x79f9,
        form(156) == 0x4925, form(157) == 0x4261, form(158) == 0x5fad, form(159) == 0x54e9,
        form(160) == 0xeac4, form(161) == 0xe180, form(162) == 0xfc4c, form(163) == 0xf708,
        form(164) == 0xc7d4, form(165) == 0xcc90, form(166) == 0xd15c, form(167) == 0xda18,
        form(168) == 0xb0e4, form(169) == 0xbba0, form(170) == 0xa66c, form(171) == 0xad28,
        form(172) == 0x9df4, form(173) == 0x96b0, form(174) == 0x8b7c, form(175) == 0x8038,
        form(176) == 0x5e84, form(177) == 0x55c0, form(178) == 0x480c, form(179) == 0x4348,
        form(180) == 0x7394, form(181) == 0x78d0, form(182) == 0x651c, form(183) == 0x6e58,
        form(184) == 0x04a4, form(185) == 0x0fe0, form(186) == 0x122c, form(187) == 0x1968,
        form(188) == 0x29b4, form(189) == 0x22f0, form(190) == 0x3f3c, form(191) == 0x3478,
        form(192) == 0x4b77, form(193) == 0x4033, form(194) == 0x5dff, form(195) == 0x56bb,
        form(196) == 0x6667, form(197) == 0x6d23, form(198) == 0x70ef, form(199) == 0x7bab,
        form(200) == 0x1157, form(201) == 0x1a13, form(202) == 0x07df, form(203) == 0x0c9b,
        form(204) == 0x3c47, form(205) == 0x3703, form(206) == 0x2acf, form(207) == 0x218b,
        form(208) == 0xff37, form(209) == 0xf473, form(210) == 0xe9bf, form(211) == 0xe2fb,
        form(212) == 0xd227, form(213) == 0xd963, form(214) == 0xc4af, form(215) == 0xcfeb,
        form(216) == 0xa517, form(217) == 0xae53, form(218) == 0xb39f, form(219) == 0xb8db,
        form(220) == 0x8807, form(221) == 0x8343, form(222) == 0x9e8f, form(223) == 0x95cb,
        form(224) == 0x2be6, form(225) == 0x20a2, form(226) == 0x3d6e, form(227) == 0x362a,
        form(228) == 0x06f6, form(229) == 0x0db2, form(230) == 0x107e, form(231) == 0x1b3a,
        form(232) == 0x71c6, form(233) == 0x7a82, form(234) == 0x674e, form(235) == 0x6c0a,
        form(236) == 0x5cd6, form(237) == 0x5792, form(238) == 0x4a5e, form(239) == 0x411a,
        form(240) == 0x9fa6, form(241) == 0x94e2, form(242) == 0x892e, form(243) == 0x826a,
        form(244) == 0xb2b6, form(245) == 0xb9f2, form(246) == 0xa43e, form(247) == 0xaf7a,
        form(248) == 0xc586, form(249) == 0xcec2, form(250) == 0xd30e, form(251) == 0xd84a,
        form(252) == 0xe896, form(253) == 0xe3d2, form(254) == 0xfe1e, form(255) == 0xf55a,
{
}

/// The combination is the lane value.
pub proof fn lemma_form(byte: u8)
    ensures
        form(byte) == lane_value(4, byte),
{
    lemma_entries(byte);
    lane_3::lemma_form(byte);
    lemma_lane_above(byte, 3);
}

/// Every entry is the lane value of its index.
pub proof fn lemma_lane()
    ensures
        holds_lane(LANE, 4),
{
    assert forall|i: int| 0 <= i < 256 implies #[trigger] LANE@[i] == lane_value(4, i as u8) by {
        reveal(LANE);
        lemma_form(i as u8);
        lemma_entries(0);
        lemma_indices(i);
    }
}

} // verus!
