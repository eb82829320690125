//! Contribution of a byte that is followed by 7 more bytes.
use vstd::prelude::*;

use super::super::model::lane_value;
use super::lane_6;
use super::forms::{combine, holds_lane, lemma_indices, lemma_lane_above, next};

verus! {

/// The lane, indexed by the byte.
#[verifier::opaque]
pub const LANE: [u16; 256] = [
    0x0000, 0x81bf, 0x0b6f, 0x8ad0, 0x16de, 0x9761, 0x1db1, 0x9c0e,
    0x2dbc, 0xac03, 0x26d3, 0xa76c, 0x3b62, 0xbadd, 0x300d, 0xb1b2,
    0x5b78, 0xdac7, 0x5017, 0xd1a8, 0x4da6, 0xcc19, 0x46c9, 0xc776,
    0x76c4, 0xf77b, 0x7dab, 0xfc14, 0x601a, 0xe1a5, 0x6b75, 0xeaca,
    0xb6f0, 0x374f, 0xbd9f, 0x3c20, 0xa02e, 0x2191, 0xab41, 0x2afe,
    0x9b4c, 0x1af3, 0x9023, 0x119c, 0x8d92, 0x0c2d, 0x86fd, 0x0742,
    0xed88, 0x6c37, 0xe6e7, 0x6758, 0xfb56, 0x7ae9, 0xf039, 0x7186,
    0xc034, 0x418b, 0xcb5b, 0x4ae4, 0xd6ea, 0x5755, 0xdd85, 0x5c3a,
    0x65f1, 0xe44e, 0x6e9e, 0xef21, 0x732f, 0xf290, 0x7840, 0xf9ff,
    0x484d, 0xc9f2, 0x4322, 0xc29d, 0x5e93, 0xdf2c, 0x55fc, 0xd443,
    0x3e89, 0xbf36, 0x35e6, 0xb459, 0x2857, 0xa9e8, 0x2338, 0xa287,
    0x1335, 0x928a, 0x185a, 0x99e5, 0x05eb, 0x8454, 0x0e84, 0x8f3b,
    0xd301, 0x52be, 0xd86e, 0x59d1, 0xc5df, 0x4460, 0xceb0, 0x4f0f,
    0xfebd, 0x7f02, 0xf5d2, 0x746d, 0xe863, 0x69dc, 0xe30c, 0x62b3,
    0x8879, 0x09c6, 0x8316, 0x02a9, 0x9ea7, 0x1f18, 0x95c8, 0x1477,
    0xa5c5, 0x247a, 0xaeaa, 0x2f15, 0xb31b, 0x32a4, 0xb874, 0x39cb,
    0xcbe2, 0x4a5d, 0xc08d, 0x4132, 0xdd3c, 0x5c83, 0xd653, 0x57ec,
    0xe65e, 0x67e1, 0xed31, 0x6c8e, 0xf080, 0x713f, 0xfbef, 0x7a50,
    0x909a, 0x1125, 0x9bf5, 0x1a4a, 0x8644, 0x07fb, 0x8d2b, 0x0c94,
    0xbd26, 0x3c99, 0xb649, 0x37f6, 0xabf8, 0x2a47, 0xa097, 0x2128,
    0x7d12, 0xfcad, 0x767d, 0xf7c2, 0x6bcc, 0xea73, 0x60a3, 0xe11c,
    0x50ae, 0xd111, 0x5bc1, 0xda7e, 0x4670, 0xc7cf, 0x4d1f, 0xcca0,
    0x266a, 0xa7d5, 0x2d05, 0xacba, 0x30b4, 0xb10b, 0x3bdb, 0xba64,
    0x0bd6, 0x8a69, 0x00b9, 0x8106, 0x1d08, 0x9cb7, 0x1667, 0x97d8,
    0xae13, 0x2fac, 0xa57c, 0x24c3, 0xb8cd, 0x3972, 0xb3a2, 0x321d,
    0x83af, 0x0210, 0x88c0, 0x097f, 0x9571, 0x14ce, 0x9e1e, 0x1fa1,
    0xf56b, 0x74d4, 0xfe04, 0x7fbb, 0xe3b5, 0x620a, 0xe8da, 0x6965,
    0xd8d7, 0x5968, 0xd3b8, 0x5207, 0xce09, 0x4fb6, 0xc566, 0x44d9,
    0x18e3, 0x995c, 0x138c, 0x9233, 0x0e3d, 0x8f82, 0x0552, 0x84ed,
    0x355f, 0xb4e0, 0x3e30, 0xbf8f, 0x2381, 0xa23e, 0x28ee, 0xa951,
    0x439b, 0xc224, 0x48f4, 0xc94b, 0x5545, 0xd4fa, 0x5e2a, 0xdf95,
    0x6e27, 0xef98, 0x6548, 0xe4f7, 0x78f9, 0xf946, 0x7396, 0xf229,
];

/// The lane as a combination of its entries for single bits.
pub open spec fn form(byte: u8) -> u16 {
    combine(byte, 0x81bf, 0x0b6f, 0x16de, 0x2dbc, 0x5b78, 0xb6f0, 0x65f1, 0xcbe2)
}

proof fn lemma_entries(byte: u8)
    by (bit_vector)
    ensures
        form(byte) == next(lane_6::form(byte)),
        form(0) == 0x0000, form(1) == 0x81bf, form(2) == 0x0b6f, form(3) == 0x8ad0,
        form(4) == 0x16de, form(5) == 0x9761, form(6) == 0x1db1, form(7) == 0x9c0e,
        form(8) == 0x2dbc, form(9) == 0xac03, form(10) == 0x26d3, form(11) == 0xa76c,
        form(12) == 0x3b62, form(13) == 0xbadd, form(14) == 0x300d, form(15) == 0xb1b2,
        form(16) == 0x5b78, form(17) == 0xdac7, form(18) == 0x5017, form(19) == 0xd1a8,
        form(20) == 0x4da6, form(21) == 0xcc19, form(22) == 0x46c9, form(23) == 0xc776,
        form(24) == 0x76c4, form(25) == 0xf77b, form(26) == 0x7dab, form(27) == 0xfc14,
        form(28) == 0x601a, form(29) == 0xe1a5, form(30) == 0x6b75, form(31) == 0xeaca,
        form(32) == 0xb6f0, form(33) == 0x374f, form(34) == 0xbd9f, form(35) == 0x3c20,
        form(36) == 0xa02e, form(37) == 0x2191, form(38) == 0xab41, form(39) == 0x2afe,
        form(40) == 0x9b4c, form(41) == 0x1af3, form(42) == 0x9023, form(43) == 0x119c,
        form(44) == 0x8d92, form(45) == 0x0c2d, form(46) == 0x86fd, form(47) == 0x0742,
        form(48) == 0xed88, form(49) == 0x6c37, form(50) == 0xe6e7, form(51) == 0x6758,
        form(52) == 0xfb56, form(53) == 0x7ae9, form(54) == 0xf039, form(55) == 0x7186,
        form(56) == 0xc034, form(57) == 0x418b, form(58) == 0xcb5b, form(59) == 0x4ae4,
        form(60) == 0xd6ea, form(61) == 0x5755, form(62) == 0xdd85, form(63) == 0x5c3a,
        form(64) == 0x65f1, form(65) == 0xe44e, form(66) == 0x6e9e, form(67) == 0xef21,
        form(68) == 0x732f, form(69) == 0xf290, form(70) == 0x7840, form(71) == 0xf9ff,
        form(72) == 0x484d, form(73) == 0xc9f2, form(74) == 0x4322, form(75) == 0xc29d,
        form(76) == 0x5e93, form(77) == 0xdf2c, form(78) == 0x55fc, form(79) == 0xd443,
        form(80) == 0x3e89, form(81) == 0xbf36, form(82) == 0x35e6, form(83) == 0xb459,
        form(84) == 0x2857, form(85) == 0xa9e8, form(86) == 0x2338, form(87) == 0xa287,
        form(88) == 0x1335, form(89) == 0x928a, form(90) == 0x185a, form(91) == 0x99e5,
        form(92) == 0x05eb, form(93) == 0x8454, form(94) == 0x0e84, form(95) == 0x8f3b,
        form(96) == 0xd301, form(97) == 0x52be, form(98) == 0xd86e, form(99) == 0x59d1,
        form(100) == 0xc5df, form(101) == 0x4460, form(102) == 0xceb0, form(103) == 0x4f0f,
        form(104) == 0xfebd, form(105) == 0x7f02, form(106) == 0xf5d2, form(107) == 0x746d,
        form(108) == 0xe863, form(109) == 0x69dc, form(110) == 0xe30c, form(111) == 0x62b3,
        form(112) == 0x8879, form(113) == 0x09c6, form(114) == 0x8316, form(115) == 0x02a9,
        form(116) == 0x9ea7, form(117) == 0x1f18, form(118) == 0x95c8, form(119) == 0x1477,
        form(120) == 0xa5c5, form(121) == 0x247a, form(122) == 0xaeaa, form(123) == 0x2f15,
        form(124) == 0xb31b, form(125) == 0x32a4, form(126) == 0xb874, form(127) == 0x39cb,
        form(128) == 0xcbe2, form(129) == 0x4a5d, form(130) == 0xc08d, form(131) == 0x4132,
        form(132) == 0xdd3c, form(133) == 0x5c83, form(134) == 0xd653, form(135) == 0x57ec,
        form(136) == 0xe65e, form(137) == 0x67e1, form(138) == 0xed31, form(139) == 0x6c8e,
        form(140) == 0xf080, form(141) == 0x713f, form(142) == 0xfbef, form(143) == 0x7a50,
        form(144) == 0x909a, form(145) == 0x1125, form(146) == 0x9bf5, form(147) == 0x1a4a,
        form(148) == 0x8644, form(149) == 0x07fb, form(150) == 0x8d2b, form(151) == 0x0c94,
        form(152) == 0xbd26, form(153) == 0x3c99, form(154) == 0xb649, form(155) == 0x37f6,
        form(156) == 0xabf8, form(157) == 0x2a47, form(158) == 0xa097, form(159) == 0x2128,
        form(160) == 0x7d12, form(161) == 0xfcad, form(162) == 0x767d, form(163) == 0xf7c2,
        form(164) == 0x6bcc, form(165) == 0xea73, form(166) == 0x60a3, form(167) == 0xe11c,
        form(168) == 0x50ae, form(169) == 0xd111, form(170) == 0x5bc1, form(171) == 0xda7e,
        form(172) == 0x4670, form(173) == 0xc7cf, form(174) == 0x4d1f, form(175) == 0xcca0,
        form(176) == 0x266a, form(177) == 0xa7d5, form(178) == 0x2d05, form(179) == 0xacba,
        form(180) == 0x30b4, form(181) == 0xb10b, form(182) == 0x3bdb, form(183) == 0xba64,
        form(184) == 0x0bd6, form(185) == 0x8a69, form(186) == 0x00b9, form(187) == 0x8106,
        form(188) == 0x1d08, form(189) == 0x9cb7, form(190) == 0x1667, form(191) == 0x97d8,
        form(192) == 0xae13, form(193) == 0x2fac, form(194) == 0xa57c, form(195) == 0x24c3,
        form(196) == 0xb8cd, form(197) == 0x3972, form(198) == 0xb3a2, form(199) == 0x321d,
        form(200) == 0x83af, form(201) == 0x0210, form(202) == 0x88c0, form(203) == 0x097f,
        form(204) == 0x9571, form(205) == 0x14ce, form(206) == 0x9e1e, form(207) == 0x1fa1,
        form(208) == 0xf56b, form(209) == 0x74d4, form(210) == 0xfe04, form(211) == 0x7fbb,
        form(212) == 0xe3b5, form(213) == 0x620a, form(214) == 0xe8da, form(215) == 0x6965,
        form(216) == 0xd8d7, form(217) == 0x5968, form(218) == 0xd3b8, form(219) == 0x5207,
        form(220) == 0xce09, form(221) == 0x4fb6, form(222) == 0xc566, form(223) == 0x44d9,
        form(224) == 0x18e3, form(225) == 0x995c, form(226) == 0x138c, form(227) == 0x9233,
        form(228) == 0x0e3d, form(229) == 0x8f82, form(230) == 0x0552, form(231) == 0x84ed,
        form(232) == 0x355f, form(233) == 0xb4e0, form(234) == 0x3e30, form(235) == 0xbf8f,
        form(236) == 0x2381, form(237) == 0xa23e, form(238) == 0x28ee, form(239) == 0xa951,
        form(240) == 0x439b, form(241) == 0xc224, form(242) == 0x48f4, form(243) == 0xc94b,
        form(244) == 0x5545, form(245) == 0xd4fa, form(246) == 0x5e2a, form(247) == 0xdf95,
        form(248) == 0x6e27, form(249) == 0xef98, form(250) == 0x6548, form(251) == 0xe4f7,
        form(252) == 0x78f9, form(253) == 0xf946, form(254) == 0x7396, form(255) == 0xf229,
{
}

/// The combination is the lane value.
pub proof fn lemma_form(byte: u8)
    ensures
        form(byte) == lane_value(7, byte),
{
    lemma_entries(byte);
    lane_6::lemma_form(byte);
    lemma_lane_above(byte, 6);
}

/// Every entry is the lane value of its index.
pub proof fn lemma_lane()
    ensures
        holds_lane(LANE, 7),
{
    assert forall|i: int| 0 <= i < 256 implies #[trigger] LANE@[i] == lane_value(7, i as u8) by {
        reveal(LANE);
        lemma_form(i as u8);
        lemma_entries(0);
        lemma_indices(i);
    }
}

} // verus!
