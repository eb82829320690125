//! Contribution of a byte that ends its block.
use vstd::prelude::*;

use super::super::model::lane_value;
use super::forms::{combine, holds_lane, lemma_indices, lemma_next, next};

verus! {

/// The lane, indexed by the byte.
#[verifier::opaque]
pub const LANE: [u16; 256] = [
    0x0000, 0x1189, 0x2312, 0x329b, 0x4624, 0x57ad, 0x6536, 0x74bf,
    0x8c48, 0x9dc1, 0xaf5a, 0xbed3, 0xca6c, 0xdbe5, 0xe97e, 0xf8f7,
    0x1081, 0x0108, 0x3393, 0x221a, 0x56a5, 0x472c, 0x75b7, 0x643e,
    0x9cc9, 0x8d40, 0xbfdb, 0xae52, 0xdaed, 0xcb64, 0xf9ff, 0xe876,
    0x2102, 0x308b, 0x0210, 0x1399, 0x6726, 0x76af, 0x4434, 0x55bd,
    0xad4a, 0xbcc3, 0x8e58, 0x9fd1, 0xeb6e, 0xfae7, 0xc87c, 0xd9f5,
    0x3183, 0x200a, 0x1291, 0x0318, 0x77a7, 0x662e, 0x54b5, 0x453c,
    0xbdcb, 0xac42, 0x9ed9, 0x8f50, 0xfbef, 0xea66, 0xd8fd, 0xc974,
    0x4204, 0x538d, 0x6116, 0x709f, 0x0420, 0x15a9, 0x2732, 0x36bb,
    0xce4c, 0xdfc5, 0xed5e, 0xfcd7, 0x8868, 0x99e1, 0xab7a, 0xbaf3,
    0x5285, 0x430c, 0x7197, 0x601e, 0x14a1, 0x0528, 0x37b3, 0x263a,
    0xdecd, 0xcf44, 0xfddf, 0xec56, 0x98e9, 0x8960, 0xbbfb, 0xaa72,
    0x6306, 0x728f, 0x4014, 0x519d, 0x2522, 0x34ab, 0x0630, 0x17b9,
    0xef4e, 0xfec7, 0xcc5c, 0xddd5, 0xa96a, 0xb8e3, 0x8a78, 0x9bf1,
    0x7387, 0x620e, 0x5095, 0x411c, 0x35a3, 0x242a, 0x16b1, 0x0738,
    0xffcf, 0xee46, 0xdcdd, 0xcd54, 0xb9eb, 0xa862, 0x9af9, 0x8b70,
    0x8408, 0x9581, 0xa71a, 0xb693, 0xc22c, 0xd3a5, 0xe13e, 0xf0b7,
    0x0840, 0x19c9, 0x2b52, 0x3adb, 0x4e64, 0x5fed, 0x6d76, 0x7cff,
    0x9489, 0x8500, 0xb79b, 0xa612, 0xd2ad, 0xc324, 0xf1bf, 0xe036,
    0x18c1, 0x0948, 0x3bd3, 0x2a5a, 0x5ee5, 0x4f6c, 0x7df7, 0x6c7e,
    0xa50a, 0xb483, 0x8618, 0x9791, 0xe32e, 0xf2a7, 0xc03c, 0xd1b5,
    0x2942, 0x38cb, 0x0a50, 0x1bd9, 0x6f66, 0x7eef, 0x4c74, 0x5dfd,
    0xb58b, 0xa402, 0x9699, 0x8710, 0xf3af, 0xe226, 0xd0bd, 0xc134,
    0x39c3, 0x284a, 0x1ad1, 0x0b58, 0x7fe7, 0x6e6e, 0x5cf5, 0x4d7c,
    0xc60c, 0xd785, 0xe51e, 0xf497, 0x8028, 0x91a1, 0xa33a, 0xb2b3,
    0x4a44, 0x5bcd, 0x6956, 0x78df, 0x0c60, 0x1de9, 0x2f72, 0x3efb,
    0xd68d, 0xc704, 0xf59f, 0xe416, 0x90a9, 0x8120, 0xb3bb, 0xa232,
    0x5ac5, 0x4b4c, 0x79d7, 0x685e, 0x1ce1, 0x0d68, 0x3ff3, 0x2e7a,
    0xe70e, 0xf687, 0xc41c, 0xd595, 0xa12a, 0xb0a3, 0x8238, 0x93b1,
    0x6b46, 0x7acf, 0x4854, 0x59dd, 0x2d62, 0x3ceb, 0x0e70, 0x1ff9,
    0xf78f, 0xe606, 0xd49d, 0xc514, 0xb1ab, 0xa022, 0x92b9, 0x8330,
    0x7bc7, 0x6a4e, 0x58d5, 0x495c, 0x3de3, 0x2c6a, 0x1ef1, 0x0f78,
];

/// The lane as a combination of its entries for single bits.
pub open spec fn form(byte: u8) -> u16 {
    combine(byte, 0x1189, 0x2312, 0x4624, 0x8c48, 0x1081, 0x2102, 0x4204, 0x8408)
}

proof fn lemma_entries(byte: u8)
    by (bit_vector)
    ensures
        form(byte) == next(byte as u16),
        form(0) == 0x0000, form(1) == 0x1189, form(2) == 0x2312, form(3) == 0x329b,
        form(4) == 0x4624, form(5) == 0x57ad, form(6) == 0x6536, form(7) == 0x74bf,
        form(8) == 0x8c48, form(9) == 0x9dc1, form(10) == 0xaf5a, form(11) == 0xbed3,
        form(12) == 0xca6c, form(13) == 0xdbe5, form(14) == 0xe97e, form(15) == 0xf8f7,
        form(16) == 0x1081, form(17) == 0x0108, form(18) == 0x3393, form(19) == 0x221a,
        form(20) == 0x56a5, form(21) == 0x472c, form(22) == 0x75b7, form(23) == 0x643e,
        form(24) == 0x9cc9, form(25) == 0x8d40, form(26) == 0xbfdb, form(27) == 0xae52,
        form(28) == 0xdaed, form(29) == 0xcb64, form(30) == 0xf9ff, form(31) == 0xe876,
        form(32) == 0x2102, form(33) == 0x308b, form(34) == 0x0210, form(35) == 0x1399,
        form(36) == 0x6726, form(37) == 0x76af, form(38) == 0x4434, form(39) == 0x55bd,
        form(40) == 0xad4a, form(41) == 0xbcc3, form(42) == 0x8e58, form(43) == 0x9fd1,
        form(44) == 0xeb6e, form(45) == 0xfae7, form(46) == 0xc87c, form(47) == 0xd9f5,
        form(48) == 0x3183, form(49) == 0x200a, form(50) == 0x1291, form(51) == 0x0318,
        form(52) == 0x77a7, form(53) == 0x662e, form(54) == 0x54b5, form(55) == 0x453c,
        form(56) == 0xbdcb, form(57) == 0xac42, form(58) == 0x9ed9, form(59) == 0x8f50,
        form(60) == 0xfbef, form(61) == 0xea66, form(62) == 0xd8fd, form(63) == 0xc974,
        form(64) == 0x4204, form(65) == 0x538d, form(66) == 0x6116, form(67) == 0x709f,
        form(68) == 0x0420, form(69) == 0x15a9, form(70) == 0x2732, form(71) == 0x36bb,
        form(72) == 0xce4c, form(73) == 0xdfc5, form(74) == 0xed5e, form(75) == 0xfcd7,
        form(76) == 0x8868, form(77) == 0x99e1, form(78) == 0xab7a, form(79) == 0xbaf3,
        form(80) == 0x5285, form(81) == 0x430c, form(82) == 0x7197, form(83) == 0x601e,
        form(84) == 0x14a1, form(85) == 0x0528, form(86) == 0x37b3, form(87) == 0x263a,
        form(88) == 0xdecd, form(89) == 0xcf44, form(90) == 0xfddf, form(91) == 0xec56,
        form(92) == 0x98e9, form(93) == 0x8960, form(94) == 0xbbfb, form(95) == 0xaa72,
        form(96) == 0x6306, form(97) == 0x728f, form(98) == 0x4014, form(99) == 0x519d,
        form(100) == 0x2522, form(101) == 0x34ab, form(102) == 0x0630, form(103) == 0x17b9,
        form(104) == 0xef4e, form(105) == 0xfec7, form(106) == 0xcc5c, form(107) == 0xddd5,
        form(108) == 0xa96a, form(109) == 0xb8e3, form(110) == 0x8a78, form(111) == 0x9bf1,
        form(112) == 0x7387, form(113) == 0x620e, form(114) == 0x5095, form(115) == 0x411c,
        form(116) == 0x35a3, form(117) == 0x242a, form(118) == 0x16b1, form(119) == 0x0738,
        form(120) == 0xffcf, form(121) == 0xee46, form(122) == 0xdcdd, form(123) == 0xcd54,
        form(124) == 0xb9eb, form(125) == 0xa862, form(126) == 0x9af9, form(127) == 0x8b70,
        form(128) == 0x8408, form(129) == 0x9581, form(130) == 0xa71a, form(131) == 0xb693,
        form(132) == 0xc22c, form(133) == 0xd3a5, form(134) == 0xe13e, form(135) == 0xf0b7,
        form(136) == 0x0840, form(137) == 0x19c9, form(138) == 0x2b52, form(139) == 0x3adb,
        form(140) == 0x4e64, form(141) == 0x5fed, form(142) == 0x6d76, form(143) == 0x7cff,
        form(144) == 0x9489, form(145) == 0x8500, form(146) == 0xb79b, form(147) == 0xa612,
        form(148) == 0xd2ad, form(149) == 0xc324, form(150) == 0xf1bf, form(151) == 0xe036,
        form(152) == 0x18c1, form(153) == 0x0948, form(154) == 0x3bd3, form(155) == 0x2a5a,
        form(156) == 0x5ee5, form(157) == 0x4f6c, form(158) == 0x7df7, form(159) == 0x6c7e,
        form(160) == 0xa50a, form(161) == 0xb483, form(162) == 0x8618, form(163) == 0x9791,
        form(164) == 0xe32e, form(165) == 0xf2a7, form(166) == 0xc03c, form(167) == 0xd1b5,
        form(168) == 0x2942, form(169) == 0x38cb, form(170) == 0x0a50, form(171) == 0x1bd9,
        form(172) == 0x6f66, form(173) == 0x7eef, form(174) == 0x4c74, form(175) == 0x5dfd,
        form(176) == 0xb58b, form(177) == 0xa402, form(178) == 0x9699, form(179) == 0x8710,
        form(180) == 0xf3af, form(181) == 0xe226, form(182) == 0xd0bd, form(183) == 0xc134,
        form(184) == 0x39c3, form(185) == 0x284a, form(186) == 0x1ad1, form(187) == 0x0b58,
        form(188) == 0x7fe7, form(189) == 0x6e6e, form(190) == 0x5cf5, form(191) == 0x4d7c,
        form(192) == 0xc60c, form(193) == 0xd785, form(194) == 0xe51e, form(195) == 0xf497,
        form(196) == 0x8028, form(197) == 0x91a1, form(198) == 0xa33a, form(199) == 0xb2b3,
        form(200) == 0x4a44, form(201) == 0x5bcd, form(202) == 0x6956, form(203) == 0x78df,
        form(204) == 0x0c60, form(205) == 0x1de9, form(206) == 0x2f72, form(207) == 0x3efb,
        form(208) == 0xd68d, form(209) == 0xc704, form(210) == 0xf59f, form(211) == 0xe416,
        form(212) == 0x90a9, form(213) == 0x8120, form(214) == 0xb3bb, form(215) == 0xa232,
        form(216) == 0x5ac5, form(217) == 0x4b4c, form(218) == 0x79d7, form(219) == 0x685e,
        form(220) == 0x1ce1, form(221) == 0x0d68, form(222) == 0x3ff3, form(223) == 0x2e7a,
        form(224) == 0xe70e, form(225) == 0xf687, form(226) == 0xc41c, form(227) == 0xd595,
        form(228) == 0xa12a, form(229) == 0xb0a3, form(230) == 0x8238, form(231) == 0x93b1,
        form(232) == 0x6b46, form(233) == 0x7acf, form(234) == 0x4854, form(235) == 0x59dd,
        form(236) == 0x2d62, form(237) == 0x3ceb, form(238) == 0x0e70, form(239) == 0x1ff9,
        form(240) == 0xf78f, form(241) == 0xe606, form(242) == 0xd49d, form(243) == 0xc514,
        form(244) == 0xb1ab, form(245) == 0xa022, form(246) == 0x92b9, form(247) == 0x8330,
        form(248) == 0x7bc7, form(249) == 0x6a4e, form(250) == 0x58d5, form(251) == 0x495c,
        form(252) == 0x3de3, form(253) == 0x2c6a, form(254) == 0x1ef1, form(255) == 0x0f78,
{
}

/// The combination is the lane value.
pub proof fn lemma_form(byte: u8)
    ensures
        form(byte) == lane_value(0, byte),
{
    lemma_entries(byte);
    lemma_next(byte as u16);
}

/// Every entry is the lane value of its index.
pub proof fn lemma_lane()
    ensures
        holds_lane(LANE, 0),
{
    assert forall|i: int| 0 <= i < 256 implies #[trigger] LANE@[i] == lane_value(0, i as u8) by {
        reveal(LANE);
        lemma_form(i as u8);
        lemma_entries(0);
        lemma_indices(i);
    }
}

} // verus!
