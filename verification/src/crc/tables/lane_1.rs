//! Contribution of a byte that is followed by one more byte.
use vstd::prelude::*;

use super::super::model::lane_value;
use super::lane_0;
use super::forms::{combine, holds_lane, lemma_indices, lemma_lane_above, next};

verus! {

/// The lane, indexed by the byte.
#[verifier::opaque]
pub const LANE: [u16; 256] = [
    0x0000, 0x19d8, 0x33b0, 0x2a68, 0x6760, 0x7eb8, 0x54d0, 0x4d08,
    0xcec0, 0xd718, 0xfd70, 0xe4a8, 0xa9a0, 0xb078, 0x9a10, 0x83c8,
    0x9591, 0x8c49, 0xa621, 0xbff9, 0xf2f1, 0xeb29, 0xc141, 0xd899,
    0x5b51, 0x4289, 0x68e1, 0x7139, 0x3c31, 0x25e9, 0x0f81, 0x1659,
    0x2333, 0x3aeb, 0x1083, 0x095b, 0x4453, 0x5d8b, 0x77e3, 0x6e3b,
    0xedf3, 0xf42b, 0xde43, 0xc79b, 0x8a93, 0x934b, 0xb923, 0xa0fb,
    0xb6a2, 0xaf7a, 0x8512, 0x9cca, 0xd1c2, 0xc81a, 0xe272, 0xfbaa,
    0x7862, 0x61ba, 0x4bd2, 0x520a, 0x1f02, 0x06da, 0x2cb2, 0x356a,
    0x4666, 0x5fbe, 0x75d6, 0x6c0e, 0x2106, 0x38de, 0x12b6, 0x0b6e,
    0x88a6, 0x917e, 0xbb16, 0xa2ce, 0xefc6, 0xf61e, 0xdc76, 0xc5ae,
    0xd3f7, 0xca2f, 0xe047, 0xf99f, 0xb497, 0xad4f, 0x8727, 0x9eff,
    0x1d37, 0x04ef, 0x2e87, 0x375f, 0x7a57, 0x638f, 0x49e7, 0x503f,
    0x6555, 0x7c8d, 0x56e5, 0x4f3d, 0x0235, 0x1bed, 0x3185, 0x285d,
    0xab95, 0xb24d, 0x9825, 0x81fd, 0xccf5, 0xd52d, 0xff45, 0xe69d,
    0xf0c4, 0xe91c, 0xc374, 0xdaac, 0x97a4, 0x8e7c, 0xa414, 0xbdcc,
    0x3e04, 0x27dc, 0x0db4, 0x146c, 0x5964, 0x40bc, 0x6ad4, 0x730c,
    0x8ccc, 0x9514, 0xbf7c, 0xa6a4, 0xebac, 0xf274, 0xd81c, 0xc1c4,
    0x420c, 0x5bd4, 0x71bc, 0x6864, 0x256c, 0x3cb4, 0x16dc, 0x0f04,
    0x195d, 0x0085, 0x2aed, 0x3335, 0x7e3d, 0x67e5, 0x4d8d, 0x5455,
    0xd79d, 0xce45, 0xe42d, 0xfdf5, 0xb0fd, 0xa925, 0x834d, 0x9a95,
    0xafff, 0xb627, 0x9c4f, 0x8597, 0xc89f, 0xd147, 0xfb2f, 0xe2f7,
    0x613f, 0x78e7, 0x528f, 0x4b57, 0x065f, 0x1f87, 0x35ef, 0x2c37,
    0x3a6e, 0x23b6, 0x09de, 0x1006, 0x5d0e, 0x44d6, 0x6ebe, 0x7766,
    0xf4ae, 0xed76, 0xc71e, 0xdec6, 0x93ce, 0x8a16, 0xa07e, 0xb9a6,
    0xcaaa, 0xd372, 0xf91a, 0xe0c2, 0xadca, 0xb412, 0x9e7a, 0x87a2,
    0x046a, 0x1db2, 0x37da, 0x2e02, 0x630a, 0x7ad2, 0x50ba, 0x4962,
    0x5f3b, 0x46e3, 0x6c8b, 0x7553, 0x385b, 0x2183, 0x0beb, 0x1233,
    0x91fb, 0x8823, 0xa24b, 0xbb93, 0xf69b, 0xef43, 0xc52b, 0xdcf3,
    0xe999, 0xf041, 0xda29, 0xc3f1, 0x8ef9, 0x9721, 0xbd49, 0xa491,
    0x2759, 0x3e81, 0x14e9, 0x0d31, 0x4039, 0x59e1, 0x7389, 0x6a51,
    0x7c08, 0x65d0, 0x4fb8, 0x5660, 0x1b68, 0x02b0, 0x28d8, 0x3100,
    0xb2c8, 0xab10, 0x8178, 0x98a0, 0xd5a8, 0xcc70, 0xe618, 0xffc0,
];

/// The lane as a combination of its entries for single bits.
pub open spec fn form(byte: u8) -> u16 {
    combine(byte, 0x19d8, 0x33b0, 0x6760, 0xcec0, 0x9591, 0x2333, 0x4666, 0x8ccc)
}

proof fn lemma_entries(byte: u8)
    by (bit_vector)
    ensures
        form(byte) == next(lane_0::form(byte)),
        form(0) == 0x0000, form(1) == 0x19d8, form(2) == 0x33b0, form(3) == 0x2a68,
        form(4) == 0x6760, form(5) == 0x7eb8, form(6) == 0x54d0, form(7) == 0x4d08,
        form(8) == 0xcec0, form(9) == 0xd718, form(10) == 0xfd70, form(11) == 0xe4a8,
        form(12) == 0xa9a0, form(13) == 0xb078, form(14) == 0x9a10, form(15) == 0x83c8,
        form(16) == 0x9591, form(17) == 0x8c49, form(18) == 0xa621, form(19) == 0xbff9,
        form(20) == 0xf2f1, form(21) == 0xeb29, form(22) == 0xc141, form(23) == 0xd899,
        form(24) == 0x5b51, form(25) == 0x4289, form(26) == 0x68e1, form(27) == 0x7139,
        form(28) == 0x3c31, form(29) == 0x25e9, form(30) == 0x0f81, form(31) == 0x1659,
        form(32) == 0x2333, form(33) == 0x3aeb, form(34) == 0x1083, form(35) == 0x095b,
        form(36) == 0x4453, form(37) == 0x5d8b, form(38) == 0x77e3, form(39) == 0x6e3b,
        form(40) == 0xedf3, form(41) == 0xf42b, form(42) == 0xde43, form(43) == 0xc79b,
        form(44) == 0x8a93, form(45) == 0x934b, form(46) == 0xb923, form(47) == 0xa0fb,
        form(48) == 0xb6a2, form(49) == 0xaf7a, form(50) == 0x8512, form(51) == 0x9cca,
        form(52) == 0xd1c2, form(53) == 0xc81a, form(54) == 0xe272, form(55) == 0xfbaa,
        form(56) == 0x7862, form(57) == 0x61ba, form(58) == 0x4bd2, form(59) == 0x520a,
        form(60) == 0x1f02, form(61) == 0x06da, form(62) == 0x2cb2, form(63) == 0x356a,
        form(64) == 0x4666, form(65) == 0x5fbe, form(66) == 0x75d6, form(67) == 0x6c0e,
        form(68) == 0x2106, form(69) == 0x38de, form(70) == 0x12b6, form(71) == 0x0b6e,
        form(72) == 0x88a6, form(73) == 0x917e, form(74) == 0xbb16, form(75) == 0xa2ce,
        form(76) == 0xefc6, form(77) == 0xf61e, form(78) == 0xdc76, form(79) == 0xc5ae,
        form(80) == 0xd3f7, form(81) == 0xca2f, form(82) == 0xe047, form(83) == 0xf99f,
        form(84) == 0xb497, form(85) == 0xad4f, form(86) == 0x8727, form(87) == 0x9eff,
        form(88) == 0x1d37, form(89) == 0x04ef, form(90) == 0x2e87, form(91) == 0x375f,
        form(92) == 0x7a57, form(93) == 0x638f, form(94) == 0x49e7, form(95) == 0x503f,
        form(96) == 0x6555, form(97) == 0x7c8d, form(98) == 0x56e5, form(99) == 0x4f3d,
        form(100) == 0x0235, form(101) == 0x1bed, form(102) == 0x3185, form(103) == 0x285d,
        form(104) == 0xab95, form(105) == 0xb24d, form(106) == 0x9825, form(107) == 0x81fd,
        form(108) == 0xccf5, form(109) == 0xd52d, form(110) == 0xff45, form(111) == 0xe69d,
        form(112) == 0xf0c4, form(113) == 0xe91c, form(114) == 0xc374, form(115) == 0xdaac,
        form(116) == 0x97a4, form(117) == 0x8e7c, form(118) == 0xa414, form(119) == 0xbdcc,
        form(120) == 0x3e04, form(121) == 0x27dc, form(122) == 0x0db4, form(123) == 0x146c,
        form(124) == 0x5964, form(125) == 0x40bc, form(126) == 0x6ad4, form(127) == 0x730c,
        form(128) == 0x8ccc, form(129) == 0x9514, form(130) == 0xbf7c, form(131) == 0xa6a4,
        form(132) == 0xebac, form(133) == 0xf274, form(134) == 0xd81c, form(135) == 0xc1c4,
        form(136) == 0x420c, form(137) == 0x5bd4, form(138) == 0x71bc, form(139) == 0x6864,
        form(140) == 0x256c, form(141) == 0x3cb4, form(142) == 0x16dc, form(143) == 0x0f04,
        form(144) == 0x195d, form(145) == 0x0085, form(146) == 0x2aed, form(147) == 0x3335,
        form(148) == 0x7e3d, form(149) == 0x67e5, form(150) == 0x4d8d, form(151) == 0x5455,
        form(152) == 0xd79d, form(153) == 0xce45, form(154) == 0xe42d, form(155) == 0xfdf5,
        form(156) == 0xb0fd, form(157) == 0xa925, form(158) == 0x834d, form(159) == 0x9a95,
        form(160) == 0xafff, form(161) == 0xb627, form(162) == 0x9c4f, form(163) == 0x8597,
        form(164) == 0xc89f, form(165) == 0xd147, form(166) == 0xfb2f, form(167) == 0xe2f7,
        form(168) == 0x613f, form(169) == 0x78e7, form(170) == 0x528f, form(171) == 0x4b57,
        form(172) == 0x065f, form(173) == 0x1f87, form(174) == 0x35ef, form(175) == 0x2c37,
        form(176) == 0x3a6e, form(177) == 0x23b6, form(178) == 0x09de, form(179) == 0x1006,
        form(180) == 0x5d0e, form(181) == 0x44d6, form(182) == 0x6ebe, form(183) == 0x7766,
        form(184) == 0xf4ae, form(185) == 0xed76, form(186) == 0xc71e, form(187) == 0xdec6,
        form(188) == 0x93ce, form(189) == 0x8a16, form(190) == 0xa07e, form(191) == 0xb9a6,
        form(192) == 0xcaaa, form(193) == 0xd372, form(194) == 0xf91a, form(195) == 0xe0c2,
        form(196) == 0xadca, form(197) == 0xb412, form(198) == 0x9e7a, form(199) == 0x87a2,
        form(200) == 0x046a, form(201) == 0x1db2, form(202) == 0x37da, form(203) == 0x2e02,
        form(204) == 0x630a, form(205) == 0x7ad2, form(206) == 0x50ba, form(207) == 0x4962,
        form(208) == 0x5f3b, form(209) == 0x46e3, form(210) == 0x6c8b, form(211) == 0x7553,
        form(212) == 0x385b, form(213) == 0x2183, form(214) == 0x0beb, form(215) == 0x1233,
        form(216) == 0x91fb, form(217) == 0x8823, form(218) == 0xa24b, form(219) == 0xbb93,
        form(220) == 0xf69b, form(221) == 0xef43, form(222) == 0xc52b, form(223) == 0xdcf3,
        form(224) == 0xe999, form(225) == 0xf041, form(226) == 0xda29, form(227) == 0xc3f1,
        form(228) == 0x8ef9, form(229) == 0x9721, form(230) == 0xbd49, form(231) == 0xa491,
        form(232) == 0x2759, form(233) == 0x3e81, form(234) == 0x14e9, form(235) == 0x0d31,
        form(236) == 0x4039, form(237) == 0x59e1, form(238) == 0x7389, form(239) == 0x6a51,
        form(240) == 0x7c08, form(241) == 0x65d0, form(242) == 0x4fb8, form(243) == 0x5660,
        form(244) == 0x1b68, form(245) == 0x02b0, form(246) == 0x28d8, form(247) == 0x3100,
        form(248) == 0xb2c8, form(249) == 0xab10, form(250) == 0x8178, form(251) == 0x98a0,
        form(252) == 0xd5a8, form(253) == 0xcc70, form(254) == 0xe618, form(255) == 0xffc0,
{
}

/// The combination is the lane value.
pub proof fn lemma_form(byte: u8)
    ensures
        form(byte) == lane_value(1, byte),
{
    lemma_entries(byte);
    lane_0::lemma_form(byte);
    lemma_lane_above(byte, 0);
}

/// Every entry is the lane value of its index.
pub proof fn lemma_lane()
    ensures
        holds_lane(LANE, 1),
{
    assert forall|i: int| 0 <= i < 256 implies #[trigger] LANE@[i] == lane_value(1, i as u8) by {
        reveal(LANE);
        lemma_form(i as u8);
        lemma_entries(0);
        lemma_indices(i);
    }
}

} // verus!
