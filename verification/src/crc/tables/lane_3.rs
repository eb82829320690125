//! Contribution of a byte that is followed by 3 more bytes.
use vstd::prelude::*;

use super::super::model::lane_value;
use super::lane_2;
use super::forms::{combine, holds_lane, lemma_indices, lemma_lane_above, next};

verus! {

/// The lane, indexed by the byte.
#[verifier::opaque]
pub const LANE: [u16; 256] = [
    0x0000, 0x1cbb, 0x3976, 0x25cd, 0x72ec, 0x6e57, 0x4b9a, 0x5721,
    0xe5d8, 0xf963, 0xdcae, 0xc015, 0x9734, 0x8b8f, 0xae42, 0xb2f9,
    0xc3a1, 0xdf1a, 0xfad7, 0xe66c, 0xb14d, 0xadf6, 0x883b, 0x9480,
    0x2679, 0x3ac2, 0x1f0f, 0x03b4, 0x5495, 0x482e, 0x6de3, 0x7158,
    0x8f53, 0x93e8, 0xb625, 0xaa9e, 0xfdbf, 0xe104, 0xc4c9, 0xd872,
    0x6a8b, 0x7630, 0x53fd, 0x4f46, 0x1867, 0x04dc, 0x2111, 0x3daa,
    0x4cf2, 0x5049, 0x7584, 0x693f, 0x3e1e, 0x22a5, 0x0768, 0x1bd3,
    0xa92a, 0xb591, 0x905c, 0x8ce7, 0xdbc6, 0xc77d, 0xe2b0, 0xfe0b,
    0x16b7, 0x0a0c, 0x2fc1, 0x337a, 0x645b, 0x78e0, 0x5d2d, 0x4196,
    0xf36f, 0xefd4, 0xca19, 0xd6a2, 0x8183, 0x9d38, 0xb8f5, 0xa44e,
    0xd516, 0xc9ad, 0xec60, 0xf0db, 0xa7fa, 0xbb41, 0x9e8c, 0x8237,
    0x30ce, 0x2c75, 0x09b8, 0x1503, 0x4222, 0x5e99, 0x7b54, 0x67ef,
    0x99e4, 0x855f, 0xa092, 0xbc29, 0xeb08, 0xf7b3, 0xd27e, 0xcec5,
    0x7c3c, 0x6087, 0x454a, 0x59f1, 0x0ed0, 0x126b, 0x37a6, 0x2b1d,
    0x5a45, 0x46fe, 0x6333, 0x7f88, 0x28a9, 0x3412, 0x11df, 0x0d64,
    0xbf9d, 0xa326, 0x86eb, 0x9a50, 0xcd71, 0xd1ca, 0xf407, 0xe8bc,
    0x2d6e, 0x31d5, 0x1418, 0x08a3, 0x5f82, 0x4339, 0x66f4, 0x7a4f,
    0xc8b6, 0xd40d, 0xf1c0, 0xed7b, 0xba5a, 0xa6e1, 0x832c, 0x9f97,
    0xeecf, 0xf274, 0xd7b9, 0xcb02, 0x9c23, 0x8098, 0xa555, 0xb9ee,
    0x0b17, 0x17ac, 0x3261, 0x2eda, 0x79fb, 0x6540, 0x408d, 0x5c36,
    0xa23d, 0xbe86, 0x9b4b, 0x87f0, 0xd0d1, 0xcc6a, 0xe9a7, 0xf51c,
    0x47e5, 0x5b5e, 0x7e93, 0x6228, 0x3509, 0x29b2, 0x0c7f, 0x10c4,
    0x619c, 0x7d27, 0x58ea, 0x4451, 0x1370, 0x0fcb, 0x2a06, 0x36bd,
    0x8444, 0x98ff, 0xbd32, 0xa189, 0xf6a8, 0xea13, 0xcfde, 0xd365,
    0x3bd9, 0x2762, 0x02af, 0x1e14, 0x4935, 0x558e, 0x7043, 0x6cf8,
    0xde01, 0xc2ba, 0xe777, 0xfbcc, 0xaced, 0xb056, 0x959b, 0x8920,
    0xf878, 0xe4c3, 0xc10e, 0xddb5, 0x8a94, 0x962f, 0xb3e2, 0xaf59,
    0x1da0, 0x011b, 0x24d6, 0x386d, 0x6f4c, 0x73f7, 0x563a, 0x4a81,
    0xb48a, 0xa831, 0x8dfc, 0x9147, 0xc666, 0xdadd, 0xff10, 0xe3ab,
    0x5152, 0x4de9, 0x6824, 0x749f, 0x23be, 0x3f05, 0x1ac8, 0x0673,
    0x772b, 0x6b90, 0x4e5d, 0x52e6, 0x05c7, 0x197c, 0x3cb1, 0x200a,
    0x92f3, 0x8e48, 0xab85, 0xb73e, 0xe01f, 0xfca4, 0xd969, 0xc5d2,
];

/// The lane as a combination of its entries for single bits.
pub open spec fn form(byte: u8) -> u16 {
    combine(byte, 0x1cbb, 0x3976, 0x72ec, 0xe5d8, 0xc3a1, 0x8f53, 0x16b7, 0x2d6e)
}

proof fn lemma_entries(byte: u8)
    by (bit_vector)
    ensures
        form(byte) == next(lane_2::form(byte)),
        form(0) == 0x0000, form(1) == 0x1cbb, form(2) == 0x3976, form(3) == 0x25cd,
        form(4) == 0x72ec, form(5) == 0x6e57, form(6) == 0x4b9a, form(7) == 0x5721,
        form(8) == 0xe5d8, form(9) == 0xf963, form(10) == 0xdcae, form(11) == 0xc015,
        form(12) == 0x9734, form(13) == 0x8b8f, form(14) == 0xae42, form(15) == 0xb2f9,
        form(16) == 0xc3a1, form(17) == 0xdf1a, form(18) == 0xfad7, form(19) == 0xe66c,
        form(20) == 0xb14d, form(21) == 0xadf6, form(22) == 0x883b, form(23) == 0x9480,
        form(24) == 0x2679, form(25) == 0x3ac2, form(26) == 0x1f0f, form(27) == 0x03b4,
        form(28) == 0x5495, form(29) == 0x482e, form(30) == 0x6de3, form(31) == 0x7158,
        form(32) == 0x8f53, form(33) == 0x93e8, form(34) == 0xb625, form(35) == 0xaa9e,
        form(36) == 0xfdbf, form(37) == 0xe104, form(38) == 0xc4c9, form(39) == 0xd872,
        form(40) == 0x6a8b, form(41) == 0x7630, form(42) == 0x53fd, form(43) == 0x4f46,
        form(44) == 0x1867, form(45) == 0x04dc, form(46) == 0x2111, form(47) == 0x3daa,
        form(48) == 0x4cf2, form(49) == 0x5049, form(50) == 0x7584, form(51) == 0x693f,
        form(52) == 0x3e1e, form(53) == 0x22a5, form(54) == 0x0768, form(55) == 0x1bd3,
        form(56) == 0xa92a, form(57) == 0xb591, form(58) == 0x905c, form(59) == 0x8ce7,
        form(60) == 0xdbc6, form(61) == 0xc77d, form(62) == 0xe2b0, form(63) == 0xfe0b,
        form(64) == 0x16b7, form(65) == 0x0a0c, form(66) == 0x2fc1, form(67) == 0x337a,
        form(68) == 0x645b, form(69) == 0x78e0, form(70) == 0x5d2d, form(71) == 0x4196,
        form(72) == 0xf36f, form(73) == 0xefd4, form(74) == 0xca19, form(75) == 0xd6a2,
        form(76) == 0x8183, form(77) == 0x9d38, form(78) == 0xb8f5, form(79) == 0xa44e,
        form(80) == 0xd516, form(81) == 0xc9ad, form(82) == 0xec60, form(83) == 0xf0db,
        form(84) == 0xa7fa, form(85) == 0xbb41, form(86) == 0x9e8c, form(87) == 0x8237,
        form(88) == 0x30ce, form(89) == 0x2c75, form(90) == 0x09b8, form(91) == 0x1503,
        form(92) == 0x4222, form(93) == 0x5e99, form(94) == 0x7b54, form(95) == 0x67ef,
        form(96) == 0x99e4, form(97) == 0x855f, form(98) == 0xa092, form(99) == 0xbc29,
        form(100) == 0xeb08, form(101) == 0xf7b3, form(102) == 0xd27e, form(103) == 0xcec5,
        form(104) == 0x7c3c, form(105) == 0x6087, form(106) == 0x454a, form(107) == 0x59f1,
        form(108) == 0x0ed0, form(109) == 0x126b, form(110) == 0x37a6, form(111) == 0x2b1d,
        form(112) == 0x5a45, form(113) == 0x46fe, form(114) == 0x6333, form(115) == 0x7f88,
        form(116) == 0x28a9, form(117) == 0x3412, form(118) == 0x11df, form(119) == 0x0d64,
        form(120) == 0xbf9d, form(121) == 0xa326, form(122) == 0x86eb, form(123) == 0x9a50,
        form(124) == 0xcd71, form(125) == 0xd1ca, form(126) == 0xf407, form(127) == 0xe8bc,
        form(128) == 0x2d6e, form(129) == 0x31d5, form(130) == 0x1418, form(131) == 0x08a3,
        form(132) == 0x5f82, form(133) == 0x4339, form(134) == 0x66f4, form(135) == 0x7a4f,
        form(136) == 0xc8b6, form(137) == 0xd40d, form(138) == 0xf1c0, form(139) == 0xed7b,
        form(140) == 0xba5a, form(141) == 0xa6e1, form(142) == 0x832c, form(143) == 0x9f97,
        form(144) == 0xeecf, form(145) == 0xf274, form(146) == 0xd7b9, form(147) == 0xcb02,
        form(148) == 0x9c23, form(149) == 0x8098, form(150) == 0xa555, form(151) == 0xb9ee,
        form(152) == 0x0b17, form(153) == 0x17ac, form(154) == 0x3261, form(155) == 0x2eda,
        form(156) == 0x79fb, form(157) == 0x6540, form(158) == 0x408d, form(159) == 0x5c36,
        form(160) == 0xa23d, form(161) == 0xbe86, form(162) == 0x9b4b, form(163) == 0x87f0,
        form(164) == 0xd0d1, form(165) == 0xcc6a, form(166) == 0xe9a7, form(167) == 0xf51c,
        form(168) == 0x47e5, form(169) == 0x5b5e, form(170) == 0x7e93, form(171) == 0x6228,
        form(172) == 0x3509, form(173) == 0x29b2, form(174) == 0x0c7f, form(175) == 0x10c4,
        form(176) == 0x619c, form(177) == 0x7d27, form(178) == 0x58ea, form(179) == 0x4451,
        form(180) == 0x1370, form(181) == 0x0fcb, form(182) == 0x2a06, form(183) == 0x36bd,
        form(184) == 0x8444, form(185) == 0x98ff, form(186) == 0xbd32, form(187) == 0xa189,
        form(188) == 0xf6a8, form(189) == 0xea13, form(190) == 0xcfde, form(191) == 0xd365,
        form(192) == 0x3bd9, form(193) == 0x2762, form(194) == 0x02af, form(195) == 0x1e14,
        form(196) == 0x4935, form(197) == 0x558e, form(198) == 0x7043, form(199) == 0x6cf8,
        form(200) == 0xde01, form(201) == 0xc2ba, form(202) == 0xe777, form(203) == 0xfbcc,
        form(204) == 0xaced, form(205) == 0xb056, form(206) == 0x959b, form(207) == 0x8920,
        form(208) == 0xf878, form(209) == 0xe4c3, form(210) == 0xc10e, form(211) == 0xddb5,
        form(212) == 0x8a94, form(213) == 0x962f, form(214) == 0xb3e2, form(215) == 0xaf59,
        form(216) == 0x1da0, form(217) == 0x011b, form(218) == 0x24d6, form(219) == 0x386d,
        form(220) == 0x6f4c, form(221) == 0x73f7, form(222) == 0x563a, form(223) == 0x4a81,
        form(224) == 0xb48a, form(225) == 0xa831, form(226) == 0x8dfc, form(227) == 0x9147,
        form(228) == 0xc666, form(229) == 0xdadd, form(230) == 0xff10, form(231) == 0xe3ab,
        form(232) == 0x5152, form(233) == 0x4de9, form(234) == 0x6824, form(235) == 0x749f,
        form(236) == 0x23be, form(237) == 0x3f05, form(238) == 0x1ac8, form(239) == 0x0673,
        form(240) == 0x772b, form(241) == 0x6b90, form(242) == 0x4e5d, form(243) == 0x52e6,
        form(244) == 0x05c7, form(245) == 0x197c, form(246) == 0x3cb1, form(247) == 0x200a,
        form(248) == 0x92f3, form(249) == 0x8e48, form(250) == 0xab85, form(251) == 0xb73e,
        form(252) == 0xe01f, form(253) == 0xfca4, form(254) == 0xd969, form(255) == 0xc5d2,
{
}

/// The combination is the lane value.
pub proof fn lemma_form(byte: u8)
    ensures
        form(byte) == lane_value(3, byte),
{
    lemma_entries(byte);
    lane_2::lemma_form(byte);
    lemma_lane_above(byte, 2);
}

/// Every entry is the lane value of its index.
pub proof fn lemma_lane()
    ensures
        holds_lane(LANE, 3),
{
    assert forall|i: int| 0 <= i < 256 implies #[trigger] LANE@[i] == lane_value(3, i as u8) by {
        reveal(LANE);
        lemma_form(i as u8);
        lemma_entries(0);
        lemma_indices(i);
    }
}

} // verus!
