//! Contribution of a byte that is followed by 9 more bytes.
use vstd::prelude::*;

use super::super::model::lane_value;
use super::lane_8;
use super::forms::{combine, holds_lane, lemma_indices, lemma_lane_above, next};

verus! {

/// The lane, indexed by the byte.
#[verifier::opaque]
pub const LANE: [u16; 256] = [
    0x0000, 0x2c27, 0x584e, 0x7469, 0xb09c, 0x9cbb, 0xe8d2, 0xc4f5,
    0x6929, 0x450e, 0x3167, 0x1d40, 0xd9b5, 0xf592, 0x81fb, 0xaddc,
    0xd252, 0xfe75, 0x8a1c, 0xa63b, 0x62ce, 0x4ee9, 0x3a80, 0x16a7,
    0xbb7b, 0x975c, 0xe335, 0xcf12, 0x0be7, 0x27c0, 0x53a9, 0x7f8e,
    0xacb5, 0x8092, 0xf4fb, 0xd8dc, 0x1c29, 0x300e, 0x4467, 0x6840,
    0xc59c, 0xe9bb, 0x9dd2, 0xb1f5, 0x7500, 0x5927, 0x2d4e, 0x0169,
    0x7ee7, 0x52c0, 0x26a9, 0x0a8e, 0xce7b, 0xe25c, 0x9635, 0xba12,
    0x17ce, 0x3be9, 0x4f80, 0x63a7, 0xa752, 0x8b75, 0xff1c, 0xd33b,
    0x517b, 0x7d5c, 0x0935, 0x2512, 0xe1e7, 0xcdc0, 0xb9a9, 0x958e,
    0x3852, 0x1475, 0x601c, 0x4c3b, 0x88ce, 0xa4e9, 0xd080, 0xfca7,
    0x8329, 0xaf0e, 0xdb67, 0xf740, 0x33b5, 0x1f92, 0x6bfb, 0x47dc,
    0xea00, 0xc627, 0xb24e, 0x9e69, 0x5a9c, 0x76bb, 0x02d2, 0x2ef5,
    0xfdce, 0xd1e9, 0xa580, 0x89a7, 0x4d52, 0x6175, 0x151c, 0x393b,
    0x94e7, 0xb8c0, 0xcca9, 0xe08e, 0x247b, 0x085c, 0x7c35, 0x5012,
    0x2f9c, 0x03bb, 0x77d2, 0x5bf5, 0x9f00, 0xb327, 0xc74e, 0xeb69,
    0x46b5, 0x6a92, 0x1efb, 0x32dc, 0xf629, 0xda0e, 0xae67, 0x8240,
    0xa2f6, 0x8ed1, 0xfab8, 0xd69f, 0x126a, 0x3e4d, 0x4a24, 0x6603,
    0xcbdf, 0xe7f8, 0x9391, 0xbfb6, 0x7b43, 0x5764, 0x230d, 0x0f2a,
    0x70a4, 0x5c83, 0x28ea, 0x04cd, 0xc038, 0xec1f, 0x9876, 0xb451,
    0x198d, 0x35aa, 0x41c3, 0x6de4, 0xa911, 0x8536, 0xf15f, 0xdd78,
    0x0e43, 0x2264, 0x560d, 0x7a2a, 0xbedf, 0x92f8, 0xe691, 0xcab6,
    0x676a, 0x4b4d, 0x3f24, 0x1303, 0xd7f6, 0xfbd1, 0x8fb8, 0xa39f,
    0xdc11, 0xf036, 0x845f, 0xa878, 0x6c8d, 0x40aa, 0x34c3, 0x18e4,
    0xb538, 0x991f, 0xed76, 0xc151, 0x05a4, 0x2983, 0x5dea, 0x71cd,
    0xf38d, 0xdfaa, 0xabc3, 0x87e4, 0x4311, 0x6f36, 0x1b5f, 0x3778,
    0x9aa4, 0xb683, 0xc2ea, 0xeecd, 0x2a38, 0x061f, 0x7276, 0x5e51,
    0x21df, 0x0df8, 0x7991, 0x55b6, 0x9143, 0xbd64, 0xc90d, 0xe52a,
    0x48f6, 0x64d1, 0x10b8, 0x3c9f, 0xf86a, 0xd44d, 0xa024, 0x8c03,
    0x5f38, 0x731f, 0x0776, 0x2b51, 0xefa4, 0xc383, 0xb7ea, 0x9bcd,
    0x3611, 0x1a36, 0x6e5f, 0x4278, 0x868d, 0xaaaa, 0xdec3, 0xf2e4,
    0x8d6a, 0xa14d, 0xd524, 0xf903, 0x3df6, 0x11d1, 0x65b8, 0x499f,
    0xe443, 0xc864, 0xbc0d, 0x902a, 0x54df, 0x78f8, 0x0c91, 0x20b6,
];

/// The lane as a combination of its entries for single bits.
pub open spec fn form(byte: u8) -> u16 {
    combine(byte, 0x2c27, 0x584e, 0xb09c, 0x6929, 0xd252, 0xacb5, 0x517b, 0xa2f6)
}

proof fn lemma_entries(byte: u8)
    by (bit_vector)
    ensures
        form(byte) == next(lane_8::form(byte)),
        form(0) == 0x0000, form(1) == 0x2c27, form(2) == 0x584e, form(3) == 0x7469,
        form(4) == 0xb09c, form(5) == 0x9cbb, form(6) == 0xe8d2, form(7) == 0xc4f5,
        form(8) == 0x6929, form(9) == 0x450e, form(10) == 0x3167, form(11) == 0x1d40,
        form(12) == 0xd9b5, form(13) == 0xf592, form(14) == 0x81fb, form(15) == 0xaddc,
        form(16) == 0xd252, form(17) == 0xfe75, form(18) == 0x8a1c, form(19) == 0xa63b,
        form(20) == 0x62ce, form(21) == 0x4ee9, form(22) == 0x3a80, form(23) == 0x16a7,
        form(24) == 0xbb7b, form(25) == 0x975c, form(26) == 0xe335, form(27) == 0xcf12,
        form(28) == 0x0be7, form(29) == 0x27c0, form(30) == 0x53a9, form(31) == 0x7f8e,
        form(32) == 0xacb5, form(33) == 0x8092, form(34) == 0xf4fb, form(35) == 0xd8dc,
        form(36) == 0x1c29, form(37) == 0x300e, form(38) == 0x4467, form(39) == 0x6840,
        form(40) == 0xc59c, form(41) == 0xe9bb, form(42) == 0x9dd2, form(43) == 0xb1f5,
        form(44) == 0x7500, form(45) == 0x5927, form(46) == 0x2d4e, form(47) == 0x0169,
        form(48) == 0x7ee7, form(49) == 0x52c0, form(50) == 0x26a9, form(51) == 0x0a8e,
        form(52) == 0xce7b, form(53) == 0xe25c, form(54) == 0x9635, form(55) == 0xba12,
        form(56) == 0x17ce, form(57) == 0x3be9, form(58) == 0x4f80, form(59) == 0x63a7,
        form(60) == 0xa752, form(61) == 0x8b75, form(62) == 0xff1c, form(63) == 0xd33b,
        form(64) == 0x517b, form(65) == 0x7d5c, form(66) == 0x0935, form(67) == 0x2512,
        form(68) == 0xe1e7, form(69) == 0xcdc0, form(70) == 0xb9a9, form(71) == 0x958e,
        form(72) == 0x3852, form(73) == 0x1475, form(74) == 0x601c, form(75) == 0x4c3b,
        form(76) == 0x88ce, form(77) == 0xa4e9, form(78) == 0xd080, form(79) == 0xfca7,
        form(80) == 0x8329, form(81) == 0xaf0e, form(82) == 0xdb67, form(83) == 0xf740,
        form(84) == 0x33b5, form(85) == 0x1f92, form(86) == 0x6bfb, form(87) == 0x47dc,
        form(88) == 0xea00, form(89) == 0xc627, form(90) == 0xb24e, form(91) == 0x9e69,
        form(92) == 0x5a9c, form(93) == 0x76bb, form(94) == 0x02d2, form(95) == 0x2ef5,
        form(96) == 0xfdce, form(97) == 0xd1e9, form(98) == 0xa580, form(99) == 0x89a7,
        form(100) == 0x4d52, form(101) == 0x6175, form(102) == 0x151c, form(103) == 0x393b,
        form(104) == 0x94e7, form(105) == 0xb8c0, form(106) == 0xcca9, form(107) == 0xe08e,
        form(108) == 0x247b, form(109) == 0x085c, form(110) == 0x7c35, form(111) == 0x5012,
        form(112) == 0x2f9c, form(113) == 0x03bb, form(114) == 0x77d2, form(115) == 0x5bf5,
        form(116) == 0x9f00, form(117) == 0xb327, form(118) == 0xc74e, form(119) == 0xeb69,
        form(120) == 0x46b5, form(121) == 0x6a92, form(122) == 0x1efb, form(123) == 0x32dc,
        form(124) == 0xf629, form(125) == 0xda0e, form(126) == 0xae67, form(127) == 0x8240,
        form(128) == 0xa2f6, form(129) == 0x8ed1, form(130) == 0xfab8, form(131) == 0xd69f,
        form(132) == 0x126a, form(133) == 0x3e4d, form(134) == 0x4a24, form(135) == 0x6603,
        form(136) == 0xcbdf, form(137) == 0xe7f8, form(138) == 0x9391, form(139) == 0xbfb6,
        form(140) == 0x7b43, form(141) == 0x5764, form(142) == 0x230d, form(143) == 0x0f2a,
        form(144) == 0x70a4, form(145) == 0x5c83, form(146) == 0x28ea, form(147) == 0x04cd,
        form(148) == 0xc038, form(149) == 0xec1f, form(150) == 0x9876, form(151) == 0xb451,
        form(152) == 0x198d, form(153) == 0x35aa, form(154) == 0x41c3, form(155) == 0x6de4,
        form(156) == 0xa911, form(157) == 0x8536, form(158) == 0xf15f, form(159) == 0xdd78,
        form(160) == 0x0e43, form(161) == 0x2264, form(162) == 0x560d, form(163) == 0x7a2a,
        form(164) == 0xbedf, form(165) == 0x92f8, form(166) == 0xe691, form(167) == 0xcab6,
        form(168) == 0x676a, form(169) == 0x4b4d, form(170) == 0x3f24, form(171) == 0x1303,
        form(172) == 0xd7f6, form(173) == 0xfbd1, form(174) == 0x8fb8, form(175) == 0xa39f,
        form(176) == 0xdc11, form(177) == 0xf036, form(178) == 0x845f, form(179) == 0xa878,
        form(180) == 0x6c8d, form(181) == 0x40aa, form(182) == 0x34c3, form(183) == 0x18e4,
        form(184) == 0xb538, form(185) == 0x991f, form(186) == 0xed76, form(187) == 0xc151,
        form(188) == 0x05a4, form(189) == 0x2983, form(190) == 0x5dea, form(191) == 0x71cd,
        form(192) == 0xf38d, form(193) == 0xdfaa, form(194) == 0xabc3, form(195) == 0x87e4,
        form(196) == 0x4311, form(197) == 0x6f36, form(198) == 0x1b5f, form(199) == 0x3778,
        form(200) == 0x9aa4, form(201) == 0xb683, form(202) == 0xc2ea, form(203) == 0xeecd,
        form(204) == 0x2a38, form(205) == 0x061f, form(206) == 0x7276, form(207) == 0x5e51,
        form(208) == 0x21df, form(209) == 0x0df8, form(210) == 0x7991, form(211) == 0x55b6,
        form(212) == 0x9143, form(213) == 0xbd64, form(214) == 0xc90d, form(215) == 0xe52a,
        form(216) == 0x48f6, form(217) == 0x64d1, form(218) == 0x10b8, form(219) == 0x3c9f,
        form(220) == 0xf86a, form(221) == 0xd44d, form(222) == 0xa024, form(223) == 0x8c03,
        form(224) == 0x5f38, form(225) == 0x731f, form(226) == 0x0776, form(227) == 0x2b51,
        form(228) == 0xefa4, form(229) == 0xc383, form(230) == 0xb7ea, form(231) == 0x9bcd,
        form(232) == 0x3611, form(233) == 0x1a36, form(234) == 0x6e5f, form(235) == 0x4278,
        form(236) == 0x868d, form(237) == 0xaaaa, form(238) == 0xdec3, form(239) == 0xf2e4,
        form(240) == 0x8d6a, form(241) == 0xa14d, form(242) == 0xd524, form(243) == 0xf903,
        form(244) == 0x3df6, form(245) == 0x11d1, form(246) == 0x65b8, form(247) == 0x499f,
        form(248) == 0xe443, form(249) == 0xc864, form(250) == 0xbc0d, form(251) == 0x902a,
        form(252) == 0x54df, form(253) == 0x78f8, form(254) == 0x0c91, form(255) == 0x20b6,
{
}

/// The combination is the lane value.
pub proof fn lemma_form(byte: u8)
    ensures
        form(byte) == lane_value(9, byte),
{
    lemma_entries(byte);
    lane_8::lemma_form(byte);
    lemma_lane_above(byte, 8);
}

/// Every entry is the lane value of its index.
pub proof fn lemma_lane()
    ensures
        holds_lane(LANE, 9),
{
    assert forall|i: int| 0 <= i < 256 implies #[trigger] LANE@[i] == lane_value(9, i as u8) by {
        reveal(LANE);
        lemma_form(i as u8);
        lemma_entries(0);
        lemma_indices(i);
    }
}

} // verus!
