//! CRC-16/XMODEM: polynomial `0x1021`, initial register `0x0000`, most significant bit first.

use vstd::prelude::*;

verus! {

/// One clock of the CRC register: shift left, and fold in the polynomial when a bit falls out.
pub open spec fn crc_shift(reg: u16) -> u16 {
    if reg & 0x8000 != 0 {
        (reg << 1) ^ 0x1021
    } else {
        reg << 1
    }
}

/// Eight clocks of the CRC register.
pub open spec fn crc_shift8(reg: u16) -> u16 {
    crc_shift(
        crc_shift(
            crc_shift(crc_shift(crc_shift(crc_shift(crc_shift(crc_shift(reg)))))),
        ),
    )
}

/// The register after one message byte has been added to its high half and clocked through.
pub open spec fn crc_byte(reg: u16, byte: u8) -> u16 {
    crc_shift8(reg ^ ((byte as u16) << 8))
}

/// The register after a whole message, starting from `reg`.
pub open spec fn crc_run(reg: u16, message: Seq<u8>) -> u16
    decreases message.len(),
{
    if message.len() == 0 {
        reg
    } else {
        crc_byte(crc_run(reg, message.drop_last()), message.last())
    }
}

/// The CRC-16/XMODEM checksum of a message.
pub open spec fn crc16_spec(message: Seq<u8>) -> u16 {
    crc_run(0, message)
}

/// What eight clocks make of a register whose low half is clear, without the clocking.
spec fn fold(high: u16) -> u16 {
    (((high ^ (high >> 4)) << 12) ^ ((high ^ (high >> 4)) << 5)) ^ (high ^ (high >> 4))
}

/// `CRC16_TAB[n]` is the register `n << 8` after eight clocks.
pub const CRC16_TAB: [u16; 256] = [
    0x0000, 0x1021, 0x2042, 0x3063, 0x4084, 0x50a5, 0x60c6, 0x70e7,
    0x8108, 0x9129, 0xa14a, 0xb16b, 0xc18c, 0xd1ad, 0xe1ce, 0xf1ef,
    0x1231, 0x0210, 0x3273, 0x2252, 0x52b5, 0x4294, 0x72f7, 0x62d6,
    0x9339, 0x8318, 0xb37b, 0xa35a, 0xd3bd, 0xc39c, 0xf3ff, 0xe3de,
    0x2462, 0x3443, 0x0420, 0x1401, 0x64e6, 0x74c7, 0x44a4, 0x5485,
    0xa56a, 0xb54b, 0x8528, 0x9509, 0xe5ee, 0xf5cf, 0xc5ac, 0xd58d,
    0x3653, 0x2672, 0x1611, 0x0630, 0x76d7, 0x66f6, 0x5695, 0x46b4,
    0xb75b, 0xa77a, 0x9719, 0x8738, 0xf7df, 0xe7fe, 0xd79d, 0xc7bc,
    0x48c4, 0x58e5, 0x6886, 0x78a7, 0x0840, 0x1861, 0x2802, 0x3823,
    0xc9cc, 0xd9ed, 0xe98e, 0xf9af, 0x8948, 0x9969, 0xa90a, 0xb92b,
    0x5af5, 0x4ad4, 0x7ab7, 0x6a96, 0x1a71, 0x0a50, 0x3a33, 0x2a12,
    0xdbfd, 0xcbdc, 0xfbbf, 0xeb9e, 0x9b79, 0x8b58, 0xbb3b, 0xab1a,
    0x6ca6, 0x7c87, 0x4ce4, 0x5cc5, 0x2c22, 0x3c03, 0x0c60, 0x1c41,
    0xedae, 0xfd8f, 0xcdec, 0xddcd, 0xad2a, 0xbd0b, 0x8d68, 0x9d49,
    0x7e97, 0x6eb6, 0x5ed5, 0x4ef4, 0x3e13, 0x2e32, 0x1e51, 0x0e70,
    0xff9f, 0xefbe, 0xdfdd, 0xcffc, 0xbf1b, 0xaf3a, 0x9f59, 0x8f78,
    0x9188, 0x81a9, 0xb1ca, 0xa1eb, 0xd10c, 0xc12d, 0xf14e, 0xe16f,
    0x1080, 0x00a1, 0x30c2, 0x20e3, 0x5004, 0x4025, 0x7046, 0x6067,
    0x83b9, 0x9398, 0xa3fb, 0xb3da, 0xc33d, 0xd31c, 0xe37f, 0xf35e,
    0x02b1, 0x1290, 0x22f3, 0x32d2, 0x4235, 0x5214, 0x6277, 0x7256,
    0xb5ea, 0xa5cb, 0x95a8, 0x8589, 0xf56e, 0xe54f, 0xd52c, 0xc50d,
    0x34e2, 0x24c3, 0x14a0, 0x0481, 0x7466, 0x6447, 0x5424, 0x4405,
    0xa7db, 0xb7fa, 0x8799, 0x97b8, 0xe75f, 0xf77e, 0xc71d, 0xd73c,
    0x26d3, 0x36f2, 0x0691, 0x16b0, 0x6657, 0x7676, 0x4615, 0x5634,
    0xd94c, 0xc96d, 0xf90e, 0xe92f, 0x99c8, 0x89e9, 0xb98a, 0xa9ab,
    0x5844, 0x4865, 0x7806, 0x6827, 0x18c0, 0x08e1, 0x3882, 0x28a3,
    0xcb7d, 0xdb5c, 0xeb3f, 0xfb1e, 0x8bf9, 0x9bd8, 0xabbb, 0xbb9a,
    0x4a75, 0x5a54, 0x6a37, 0x7a16, 0x0af1, 0x1ad0, 0x2ab3, 0x3a92,
    0xfd2e, 0xed0f, 0xdd6c, 0xcd4d, 0xbdaa, 0xad8b, 0x9de8, 0x8dc9,
    0x7c26, 0x6c07, 0x5c64, 0x4c45, 0x3ca2, 0x2c83, 0x1ce0, 0x0cc1,
    0xef1f, 0xff3e, 0xcf5d, 0xdf7c, 0xaf9b, 0xbfba, 0x8fd9, 0x9ff8,
    0x6e17, 0x7e36, 0x4e55, 0x5e74, 0x2e93, 0x3eb2, 0x0ed1, 0x1ef0,
];

#[verifier::spinoff_prover]
proof fn lemma_table_low(n: u16)
    requires
        0 <= n < 64,
    ensures
        CRC16_TAB@[n as int] == fold(n),
{
    assert(fold(0) == 0x0000
        && fold(1) == 0x1021
        && fold(2) == 0x2042
        && fold(3) == 0x3063
        && fold(4) == 0x4084
        && fold(5) == 0x50a5
        && fold(6) == 0x60c6
        && fold(7) == 0x70e7
        && fold(8) == 0x8108
        && fold(9) == 0x9129
        && fold(10) == 0xa14a
        && fold(11) == 0xb16b
        && fold(12) == 0xc18c
        && fold(13) == 0xd1ad
        && fold(14) == 0xe1ce
        && fold(15) == 0xf1ef
        && fold(16) == 0x1231
        && fold(17) == 0x0210
        && fold(18) == 0x3273
        && fold(19) == 0x2252
        && fold(20) == 0x52b5
        && fold(21) == 0x4294
        && fold(22) == 0x72f7
        && fold(23) == 0x62d6
        && fold(24) == 0x9339
        && fold(25) == 0x8318
        && fold(26) == 0xb37b
        && fold(27) == 0xa35a
        && fold(28) == 0xd3bd
        && fold(29) == 0xc39c
        && fold(30) == 0xf3ff
        && fold(31) == 0xe3de
        && fold(32) == 0x2462
        && fold(33) == 0x3443
        && fold(34) == 0x0420
        && fold(35) == 0x1401
        && fold(36) == 0x64e6
        && fold(37) == 0x74c7
        && fold(38) == 0x44a4
        && fold(39) == 0x5485
        && fold(40) == 0xa56a
        && fold(41) == 0xb54b
        && fold(42) == 0x8528
        && fold(43) == 0x9509
        && fold(44) == 0xe5ee
        && fold(45) == 0xf5cf
        && fold(46) == 0xc5ac
        && fold(47) == 0xd58d
        && fold(48) == 0x3653
        && fold(49) == 0x2672
        && fold(50) == 0x1611
        && fold(51) == 0x0630
        && fold(52) == 0x76d7
        && fold(53) == 0x66f6
        && fold(54) == 0x5695
        && fold(55) == 0x46b4
        && fold(56) == 0xb75b
        && fold(57) == 0xa77a
        && fold(58) == 0x9719
        && fold(59) == 0x8738
        && fold(60) == 0xf7df
        && fold(61) == 0xe7fe
        && fold(62) == 0xd79d
        && fold(63) == 0xc7bc) by (bit_vector);
    if 0 <= n < 16 {
        assert(n == 0 || n == 1 || n == 2 || n == 3 || n == 4 || n == 5 || n == 6 || n == 7 || n == 8 || n == 9 || n == 10 || n == 11 || n == 12 || n == 13 || n == 14 || n == 15);
    }
    if 16 <= n < 32 {
        assert(n == 16 || n == 17 || n == 18 || n == 19 || n == 20 || n == 21 || n == 22 || n == 23 || n == 24 || n == 25 || n == 26 || n == 27 || n == 28 || n == 29 || n == 30 || n == 31);
    }
    if 32 <= n < 48 {
        assert(n == 32 || n == 33 || n == 34 || n == 35 || n == 36 || n == 37 || n == 38 || n == 39 || n == 40 || n == 41 || n == 42 || n == 43 || n == 44 || n == 45 || n == 46 || n == 47);
    }
    if 48 <= n < 64 {
        assert(n == 48 || n == 49 || n == 50 || n == 51 || n == 52 || n == 53 || n == 54 || n == 55 || n == 56 || n == 57 || n == 58 || n == 59 || n == 60 || n == 61 || n == 62 || n == 63);
    }
}

#[verifier::spinoff_prover]
proof fn lemma_table_mid_low(n: u16)
    requires
        64 <= n < 128,
    ensures
        CRC16_TAB@[n as int] == fold(n),
{
    assert(fold(64) == 0x48c4
        && fold(65) == 0x58e5
        && fold(66) == 0x6886
        && fold(67) == 0x78a7
        && fold(68) == 0x0840
        && fold(69) == 0x1861
        && fold(70) == 0x2802
        && fold(71) == 0x3823
        && fold(72) == 0xc9cc
        && fold(73) == 0xd9ed
        && fold(74) == 0xe98e
        && fold(75) == 0xf9af
        && fold(76) == 0x8948
        && fold(77) == 0x9969
        && fold(78) == 0xa90a
        && fold(79) == 0xb92b
        && fold(80) == 0x5af5
        && fold(81) == 0x4ad4
        && fold(82) == 0x7ab7
        && fold(83) == 0x6a96
        && fold(84) == 0x1a71
        && fold(85) == 0x0a50
        && fold(86) == 0x3a33
        && fold(87) == 0x2a12
        && fold(88) == 0xdbfd
        && fold(89) == 0xcbdc
        && fold(90) == 0xfbbf
        && fold(91) == 0xeb9e
        && fold(92) == 0x9b79
        && fold(93) == 0x8b58
        && fold(94) == 0xbb3b
        && fold(95) == 0xab1a
        && fold(96) == 0x6ca6
        && fold(97) == 0x7c87
        && fold(98) == 0x4ce4
        && fold(99) == 0x5cc5
        && fold(100) == 0x2c22
        && fold(101) == 0x3c03
        && fold(102) == 0x0c60
        && fold(103) == 0x1c41
        && fold(104) == 0xedae
        && fold(105) == 0xfd8f
        && fold(106) == 0xcdec
        && fold(107) == 0xddcd
        && fold(108) == 0xad2a
        && fold(109) == 0xbd0b
        && fold(110) == 0x8d68
        && fold(111) == 0x9d49
        && fold(112) == 0x7e97
        && fold(113) == 0x6eb6
        && fold(114) == 0x5ed5
        && fold(115) == 0x4ef4
        && fold(116) == 0x3e13
        && fold(117) == 0x2e32
        && fold(118) == 0x1e51
        && fold(119) == 0x0e70
        && fold(120) == 0xff9f
        && fold(121) == 0xefbe
        && fold(122) == 0xdfdd
        && fold(123) == 0xcffc
        && fold(124) == 0xbf1b
        && fold(125) == 0xaf3a
        && fold(126) == 0x9f59
        && fold(127) == 0x8f78) by (bit_vector);
    if 64 <= n < 80 {
        assert(n == 64 || n == 65 || n == 66 || n == 67 || n == 68 || n == 69 || n == 70 || n == 71 || n == 72 || n == 73 || n == 74 || n == 75 || n == 76 || n == 77 || n == 78 || n == 79);
    }
    if 80 <= n < 96 {
        assert(n == 80 || n == 81 || n == 82 || n == 83 || n == 84 || n == 85 || n == 86 || n == 87 || n == 88 || n == 89 || n == 90 || n == 91 || n == 92 || n == 93 || n == 94 || n == 95);
    }
    if 96 <= n < 112 {
        assert(n == 96 || n == 97 || n == 98 || n == 99 || n == 100 || n == 101 || n == 102 || n == 103 || n == 104 || n == 105 || n == 106 || n == 107 || n == 108 || n == 109 || n == 110 || n == 111);
    }
    if 112 <= n < 128 {
        assert(n == 112 || n == 113 || n == 114 || n == 115 || n == 116 || n == 117 || n == 118 || n == 119 || n == 120 || n == 121 || n == 122 || n == 123 || n == 124 || n == 125 || n == 126 || n == 127);
    }
}

#[verifier::spinoff_prover]
proof fn lemma_table_mid_high(n: u16)
    requires
        128 <= n < 192,
    ensures
        CRC16_TAB@[n as int] == fold(n),
{
    assert(fold(128) == 0x9188
        && fold(129) == 0x81a9
        && fold(130) == 0xb1ca
        && fold(131) == 0xa1eb
        && fold(132) == 0xd10c
        && fold(133) == 0xc12d
        && fold(134) == 0xf14e
        && fold(135) == 0xe16f
        && fold(136) == 0x1080
        && fold(137) == 0x00a1
        && fold(138) == 0x30c2
        && fold(139) == 0x20e3
        && fold(140) == 0x5004
        && fold(141) == 0x4025
        && fold(142) == 0x7046
        && fold(143) == 0x6067
        && fold(144) == 0x83b9
        && fold(145) == 0x9398
        && fold(146) == 0xa3fb
        && fold(147) == 0xb3da
        && fold(148) == 0xc33d
        && fold(149) == 0xd31c
        && fold(150) == 0xe37f
        && fold(151) == 0xf35e
        && fold(152) == 0x02b1
        && fold(153) == 0x1290
        && fold(154) == 0x22f3
        && fold(155) == 0x32d2
        && fold(156) == 0x4235
        && fold(157) == 0x5214
        && fold(158) == 0x6277
        && fold(159) == 0x7256
        && fold(160) == 0xb5ea
        && fold(161) == 0xa5cb
        && fold(162) == 0x95a8
        && fold(163) == 0x8589
        && fold(164) == 0xf56e
        && fold(165) == 0xe54f
        && fold(166) == 0xd52c
        && fold(167) == 0xc50d
        && fold(168) == 0x34e2
        && fold(169) == 0x24c3
        && fold(170) == 0x14a0
        && fold(171) == 0x0481
        && fold(172) == 0x7466
        && fold(173) == 0x6447
        && fold(174) == 0x5424
        && fold(175) == 0x4405
        && fold(176) == 0xa7db
        && fold(177) == 0xb7fa
        && fold(178) == 0x8799
        && fold(179) == 0x97b8
        && fold(180) == 0xe75f
        && fold(181) == 0xf77e
        && fold(182) == 0xc71d
        && fold(183) == 0xd73c
        && fold(184) == 0x26d3
        && fold(185) == 0x36f2
        && fold(186) == 0x0691
        && fold(187) == 0x16b0
        && fold(188) == 0x6657
        && fold(189) == 0x7676
        && fold(190) == 0x4615
        && fold(191) == 0x5634) by (bit_vector);
    if 128 <= n < 144 {
        assert(n == 128 || n == 129 || n == 130 || n == 131 || n == 132 || n == 133 || n == 134 || n == 135 || n == 136 || n == 137 || n == 138 || n == 139 || n == 140 || n == 141 || n == 142 || n == 143);
    }
    if 144 <= n < 160 {
        assert(n == 144 || n == 145 || n == 146 || n == 147 || n == 148 || n == 149 || n == 150 || n == 151 || n == 152 || n == 153 || n == 154 || n == 155 || n == 156 || n == 157 || n == 158 || n == 159);
    }
    if 160 <= n < 176 {
        assert(n == 160 || n == 161 || n == 162 || n == 163 || n == 164 || n == 165 || n == 166 || n == 167 || n == 168 || n == 169 || n == 170 || n == 171 || n == 172 || n == 173 || n == 174 || n == 175);
    }
    if 176 <= n < 192 {
        assert(n == 176 || n == 177 || n == 178 || n == 179 || n == 180 || n == 181 || n == 182 || n == 183 || n == 184 || n == 185 || n == 186 || n == 187 || n == 188 || n == 189 || n == 190 || n == 191);
    }
}

#[verifier::spinoff_prover]
proof fn lemma_table_high(n: u16)
    requires
        192 <= n < 256,
    ensures
        CRC16_TAB@[n as int] == fold(n),
{
    assert(fold(192) == 0xd94c
        && fold(193) == 0xc96d
        && fold(194) == 0xf90e
        && fold(195) == 0xe92f
        && fold(196) == 0x99c8
        && fold(197) == 0x89e9
        && fold(198) == 0xb98a
        && fold(199) == 0xa9ab
        && fold(200) == 0x5844
        && fold(201) == 0x4865
        && fold(202) == 0x7806
        && fold(203) == 0x6827
        && fold(204) == 0x18c0
        && fold(205) == 0x08e1
        && fold(206) == 0x3882
        && fold(207) == 0x28a3
        && fold(208) == 0xcb7d
        && fold(209) == 0xdb5c
        && fold(210) == 0xeb3f
        && fold(211) == 0xfb1e
        && fold(212) == 0x8bf9
        && fold(213) == 0x9bd8
        && fold(214) == 0xabbb
        && fold(215) == 0xbb9a
        && fold(216) == 0x4a75
        && fold(217) == 0x5a54
        && fold(218) == 0x6a37
        && fold(219) == 0x7a16
        && fold(220) == 0x0af1
        && fold(221) == 0x1ad0
        && fold(222) == 0x2ab3
        && fold(223) == 0x3a92
        && fold(224) == 0xfd2e
        && fold(225) == 0xed0f
        && fold(226) == 0xdd6c
        && fold(227) == 0xcd4d
        && fold(228) == 0xbdaa
        && fold(229) == 0xad8b
        && fold(230) == 0x9de8
        && fold(231) == 0x8dc9
        && fold(232) == 0x7c26
        && fold(233) == 0x6c07
        && fold(234) == 0x5c64
        && fold(235) == 0x4c45
        && fold(236) == 0x3ca2
        && fold(237) == 0x2c83
        && fold(238) == 0x1ce0
        && fold(239) == 0x0cc1
        && fold(240) == 0xef1f
        && fold(241) == 0xff3e
        && fold(242) == 0xcf5d
        && fold(243) == 0xdf7c
        && fold(244) == 0xaf9b
        && fold(245) == 0xbfba
        && fold(246) == 0x8fd9
        && fold(247) == 0x9ff8
        && fold(248) == 0x6e17
        && fold(249) == 0x7e36
        && fold(250) == 0x4e55
        && fold(251) == 0x5e74
        && fold(252) == 0x2e93
        && fold(253) == 0x3eb2
        && fold(254) == 0x0ed1
        && fold(255) == 0x1ef0) by (bit_vector);
    if 192 <= n < 208 {
        assert(n == 192 || n == 193 || n == 194 || n == 195 || n == 196 || n == 197 || n == 198 || n == 199 || n == 200 || n == 201 || n == 202 || n == 203 || n == 204 || n == 205 || n == 206 || n == 207);
    }
    if 208 <= n < 224 {
        assert(n == 208 || n == 209 || n == 210 || n == 211 || n == 212 || n == 213 || n == 214 || n == 215 || n == 216 || n == 217 || n == 218 || n == 219 || n == 220 || n == 221 || n == 222 || n == 223);
    }
    if 224 <= n < 240 {
        assert(n == 224 || n == 225 || n == 226 || n == 227 || n == 228 || n == 229 || n == 230 || n == 231 || n == 232 || n == 233 || n == 234 || n == 235 || n == 236 || n == 237 || n == 238 || n == 239);
    }
    if 240 <= n < 256 {
        assert(n == 240 || n == 241 || n == 242 || n == 243 || n == 244 || n == 245 || n == 246 || n == 247 || n == 248 || n == 249 || n == 250 || n == 251 || n == 252 || n == 253 || n == 254 || n == 255);
    }
}

proof fn lemma_table(n: u16)
    requires
        n < 256,
    ensures
        CRC16_TAB@[n as int] == fold(n),
{
    if n < 64 {
        lemma_table_low(n);
    } else if n < 128 {
        lemma_table_mid_low(n);
    } else if n < 192 {
        lemma_table_mid_high(n);
    } else {
        lemma_table_high(n);
    }
}

/// Eight clocks at once: the high half is folded, the low half moves up.
proof fn lemma_shift8_folds(reg: u16)
    ensures
        crc_shift8(reg) == fold(reg >> 8) ^ (reg << 8),
{
    assert(crc_shift8(reg) == fold(reg >> 8) ^ (reg << 8)) by (bit_vector);
}

/// One table step adds one message byte to the register.
proof fn lemma_table_step(reg: u16, byte: u8)
    ensures
        ((reg >> 8) ^ (byte as u16)) & 0xFF < 256,
        CRC16_TAB@[(((reg >> 8) ^ (byte as u16)) & 0xFF) as int] ^ (reg << 8) == crc_byte(reg, byte),
{
    let n = ((reg >> 8) ^ (byte as u16)) & 0xFF;
    let mixed = reg ^ ((byte as u16) << 8);
    assert(((reg >> 8) ^ (byte as u16)) & 0xFF < 256 && (reg ^ ((byte as u16) << 8)) >> 8 == ((reg
        >> 8) ^ (byte as u16)) & 0xFF && (reg ^ ((byte as u16) << 8)) << 8 == reg << 8)
        by (bit_vector);
    lemma_table(n);
    lemma_shift8_folds(mixed);
}

/// Computes the CRC-16/XMODEM checksum of `buf`.
pub fn crc16(buf: &[u8]) -> (cksum: u16)
    ensures
        cksum == crc16_spec(buf@),
{
    let mut cksum: u16 = 0;
    let mut i: usize = 0;
    assert(buf@.take(0) =~= Seq::<u8>::empty());
    while i < buf.len()
        invariant
            i <= buf@.len(),
            cksum == crc16_spec(buf@.take(i as int)),
        decreases buf@.len() - i,
    {
        let byte: u8 = buf[i];
        proof {
            lemma_table_step(cksum, byte);
            assert(buf@.take(i + 1).drop_last() =~= buf@.take(i as int));
            assert(buf@.take(i + 1).last() == byte);
        }
        let idx: usize = (((cksum >> 8) ^ byte as u16) & 0xFF) as usize;
        cksum = CRC16_TAB[idx] ^ (cksum << 8);
        i = i + 1;
    }
    assert(buf@.take(i as int) =~= buf@);
    cksum
}

/// Running the register over two messages in turn is running it over their concatenation.
pub proof fn lemma_crc_run_concat(reg: u16, first: Seq<u8>, second: Seq<u8>)
    ensures
        crc_run(reg, first + second) == crc_run(crc_run(reg, first), second),
    decreases second.len(),
{
    if second.len() == 0 {
        assert(first + second =~= first);
    } else {
        lemma_crc_run_concat(reg, first, second.drop_last());
        assert((first + second).drop_last() =~= first + second.drop_last());
        assert((first + second).last() == second.last());
    }
}

/// Two registers that agree after a byte has been added agreed before it.
proof fn lemma_crc_byte_injective(reg1: u16, reg2: u16, byte1: u8, byte2: u8)
    ensures
        crc_byte(reg1, byte1) == crc_byte(reg2, byte1) ==> reg1 == reg2,
        crc_byte(reg1, byte1) == crc_byte(reg1, byte2) ==> byte1 == byte2,
{
    let a = reg1 ^ ((byte1 as u16) << 8);
    let b = reg2 ^ ((byte1 as u16) << 8);
    let c = reg1 ^ ((byte2 as u16) << 8);
    lemma_shift8_folds(a);
    lemma_shift8_folds(b);
    lemma_shift8_folds(c);
    assert((fold(a >> 8) ^ (a << 8) == fold(b >> 8) ^ (b << 8) ==> a == b) && (fold(a >> 8) ^ (a
        << 8) == fold(c >> 8) ^ (c << 8) ==> a == c)) by (bit_vector);
    assert((reg1 ^ ((byte1 as u16) << 8) == reg2 ^ ((byte1 as u16) << 8) ==> reg1 == reg2) && (reg1
        ^ ((byte1 as u16) << 8) == reg1 ^ ((byte2 as u16) << 8) ==> byte1 == byte2))
        by (bit_vector);
}

proof fn lemma_crc_run_injective(reg1: u16, reg2: u16, message: Seq<u8>)
    requires
        reg1 != reg2,
    ensures
        crc_run(reg1, message) != crc_run(reg2, message),
    decreases message.len(),
{
    if message.len() > 0 {
        lemma_crc_run_injective(reg1, reg2, message.drop_last());
        lemma_crc_byte_injective(
            crc_run(reg1, message.drop_last()),
            crc_run(reg2, message.drop_last()),
            message.last(),
            message.last(),
        );
    }
}

/// The checksum notices every change of a single byte: two messages that differ in exactly one
/// byte have different checksums.
pub proof fn lemma_crc_detects_byte_change(before: Seq<u8>, byte1: u8, byte2: u8, after: Seq<u8>)
    requires
        byte1 != byte2,
    ensures
        crc16_spec(before.push(byte1) + after) != crc16_spec(before.push(byte2) + after),
{
    let reg = crc_run(0, before);
    lemma_crc_run_concat(0, before.push(byte1), after);
    lemma_crc_run_concat(0, before.push(byte2), after);
    assert(before.push(byte1).drop_last() =~= before);
    assert(before.push(byte2).drop_last() =~= before);
    lemma_crc_byte_injective(reg, reg, byte1, byte2);
    lemma_crc_run_injective(crc_byte(reg, byte1), crc_byte(reg, byte2), after);
}

/// A message followed by its own checksum, high byte first, has the checksum zero.
pub proof fn lemma_crc_residue_is_zero(message: Seq<u8>)
    ensures
        crc16_spec(
            message.push((crc16_spec(message) >> 8) as u8).push((crc16_spec(message) & 0xFF) as u8),
        ) == 0,
{
    let reg = crc16_spec(message);
    let hi = (reg >> 8) as u8;
    let lo = (reg & 0xFF) as u8;
    let whole = message.push(hi).push(lo);
    assert(whole.drop_last() =~= message.push(hi));
    assert(message.push(hi).drop_last() =~= message);
    let mixed_hi = reg ^ ((hi as u16) << 8);
    let mixed_lo = ((reg & 0xFF) << 8) ^ ((lo as u16) << 8);
    lemma_shift8_folds(mixed_hi);
    lemma_shift8_folds(mixed_lo);
    assert(hi == (reg >> 8) as u8 && lo == (reg & 0xFF) as u8 ==> fold((reg ^ ((hi as u16) << 8))
        >> 8) ^ ((reg ^ ((hi as u16) << 8)) << 8) == (reg & 0xFF) << 8 && fold((((reg & 0xFF) << 8)
        ^ ((lo as u16) << 8)) >> 8) ^ ((((reg & 0xFF) << 8) ^ ((lo as u16) << 8)) << 8) == 0)
        by (bit_vector);
    assert(crc_run(0, message.push(hi)) == crc_byte(reg, hi));
    assert(crc_run(0, whole) == crc_byte(crc_byte(reg, hi), lo));
}

/// The checksum starts at zero, and each further byte takes it on as division by
/// `x^16 + x^12 + x^5 + 1` does: the byte and the high half fall out together, their remainder
/// comes in at the places 12, 5 and 0, and the low half moves up.
pub proof fn lemma_crc_follows_the_polynomial(message: Seq<u8>, byte: u8)
    ensures
        crc16_spec(Seq::empty()) == 0,
        ({
            let c = crc16_spec(message);
            let out = (c >> 8) ^ (byte as u16);
            let back = out ^ (out >> 4);
            crc16_spec(message.push(byte)) == (c << 8) ^ (back << 12) ^ (back << 5) ^ back
        }),
{
    let c = crc16_spec(message);
    let mixed = c ^ ((byte as u16) << 8);
    assert(message.push(byte).drop_last() =~= message);
    lemma_shift8_folds(mixed);
    assert(fold((c ^ ((byte as u16) << 8)) >> 8) ^ ((c ^ ((byte as u16) << 8)) << 8) == (c << 8) ^ (
    (((c >> 8) ^ (byte as u16)) ^ (((c >> 8) ^ (byte as u16)) >> 4)) << 12) ^ ((((c >> 8) ^ (
    byte as u16)) ^ (((c >> 8) ^ (byte as u16)) >> 4)) << 5) ^ (((c >> 8) ^ (byte as u16)) ^ (((c
        >> 8) ^ (byte as u16)) >> 4))) by (bit_vector);
}

} // verus!
