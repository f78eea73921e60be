//! The length table: for every control byte, the number of data bytes that
//! its four values occupy.
use crate::format::{code, ctrl_code, group_offset, lemma_pack_codes, pack_codes};
use vstd::prelude::*;

verus! {

/// The length table: for every control byte, the number of data bytes of its
/// group.
pub const LENGTH_TABLE: [u8; 256] = [
     4,  5,  6,  7,  5,  6,  7,  8,  6,  7,  8,  9,  7,  8,  9, 10,
     5,  6,  7,  8,  6,  7,  8,  9,  7,  8,  9, 10,  8,  9, 10, 11,
     6,  7,  8,  9,  7,  8,  9, 10,  8,  9, 10, 11,  9, 10, 11, 12,
     7,  8,  9, 10,  8,  9, 10, 11,  9, 10, 11, 12, 10, 11, 12, 13,
     5,  6,  7,  8,  6,  7,  8,  9,  7,  8,  9, 10,  8,  9, 10, 11,
     6,  7,  8,  9,  7,  8,  9, 10,  8,  9, 10, 11,  9, 10, 11, 12,
     7,  8,  9, 10,  8,  9, 10, 11,  9, 10, 11, 12, 10, 11, 12, 13,
     8,  9, 10, 11,  9, 10, 11, 12, 10, 11, 12, 13, 11, 12, 13, 14,
     6,  7,  8,  9,  7,  8,  9, 10,  8,  9, 10, 11,  9, 10, 11, 12,
     7,  8,  9, 10,  8,  9, 10, 11,  9, 10, 11, 12, 10, 11, 12, 13,
     8,  9, 10, 11,  9, 10, 11, 12, 10, 11, 12, 13, 11, 12, 13, 14,
     9, 10, 11, 12, 10, 11, 12, 13, 11, 12, 13, 14, 12, 13, 14, 15,
     7,  8,  9, 10,  8,  9, 10, 11,  9, 10, 11, 12, 10, 11, 12, 13,
     8,  9, 10, 11,  9, 10, 11, 12, 10, 11, 12, 13, 11, 12, 13, 14,
     9, 10, 11, 12, 10, 11, 12, 13, 11, 12, 13, 14, 12, 13, 14, 15,
    10, 11, 12, 13, 11, 12, 13, 14, 12, 13, 14, 15, 13, 14, 15, 16,
];

/// Four plus the four codes of control byte `c`.
pub open spec fn length_of(c: int) -> int {
    4 + c % 4 + c / 4 % 4 + c / 16 % 4 + c / 64 % 4
}

proof fn lemma_lengths_0(c: int)
    requires
        0 <= c < 32,
    ensures
        LENGTH_TABLE[c] == length_of(c),
{
    if c == 0 {
        assert(LENGTH_TABLE[0] == length_of(0));
    } else if c == 1 {
        assert(LENGTH_TABLE[1] == length_of(1));
    } else if c == 2 {
        assert(LENGTH_TABLE[2] == length_of(2));
    } else if c == 3 {
        assert(LENGTH_TABLE[3] == length_of(3));
    } else if c == 4 {
        assert(LENGTH_TABLE[4] == length_of(4));
    } else if c == 5 {
        assert(LENGTH_TABLE[5] == length_of(5));
    } else if c == 6 {
        assert(LENGTH_TABLE[6] == length_of(6));
    } else if c == 7 {
        assert(LENGTH_TABLE[7] == length_of(7));
    } else if c == 8 {
        assert(LENGTH_TABLE[8] == length_of(8));
    } else if c == 9 {
        assert(LENGTH_TABLE[9] == length_of(9));
    } else if c == 10 {
        assert(LENGTH_TABLE[10] == length_of(10));
    } else if c == 11 {
        assert(LENGTH_TABLE[11] == length_of(11));
    } else if c == 12 {
        assert(LENGTH_TABLE[12] == length_of(12));
    } else if c == 13 {
        assert(LENGTH_TABLE[13] == length_of(13));
    } else if c == 14 {
        assert(LENGTH_TABLE[14] == length_of(14));
    } else if c == 15 {
        assert(LENGTH_TABLE[15] == length_of(15));
    } else if c == 16 {
        assert(LENGTH_TABLE[16] == length_of(16));
    } else if c == 17 {
        assert(LENGTH_TABLE[17] == length_of(17));
    } else if c == 18 {
        assert(LENGTH_TABLE[18] == length_of(18));
    } else if c == 19 {
        assert(LENGTH_TABLE[19] == length_of(19));
    } else if c == 20 {
        assert(LENGTH_TABLE[20] == length_of(20));
    } else if c == 21 {
        assert(LENGTH_TABLE[21] == length_of(21));
    } else if c == 22 {
        assert(LENGTH_TABLE[22] == length_of(22));
    } else if c == 23 {
        assert(LENGTH_TABLE[23] == length_of(23));
    } else if c == 24 {
        assert(LENGTH_TABLE[24] == length_of(24));
    } else if c == 25 {
        assert(LENGTH_TABLE[25] == length_of(25));
    } else if c == 26 {
        assert(LENGTH_TABLE[26] == length_of(26));
    } else if c == 27 {
        assert(LENGTH_TABLE[27] == length_of(27));
    } else if c == 28 {
        assert(LENGTH_TABLE[28] == length_of(28));
    } else if c == 29 {
        assert(LENGTH_TABLE[29] == length_of(29));
    } else if c == 30 {
        assert(LENGTH_TABLE[30] == length_of(30));
    } else if c == 31 {
        assert(LENGTH_TABLE[31] == length_of(31));
    }
}

proof fn lemma_lengths_32(c: int)
    requires
        32 <= c < 64,
    ensures
        LENGTH_TABLE[c] == length_of(c),
{
    if c == 32 {
        assert(LENGTH_TABLE[32] == length_of(32));
    } else if c == 33 {
        assert(LENGTH_TABLE[33] == length_of(33));
    } else if c == 34 {
        assert(LENGTH_TABLE[34] == length_of(34));
    } else if c == 35 {
        assert(LENGTH_TABLE[35] == length_of(35));
    } else if c == 36 {
        assert(LENGTH_TABLE[36] == length_of(36));
    } else if c == 37 {
        assert(LENGTH_TABLE[37] == length_of(37));
    } else if c == 38 {
        assert(LENGTH_TABLE[38] == length_of(38));
    } else if c == 39 {
        assert(LENGTH_TABLE[39] == length_of(39));
    } else if c == 40 {
        assert(LENGTH_TABLE[40] == length_of(40));
    } else if c == 41 {
        assert(LENGTH_TABLE[41] == length_of(41));
    } else if c == 42 {
        assert(LENGTH_TABLE[42] == length_of(42));
    } else if c == 43 {
        assert(LENGTH_TABLE[43] == length_of(43));
    } else if c == 44 {
        assert(LENGTH_TABLE[44] == length_of(44));
    } else if c == 45 {
        assert(LENGTH_TABLE[45] == length_of(45));
    } else if c == 46 {
        assert(LENGTH_TABLE[46] == length_of(46));
    } else if c == 47 {
        assert(LENGTH_TABLE[47] == length_of(47));
    } else if c == 48 {
        assert(LENGTH_TABLE[48] == length_of(48));
    } else if c == 49 {
        assert(LENGTH_TABLE[49] == length_of(49));
    } else if c == 50 {
        assert(LENGTH_TABLE[50] == length_of(50));
    } else if c == 51 {
        assert(LENGTH_TABLE[51] == length_of(51));
    } else if c == 52 {
        assert(LENGTH_TABLE[52] == length_of(52));
    } else if c == 53 {
        assert(LENGTH_TABLE[53] == length_of(53));
    } else if c == 54 {
        assert(LENGTH_TABLE[54] == length_of(54));
    } else if c == 55 {
        assert(LENGTH_TABLE[55] == length_of(55));
    } else if c == 56 {
        assert(LENGTH_TABLE[56] == length_of(56));
    } else if c == 57 {
        assert(LENGTH_TABLE[57] == length_of(57));
    } else if c == 58 {
        assert(LENGTH_TABLE[58] == length_of(58));
    } else if c == 59 {
        assert(LENGTH_TABLE[59] == length_of(59));
    } else if c == 60 {
        assert(LENGTH_TABLE[60] == length_of(60));
    } else if c == 61 {
        assert(LENGTH_TABLE[61] == length_of(61));
    } else if c == 62 {
        assert(LENGTH_TABLE[62] == length_of(62));
    } else if c == 63 {
        assert(LENGTH_TABLE[63] == length_of(63));
    }
}

proof fn lemma_lengths_64(c: int)
    requires
        64 <= c < 96,
    ensures
        LENGTH_TABLE[c] == length_of(c),
{
    if c == 64 {
        assert(LENGTH_TABLE[64] == length_of(64));
    } else if c == 65 {
        assert(LENGTH_TABLE[65] == length_of(65));
    } else if c == 66 {
        assert(LENGTH_TABLE[66] == length_of(66));
    } else if c == 67 {
        assert(LENGTH_TABLE[67] == length_of(67));
    } else if c == 68 {
        assert(LENGTH_TABLE[68] == length_of(68));
    } else if c == 69 {
        assert(LENGTH_TABLE[69] == length_of(69));
    } else if c == 70 {
        assert(LENGTH_TABLE[70] == length_of(70));
    } else if c == 71 {
        assert(LENGTH_TABLE[71] == length_of(71));
    } else if c == 72 {
        assert(LENGTH_TABLE[72] == length_of(72));
    } else if c == 73 {
        assert(LENGTH_TABLE[73] == length_of(73));
    } else if c == 74 {
        assert(LENGTH_TABLE[74] == length_of(74));
    } else if c == 75 {
        assert(LENGTH_TABLE[75] == length_of(75));
    } else if c == 76 {
        assert(LENGTH_TABLE[76] == length_of(76));
    } else if c == 77 {
        assert(LENGTH_TABLE[77] == length_of(77));
    } else if c == 78 {
        assert(LENGTH_TABLE[78] == length_of(78));
    } else if c == 79 {
        assert(LENGTH_TABLE[79] == length_of(79));
    } else if c == 80 {
        assert(LENGTH_TABLE[80] == length_of(80));
    } else if c == 81 {
        assert(LENGTH_TABLE[81] == length_of(81));
    } else if c == 82 {
        assert(LENGTH_TABLE[82] == length_of(82));
    } else if c == 83 {
        assert(LENGTH_TABLE[83] == length_of(83));
    } else if c == 84 {
        assert(LENGTH_TABLE[84] == length_of(84));
    } else if c == 85 {
        assert(LENGTH_TABLE[85] == length_of(85));
    } else if c == 86 {
        assert(LENGTH_TABLE[86] == length_of(86));
    } else if c == 87 {
        assert(LENGTH_TABLE[87] == length_of(87));
    } else if c == 88 {
        assert(LENGTH_TABLE[88] == length_of(88));
    } else if c == 89 {
        assert(LENGTH_TABLE[89] == length_of(89));
    } else if c == 90 {
        assert(LENGTH_TABLE[90] == length_of(90));
    } else if c == 91 {
        assert(LENGTH_TABLE[91] == length_of(91));
    } else if c == 92 {
        assert(LENGTH_TABLE[92] == length_of(92));
    } else if c == 93 {
        assert(LENGTH_TABLE[93] == length_of(93));
    } else if c == 94 {
        assert(LENGTH_TABLE[94] == length_of(94));
    } else if c == 95 {
        assert(LENGTH_TABLE[95] == length_of(95));
    }
}

proof fn lemma_lengths_96(c: int)
    requires
        96 <= c < 128,
    ensures
        LENGTH_TABLE[c] == length_of(c),
{
    if c == 96 {
        assert(LENGTH_TABLE[96] == length_of(96));
    } else if c == 97 {
        assert(LENGTH_TABLE[97] == length_of(97));
    } else if c == 98 {
        assert(LENGTH_TABLE[98] == length_of(98));
    } else if c == 99 {
        assert(LENGTH_TABLE[99] == length_of(99));
    } else if c == 100 {
        assert(LENGTH_TABLE[100] == length_of(100));
    } else if c == 101 {
        assert(LENGTH_TABLE[101] == length_of(101));
    } else if c == 102 {
        assert(LENGTH_TABLE[102] == length_of(102));
    } else if c == 103 {
        assert(LENGTH_TABLE[103] == length_of(103));
    } else if c == 104 {
        assert(LENGTH_TABLE[104] == length_of(104));
    } else if c == 105 {
        assert(LENGTH_TABLE[105] == length_of(105));
    } else if c == 106 {
        assert(LENGTH_TABLE[106] == length_of(106));
    } else if c == 107 {
        assert(LENGTH_TABLE[107] == length_of(107));
    } else if c == 108 {
        assert(LENGTH_TABLE[108] == length_of(108));
    } else if c == 109 {
        assert(LENGTH_TABLE[109] == length_of(109));
    } else if c == 110 {
        assert(LENGTH_TABLE[110] == length_of(110));
    } else if c == 111 {
        assert(LENGTH_TABLE[111] == length_of(111));
    } else if c == 112 {
        assert(LENGTH_TABLE[112] == length_of(112));
    } else if c == 113 {
        assert(LENGTH_TABLE[113] == length_of(113));
    } else if c == 114 {
        assert(LENGTH_TABLE[114] == length_of(114));
    } else if c == 115 {
        assert(LENGTH_TABLE[115] == length_of(115));
    } else if c == 116 {
        assert(LENGTH_TABLE[116] == length_of(116));
    } else if c == 117 {
        assert(LENGTH_TABLE[117] == length_of(117));
    } else if c == 118 {
        assert(LENGTH_TABLE[118] == length_of(118));
    } else if c == 119 {
        assert(LENGTH_TABLE[119] == length_of(119));
    } else if c == 120 {
        assert(LENGTH_TABLE[120] == length_of(120));
    } else if c == 121 {
        assert(LENGTH_TABLE[121] == length_of(121));
    } else if c == 122 {
        assert(LENGTH_TABLE[122] == length_of(122));
    } else if c == 123 {
        assert(LENGTH_TABLE[123] == length_of(123));
    } else if c == 124 {
        assert(LENGTH_TABLE[124] == length_of(124));
    } else if c == 125 {
        assert(LENGTH_TABLE[125] == length_of(125));
    } else if c == 126 {
        assert(LENGTH_TABLE[126] == length_of(126));
    } else if c == 127 {
        assert(LENGTH_TABLE[127] == length_of(127));
    }
}

proof fn lemma_lengths_128(c: int)
    requires
        128 <= c < 160,
    ensures
        LENGTH_TABLE[c] == length_of(c),
{
    if c == 128 {
        assert(LENGTH_TABLE[128] == length_of(128));
    } else if c == 129 {
        assert(LENGTH_TABLE[129] == length_of(129));
    } else if c == 130 {
        assert(LENGTH_TABLE[130] == length_of(130));
    } else if c == 131 {
        assert(LENGTH_TABLE[131] == length_of(131));
    } else if c == 132 {
        assert(LENGTH_TABLE[132] == length_of(132));
    } else if c == 133 {
        assert(LENGTH_TABLE[133] == length_of(133));
    } else if c == 134 {
        assert(LENGTH_TABLE[134] == length_of(134));
    } else if c == 135 {
        assert(LENGTH_TABLE[135] == length_of(135));
    } else if c == 136 {
        assert(LENGTH_TABLE[136] == length_of(136));
    } else if c == 137 {
        assert(LENGTH_TABLE[137] == length_of(137));
    } else if c == 138 {
        assert(LENGTH_TABLE[138] == length_of(138));
    } else if c == 139 {
        assert(LENGTH_TABLE[139] == length_of(139));
    } else if c == 140 {
        assert(LENGTH_TABLE[140] == length_of(140));
    } else if c == 141 {
        assert(LENGTH_TABLE[141] == length_of(141));
    } else if c == 142 {
        assert(LENGTH_TABLE[142] == length_of(142));
    } else if c == 143 {
        assert(LENGTH_TABLE[143] == length_of(143));
    } else if c == 144 {
        assert(LENGTH_TABLE[144] == length_of(144));
    } else if c == 145 {
        assert(LENGTH_TABLE[145] == length_of(145));
    } else if c == 146 {
        assert(LENGTH_TABLE[146] == length_of(146));
    } else if c == 147 {
        assert(LENGTH_TABLE[147] == length_of(147));
    } else if c == 148 {
        assert(LENGTH_TABLE[148] == length_of(148));
    } else if c == 149 {
        assert(LENGTH_TABLE[149] == length_of(149));
    } else if c == 150 {
        assert(LENGTH_TABLE[150] == length_of(150));
    } else if c == 151 {
        assert(LENGTH_TABLE[151] == length_of(151));
    } else if c == 152 {
        assert(LENGTH_TABLE[152] == length_of(152));
    } else if c == 153 {
        assert(LENGTH_TABLE[153] == length_of(153));
    } else if c == 154 {
        assert(LENGTH_TABLE[154] == length_of(154));
    } else if c == 155 {
        assert(LENGTH_TABLE[155] == length_of(155));
    } else if c == 156 {
        assert(LENGTH_TABLE[156] == length_of(156));
    } else if c == 157 {
        assert(LENGTH_TABLE[157] == length_of(157));
    } else if c == 158 {
        assert(LENGTH_TABLE[158] == length_of(158));
    } else if c == 159 {
        assert(LENGTH_TABLE[159] == length_of(159));
    }
}

proof fn lemma_lengths_160(c: int)
    requires
        160 <= c < 192,
    ensures
        LENGTH_TABLE[c] == length_of(c),
{
    if c == 160 {
        assert(LENGTH_TABLE[160] == length_of(160));
    } else if c == 161 {
        assert(LENGTH_TABLE[161] == length_of(161));
    } else if c == 162 {
        assert(LENGTH_TABLE[162] == length_of(162));
    } else if c == 163 {
        assert(LENGTH_TABLE[163] == length_of(163));
    } else if c == 164 {
        assert(LENGTH_TABLE[164] == length_of(164));
    } else if c == 165 {
        assert(LENGTH_TABLE[165] == length_of(165));
    } else if c == 166 {
        assert(LENGTH_TABLE[166] == length_of(166));
    } else if c == 167 {
        assert(LENGTH_TABLE[167] == length_of(167));
    } else if c == 168 {
        assert(LENGTH_TABLE[168] == length_of(168));
    } else if c == 169 {
        assert(LENGTH_TABLE[169] == length_of(169));
    } else if c == 170 {
        assert(LENGTH_TABLE[170] == length_of(170));
    } else if c == 171 {
        assert(LENGTH_TABLE[171] == length_of(171));
    } else if c == 172 {
        assert(LENGTH_TABLE[172] == length_of(172));
    } else if c == 173 {
        assert(LENGTH_TABLE[173] == length_of(173));
    } else if c == 174 {
        assert(LENGTH_TABLE[174] == length_of(174));
    } else if c == 175 {
        assert(LENGTH_TABLE[175] == length_of(175));
    } else if c == 176 {
        assert(LENGTH_TABLE[176] == length_of(176));
    } else if c == 177 {
        assert(LENGTH_TABLE[177] == length_of(177));
    } else if c == 178 {
        assert(LENGTH_TABLE[178] == length_of(178));
    } else if c == 179 {
        assert(LENGTH_TABLE[179] == length_of(179));
    } else if c == 180 {
        assert(LENGTH_TABLE[180] == length_of(180));
    } else if c == 181 {
        assert(LENGTH_TABLE[181] == length_of(181));
    } else if c == 182 {
        assert(LENGTH_TABLE[182] == length_of(182));
    } else if c == 183 {
        assert(LENGTH_TABLE[183] == length_of(183));
    } else if c == 184 {
        assert(LENGTH_TABLE[184] == length_of(184));
    } else if c == 185 {
        assert(LENGTH_TABLE[185] == length_of(185));
    } else if c == 186 {
        assert(LENGTH_TABLE[186] == length_of(186));
    } else if c == 187 {
        assert(LENGTH_TABLE[187] == length_of(187));
    } else if c == 188 {
        assert(LENGTH_TABLE[188] == length_of(188));
    } else if c == 189 {
        assert(LENGTH_TABLE[189] == length_of(189));
    } else if c == 190 {
        assert(LENGTH_TABLE[190] == length_of(190));
    } else if c == 191 {
        assert(LENGTH_TABLE[191] == length_of(191));
    }
}

proof fn lemma_lengths_192(c: int)
    requires
        192 <= c < 224,
    ensures
        LENGTH_TABLE[c] == length_of(c),
{
    if c == 192 {
        assert(LENGTH_TABLE[192] == length_of(192));
    } else if c == 193 {
        assert(LENGTH_TABLE[193] == length_of(193));
    } else if c == 194 {
        assert(LENGTH_TABLE[194] == length_of(194));
    } else if c == 195 {
        assert(LENGTH_TABLE[195] == length_of(195));
    } else if c == 196 {
        assert(LENGTH_TABLE[196] == length_of(196));
    } else if c == 197 {
        assert(LENGTH_TABLE[197] == length_of(197));
    } else if c == 198 {
        assert(LENGTH_TABLE[198] == length_of(198));
    } else if c == 199 {
        assert(LENGTH_TABLE[199] == length_of(199));
    } else if c == 200 {
        assert(LENGTH_TABLE[200] == length_of(200));
    } else if c == 201 {
        assert(LENGTH_TABLE[201] == length_of(201));
    } else if c == 202 {
        assert(LENGTH_TABLE[202] == length_of(202));
    } else if c == 203 {
        assert(LENGTH_TABLE[203] == length_of(203));
    } else if c == 204 {
        assert(LENGTH_TABLE[204] == length_of(204));
    } else if c == 205 {
        assert(LENGTH_TABLE[205] == length_of(205));
    } else if c == 206 {
        assert(LENGTH_TABLE[206] == length_of(206));
    } else if c == 207 {
        assert(LENGTH_TABLE[207] == length_of(207));
    } else if c == 208 {
        assert(LENGTH_TABLE[208] == length_of(208));
    } else if c == 209 {
        assert(LENGTH_TABLE[209] == length_of(209));
    } else if c == 210 {
        assert(LENGTH_TABLE[210] == length_of(210));
    } else if c == 211 {
        assert(LENGTH_TABLE[211] == length_of(211));
    } else if c == 212 {
        assert(LENGTH_TABLE[212] == length_of(212));
    } else if c == 213 {
        assert(LENGTH_TABLE[213] == length_of(213));
    } else if c == 214 {
        assert(LENGTH_TABLE[214] == length_of(214));
    } else if c == 215 {
        assert(LENGTH_TABLE[215] == length_of(215));
    } else if c == 216 {
        assert(LENGTH_TABLE[216] == length_of(216));
    } else if c == 217 {
        assert(LENGTH_TABLE[217] == length_of(217));
    } else if c == 218 {
        assert(LENGTH_TABLE[218] == length_of(218));
    } else if c == 219 {
        assert(LENGTH_TABLE[219] == length_of(219));
    } else if c == 220 {
        assert(LENGTH_TABLE[220] == length_of(220));
    } else if c == 221 {
        assert(LENGTH_TABLE[221] == length_of(221));
    } else if c == 222 {
        assert(LENGTH_TABLE[222] == length_of(222));
    } else if c == 223 {
        assert(LENGTH_TABLE[223] == length_of(223));
    }
}

proof fn lemma_lengths_224(c: int)
    requires
        224 <= c < 256,
    ensures
        LENGTH_TABLE[c] == length_of(c),
{
    if c == 224 {
        assert(LENGTH_TABLE[224] == length_of(224));
    } else if c == 225 {
        assert(LENGTH_TABLE[225] == length_of(225));
    } else if c == 226 {
        assert(LENGTH_TABLE[226] == length_of(226));
    } else if c == 227 {
        assert(LENGTH_TABLE[227] == length_of(227));
    } else if c == 228 {
        assert(LENGTH_TABLE[228] == length_of(228));
    } else if c == 229 {
        assert(LENGTH_TABLE[229] == length_of(229));
    } else if c == 230 {
        assert(LENGTH_TABLE[230] == length_of(230));
    } else if c == 231 {
        assert(LENGTH_TABLE[231] == length_of(231));
    } else if c == 232 {
        assert(LENGTH_TABLE[232] == length_of(232));
    } else if c == 233 {
        assert(LENGTH_TABLE[233] == length_of(233));
    } else if c == 234 {
        assert(LENGTH_TABLE[234] == length_of(234));
    } else if c == 235 {
        assert(LENGTH_TABLE[235] == length_of(235));
    } else if c == 236 {
        assert(LENGTH_TABLE[236] == length_of(236));
    } else if c == 237 {
        assert(LENGTH_TABLE[237] == length_of(237));
    } else if c == 238 {
        assert(LENGTH_TABLE[238] == length_of(238));
    } else if c == 239 {
        assert(LENGTH_TABLE[239] == length_of(239));
    } else if c == 240 {
        assert(LENGTH_TABLE[240] == length_of(240));
    } else if c == 241 {
        assert(LENGTH_TABLE[241] == length_of(241));
    } else if c == 242 {
        assert(LENGTH_TABLE[242] == length_of(242));
    } else if c == 243 {
        assert(LENGTH_TABLE[243] == length_of(243));
    } else if c == 244 {
        assert(LENGTH_TABLE[244] == length_of(244));
    } else if c == 245 {
        assert(LENGTH_TABLE[245] == length_of(245));
    } else if c == 246 {
        assert(LENGTH_TABLE[246] == length_of(246));
    } else if c == 247 {
        assert(LENGTH_TABLE[247] == length_of(247));
    } else if c == 248 {
        assert(LENGTH_TABLE[248] == length_of(248));
    } else if c == 249 {
        assert(LENGTH_TABLE[249] == length_of(249));
    } else if c == 250 {
        assert(LENGTH_TABLE[250] == length_of(250));
    } else if c == 251 {
        assert(LENGTH_TABLE[251] == length_of(251));
    } else if c == 252 {
        assert(LENGTH_TABLE[252] == length_of(252));
    } else if c == 253 {
        assert(LENGTH_TABLE[253] == length_of(253));
    } else if c == 254 {
        assert(LENGTH_TABLE[254] == length_of(254));
    } else if c == 255 {
        assert(LENGTH_TABLE[255] == length_of(255));
    }
}

/// Every entry of the length table is the number of data bytes of the group
/// that its control byte describes: four plus the four codes.
pub proof fn lemma_length_table(control: u8)
    ensures
        LENGTH_TABLE[control as int] == group_offset(control, 4),
        4 <= LENGTH_TABLE[control as int] <= 16,
{
    let c = control as int;
    if c < 32 {
        lemma_lengths_0(c);
    } else if c < 64 {
        lemma_lengths_32(c);
    } else if c < 96 {
        lemma_lengths_64(c);
    } else if c < 128 {
        lemma_lengths_96(c);
    } else if c < 160 {
        lemma_lengths_128(c);
    } else if c < 192 {
        lemma_lengths_160(c);
    } else if c < 224 {
        lemma_lengths_192(c);
    } else {
        lemma_lengths_224(c);
    }
}

/// The number of data bytes of the group that `control` describes, from the
/// table.
pub fn group_length(control: u8) -> (len: usize)
    ensures
        len == group_offset(control, 4),
        4 <= len <= 16,
{
    proof {
        lemma_length_table(control);
    }
    LENGTH_TABLE[control as usize] as usize
}

/// What the control byte of four values tells: the codes of the values, and
/// through the length table the number of their data bytes.
pub proof fn lemma_lane_length(words: Seq<u32>, control: u8)
    requires
        words.len() == 4,
        control == pack_codes(code(words[0]), code(words[1]), code(words[2]), code(words[3])),
    ensures
        ctrl_code(control, 0) == code(words[0]),
        ctrl_code(control, 1) == code(words[1]),
        ctrl_code(control, 2) == code(words[2]),
        ctrl_code(control, 3) == code(words[3]),
        group_offset(control, 4) == code(words[0]) + code(words[1]) + code(words[2]) + code(
            words[3],
        ) + 4,
{
    lemma_length_table(control);
    lemma_pack_codes(code(words[0]), code(words[1]), code(words[2]), code(words[3]));
}

} // verus!
