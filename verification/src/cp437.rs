//! The code page 437 character set: which code point each of its 256
//! codes stands for.

use vstd::prelude::*;

verus! {

/// The code point of a code of code page 437.
#[verifier::opaque]
pub open spec fn cp437(code: u8) -> char {
    match code {
        0 => '\0',
        1 => '\u{263A}',
        2 => '\u{263B}',
        3 => '\u{2665}',
        4 => '\u{2666}',
        5 => '\u{2663}',
        6 => '\u{2660}',
        7 => '\u{2022}',
        8 => '\u{25D8}',
        9 => '\u{25CB}',
        10 => '\u{25D9}',
        11 => '\u{2642}',
        12 => '\u{2640}',
        13 => '\u{266A}',
        14 => '\u{266B}',
        15 => '\u{263C}',
        16 => '\u{25BA}',
        17 => '\u{25C4}',
        18 => '\u{2195}',
        19 => '\u{203C}',
        20 => '\u{00B6}',
        21 => '\u{00A7}',
        22 => '\u{25AC}',
        23 => '\u{21A8}',
        24 => '\u{2191}',
        25 => '\u{2193}',
        26 => '\u{2192}',
        27 => '\u{2190}',
        28 => '\u{221F}',
        29 => '\u{2194}',
        30 => '\u{25B2}',
        31 => '\u{25BC}',
        127 => '\u{2302}',
        128 => '\u{00C7}',
        129 => '\u{00FC}',
        130 => '\u{00E9}',
        131 => '\u{00E2}',
        132 => '\u{00E4}',
        133 => '\u{00E0}',
        134 => '\u{00E5}',
        135 => '\u{00E7}',
        136 => '\u{00EA}',
        137 => '\u{00EB}',
        138 => '\u{00E8}',
        139 => '\u{00EF}',
        140 => '\u{00EE}',
        141 => '\u{00EC}',
        142 => '\u{00C4}',
        143 => '\u{00C5}',
        144 => '\u{00C9}',
        145 => '\u{00E6}',
        146 => '\u{00C6}',
        147 => '\u{00F4}',
        148 => '\u{00F6}',
        149 => '\u{00F2}',
        150 => '\u{00FB}',
        151 => '\u{00F9}',
        152 => '\u{00FF}',
        153 => '\u{00D6}',
        154 => '\u{00DC}',
        155 => '\u{00A2}',
        156 => '\u{00A3}',
        157 => '\u{00A5}',
        158 => '\u{20A7}',
        159 => '\u{0192}',
        160 => '\u{00E1}',
        161 => '\u{00ED}',
        162 => '\u{00F3}',
        163 => '\u{00FA}',
        164 => '\u{00F1}',
        165 => '\u{00D1}',
        166 => '\u{00AA}',
        167 => '\u{00BA}',
        168 => '\u{00BF}',
        169 => '\u{2310}',
        170 => '\u{00AC}',
        171 => '\u{00BD}',
        172 => '\u{00BC}',
        173 => '\u{00A1}',
        174 => '\u{00AB}',
        175 => '\u{00BB}',
        176 => '\u{2591}',
        177 => '\u{2592}',
        178 => '\u{2593}',
        179 => '\u{2502}',
        180 => '\u{2524}',
        181 => '\u{2561}',
        182 => '\u{2562}',
        183 => '\u{2556}',
        184 => '\u{2555}',
        185 => '\u{2563}',
        186 => '\u{2551}',
        187 => '\u{2557}',
        188 => '\u{255D}',
        189 => '\u{255C}',
        190 => '\u{255B}',
        191 => '\u{2510}',
        192 => '\u{2514}',
        193 => '\u{2534}',
        194 => '\u{252C}',
        195 => '\u{251C}',
        196 => '\u{2500}',
        197 => '\u{253C}',
        198 => '\u{255E}',
        199 => '\u{255F}',
        200 => '\u{255A}',
        201 => '\u{2554}',
        202 => '\u{2569}',
        203 => '\u{2566}',
        204 => '\u{2560}',
        205 => '\u{2550}',
        206 => '\u{256C}',
        207 => '\u{2567}',
        208 => '\u{2568}',
        209 => '\u{2564}',
        210 => '\u{2565}',
        211 => '\u{2559}',
        212 => '\u{2558}',
        213 => '\u{2552}',
        214 => '\u{2553}',
        215 => '\u{256B}',
        216 => '\u{256A}',
        217 => '\u{2518}',
        218 => '\u{250C}',
        219 => '\u{2588}',
        220 => '\u{2584}',
        221 => '\u{258C}',
        222 => '\u{2590}',
        223 => '\u{2580}',
        224 => '\u{03B1}',
        225 => '\u{00DF}',
        226 => '\u{0393}',
        227 => '\u{03C0}',
        228 => '\u{03A3}',
        229 => '\u{03C3}',
        230 => '\u{00B5}',
        231 => '\u{03C4}',
        232 => '\u{03A6}',
        233 => '\u{0398}',
        234 => '\u{03A9}',
        235 => '\u{03B4}',
        236 => '\u{221E}',
        237 => '\u{03C6}',
        238 => '\u{03B5}',
        239 => '\u{2229}',
        240 => '\u{2261}',
        241 => '\u{00B1}',
        242 => '\u{2265}',
        243 => '\u{2264}',
        244 => '\u{2320}',
        245 => '\u{2321}',
        246 => '\u{00F7}',
        247 => '\u{2248}',
        248 => '\u{00B0}',
        249 => '\u{2219}',
        250 => '\u{00B7}',
        251 => '\u{221A}',
        252 => '\u{207F}',
        253 => '\u{00B2}',
        254 => '\u{25A0}',
        255 => '\u{00A0}',
        _ => code as char,
    }
}

/// The code of code page 437 that stands for a code point, if there is one.
#[verifier::opaque]
pub open spec fn cp437_code(c: char) -> Option<u8> {
    match c {
        '\0' => Some(0u8),
        '\u{263A}' => Some(1u8),
        '\u{263B}' => Some(2u8),
        '\u{2665}' => Some(3u8),
        '\u{2666}' => Some(4u8),
        '\u{2663}' => Some(5u8),
        '\u{2660}' => Some(6u8),
        '\u{2022}' => Some(7u8),
        '\u{25D8}' => Some(8u8),
        '\u{25CB}' => Some(9u8),
        '\u{25D9}' => Some(10u8),
        '\u{2642}' => Some(11u8),
        '\u{2640}' => Some(12u8),
        '\u{266A}' => Some(13u8),
        '\u{266B}' => Some(14u8),
        '\u{263C}' => Some(15u8),
        '\u{25BA}' => Some(16u8),
        '\u{25C4}' => Some(17u8),
        '\u{2195}' => Some(18u8),
        '\u{203C}' => Some(19u8),
        '\u{00B6}' => Some(20u8),
        '\u{00A7}' => Some(21u8),
        '\u{25AC}' => Some(22u8),
        '\u{21A8}' => Some(23u8),
        '\u{2191}' => Some(24u8),
        '\u{2193}' => Some(25u8),
        '\u{2192}' => Some(26u8),
        '\u{2190}' => Some(27u8),
        '\u{221F}' => Some(28u8),
        '\u{2194}' => Some(29u8),
        '\u{25B2}' => Some(30u8),
        '\u{25BC}' => Some(31u8),
        '\u{2302}' => Some(127u8),
        '\u{00C7}' => Some(128u8),
        '\u{00FC}' => Some(129u8),
        '\u{00E9}' => Some(130u8),
        '\u{00E2}' => Some(131u8),
        '\u{00E4}' => Some(132u8),
        '\u{00E0}' => Some(133u8),
        '\u{00E5}' => Some(134u8),
        '\u{00E7}' => Some(135u8),
        '\u{00EA}' => Some(136u8),
        '\u{00EB}' => Some(137u8),
        '\u{00E8}' => Some(138u8),
        '\u{00EF}' => Some(139u8),
        '\u{00EE}' => Some(140u8),
        '\u{00EC}' => Some(141u8),
        '\u{00C4}' => Some(142u8),
        '\u{00C5}' => Some(143u8),
        '\u{00C9}' => Some(144u8),
        '\u{00E6}' => Some(145u8),
        '\u{00C6}' => Some(146u8),
        '\u{00F4}' => Some(147u8),
        '\u{00F6}' => Some(148u8),
        '\u{00F2}' => Some(149u8),
        '\u{00FB}' => Some(150u8),
        '\u{00F9}' => Some(151u8),
        '\u{00FF}' => Some(152u8),
        '\u{00D6}' => Some(153u8),
        '\u{00DC}' => Some(154u8),
        '\u{00A2}' => Some(155u8),
        '\u{00A3}' => Some(156u8),
        '\u{00A5}' => Some(157u8),
        '\u{20A7}' => Some(158u8),
        '\u{0192}' => Some(159u8),
        '\u{00E1}' => Some(160u8),
        '\u{00ED}' => Some(161u8),
        '\u{00F3}' => Some(162u8),
        '\u{00FA}' => Some(163u8),
        '\u{00F1}' => Some(164u8),
        '\u{00D1}' => Some(165u8),
        '\u{00AA}' => Some(166u8),
        '\u{00BA}' => Some(167u8),
        '\u{00BF}' => Some(168u8),
        '\u{2310}' => Some(169u8),
        '\u{00AC}' => Some(170u8),
        '\u{00BD}' => Some(171u8),
        '\u{00BC}' => Some(172u8),
        '\u{00A1}' => Some(173u8),
        '\u{00AB}' => Some(174u8),
        '\u{00BB}' => Some(175u8),
        '\u{2591}' => Some(176u8),
        '\u{2592}' => Some(177u8),
        '\u{2593}' => Some(178u8),
        '\u{2502}' => Some(179u8),
        '\u{2524}' => Some(180u8),
        '\u{2561}' => Some(181u8),
        '\u{2562}' => Some(182u8),
        '\u{2556}' => Some(183u8),
        '\u{2555}' => Some(184u8),
        '\u{2563}' => Some(185u8),
        '\u{2551}' => Some(186u8),
        '\u{2557}' => Some(187u8),
        '\u{255D}' => Some(188u8),
        '\u{255C}' => Some(189u8),
        '\u{255B}' => Some(190u8),
        '\u{2510}' => Some(191u8),
        '\u{2514}' => Some(192u8),
        '\u{2534}' => Some(193u8),
        '\u{252C}' => Some(194u8),
        '\u{251C}' => Some(195u8),
        '\u{2500}' => Some(196u8),
        '\u{253C}' => Some(197u8),
        '\u{255E}' => Some(198u8),
        '\u{255F}' => Some(199u8),
        '\u{255A}' => Some(200u8),
        '\u{2554}' => Some(201u8),
        '\u{2569}' => Some(202u8),
        '\u{2566}' => Some(203u8),
        '\u{2560}' => Some(204u8),
        '\u{2550}' => Some(205u8),
        '\u{256C}' => Some(206u8),
        '\u{2567}' => Some(207u8),
        '\u{2568}' => Some(208u8),
        '\u{2564}' => Some(209u8),
        '\u{2565}' => Some(210u8),
        '\u{2559}' => Some(211u8),
        '\u{2558}' => Some(212u8),
        '\u{2552}' => Some(213u8),
        '\u{2553}' => Some(214u8),
        '\u{256B}' => Some(215u8),
        '\u{256A}' => Some(216u8),
        '\u{2518}' => Some(217u8),
        '\u{250C}' => Some(218u8),
        '\u{2588}' => Some(219u8),
        '\u{2584}' => Some(220u8),
        '\u{258C}' => Some(221u8),
        '\u{2590}' => Some(222u8),
        '\u{2580}' => Some(223u8),
        '\u{03B1}' => Some(224u8),
        '\u{00DF}' => Some(225u8),
        '\u{0393}' => Some(226u8),
        '\u{03C0}' => Some(227u8),
        '\u{03A3}' => Some(228u8),
        '\u{03C3}' => Some(229u8),
        '\u{00B5}' => Some(230u8),
        '\u{03C4}' => Some(231u8),
        '\u{03A6}' => Some(232u8),
        '\u{0398}' => Some(233u8),
        '\u{03A9}' => Some(234u8),
        '\u{03B4}' => Some(235u8),
        '\u{221E}' => Some(236u8),
        '\u{03C6}' => Some(237u8),
        '\u{03B5}' => Some(238u8),
        '\u{2229}' => Some(239u8),
        '\u{2261}' => Some(240u8),
        '\u{00B1}' => Some(241u8),
        '\u{2265}' => Some(242u8),
        '\u{2264}' => Some(243u8),
        '\u{2320}' => Some(244u8),
        '\u{2321}' => Some(245u8),
        '\u{00F7}' => Some(246u8),
        '\u{2248}' => Some(247u8),
        '\u{00B0}' => Some(248u8),
        '\u{2219}' => Some(249u8),
        '\u{00B7}' => Some(250u8),
        '\u{221A}' => Some(251u8),
        '\u{207F}' => Some(252u8),
        '\u{00B2}' => Some(253u8),
        '\u{25A0}' => Some(254u8),
        '\u{00A0}' => Some(255u8),
        _ => if 32 <= c as u32 <= 126 {
            Some(c as u8)
        } else {
            None
        },
    }
}

/// The code point of a code of code page 437.
pub fn cp437_char(code: u8) -> (c: char)
    ensures
        c == cp437(code),
{
    reveal(cp437);
    match code {
        0 => '\0',
        1 => '\u{263A}',
        2 => '\u{263B}',
        3 => '\u{2665}',
        4 => '\u{2666}',
        5 => '\u{2663}',
        6 => '\u{2660}',
        7 => '\u{2022}',
        8 => '\u{25D8}',
        9 => '\u{25CB}',
        10 => '\u{25D9}',
        11 => '\u{2642}',
        12 => '\u{2640}',
        13 => '\u{266A}',
        14 => '\u{266B}',
        15 => '\u{263C}',
        16 => '\u{25BA}',
        17 => '\u{25C4}',
        18 => '\u{2195}',
        19 => '\u{203C}',
        20 => '\u{00B6}',
        21 => '\u{00A7}',
        22 => '\u{25AC}',
        23 => '\u{21A8}',
        24 => '\u{2191}',
        25 => '\u{2193}',
        26 => '\u{2192}',
        27 => '\u{2190}',
        28 => '\u{221F}',
        29 => '\u{2194}',
        30 => '\u{25B2}',
        31 => '\u{25BC}',
        127 => '\u{2302}',
        128 => '\u{00C7}',
        129 => '\u{00FC}',
        130 => '\u{00E9}',
        131 => '\u{00E2}',
        132 => '\u{00E4}',
        133 => '\u{00E0}',
        134 => '\u{00E5}',
        135 => '\u{00E7}',
        136 => '\u{00EA}',
        137 => '\u{00EB}',
        138 => '\u{00E8}',
        139 => '\u{00EF}',
        140 => '\u{00EE}',
        141 => '\u{00EC}',
        142 => '\u{00C4}',
        143 => '\u{00C5}',
        144 => '\u{00C9}',
        145 => '\u{00E6}',
        146 => '\u{00C6}',
        147 => '\u{00F4}',
        148 => '\u{00F6}',
        149 => '\u{00F2}',
        150 => '\u{00FB}',
        151 => '\u{00F9}',
        152 => '\u{00FF}',
        153 => '\u{00D6}',
        154 => '\u{00DC}',
        155 => '\u{00A2}',
        156 => '\u{00A3}',
        157 => '\u{00A5}',
        158 => '\u{20A7}',
        159 => '\u{0192}',
        160 => '\u{00E1}',
        161 => '\u{00ED}',
        162 => '\u{00F3}',
        163 => '\u{00FA}',
        164 => '\u{00F1}',
        165 => '\u{00D1}',
        166 => '\u{00AA}',
        167 => '\u{00BA}',
        168 => '\u{00BF}',
        169 => '\u{2310}',
        170 => '\u{00AC}',
        171 => '\u{00BD}',
        172 => '\u{00BC}',
        173 => '\u{00A1}',
        174 => '\u{00AB}',
        175 => '\u{00BB}',
        176 => '\u{2591}',
        177 => '\u{2592}',
        178 => '\u{2593}',
        179 => '\u{2502}',
        180 => '\u{2524}',
        181 => '\u{2561}',
        182 => '\u{2562}',
        183 => '\u{2556}',
        184 => '\u{2555}',
        185 => '\u{2563}',
        186 => '\u{2551}',
        187 => '\u{2557}',
        188 => '\u{255D}',
        189 => '\u{255C}',
        190 => '\u{255B}',
        191 => '\u{2510}',
        192 => '\u{2514}',
        193 => '\u{2534}',
        194 => '\u{252C}',
        195 => '\u{251C}',
        196 => '\u{2500}',
        197 => '\u{253C}',
        198 => '\u{255E}',
        199 => '\u{255F}',
        200 => '\u{255A}',
        201 => '\u{2554}',
        202 => '\u{2569}',
        203 => '\u{2566}',
        204 => '\u{2560}',
        205 => '\u{2550}',
        206 => '\u{256C}',
        207 => '\u{2567}',
        208 => '\u{2568}',
        209 => '\u{2564}',
        210 => '\u{2565}',
        211 => '\u{2559}',
        212 => '\u{2558}',
        213 => '\u{2552}',
        214 => '\u{2553}',
        215 => '\u{256B}',
        216 => '\u{256A}',
        217 => '\u{2518}',
        218 => '\u{250C}',
        219 => '\u{2588}',
        220 => '\u{2584}',
        221 => '\u{258C}',
        222 => '\u{2590}',
        223 => '\u{2580}',
        224 => '\u{03B1}',
        225 => '\u{00DF}',
        226 => '\u{0393}',
        227 => '\u{03C0}',
        228 => '\u{03A3}',
        229 => '\u{03C3}',
        230 => '\u{00B5}',
        231 => '\u{03C4}',
        232 => '\u{03A6}',
        233 => '\u{0398}',
        234 => '\u{03A9}',
        235 => '\u{03B4}',
        236 => '\u{221E}',
        237 => '\u{03C6}',
        238 => '\u{03B5}',
        239 => '\u{2229}',
        240 => '\u{2261}',
        241 => '\u{00B1}',
        242 => '\u{2265}',
        243 => '\u{2264}',
        244 => '\u{2320}',
        245 => '\u{2321}',
        246 => '\u{00F7}',
        247 => '\u{2248}',
        248 => '\u{00B0}',
        249 => '\u{2219}',
        250 => '\u{00B7}',
        251 => '\u{221A}',
        252 => '\u{207F}',
        253 => '\u{00B2}',
        254 => '\u{25A0}',
        255 => '\u{00A0}',
        _ => code as char,
    }
}

/// Each code is found again from its code point.
pub proof fn lemma_cp437_round_trip(code: u8)
    ensures
        cp437_code(cp437(code)) == Some(code),
{
    reveal(cp437);
    reveal(cp437_code);
}

/// No two codes stand for the same code point.
pub proof fn lemma_cp437_injective(a: u8, b: u8)
    requires
        cp437(a) == cp437(b),
    ensures
        a == b,
{
    lemma_cp437_round_trip(a);
    lemma_cp437_round_trip(b);
}

} // verus!
