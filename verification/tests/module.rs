use seff::gen::generate_rust_module;
use seff::{Font, Glyph, GlyphStorage, KerningEntry, KerningTable};

const HEAD: &str = "use seff::*;
pub static FONT: Font = Font {
    ascent: 2,
    descent: 1,
    line_spacing: 3,
";

const TAIL: &str = "    replacement: 1,
    bitmaps: &BITMAPS,
    kerning: KerningTable { entries: &KERNING_ENTRIES },
};
";

#[test]
fn module_of_a_dense_font() {
    let glyphs = [
        Glyph { row_bytes: 1, image_offset: 0, image_height: 2, origin: (0, 1), advance: 4 },
        Glyph { row_bytes: 0, image_offset: 0, image_height: 0, origin: (0, 0), advance: 3 },
    ];
    let entries = [
        KerningEntry { pair: (65, 86), adjust: -2 },
        KerningEntry { pair: (84, 111), adjust: 127 },
        KerningEntry { pair: (255, 0), adjust: -128 },
    ];
    let font = Font {
        ascent: 2,
        descent: 1,
        line_spacing: 3,
        glyph_storage: GlyphStorage::Dense { first: 65, glyphs: &glyphs },
        replacement: 1,
        bitmaps: &[0xA0, 0x40, 0x1F],
        kerning: KerningTable { entries: &entries },
    };
    let expected = format!(
        "{}{}{}{}",
        HEAD,
        "    glyph_storage: GlyphStorage::Dense {
        first: 65,
        glyphs: &GLYPHS,
    },
",
        TAIL,
        "pub static GLYPHS: [Glyph; 2] = [
    // index 0: 'A'
    // |* *     |
    // | *      |
    Glyph {
        row_bytes: 1,
        image_offset: 0,
        image_height: 2,
        origin: (0, 1),
        advance: 4,
    },
    // index 1: 'B'
    Glyph {
        row_bytes: 0,
        image_offset: 0,
        image_height: 0,
        origin: (0, 0),
        advance: 3,
    },
];
pub static KERNING_ENTRIES: [KerningEntry; 3] = [
    KerningEntry {
        pair: (65, 86),
        adjust: -2,
    },
    KerningEntry {
        pair: (84, 111),
        adjust: 127,
    },
    KerningEntry {
        pair: (255, 0),
        adjust: -128,
    },
];
pub static BITMAPS: [u8; 3] = [
    0xa0, 0x40, 0x1f,
];
"
    );
    assert_eq!(generate_rust_module(&font), expected);
}

#[test]
fn module_of_a_sparse_font() {
    let pairs = [
        ('A', Glyph { row_bytes: 0, image_offset: 0, image_height: 0, origin: (0, 0), advance: 3 }),
        ('\u{263a}', Glyph { row_bytes: 2, image_offset: 7, image_height: 1, origin: (12, 200), advance: 64 }),
    ];
    let arena: Vec<u8> = (0..9).collect();
    let font = Font {
        ascent: 2,
        descent: 1,
        line_spacing: 3,
        glyph_storage: GlyphStorage::Sparse { sorted_glyphs: &pairs },
        replacement: 1,
        bitmaps: &arena,
        kerning: KerningTable { entries: &[] },
    };
    let expected = format!(
        "{}{}{}{}",
        HEAD,
        "    glyph_storage: GlyphStorage::Sparse {
        sorted_glyphs: &GLYPHS,
    },
",
        TAIL,
        "pub static GLYPHS: [(char, Glyph); 2] = [
    // index 0: 'A'
    ('\\u{41}', Glyph {
        row_bytes: 0,
        image_offset: 0,
        image_height: 0,
        origin: (0, 0),
        advance: 3,
    }),
    // index 1: '\u{263a}'
    // |     ***    *   |
    ('\\u{263a}', Glyph {
        row_bytes: 2,
        image_offset: 7,
        image_height: 1,
        origin: (12, 200),
        advance: 64,
    }),
];
pub static KERNING_ENTRIES: [KerningEntry; 0] = [
];
pub static BITMAPS: [u8; 9] = [
    0x00, 0x01, 0x02, 0x03, 0x04, 0x05, 0x06, 0x07,
    0x08,
];
"
    );
    assert_eq!(generate_rust_module(&font), expected);
}

#[test]
fn module_of_an_empty_font() {
    let font = Font {
        ascent: 0,
        descent: 0,
        line_spacing: 0,
        glyph_storage: GlyphStorage::Dense { first: 0, glyphs: &[] },
        replacement: 0,
        bitmaps: &[],
        kerning: KerningTable { entries: &[] },
    };
    let text = generate_rust_module(&font);
    assert!(text.ends_with(
        "pub static GLYPHS: [Glyph; 0] = [\n];\npub static KERNING_ENTRIES: [KerningEntry; 0] = [\n];\npub static BITMAPS: [u8; 0] = [\n];\n"
    ));
    assert!(text.contains("    line_spacing: 0,\n"));
}

#[test]
fn module_labels_each_glyph_with_its_character() {
    let blank = Glyph { row_bytes: 0, image_offset: 0, image_height: 0, origin: (0, 0), advance: 1 };
    let glyphs = vec![blank; 3];
    let font = Font {
        ascent: 0,
        descent: 0,
        line_spacing: 0,
        glyph_storage: GlyphStorage::Dense { first: 254, glyphs: &glyphs },
        replacement: 0,
        bitmaps: &[],
        kerning: KerningTable { entries: &[] },
    };
    let text = generate_rust_module(&font);
    assert!(text.contains("    // index 0: '\u{fe}'\n"));
    assert!(text.contains("    // index 1: '\u{ff}'\n"));
    assert!(text.contains("    // index 2: '\u{100}'\n"));
}

#[test]
fn numbers_are_written_in_full() {
    let mut out = String::new();
    seff::text::push_decimal(&mut out, 0);
    out.push(' ');
    seff::text::push_decimal(&mut out, 65535);
    out.push(' ');
    seff::text::push_signed(&mut out, -128);
    out.push(' ');
    seff::text::push_hex(&mut out, 0x10ffff);
    out.push(' ');
    seff::text::push_hex_byte(&mut out, 0x0b);
    out.push(' ');
    seff::text::push_pair(&mut out, 7, 255);
    seff::text::push_str(&mut out, " \u{263a}.");
    assert_eq!(out, "0 65535 -128 10ffff 0b (7, 255) \u{263a}.");
    assert_eq!(seff::text::code_of('\u{263a}'), 0x263a);
}
