//! Writing a font out as the text of a Rust module that holds it in
//! statics.

use vstd::prelude::*;
use crate::arena::images_fit;
use crate::font::Font;
use crate::glyph::{bit_at, Glyph, GlyphStorage};
use crate::kerning::KerningEntry;
use crate::text::{
    decimal, hex, hex_byte, label_char, pair_text, push_decimal, push_hex, push_hex_byte,
    push_pair, push_signed, push_str, signed,
};

verus! {

/// The glyphs of a font's storage, in storage order.
pub open spec fn stored(storage: GlyphStorage) -> Seq<Glyph> {
    Seq::new(storage.count(), |i: int| storage.at(i))
}

/// `acc` and the head of the module: the font's own static.
pub open spec fn with_head(acc: Seq<char>, font: Font) -> Seq<char> {
    let top = acc + "use seff::*;\npub static FONT: Font = Font {\n    ascent: "@ + decimal(
        font.ascent as nat,
    ) + ",\n    descent: "@ + decimal(font.descent as nat) + ",\n    line_spacing: "@ + decimal(
        font.line_spacing as nat,
    ) + ",\n    glyph_storage: "@;
    let mid = match font.glyph_storage {
        GlyphStorage::Dense { first, glyphs } => top + "GlyphStorage::Dense {\n        first: "@
            + decimal(first as nat) + ",\n        glyphs: &GLYPHS,\n    },\n"@,
        GlyphStorage::Sparse { sorted_glyphs } => top
            + "GlyphStorage::Sparse {\n        sorted_glyphs: &GLYPHS,\n    },\n"@,
    };
    mid + "    replacement: "@ + decimal(font.replacement as nat)
        + ",\n    bitmaps: &BITMAPS,\n    kerning: KerningTable { entries: &KERNING_ENTRIES },\n};\n"@
}

/// `acc` and the first `n` pixels of an image row that starts at arena
/// byte `base`: `*` for a set pixel, a blank for a clear one.
pub open spec fn with_pixels(acc: Seq<char>, arena: Seq<u8>, base: int, n: int) -> Seq<char>
    decreases n,
{
    if n <= 0 {
        acc
    } else {
        with_pixels(acc, arena, base, n - 1).push(
            if bit_at(arena[base + (n - 1) / 8], ((n - 1) % 8) as u8) {
                '*'
            } else {
                ' '
            },
        )
    }
}

/// `acc` and the picture of the first `n` rows of a glyph's image, one
/// comment line each.
pub open spec fn with_picture(acc: Seq<char>, g: Glyph, arena: Seq<u8>, n: int) -> Seq<char>
    decreases n,
{
    if n <= 0 {
        acc
    } else {
        with_pixels(
            with_picture(acc, g, arena, n - 1) + "    // |"@,
            arena,
            g.image_offset + (n - 1) * g.row_bytes,
            8 * g.row_bytes,
        ) + "|\n"@
    }
}

/// `acc` and the fields of a glyph.
pub open spec fn with_fields(acc: Seq<char>, g: Glyph) -> Seq<char> {
    acc + "Glyph {\n        row_bytes: "@ + decimal(g.row_bytes as nat) + ",\n        image_offset: "@
        + decimal(g.image_offset as nat) + ",\n        image_height: "@ + decimal(
        g.image_height as nat,
    ) + ",\n        origin: "@ + pair_text(g.origin.0, g.origin.1) + ",\n        advance: "@
        + decimal(g.advance as nat) + ",\n    }"@
}

/// `acc` and the entry of glyph `i`: a comment with its index and
/// character, its picture, and its fields. A sparse table gives each glyph
/// together with its code point.
pub open spec fn with_glyph(acc: Seq<char>, font: Font, i: int) -> Seq<char> {
    let g = font.glyph_storage.at(i);
    let named = (acc + "    // index "@ + decimal(i as nat) + ": '"@).push(
        match font.glyph_storage {
            GlyphStorage::Dense { first, glyphs } => label_char(first + i),
            GlyphStorage::Sparse { sorted_glyphs } => sorted_glyphs@[i].0,
        },
    ) + "'\n"@;
    let drawn = with_picture(named, g, font.bitmaps@, g.image_height as int);
    match font.glyph_storage {
        GlyphStorage::Dense { first, glyphs } => with_fields(drawn + "    "@, g) + ",\n"@,
        GlyphStorage::Sparse { sorted_glyphs } => with_fields(
            drawn + "    ('\\u{"@ + hex(sorted_glyphs@[i].0 as u32 as nat) + "}', "@,
            g,
        ) + "),\n"@,
    }
}

/// `acc` and the entries of the first `n` glyphs.
pub open spec fn with_glyphs(acc: Seq<char>, font: Font, n: int) -> Seq<char>
    decreases n,
{
    if n <= 0 {
        acc
    } else {
        with_glyph(with_glyphs(acc, font, n - 1), font, n - 1)
    }
}

/// `acc` and the static of the glyph table.
pub open spec fn with_glyph_table(acc: Seq<char>, font: Font) -> Seq<char> {
    let open = match font.glyph_storage {
        GlyphStorage::Dense { first, glyphs } => acc + "pub static GLYPHS: [Glyph; "@,
        GlyphStorage::Sparse { sorted_glyphs } => acc + "pub static GLYPHS: [(char, Glyph); "@,
    };
    with_glyphs(
        open + decimal(font.glyph_storage.count()) + "] = [\n"@,
        font,
        font.glyph_storage.count() as int,
    ) + "];\n"@
}

/// `acc` and the first `n` kerning entries.
pub open spec fn with_entries(acc: Seq<char>, entries: Seq<KerningEntry>, n: int) -> Seq<char>
    decreases n,
{
    if n <= 0 {
        acc
    } else {
        with_entries(acc, entries, n - 1) + "    KerningEntry {\n        pair: "@ + pair_text(
            entries[n - 1].pair.0,
            entries[n - 1].pair.1,
        ) + ",\n        adjust: "@ + signed(entries[n - 1].adjust as int) + ",\n    },\n"@
    }
}

/// `acc` and the static of the kerning table.
pub open spec fn with_kerning(acc: Seq<char>, entries: Seq<KerningEntry>) -> Seq<char> {
    with_entries(
        acc + "pub static KERNING_ENTRIES: [KerningEntry; "@ + decimal(entries.len()) + "] = [\n"@,
        entries,
        entries.len() as int,
    ) + "];\n"@
}

/// `acc` and the first `n` bytes of the arena, eight to a line.
pub open spec fn with_bytes(acc: Seq<char>, arena: Seq<u8>, n: int) -> Seq<char>
    decreases n,
{
    if n <= 0 {
        acc
    } else {
        let before = with_bytes(acc, arena, n - 1);
        let led = if (n - 1) % 8 == 0 {
            before + "    0x"@
        } else {
            before + " 0x"@
        };
        let said = led + hex_byte(arena[n - 1]) + ","@;
        if (n - 1) % 8 == 7 || n == arena.len() {
            said + "\n"@
        } else {
            said
        }
    }
}

/// `acc` and the static of the bitmap arena.
pub open spec fn with_arena(acc: Seq<char>, arena: Seq<u8>) -> Seq<char> {
    with_bytes(
        acc + "pub static BITMAPS: [u8; "@ + decimal(arena.len()) + "] = [\n"@,
        arena,
        arena.len() as int,
    ) + "];\n"@
}

/// The text of the module that holds a font: the font's static, then the
/// glyph table with a picture of each glyph in comments, the kerning
/// table, and the arena.
pub open spec fn module_text(font: Font) -> Seq<char> {
    with_arena(
        with_kerning(with_glyph_table(with_head(Seq::empty(), font), font), font.kerning.entries@),
        font.bitmaps@,
    )
}

fn push_head(out: &mut String, font: &Font)
    ensures
        final(out)@ == with_head(old(out)@, *font),
{
    push_str(out, "use seff::*;\npub static FONT: Font = Font {\n    ascent: ");
    push_decimal(out, font.ascent as usize);
    push_str(out, ",\n    descent: ");
    push_decimal(out, font.descent as usize);
    push_str(out, ",\n    line_spacing: ");
    push_decimal(out, font.line_spacing as usize);
    push_str(out, ",\n    glyph_storage: ");
    match font.glyph_storage {
        GlyphStorage::Dense { first, glyphs } => {
            push_str(out, "GlyphStorage::Dense {\n        first: ");
            push_decimal(out, first as usize);
            push_str(out, ",\n        glyphs: &GLYPHS,\n    },\n");
        },
        GlyphStorage::Sparse { sorted_glyphs } => {
            push_str(out, "GlyphStorage::Sparse {\n        sorted_glyphs: &GLYPHS,\n    },\n");
        },
    }
    push_str(out, "    replacement: ");
    push_decimal(out, font.replacement as usize);
    push_str(
        out,
        ",\n    bitmaps: &BITMAPS,\n    kerning: KerningTable { entries: &KERNING_ENTRIES },\n};\n",
    );
}

fn push_picture(out: &mut String, g: &Glyph, arena: &[u8])
    requires
        g.wf(arena@.len()),
    ensures
        final(out)@ == with_picture(old(out)@, *g, arena@, g.image_height as int),
{
    let height = g.image_height as usize;
    let row_bytes = g.row_bytes as usize;
    let width = 8 * row_bytes;
    let len = arena.len();
    let mut r: usize = 0;
    while r < height
        invariant
            g.wf(arena@.len()),
            len == arena@.len(),
            height == g.image_height,
            row_bytes == g.row_bytes,
            width == 8 * row_bytes,
            r <= height,
            out@ == with_picture(old(out)@, *g, arena@, r as int),
        decreases height - r,
    {
        assert(r * row_bytes + row_bytes <= g.image_len()) by (nonlinear_arith)
            requires
                r < g.image_height,
                row_bytes == g.row_bytes,
                g.image_len() == (g.row_bytes as nat) * (g.image_height as nat),
        ;
        push_str(out, "    // |");
        let base = g.image_offset as usize + r * row_bytes;
        let ghost start = out@;
        let mut c: usize = 0;
        while c < width
            invariant
                len == arena@.len(),
                width == 8 * row_bytes,
                base + row_bytes <= len,
                c <= width,
                out@ == with_pixels(start, arena@, base as int, c as int),
            decreases width - c,
        {
            let byte = arena[base + c / 8];
            let k: u8 = (c % 8) as u8;
            if byte & (0x80u8 >> k) != 0 {
                out.push('*');
            } else {
                out.push(' ');
            }
            c += 1;
        }
        push_str(out, "|\n");
        r += 1;
    }
}

fn push_fields(out: &mut String, g: &Glyph)
    ensures
        final(out)@ == with_fields(old(out)@, *g),
{
    push_str(out, "Glyph {\n        row_bytes: ");
    push_decimal(out, g.row_bytes as usize);
    push_str(out, ",\n        image_offset: ");
    push_decimal(out, g.image_offset as usize);
    push_str(out, ",\n        image_height: ");
    push_decimal(out, g.image_height as usize);
    push_str(out, ",\n        origin: ");
    push_pair(out, g.origin.0, g.origin.1);
    push_str(out, ",\n        advance: ");
    push_decimal(out, g.advance as usize);
    push_str(out, ",\n    }");
}

fn push_glyph(out: &mut String, font: &Font, i: usize)
    requires
        i < font.glyph_storage.count(),
        font.glyph_storage.at(i as int).wf(font.bitmaps@.len()),
    ensures
        final(out)@ == with_glyph(old(out)@, *font, i as int),
{
    push_str(out, "    // index ");
    push_decimal(out, i);
    push_str(out, ": '");
    match font.glyph_storage {
        GlyphStorage::Dense { first, glyphs } => {
            let label = if i <= 0x10FFFF {
                match char::from_u32(first as u32 + i as u32) {
                    Some(c) => c,
                    None => '?',
                }
            } else {
                '?'
            };
            assert(label == label_char(first + i));
            out.push(label);
            push_str(out, "'\n");
            let g = &glyphs[i];
            push_picture(out, g, font.bitmaps);
            push_str(out, "    ");
            push_fields(out, g);
            push_str(out, ",\n");
        },
        GlyphStorage::Sparse { sorted_glyphs } => {
            let c = sorted_glyphs[i].0;
            let code = crate::text::code_of(c);
            out.push(c);
            push_str(out, "'\n");
            let g = &sorted_glyphs[i].1;
            push_picture(out, g, font.bitmaps);
            push_str(out, "    ('\\u{");
            push_hex(out, code);
            push_str(out, "}', ");
            push_fields(out, g);
            push_str(out, "),\n");
        },
    }
}

fn push_glyph_table(out: &mut String, font: &Font)
    requires
        images_fit(stored(font.glyph_storage), font.bitmaps@.len()),
    ensures
        final(out)@ == with_glyph_table(old(out)@, *font),
{
    match font.glyph_storage {
        GlyphStorage::Dense { first, glyphs } => {
            push_str(out, "pub static GLYPHS: [Glyph; ");
        },
        GlyphStorage::Sparse { sorted_glyphs } => {
            push_str(out, "pub static GLYPHS: [(char, Glyph); ");
        },
    }
    let n = font.glyph_storage.len();
    push_decimal(out, n);
    push_str(out, "] = [\n");
    let ghost start = out@;
    let mut i: usize = 0;
    while i < n
        invariant
            n == font.glyph_storage.count(),
            images_fit(stored(font.glyph_storage), font.bitmaps@.len()),
            i <= n,
            out@ == with_glyphs(start, *font, i as int),
        decreases n - i,
    {
        assert(stored(font.glyph_storage)[i as int].wf(font.bitmaps@.len()));
        push_glyph(out, font, i);
        i += 1;
    }
    push_str(out, "];\n");
}

fn push_kerning(out: &mut String, entries: &[KerningEntry])
    ensures
        final(out)@ == with_kerning(old(out)@, entries@),
{
    push_str(out, "pub static KERNING_ENTRIES: [KerningEntry; ");
    let n = entries.len();
    push_decimal(out, n);
    push_str(out, "] = [\n");
    let ghost start = out@;
    let mut i: usize = 0;
    while i < n
        invariant
            n == entries@.len(),
            i <= n,
            out@ == with_entries(start, entries@, i as int),
        decreases n - i,
    {
        let e = &entries[i];
        push_str(out, "    KerningEntry {\n        pair: ");
        push_pair(out, e.pair.0, e.pair.1);
        push_str(out, ",\n        adjust: ");
        push_signed(out, e.adjust);
        push_str(out, ",\n    },\n");
        i += 1;
    }
    push_str(out, "];\n");
}

fn push_arena(out: &mut String, arena: &[u8])
    ensures
        final(out)@ == with_arena(old(out)@, arena@),
{
    push_str(out, "pub static BITMAPS: [u8; ");
    let n = arena.len();
    push_decimal(out, n);
    push_str(out, "] = [\n");
    let ghost start = out@;
    let mut i: usize = 0;
    while i < n
        invariant
            n == arena@.len(),
            i <= n,
            out@ == with_bytes(start, arena@, i as int),
        decreases n - i,
    {
        if i % 8 == 0 {
            push_str(out, "    0x");
        } else {
            push_str(out, " 0x");
        }
        push_hex_byte(out, arena[i]);
        push_str(out, ",");
        if i % 8 == 7 || i + 1 == n {
            push_str(out, "\n");
        }
        i += 1;
    }
    push_str(out, "];\n");
}

/// Writes a font out as the text of a Rust module: a static for the font,
/// one for its glyph table, with a picture of each glyph in comments, one
/// for its kerning table and one for its bitmap arena.
pub fn generate_rust_module(font: &Font) -> (text: String)
    requires
        images_fit(stored(font.glyph_storage), font.bitmaps@.len()),
    ensures
        text@ == module_text(*font),
{
    let mut out = String::new();
    push_head(&mut out, font);
    push_glyph_table(&mut out, font);
    push_kerning(&mut out, font.kerning.entries);
    push_arena(&mut out, font.bitmaps);
    out
}

} // verus!
