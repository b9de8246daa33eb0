use seff::load::{compile_sheet, infer_first, CompiledFont, GlyphOrder};
use seff::sheet::{Rgb, Sheet, SheetError};
use seff::{Canvas, Glyph};

const RED: Rgb = Rgb { r: 0xFF, g: 0, b: 0 };
const BLUE: Rgb = Rgb { r: 0, g: 0, b: 0xFF };
const BLACK: Rgb = Rgb { r: 0, g: 0, b: 0 };
const WHITE: Rgb = Rgb { r: 0xFF, g: 0xFF, b: 0xFF };

// 'R' is the marker colour, 'B' the baseline colour, '#' ink; blanks in the
// art are left out.
fn sheet(art: &[&str]) -> Sheet {
    let mut pixels = Vec::new();
    let mut width = 0;
    for line in art {
        let row: Vec<char> = line.chars().filter(|c| *c != ' ').collect();
        width = row.len();
        for c in row {
            pixels.push(match c {
                'R' => RED,
                'B' => BLUE,
                '#' => BLACK,
                _ => WHITE,
            });
        }
    }
    Sheet::new(width, art.len(), pixels).unwrap()
}

fn two_glyphs() -> Sheet {
    sheet(&[
        "#.#. ....",
        ".#.. ##..",
        "BBBR BBBR",
        ".... ....",
        "RRRR RRRR",
    ])
}

fn four_glyphs() -> Sheet {
    sheet(&[
        "#.#. .... .#.. #.#.",
        ".#.. ##.. ##.. .#..",
        "BBBR BBBR BBBR BBBR",
        "RRRR RRRR RRRR RRRR",
    ])
}

fn compile(s: &Sheet, first: u8) -> CompiledFont {
    compile_sheet(s, GlyphOrder::Iso8859_1, Some(first)).unwrap()
}

fn error(s: &Sheet, first: Option<u8>) -> SheetError {
    compile_sheet(s, GlyphOrder::Iso8859_1, first).unwrap_err()
}

#[test]
fn sheet_needs_one_pixel_for_each_position() {
    assert!(Sheet::new(2, 2, vec![WHITE; 3]).is_none());
    assert!(Sheet::new(usize::MAX, 2, vec![WHITE; 2]).is_none());
    let s = Sheet::new(2, 1, vec![RED, BLUE]).unwrap();
    assert_eq!((s.width(), s.height()), (2, 1));
    assert_eq!(s.pixel(1, 0), BLUE);
    assert!(RED.is_red() && BLUE.is_blue() && BLACK.is_black());
    assert!(!WHITE.is_red() && !WHITE.is_blue() && !WHITE.is_black());
    assert!(!Rgb { r: 0xFE, g: 0, b: 0 }.is_red());
}

#[test]
fn compiles_a_band() {
    let font = compile(&two_glyphs(), b'a');
    assert_eq!((font.ascent, font.descent, font.line_spacing), (3, 1, 4));
    assert_eq!(font.first, b'a');
    assert_eq!(font.bitmaps, vec![0xA0, 0x40, 0xC0]);
    assert_eq!(
        font.glyphs,
        vec![
            Glyph { row_bytes: 1, image_offset: 0, image_height: 2, origin: (0, 0), advance: 3 },
            Glyph { row_bytes: 1, image_offset: 2, image_height: 1, origin: (0, 1), advance: 3 },
        ]
    );
    assert!(font.sorted_glyphs.is_empty());
    assert!(font.kerning.is_empty());
    let f = font.font();
    assert!(f.is_wf());
    assert_eq!(f.replacement, 0);
    assert_eq!(f.width("ab"), 6);
    assert_eq!(f.get_glyph_or_replacement('b').image_offset, 2);
    assert_eq!(f.get_glyph_or_replacement('c').image_offset, 0);
}

#[test]
fn metrics_add_up() {
    for s in [two_glyphs(), four_glyphs(), two_bands()] {
        let font = compile(&s, 0);
        assert_eq!(font.line_spacing, font.ascent + font.descent);
    }
}

#[test]
fn images_are_shared() {
    let font = compile(&four_glyphs(), 0);
    // The third image is the end of the first and the second put together;
    // the fourth is the first again.
    assert_eq!(font.bitmaps, vec![0xA0, 0x40, 0xC0]);
    let places: Vec<(u16, u8)> = font.glyphs.iter().map(|g| (g.image_offset, g.image_height)).collect();
    assert_eq!(places, vec![(0, 2), (2, 1), (1, 2), (0, 2)]);
    assert_eq!(font.glyphs[0], font.glyphs[3]);
    assert_eq!((font.ascent, font.descent), (3, 0));
}

#[test]
fn compiling_twice_gives_the_same() {
    let a = compile(&four_glyphs(), 7);
    let b = compile(&four_glyphs(), 7);
    assert_eq!(a.bitmaps, b.bitmaps);
    assert_eq!(a.glyphs, b.glyphs);
    assert_eq!(a.sorted_glyphs, b.sorted_glyphs);
    assert_eq!((a.ascent, a.descent, a.line_spacing, a.first), (b.ascent, b.descent, b.line_spacing, b.first));
    let c = compile_sheet(&four_glyphs(), GlyphOrder::Cp437, Some(7)).unwrap();
    let d = compile_sheet(&four_glyphs(), GlyphOrder::Cp437, Some(7)).unwrap();
    assert_eq!(c.sorted_glyphs, d.sorted_glyphs);
    assert_eq!(c.bitmaps, a.bitmaps);
}

fn two_bands() -> Sheet {
    sheet(&[
        "#.",
        "BR",
        "RR",
        "BR",
        "#.",
        "..",
        "RR",
        "#.",
    ])
}

#[test]
fn bands_are_brought_to_common_metrics() {
    let font = compile(&two_bands(), 0);
    // Ascents 2 and 1, descents 0 and 2. The rows under the last marker
    // row belong to no band.
    assert_eq!((font.ascent, font.descent, font.line_spacing), (2, 2, 4));
    assert_eq!(font.bitmaps, vec![0x80]);
    assert_eq!(
        font.glyphs,
        vec![
            Glyph { row_bytes: 1, image_offset: 0, image_height: 1, origin: (0, 0), advance: 1 },
            Glyph { row_bytes: 1, image_offset: 0, image_height: 1, origin: (0, 2), advance: 1 },
        ]
    );
}

#[test]
fn scanned_bands_keep_their_own_metrics() {
    let bands = seff::scan::scan_sheet(&two_bands()).unwrap();
    assert_eq!(bands.len(), 2);
    assert_eq!((bands[0].ascent, bands[0].descent), (2, 0));
    assert_eq!((bands[1].ascent, bands[1].descent), (1, 2));
    assert_eq!(bands[0].glyphs[0].rows, vec![1u64 << 63, 0]);
    assert_eq!(bands[1].glyphs[0].rows, vec![0, 1u64 << 63, 0]);
    let normal = seff::normalize::normalize_bands(&bands);
    assert_eq!((normal.ascent, normal.descent), (2, 2));
    assert_eq!(normal.glyphs.len(), 2);
    for g in &normal.glyphs {
        assert_eq!(g.rows.len(), normal.ascent + normal.descent);
    }
    assert_eq!(normal.glyphs[0].rows, vec![1u64 << 63, 0, 0, 0]);
    assert_eq!(normal.glyphs[1].rows, vec![0, 0, 1u64 << 63, 0]);
}

#[test]
fn trimming_finds_the_tightest_box() {
    let rows = vec![0u64, 0x0600_0000_0000_0000, 0x0100_0000_0000_0000, 0];
    let t = seff::trim::measure(&rows).unwrap();
    assert_eq!((t.top, t.height, t.left, t.row_bytes), (1, 2, 5, 1));
    assert_eq!(seff::trim::pack_rows(&rows, &t), vec![0xC0, 0x20]);
    assert!(seff::trim::measure(&vec![0u64, 0]).is_none());
    assert!(seff::trim::measure(&Vec::new()).is_none());
    // Nine columns of ink take two bytes a row; all 64 take eight.
    let wide = vec![0x0FF8_0000_0000_0000u64];
    let t = seff::trim::measure(&wide).unwrap();
    assert_eq!((t.left, t.row_bytes), (4, 2));
    assert_eq!(seff::trim::pack_rows(&wide, &t), vec![0xFF, 0x80]);
    let full = vec![0x8000_0000_0000_0001u64, 0x0123_4567_89AB_CDEF];
    let t = seff::trim::measure(&full).unwrap();
    assert_eq!((t.top, t.height, t.left, t.row_bytes), (0, 2, 0, 8));
    assert_eq!(
        seff::trim::pack_rows(&full, &t),
        vec![0x80, 0, 0, 0, 0, 0, 0, 1, 0x01, 0x23, 0x45, 0x67, 0x89, 0xAB, 0xCD, 0xEF]
    );
}

#[test]
fn a_cell_without_ink_is_blank() {
    let s = sheet(&[
        "#.#. .... .#..",
        "BBBR BBBR BBBR",
        "RRRR RRRR RRRR",
    ]);
    let font = compile_sheet(&s, GlyphOrder::Iso8859_1, None).unwrap();
    assert_eq!(
        font.glyphs[1],
        Glyph { row_bytes: 0, image_offset: 0, image_height: 0, origin: (0, 0), advance: 3 }
    );
    // One blank at index 1 is the space.
    assert_eq!(font.first, 0x1F);
    assert_eq!(font.font().width(" "), 3);
    assert_eq!(seff::load::blank_indices(&font.glyphs), vec![1]);
}

#[test]
fn marks_side_by_side_close_no_cell() {
    let s = sheet(&[
        "..#.....",
        "BRRBRRR.",
        "RRRRRRRR",
    ]);
    // Cells: column 0; column 3. Column 7 is closed by no mark.
    let font = compile(&s, 0);
    let advances: Vec<u8> = font.glyphs.iter().map(|g| g.advance).collect();
    assert_eq!(advances, vec![1, 1]);
    assert!(!font.glyphs[0].has_image());
    assert!(!font.glyphs[1].has_image());
}

#[test]
fn first_code_point_from_blanks() {
    assert_eq!(infer_first(&vec![0, 32]), Ok(0));
    assert_eq!(infer_first(&vec![5]), Ok(0x1B));
    assert_eq!(infer_first(&vec![0]), Ok(32));
    assert_eq!(infer_first(&vec![32]), Ok(0));
    assert_eq!(infer_first(&vec![3, 226]), Ok(32));
    assert_eq!(infer_first(&vec![0, 223]), Ok(32));
    assert_eq!(infer_first(&vec![0, 32, 255]), Ok(0));
    assert_eq!(infer_first(&vec![0, 95]), Ok(32));
    assert_eq!(infer_first(&vec![]), Err(SheetError::AmbiguousOffset));
    assert_eq!(infer_first(&vec![1, 33]), Err(SheetError::AmbiguousOffset));
    assert_eq!(infer_first(&vec![0, 32, 254]), Err(SheetError::AmbiguousOffset));
    assert_eq!(infer_first(&vec![0, 32, 255, 256]), Err(SheetError::AmbiguousOffset));
    assert_eq!(infer_first(&vec![33]), Err(SheetError::Overflow));
    assert_eq!(infer_first(&vec![300]), Err(SheetError::Overflow));
}

#[test]
fn format_errors() {
    assert_eq!(error(&sheet(&["..", "RR"]), Some(0)), SheetError::MissingBaseline);
    assert_eq!(error(&sheet(&["BR", "RR", "RR"]), Some(0)), SheetError::MissingBaseline);
    assert_eq!(error(&sheet(&["B.", ".B", "RR"]), Some(0)), SheetError::AmbiguousBaseline);
    assert_eq!(error(&sheet(&["..", ".."]), Some(0)), SheetError::NoBands);
    assert_eq!(error(&sheet(&[".R", ".R"]), Some(0)), SheetError::NoBands);
    assert_eq!(error(&Sheet::new(0, 0, Vec::new()).unwrap(), Some(0)), SheetError::NoBands);
    assert_eq!(error(&Sheet::new(0, 3, Vec::new()).unwrap(), Some(0)), SheetError::NoBands);
    assert_eq!(error(&two_glyphs(), None), SheetError::AmbiguousOffset);
    // The first band with an error decides.
    assert_eq!(
        error(&sheet(&["B.", ".B", "RR", "..", "RR"]), Some(0)),
        SheetError::AmbiguousBaseline
    );
    assert_eq!(
        error(&sheet(&["..", "RR", "B.", ".B", "RR"]), Some(0)),
        SheetError::MissingBaseline
    );
}

#[test]
fn error_descriptions() {
    assert_eq!(SheetError::MissingBaseline.describe(), "missing baseline");
    assert_eq!(SheetError::AmbiguousBaseline.describe(), "ambiguous baseline");
    assert!(SheetError::AmbiguousOffset.describe().contains("ambiguous blank pattern"));
    assert_ne!(SheetError::NoBands.describe(), SheetError::Overflow.describe());
    assert_ne!(SheetError::OversizedCell.describe(), "");
}

fn wide(cell: usize) -> Sheet {
    let width = cell + 1;
    let mut pixels = vec![WHITE; width * 3];
    pixels[0] = BLACK;
    pixels[cell - 1] = BLACK;
    pixels[width] = BLUE;
    pixels[width + cell] = RED;
    for x in 0..width {
        pixels[2 * width + x] = RED;
    }
    Sheet::new(width, 3, pixels).unwrap()
}

#[test]
fn cells_are_at_most_64_wide() {
    let font = compile(&wide(64), 0);
    assert_eq!(font.glyphs.len(), 1);
    assert_eq!((font.glyphs[0].advance, font.glyphs[0].row_bytes), (64, 8));
    assert_eq!(font.bitmaps, vec![0x80, 0, 0, 0, 0, 0, 0, 1]);
    assert_eq!(error(&wide(65), Some(0)), SheetError::OversizedCell);
    assert_eq!(error(&wide(100), Some(0)), SheetError::OversizedCell);
}

// One band of `rows` rows over the marker row, with one cell of one column
// that has ink in the rows given; the baseline is the last row of the band.
fn tall(rows: usize, ink: &[usize]) -> Sheet {
    let mut pixels = vec![WHITE; 2 * (rows + 1)];
    for y in ink {
        pixels[2 * y] = BLACK;
    }
    pixels[2 * (rows - 1)] = BLUE;
    pixels[2 * (rows - 1) + 1] = RED;
    pixels[2 * rows] = RED;
    pixels[2 * rows + 1] = RED;
    Sheet::new(2, rows + 1, pixels).unwrap()
}

#[test]
fn measures_must_fit_their_fields() {
    let font = compile(&tall(255, &[0, 253]), 0);
    assert_eq!((font.ascent, font.descent, font.line_spacing), (255, 0, 255));
    assert_eq!(font.glyphs[0].image_height, 254);
    // Line spacing beyond 255.
    assert_eq!(error(&tall(256, &[0]), Some(0)), SheetError::Overflow);
    // An image higher than 255 rows.
    assert_eq!(error(&tall(300, &[0, 290]), Some(0)), SheetError::Overflow);
    // An image more than 255 rows down.
    assert_eq!(error(&tall(300, &[280]), Some(0)), SheetError::Overflow);
    // The pattern of blanks is looked at before the metrics.
    assert_eq!(error(&tall(300, &[0]), None), SheetError::AmbiguousOffset);
    assert_eq!(error(&tall(300, &[]), None), SheetError::Overflow);
}

// `count` cells of 64 columns and 254 rows of ink, no two alike.
fn heavy(count: usize) -> Sheet {
    let rows = 255;
    let width = count * 65;
    let mut pixels = vec![WHITE; width * (rows + 1)];
    let mut seed: u64 = 12345;
    for k in 0..count {
        for y in 0..rows - 1 {
            for x in 0..64 {
                seed = seed.wrapping_mul(6364136223846793005).wrapping_add(1442695040888963407);
                let edge = x == 0 || x == 63 || y == 0 || y == rows - 2;
                if edge || (seed >> 33) & 1 == 1 {
                    pixels[y * width + k * 65 + x] = BLACK;
                }
            }
        }
        pixels[(rows - 1) * width + k * 65] = BLUE;
        pixels[(rows - 1) * width + k * 65 + 64] = RED;
    }
    for x in 0..width {
        pixels[rows * width + x] = RED;
    }
    Sheet::new(width, rows + 1, pixels).unwrap()
}

#[test]
fn the_arena_ends_at_16_bits() {
    let font = compile(&heavy(33), 0);
    assert_eq!(font.glyphs.len(), 33);
    assert_eq!(font.glyphs[32].image_offset as usize, 32 * 8 * 254);
    assert_eq!(font.bitmaps.len(), 33 * 8 * 254);
    assert_eq!(error(&heavy(34), Some(0)), SheetError::Overflow);
}

fn ink_of(s: &Sheet, left: usize, top: usize, width: usize, height: usize) -> Vec<String> {
    let mut rows = Vec::new();
    for y in 0..height {
        let mut row = String::new();
        for x in 0..width {
            row.push(if s.pixel(left + x, top + y).is_black() { '#' } else { '.' });
        }
        rows.push(row);
    }
    rows
}

fn drawn(font: &CompiledFont, c: char, width: usize, height: usize) -> Vec<String> {
    let mut canvas = Canvas::new(width, height, 0).unwrap();
    let f = font.font();
    assert!(f.is_wf());
    f.render(&c.to_string(), 0, 0, &mut canvas, 1);
    let mut rows = Vec::new();
    for y in 0..height {
        let mut row = String::new();
        for x in 0..width {
            row.push(if canvas.get_pixel(x, y) == Some(1) { '#' } else { '.' });
        }
        rows.push(row);
    }
    rows
}

#[test]
fn glyphs_reproduce_their_cells() {
    let s = four_glyphs();
    let font = compile(&s, b'a');
    for (i, c) in ['a', 'b', 'c', 'd'].into_iter().enumerate() {
        assert_eq!(drawn(&font, c, 3, 3), ink_of(&s, 4 * i, 0, 3, 3));
    }
    let s = two_glyphs();
    let font = compile(&s, b'a');
    assert_eq!(drawn(&font, 'a', 3, 4), vec!["#.#", ".#.", "...", "..."]);
    assert_eq!(drawn(&font, 'b', 3, 4), ink_of(&s, 4, 0, 3, 4));
    let s = heavy(2);
    let font = compile(&s, b'a');
    assert_eq!(drawn(&font, 'a', 64, 255), ink_of(&s, 0, 0, 64, 255));
    assert_eq!(drawn(&font, 'b', 64, 255), ink_of(&s, 65, 0, 64, 255));
}

#[test]
fn padded_glyphs_reproduce_their_cells() {
    let s = two_bands();
    let font = compile(&s, b'a');
    // The first band has ascent 2, as the font; the second has ascent 1 and
    // so one empty row above its cell.
    assert_eq!(drawn(&font, 'a', 1, 4), vec!["#", ".", ".", "."]);
    assert_eq!(drawn(&font, 'b', 1, 4), vec![".", ".", "#", "."]);
    assert_eq!(ink_of(&s, 0, 3, 1, 3), vec![".", "#", "."]);
}

#[test]
fn code_page_437_is_sorted_by_code_point() {
    let font = compile_sheet(&four_glyphs(), GlyphOrder::Cp437, Some(20)).unwrap();
    let g = font.glyphs.clone();
    assert_eq!(
        font.sorted_glyphs,
        vec![('\u{a7}', g[1]), ('\u{b6}', g[0]), ('\u{21a8}', g[3]), ('\u{25ac}', g[2])]
    );
    let f = font.font();
    assert!(f.is_wf());
    assert_eq!(f.glyph_storage.get('\u{25ac}'), Some(&g[2]));
    assert_eq!(f.glyph_storage.get('\u{a7}'), Some(&g[1]));
    assert!(f.glyph_storage.get('A').is_none());
    // The replacement glyph is the first of the table.
    assert_eq!(*f.get_glyph_or_replacement('A'), g[1]);
    let low = compile_sheet(&four_glyphs(), GlyphOrder::Cp437, Some(0)).unwrap();
    let points: Vec<char> = low.sorted_glyphs.iter().map(|p| p.0).collect();
    assert_eq!(points, vec!['\0', '\u{263a}', '\u{263b}', '\u{2665}']);
    let ascii = compile_sheet(&four_glyphs(), GlyphOrder::Cp437, Some(b'A')).unwrap();
    assert_eq!(ascii.font().glyph_storage.get('C'), Some(&g[2]));
}

#[test]
fn code_page_437_ends_at_code_255() {
    let font = compile_sheet(&four_glyphs(), GlyphOrder::Cp437, Some(254)).unwrap();
    let g = font.glyphs.clone();
    assert_eq!(g.len(), 4);
    assert_eq!(font.sorted_glyphs, vec![('\u{a0}', g[1]), ('\u{25a0}', g[0])]);
    let whole = seff::load::sparse_glyphs(&vec![g[0]; 300], 0);
    assert_eq!(whole.len(), 256);
    for pair in whole.windows(2) {
        assert!(pair[0].0 < pair[1].0);
    }
}

#[test]
fn code_page_437_table() {
    assert_eq!(seff::cp437::cp437_char(0), '\0');
    assert_eq!(seff::cp437::cp437_char(1), '\u{263a}');
    assert_eq!(seff::cp437::cp437_char(31), '\u{25bc}');
    assert_eq!(seff::cp437::cp437_char(32), ' ');
    assert_eq!(seff::cp437::cp437_char(126), '~');
    assert_eq!(seff::cp437::cp437_char(127), '\u{2302}');
    assert_eq!(seff::cp437::cp437_char(128), '\u{c7}');
    assert_eq!(seff::cp437::cp437_char(225), '\u{df}');
    assert_eq!(seff::cp437::cp437_char(255), '\u{a0}');
    let mut seen = std::collections::BTreeSet::new();
    for code in 0..=255u8 {
        assert!(seen.insert(seff::cp437::cp437_char(code)));
    }
}
