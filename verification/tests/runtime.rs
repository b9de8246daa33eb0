use seff::{
    Canvas, Font, Glyph, GlyphStorage, KerningEntry, KerningState, KerningTable, RenderTarget,
};

// A surface of three by two pixels that notes every pixel it is given.
struct Notes {
    set: Vec<(usize, usize, char)>,
    asked: usize,
}

impl RenderTarget for Notes {
    type Pixel = char;

    fn put_pixel_slow(&mut self, x: usize, y: usize, pixel: char) {
        self.asked += 1;
        if x < 3 && y < 2 {
            self.set.push((x, y, pixel));
        }
    }
}

fn blank(advance: u8) -> Glyph {
    Glyph { row_bytes: 0, image_offset: 0, image_height: 0, origin: (0, 0), advance }
}

// Three glyphs for 'A', 'B', 'V' (first = 'A' would leave a gap, so the
// table runs from 'A' to 'V'), all drawn from one arena.
fn letters() -> Vec<Glyph> {
    let mut glyphs = Vec::new();
    for c in b'A'..=b'V' {
        let g = match c {
            b'A' => Glyph { row_bytes: 1, image_offset: 0, image_height: 2, origin: (0, 1), advance: 4 },
            b'B' => Glyph { row_bytes: 1, image_offset: 2, image_height: 1, origin: (1, 0), advance: 5 },
            b'V' => Glyph { row_bytes: 2, image_offset: 3, image_height: 1, origin: (0, 0), advance: 6 },
            _ => blank(3),
        };
        glyphs.push(g);
    }
    glyphs
}

const ARENA: [u8; 5] = [0xA0, 0x40, 0xE0, 0x80, 0x01];

fn font<'a>(glyphs: &'a [Glyph], entries: &'a [KerningEntry]) -> Font<'a, 'a, 'a> {
    Font {
        ascent: 2,
        descent: 1,
        line_spacing: 3,
        glyph_storage: GlyphStorage::Dense { first: b'A', glyphs },
        replacement: 1,
        bitmaps: &ARENA,
        kerning: KerningTable { entries },
    }
}

fn av() -> [KerningEntry; 1] {
    [KerningEntry { pair: (b'A', b'V'), adjust: -2 }]
}

#[test]
fn dense_lookup_counts_from_first() {
    let glyphs = [blank(1), blank(2), blank(3)];
    let storage = GlyphStorage::Dense { first: 0x20, glyphs: &glyphs };
    for i in 0..3u8 {
        let c = char::from(0x20 + i);
        assert_eq!(storage.get(c).map(|g| g.advance), Some(i + 1));
    }
    assert!(storage.get('#').is_none());
    assert!(storage.get('\u{1f}').is_none());
    assert!(storage.get('\u{263a}').is_none());
    assert_eq!(storage.len(), 3);
}

#[test]
fn dense_lookup_by_index() {
    let glyphs = [blank(1), blank(2)];
    let storage = GlyphStorage::Dense { first: 0x20, glyphs: &glyphs };
    assert_eq!(storage.get_by_index(1).map(|g| g.advance), Some(2));
    assert!(storage.get_by_index(2).is_none());
}

#[test]
fn sparse_lookup_searches_by_code_point() {
    let pairs = [('\0', blank(1)), ('A', blank(2)), ('\u{263a}', blank(3)), ('\u{2665}', blank(4))];
    let storage = GlyphStorage::Sparse { sorted_glyphs: &pairs };
    assert_eq!(storage.get('\0').map(|g| g.advance), Some(1));
    assert_eq!(storage.get('A').map(|g| g.advance), Some(2));
    assert_eq!(storage.get('\u{263a}').map(|g| g.advance), Some(3));
    assert_eq!(storage.get('\u{2665}').map(|g| g.advance), Some(4));
    assert!(storage.get('B').is_none());
    assert!(storage.get('\u{10ffff}').is_none());
    assert_eq!(storage.get_by_index(2).map(|g| g.advance), Some(3));
    assert!(storage.get_by_index(4).is_none());
}

#[test]
fn glyph_measures() {
    let g = Glyph { row_bytes: 2, image_offset: 3, image_height: 1, origin: (4, 5), advance: 6 };
    assert!(g.has_image());
    assert!(!blank(3).has_image());
    assert_eq!(g.width_in_pixels(), 16);
    assert_eq!(g.row_bytes_usize(), 2);
    assert_eq!(g.default_advance_usize(), 6);
    assert_eq!(g.displace_usize(10, 20), (14, 25));
    assert_eq!(g.displace_usize(usize::MAX - 4, usize::MAX - 5), (usize::MAX, usize::MAX));
    assert_eq!(g.slice_bitmap(&ARENA), &[0x80, 0x01]);
    assert_eq!(blank(1).slice_bitmap(&ARENA), &[] as &[u8]);
}

#[test]
fn kerning_lookup() {
    let entries = [
        KerningEntry { pair: (b'A', b'V'), adjust: -2 },
        KerningEntry { pair: (b'A', b'W'), adjust: -1 },
        KerningEntry { pair: (b'T', b'o'), adjust: 3 },
    ];
    let table = KerningTable { entries: &entries };
    assert_eq!(table.get('A', 'V').map(|e| e.adjust), Some(-2));
    assert_eq!(table.get('A', 'W').map(|e| e.adjust), Some(-1));
    assert_eq!(table.get('T', 'o').map(|e| e.adjust), Some(3));
    assert!(table.get('V', 'A').is_none());
    assert!(table.get('A', 'B').is_none());
    // Beyond one byte there is no entry, whatever the low bits are.
    assert!(table.get('\u{141}', 'V').is_none());
    assert!(table.get('A', '\u{156}').is_none());
}

#[test]
fn kerning_adjust_saturates() {
    let closer = KerningEntry { pair: (0, 0), adjust: -2 };
    let farther = KerningEntry { pair: (0, 0), adjust: 3 };
    let most = KerningEntry { pair: (0, 0), adjust: -128 };
    assert_eq!(closer.adjust_usize(10), 8);
    assert_eq!(closer.adjust_usize(1), 0);
    assert_eq!(farther.adjust_usize(10), 13);
    assert_eq!(farther.adjust_usize(usize::MAX - 1), usize::MAX);
    assert_eq!(most.adjust_usize(200), 72);
    assert_eq!(most.adjust_usize(100), 0);
}

#[test]
fn kerning_state_skips_the_first_character() {
    let entries = av();
    let mut state = KerningState::new(KerningTable { entries: &entries });
    let mut x = 10usize;
    state.adjust_usize_for_char('A', &mut x);
    assert_eq!(x, 10);
    state.adjust_usize_for_char('V', &mut x);
    assert_eq!(x, 8);
    state.adjust_usize_for_char('A', &mut x);
    assert_eq!(x, 8);
    // A fresh state does not remember the line before.
    let mut fresh = KerningState::new(KerningTable { entries: &entries });
    fresh.adjust_usize_for_char('V', &mut x);
    assert_eq!(x, 8);
}

#[test]
fn font_metrics() {
    let glyphs = letters();
    let f = font(&glyphs, &[]);
    assert!(f.is_wf());
    assert_eq!(f.baseline_to_y(10), Some(8));
    assert_eq!(f.baseline_to_y(2), Some(0));
    assert_eq!(f.baseline_to_y(1), None);
    assert_eq!(f.line_spacing_usize(), 3);
    assert_eq!(f.char_width('A'), 4);
    assert_eq!(f.char_width('C'), 3);
}

#[test]
fn missing_glyph_is_replaced() {
    let glyphs = letters();
    let f = font(&glyphs, &[]);
    // 'B' is the replacement glyph.
    assert_eq!(*f.get_glyph_or_replacement('z'), glyphs[1]);
    assert_eq!(*f.get_glyph_or_replacement('A'), glyphs[0]);
    assert_eq!(f.char_width('\u{263a}'), 5);
    assert_eq!(f.width("\n"), 5);
}

#[test]
fn ill_formed_fonts_are_told() {
    let glyphs = letters();
    let mut f = font(&glyphs, &[]);
    f.replacement = 200;
    assert!(!f.is_wf());
    let f = Font { bitmaps: &ARENA[..4], ..font(&glyphs, &[]) };
    assert!(!f.is_wf());
    let unsorted = [
        KerningEntry { pair: (b'B', b'A'), adjust: 1 },
        KerningEntry { pair: (b'A', b'V'), adjust: 1 },
    ];
    assert!(!font(&glyphs, &unsorted).is_wf());
    let twice = [
        KerningEntry { pair: (b'A', b'V'), adjust: 1 },
        KerningEntry { pair: (b'A', b'V'), adjust: 2 },
    ];
    assert!(!font(&glyphs, &twice).is_wf());
    let pairs = [('B', blank(1)), ('A', blank(2))];
    let f = Font {
        glyph_storage: GlyphStorage::Sparse { sorted_glyphs: &pairs },
        replacement: 0,
        ..font(&glyphs, &[])
    };
    assert!(!f.is_wf());
}

#[test]
fn width_adds_advances_and_kerning() {
    let glyphs = letters();
    let entries = av();
    let f = font(&glyphs, &entries);
    assert!(f.is_wf());
    assert_eq!(f.width(""), 0);
    assert_eq!(f.width("A"), 4);
    assert_eq!(f.width("V"), 6);
    assert_eq!(f.width("B"), 5);
    assert_eq!(f.width("AV"), f.width("A") + f.width("V") - 2);
    assert_eq!(f.width("AB"), f.width("A") + f.width("B"));
    assert_eq!(f.width("VA"), 10);
    assert_eq!(f.width("AVAV"), 4 - 2 + 6 + 4 - 2 + 6);
}

#[test]
fn kerning_does_not_move_the_pen_below_zero() {
    let glyphs = letters();
    let entries = [KerningEntry { pair: (b'A', b'V'), adjust: -100 }];
    let f = font(&glyphs, &entries);
    assert_eq!(f.width("AV"), 6);
}

#[test]
fn layout_places_each_image() {
    let glyphs = letters();
    let entries = av();
    let f = font(&glyphs, &entries);
    let marks = f.render_core("ACVB", 10, 20);
    assert_eq!(marks.len(), 3);
    // 'A' at the pen, one row down.
    assert_eq!((marks[0].x, marks[0].y, marks[0].glyph), (10, 21, glyphs[0]));
    // 'C' is blank: advance 3, no image. 'V' follows at 10 + 4 + 3.
    assert_eq!((marks[1].x, marks[1].y, marks[1].glyph), (17, 20, glyphs[21]));
    // 'B' at 17 + 6, one column right.
    assert_eq!((marks[2].x, marks[2].y, marks[2].glyph), (24, 20, glyphs[1]));
    let kerned = f.render_core("AV", 0, 0);
    assert_eq!((kerned[1].x, kerned[1].y), (2, 0));
}

#[test]
fn layout_drops_images_beyond_usize() {
    let glyphs = letters();
    let f = font(&glyphs, &[]);
    let marks = f.render_core("BA", usize::MAX - 2, 0);
    // 'B' would start at MAX - 1; 'A' is drawn with the pen saturated.
    assert_eq!(marks.len(), 2);
    assert_eq!((marks[0].x, marks[0].y), (usize::MAX - 1, 0));
    assert_eq!((marks[1].x, marks[1].y), (usize::MAX, 1));
    let none = f.render_core("B", usize::MAX, 0);
    assert_eq!(none.len(), 0);
    let low = f.render_core("A", 0, usize::MAX);
    assert_eq!(low.len(), 0);
}

fn picture(canvas: &Canvas) -> Vec<String> {
    let mut rows = Vec::new();
    for y in 0..canvas.height() {
        let mut row = String::new();
        for x in 0..canvas.width() {
            row.push(if canvas.get_pixel(x, y) == Some(1) { '#' } else { '.' });
        }
        rows.push(row);
    }
    rows
}

#[test]
fn render_draws_set_pixels_only() {
    let glyphs = letters();
    let f = font(&glyphs, &[]);
    let mut canvas = Canvas::new(12, 3, 0).unwrap();
    f.render("AB", 1, 0, &mut canvas, 1);
    // 'A' is 0xA0, 0x40 from row 1 on; 'B' is 0xE0 one column right of the pen.
    assert_eq!(picture(&canvas), vec!["......###...", ".#.#........", "..#........."]);
    // Drawing again in another colour leaves the clear pixels alone.
    f.render("AB", 1, 0, &mut canvas, 2);
    assert_eq!(canvas.get_pixel(6, 0), Some(2));
    assert_eq!(canvas.get_pixel(0, 0), Some(0));
    assert_eq!(canvas.get_pixel(5, 0), Some(0));
}

#[test]
fn render_drops_pixels_outside_the_surface() {
    let glyphs = letters();
    let f = font(&glyphs, &[]);
    let mut canvas = Canvas::new(3, 2, 0).unwrap();
    // 'A' at (1, 0): its second row and its fourth column fall outside.
    f.render("A", 1, 0, &mut canvas, 1);
    assert_eq!(picture(&canvas), vec!["...", ".#."]);
    let mut canvas = Canvas::new(3, 2, 0).unwrap();
    f.render("A", 50, 50, &mut canvas, 1);
    assert_eq!(picture(&canvas), vec!["...", "..."]);
    let mut canvas = Canvas::new(3, 2, 0).unwrap();
    f.render("A", usize::MAX, usize::MAX, &mut canvas, 1);
    assert_eq!(picture(&canvas), vec!["...", "..."]);
    let mut empty = Canvas::new(0, 0, 0).unwrap();
    f.render("AV", 0, 0, &mut empty, 1);
    assert_eq!(empty.width(), 0);
}

#[test]
fn render_sixteen_pixel_rows() {
    let glyphs = letters();
    let f = font(&glyphs, &[]);
    let mut canvas = Canvas::new(17, 1, 0).unwrap();
    f.render("V", 1, 0, &mut canvas, 1);
    // 0x80, 0x01: the first and the last of sixteen pixels.
    assert_eq!(picture(&canvas), vec![".#..............#"]);
}

#[test]
fn both_strategies_draw_the_same() {
    let glyphs = letters();
    let entries = av();
    let f = font(&glyphs, &entries);
    // 'B' is three pixels wide in one row byte, with five padding bits.
    let text = "ABVAV";
    let width = f.width(text);
    let mut slow = Canvas::new(width, 3, 0).unwrap();
    let mut direct = Canvas::new(width, 3, 0).unwrap();
    f.render(text, 0, 0, &mut slow, 1);
    let marks = f.render_core(text, 0, 0);
    assert!(seff::render::check_rows_fit(&marks, 3));
    f.render_direct(text, 0, 0, &mut direct, 1);
    assert_eq!(picture(&slow), picture(&direct));
    assert!(picture(&slow).iter().any(|row| row.contains('#')));
}

#[test]
fn direct_strategy_cuts_rows_at_the_right_edge() {
    let glyphs = letters();
    let f = font(&glyphs, &[]);
    let mut slow = Canvas::new(9, 3, 0).unwrap();
    let mut direct = Canvas::new(9, 3, 0).unwrap();
    f.render("AV", 0, 0, &mut slow, 1);
    f.render_direct("AV", 0, 0, &mut direct, 1);
    assert_eq!(picture(&slow), picture(&direct));
    assert_eq!(picture(&direct), vec!["....#....", "#.#......", ".#......."]);
    // Wholly right of the surface: nothing is drawn.
    let mut far = Canvas::new(9, 3, 0).unwrap();
    f.render_direct("AV", 100, 0, &mut far, 1);
    assert_eq!(picture(&far), vec![".........", ".........", "........."]);
}

#[test]
fn rows_that_do_not_fit_are_told() {
    let glyphs = letters();
    let f = font(&glyphs, &[]);
    let marks = f.render_core("A", 0, 0);
    assert!(seff::render::check_rows_fit(&marks, 3));
    assert!(!seff::render::check_rows_fit(&marks, 2));
    let lower = f.render_core("A", 0, 1);
    assert!(!seff::render::check_rows_fit(&lower, 3));
    assert!(seff::render::check_rows_fit(&[].to_vec(), 0));
}

#[test]
fn canvas_bounds() {
    let mut canvas = Canvas::new(2, 2, 7).unwrap();
    assert_eq!(canvas.get_pixel(1, 1), Some(7));
    assert_eq!(canvas.get_pixel(2, 0), None);
    assert_eq!(canvas.get_pixel(0, 2), None);
    seff::RenderTarget::put_pixel_slow(&mut canvas, 1, 0, 9);
    seff::RenderTarget::put_pixel_slow(&mut canvas, 2, 0, 9);
    seff::RenderTarget::put_pixel_slow(&mut canvas, 0, 2, 9);
    assert_eq!(canvas.get_pixel(1, 0), Some(9));
    assert_eq!(canvas.get_pixel(0, 1), Some(7));
    {
        let run = seff::DirectRenderTarget::subrow_mut(&mut canvas, 1, 1..5);
        assert_eq!(run.len(), 1);
        run[0] = 3;
    }
    assert_eq!(canvas.get_pixel(1, 1), Some(3));
    assert_eq!(canvas.get_pixel(0, 1), Some(7));
    assert!(Canvas::new(usize::MAX, 2, 0).is_none());
}

#[test]
fn any_surface_can_be_drawn_on() {
    let glyphs = letters();
    let f = font(&glyphs, &[]);
    let mut notes = Notes { set: Vec::new(), asked: 0 };
    // 'A' at (1, 0): rows 1 and 2, of which row 2 is outside.
    f.render("A", 1, 0, &mut notes, 'x');
    assert_eq!(notes.set, vec![(1, 1, 'x')]);
    assert!(notes.asked >= 1);
    let mut notes = Notes { set: Vec::new(), asked: 0 };
    f.render("B", 0, 0, &mut notes, 'y');
    assert_eq!(notes.set, vec![(1, 0, 'y'), (2, 0, 'y')]);
}
