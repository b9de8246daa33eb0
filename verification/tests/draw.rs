use seff::draw::{align_rows, guess_ascent, measure_bottom, split_glyphs, Layout};
use seff::load::{compile_sheet, GlyphOrder};
use seff::sheet::Rgb;
use seff::Canvas;

const RED: Rgb = Rgb { r: 0xFF, g: 0, b: 0 };
const BLUE: Rgb = Rgb { r: 0, g: 0, b: 0xFF };
const BLACK: Rgb = Rgb { r: 0, g: 0, b: 0 };
const WHITE: Rgb = Rgb { r: 0xFF, g: 0xFF, b: 0xFF };

#[test]
fn rows_are_moved_up_or_mirrored() {
    assert_eq!(align_rows(&vec![0xA5, 0x01], 8, false), vec![0xA500_0000, 0x0100_0000]);
    assert_eq!(align_rows(&vec![0x0A05], 12, false), vec![0x0A05_0000]);
    assert_eq!(align_rows(&vec![0x8000_0001], 32, false), vec![0x8000_0001]);
    assert_eq!(align_rows(&vec![0x0000_0005, 0x8000_0000], 3, true), vec![0xA000_0000, 1]);
    assert_eq!(align_rows(&Vec::new(), 8, false), Vec::<u32>::new());
}

#[test]
fn rows_are_cut_into_glyphs() {
    let rows = vec![1, 2, 3, 4, 5, 6, 7];
    assert_eq!(split_glyphs(&rows, 3, false), vec![vec![1, 2, 3], vec![4, 5, 6]]);
    assert_eq!(split_glyphs(&rows, 3, true), vec![vec![3, 2, 1], vec![6, 5, 4]]);
    assert_eq!(split_glyphs(&rows, 8, false), Vec::<Vec<u32>>::new());
    assert_eq!(split_glyphs(&rows, 7, true), vec![vec![7, 6, 5, 4, 3, 2, 1]]);
}

#[test]
fn ascent_is_guessed_from_the_commonest_bottom_padding() {
    assert_eq!(measure_bottom(&vec![1, 0, 0]), 2);
    assert_eq!(measure_bottom(&vec![0, 0, 0]), 3);
    assert_eq!(measure_bottom(&vec![0, 0, 1]), 0);
    assert_eq!(measure_bottom(&Vec::new()), 0);
    // Two glyphs with one empty row at the bottom, one with two.
    let glyphs = vec![vec![1, 1, 1, 0], vec![0, 1, 0, 0], vec![1, 0, 1, 0], vec![1, 1, 1, 1]];
    assert_eq!(guess_ascent(&glyphs, 4), 3);
    // As often one as two: the greater padding is taken.
    let glyphs = vec![vec![1, 1, 1, 0], vec![0, 1, 0, 0]];
    assert_eq!(guess_ascent(&glyphs, 4), 2);
    // Glyphs that reach the bottom do not count, however many.
    let glyphs = vec![vec![1, 1], vec![1, 1], vec![1, 0]];
    assert_eq!(guess_ascent(&glyphs, 2), 1);
    assert_eq!(guess_ascent(&vec![vec![1, 1]], 2), 0);
    assert_eq!(guess_ascent(&vec![vec![0, 0]], 2), 0);
    assert_eq!(guess_ascent(&Vec::new(), 5), 0);
}

fn layout() -> Layout {
    Layout { width: 3, height: 3, ascent: 2, per_band: 2, cell_width: 4 }
}

fn glyphs() -> Vec<Vec<u32>> {
    vec![
        vec![0xA000_0000, 0x4000_0000, 0],
        vec![0xE000_0000, 0, 0x2000_0000],
        vec![0, 0xF000_0000, 0],
    ]
}

#[test]
fn sheet_has_a_band_for_each_row_of_cells() {
    let l = layout();
    assert_eq!(l.size(0), Some((10, 0)));
    assert_eq!(l.size(1), Some((10, 4)));
    assert_eq!(l.size(2), Some((10, 4)));
    assert_eq!(l.size(3), Some((10, 8)));
    let wide = Layout { cell_width: u32::MAX as usize, ..layout() };
    assert_eq!(wide.size(1), None);
    let high = Layout { height: u32::MAX as usize, ascent: 2, ..layout() };
    assert_eq!(high.size(0), Some((10, 0)));
    assert_eq!(high.size(1), None);
    let many = Layout { per_band: 1 << 30, ..layout() };
    assert_eq!(many.size(1), None);
}

#[test]
fn sheet_is_drawn() {
    let sheet = layout().draw_sheet(&glyphs()).unwrap();
    assert_eq!((sheet.width(), sheet.height()), (10, 8));
    let mut art = Vec::new();
    for y in 0..8 {
        let mut row = String::new();
        for x in 0..10 {
            let p = sheet.pixel(x, y);
            row.push(if p == RED {
                'R'
            } else if p == BLUE {
                'B'
            } else if p == BLACK {
                '#'
            } else {
                assert_eq!(p, WHITE);
                '.'
            });
        }
        art.push(row);
    }
    // The fourth column of a glyph is cut off: glyphs are three wide.
    assert_eq!(
        art,
        vec![
            "#.#.R###.R",
            "B#BBRBBBBR",
            ".......#..",
            "RRRRRRRRRR",
            "....R.....",
            "###BRBBBBB",
            "..........",
            "RRRRRRRRRR",
        ]
    );
    for (x, y) in [(0, 0), (4, 1), (9, 7), (6, 2), (3, 5)] {
        assert_eq!(layout().pixel_at(&glyphs(), x, y), sheet.pixel(x, y));
    }
}

#[test]
fn drawn_sheets_compile_to_their_glyphs() {
    let sheet = layout().draw_sheet(&glyphs()).unwrap();
    let font = compile_sheet(&sheet, GlyphOrder::Iso8859_1, Some(b'a')).unwrap();
    assert_eq!((font.ascent, font.descent), (2, 1));
    assert_eq!(font.glyphs.len(), 3);
    let f = font.font();
    assert!(f.is_wf());
    assert_eq!(f.width("abc"), 12);
    let mut canvas = Canvas::new(12, 3, 0).unwrap();
    f.render("abc", 0, 0, &mut canvas, 1);
    let mut art = Vec::new();
    for y in 0..3 {
        let mut row = String::new();
        for x in 0..12 {
            row.push(if canvas.get_pixel(x, y) == Some(1) { '#' } else { '.' });
        }
        art.push(row);
    }
    assert_eq!(art, vec!["#.#.###.....", ".#......###.", "......#....."]);
}
