//! Reading a sheet: finding each band's baseline and cells, and turning the
//! ink of each cell into row masks.

use vstd::prelude::*;
use crate::sheet::{band_models, raw_models, Band, Grid, RawGlyph, Sheet, SheetError};

verus! {

/// Whether row `y` of the sheet holds a pixel of the baseline colour.
pub fn row_has_blue(sheet: &Sheet, y: usize) -> (found: bool)
    requires
        y < sheet@.rows,
    ensures
        found == sheet@.has_blue(y as int),
{
    let width = sheet.width();
    let mut x: usize = 0;
    while x < width
        invariant
            x <= width,
            width == sheet@.cols,
            y < sheet@.rows,
            forall|k: int| 0 <= k < x ==> !crate::sheet::blue(#[trigger] sheet@.at(k, y as int)),
        decreases width - x,
    {
        if sheet.pixel(x, y).is_blue() {
            return true;
        }
        x += 1;
    }
    false
}

/// The mask of the pixels of row `y` in columns `left..right`: the leftmost
/// pixel is the highest bit, ink is 1.
pub fn read_row(sheet: &Sheet, left: usize, right: usize, y: usize) -> (mask: u64)
    requires
        left <= right <= sheet@.cols,
        right - left <= 64,
        y < sheet@.rows,
    ensures
        mask == sheet@.row_mask(left as int, y as int, (right - left) as nat),
{
    let mut mask: u64 = 0;
    let mut x: usize = left;
    while x < right
        invariant
            left <= x <= right <= sheet@.cols,
            right - left <= 64,
            y < sheet@.rows,
            mask == sheet@.row_mask(left as int, y as int, (x - left) as nat),
        decreases right - x,
    {
        if sheet.pixel(x, y).is_black() {
            mask = mask | (0x8000_0000_0000_0000u64 >> ((x - left) as u64));
        }
        x += 1;
    }
    mask
}

/// The raw glyph of the cell of columns `left..right`, rows `top..bottom`.
pub fn read_cell(sheet: &Sheet, left: usize, right: usize, top: usize, bottom: usize) -> (glyph:
    RawGlyph)
    requires
        left <= right <= sheet@.cols,
        right - left <= 64,
        top <= bottom <= sheet@.rows,
    ensures
        glyph@ == sheet@.cell(left as int, right as int, top as int, bottom as int),
{
    let mut rows: Vec<u64> = Vec::new();
    let mut y: usize = top;
    while y < bottom
        invariant
            left <= right <= sheet@.cols,
            right - left <= 64,
            top <= y <= bottom <= sheet@.rows,
            rows@.len() == y - top,
            forall|r: int|
                0 <= r < y - top ==> #[trigger] rows@[r] == sheet@.row_mask(
                    left as int,
                    top + r,
                    (right - left) as nat,
                ),
        decreases bottom - y,
    {
        let mask = read_row(sheet, left, right, y);
        rows.push(mask);
        y += 1;
    }
    let glyph = RawGlyph { rows, advance: (right - left) as u8 };
    assert(glyph@.rows =~= sheet@.cell(left as int, right as int, top as int, bottom as int).rows);
    glyph
}

/// The one row among `top..bottom` that holds a baseline pixel.
pub fn find_baseline(sheet: &Sheet, top: usize, bottom: usize) -> (found: Result<usize, SheetError>)
    requires
        top <= bottom <= sheet@.rows,
    ensures
        match found {
            Ok(base) => top <= base < bottom && sheet@.has_blue(base as int) && forall|y: int|
                top <= y < bottom && sheet@.has_blue(y) ==> y == base,
            Err(e) => sheet@.band(top as int, bottom as int) == Err::<crate::sheet::BandModel, _>(e),
        },
{
    let mut base: Option<usize> = None;
    let mut y: usize = top;
    while y < bottom
        invariant
            top <= y <= bottom <= sheet@.rows,
            match base {
                Some(b) => top <= b < y && sheet@.has_blue(b as int) && forall|z: int|
                    top <= z < y && sheet@.has_blue(z) ==> z == b,
                None => forall|z: int| top <= z < y ==> !sheet@.has_blue(z),
            },
        decreases bottom - y,
    {
        if row_has_blue(sheet, y) {
            match base {
                Some(b) => {
                    assert(top <= b < y < bottom && sheet@.has_blue(b as int) && sheet@.has_blue(
                        y as int,
                    ));
                    return Err(SheetError::AmbiguousBaseline);
                },
                None => {
                    base = Some(y);
                },
            }
        }
        y += 1;
    }
    match base {
        Some(b) => Ok(b),
        None => Err(SheetError::MissingBaseline),
    }
}

/// Reads the band of rows `top..bottom`, which row `bottom` closes.
pub fn scan_band(sheet: &Sheet, top: usize, bottom: usize) -> (found: Result<Band, SheetError>)
    requires
        top <= bottom < sheet@.rows,
    ensures
        match found {
            Ok(band) => sheet@.band(top as int, bottom as int) == Ok::<_, SheetError>(band@),
            Err(e) => sheet@.band(top as int, bottom as int) == Err::<crate::sheet::BandModel, _>(e),
        },
{
    let base = match find_baseline(sheet, top, bottom) {
        Ok(b) => b,
        Err(e) => {
            return Err(e);
        },
    };
    let ghost grid = sheet@;
    let width = sheet.width();
    let mut glyphs: Vec<RawGlyph> = Vec::new();
    let mut left: usize = 0;
    let mut x: usize = 0;
    while x < width
        invariant
            grid == sheet@,
            width == grid.cols,
            top <= base < bottom < grid.rows,
            grid.has_blue(base as int),
            forall|y: int| top <= y < bottom && grid.has_blue(y) ==> y == base,
            x <= width,
            left <= x,
            left == grid.cell_left(base as int, x as int),
            raw_models(glyphs@) == grid.cells_upto(base as int, top as int, bottom as int, x as int),
            !grid.oversized_upto(base as int, x as int),
        decreases width - x,
    {
        if sheet.pixel(x, base).is_red() {
            let w = x - left;
            if w >= 65 {
                proof {
                    let chosen = choose|y: int| top <= y < bottom && grid.has_blue(y);
                    assert(chosen == base);
                    assert(grid.oversized_upto(base as int, width as int));
                }
                return Err(SheetError::OversizedCell);
            }
            if w != 0 {
                let glyph = read_cell(sheet, left, x, top, bottom);
                let ghost before = glyphs@;
                glyphs.push(glyph);
                assert(raw_models(glyphs@) =~= raw_models(before).push(glyph@));
            }
            left = x + 1;
        }
        x += 1;
    }
    proof {
        let chosen = choose|y: int| top <= y < bottom && grid.has_blue(y);
        assert(chosen == base);
    }
    let band = Band { ascent: base + 1 - top, descent: bottom - base - 1, glyphs };
    Ok(band)
}

/// Reads all bands of a sheet, top to bottom. The first band that lacks a
/// single baseline row, or has a cell wider than 64 pixels, gives its error.
pub fn scan_sheet(sheet: &Sheet) -> (found: Result<Vec<Band>, SheetError>)
    ensures
        match found {
            Ok(bands) => sheet@.bands() == Ok::<_, SheetError>(band_models(bands@)),
            Err(e) => sheet@.bands() == Err::<Seq<crate::sheet::BandModel>, _>(e),
        },
{
    let ghost grid = sheet@;
    let height = sheet.height();
    let width = sheet.width();
    let mut bands: Vec<Band> = Vec::new();
    let mut top: usize = 0;
    let mut y: usize = 0;
    assert(band_models(bands@) =~= Seq::empty());
    while y < height
        invariant
            grid == sheet@,
            height == grid.rows,
            width == grid.cols,
            top <= y <= height,
            top == grid.band_top(y as int),
            grid.bands_upto(y as int) == Ok::<_, SheetError>(band_models(bands@)),
        decreases height - y,
    {
        if width > 0 && sheet.pixel(0, y).is_red() {
            match scan_band(sheet, top, y) {
                Ok(band) => {
                    let ghost before = bands@;
                    bands.push(band);
                    assert(band_models(bands@) =~= band_models(before).push(band@));
                    top = y + 1;
                },
                Err(e) => {
                    proof {
                        lemma_error_stays(grid, y as int + 1, height as int, e);
                    }
                    return Err(e);
                },
            }
        }
        y += 1;
    }
    Ok(bands)
}

/// Once the bands of rows `0..n` give an error, so do those of any more
/// rows.
pub proof fn lemma_error_stays(grid: Grid, n: int, m: int, e: SheetError)
    requires
        n <= m,
        grid.bands_upto(n) == Err::<Seq<crate::sheet::BandModel>, _>(e),
    ensures
        grid.bands_upto(m) == Err::<Seq<crate::sheet::BandModel>, _>(e),
    decreases m - n,
{
    if n < m {
        lemma_error_stays(grid, n, m - 1, e);
    }
}

} // verus!
