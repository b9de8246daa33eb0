//! The font sheet: a grid of coloured pixels that marks bands, baselines and
//! glyph cells, and the scan that reads the raw glyph rows out of it.

use vstd::prelude::*;

verus! {

/// One pixel of a sheet: red, green and blue, 8 bits each.
#[derive(Copy, Clone, Debug, PartialEq, Eq)]
pub struct Rgb {
    pub r: u8,
    pub g: u8,
    pub b: u8,
}

/// The colour that closes a band and separates cells.
pub open spec fn red(p: Rgb) -> bool {
    p.r == 0xFF && p.g == 0 && p.b == 0
}

/// The colour that marks the baseline row.
pub open spec fn blue(p: Rgb) -> bool {
    p.r == 0 && p.g == 0 && p.b == 0xFF
}

/// The colour of a set glyph pixel.
pub open spec fn black(p: Rgb) -> bool {
    p.r == 0 && p.g == 0 && p.b == 0
}

impl Rgb {
    /// Whether this is the band and cell marker colour.
    pub fn is_red(&self) -> (b: bool)
        ensures
            b == red(*self),
    {
        self.r == 0xFF && self.g == 0 && self.b == 0
    }

    /// Whether this is the baseline marker colour.
    pub fn is_blue(&self) -> (b: bool)
        ensures
            b == blue(*self),
    {
        self.r == 0 && self.g == 0 && self.b == 0xFF
    }

    /// Whether this is the ink colour.
    pub fn is_black(&self) -> (b: bool)
        ensures
            b == black(*self),
    {
        self.r == 0 && self.g == 0 && self.b == 0
    }
}

/// Why a sheet could not be compiled.
#[derive(Copy, Clone, Debug, PartialEq, Eq)]
pub enum SheetError {
    /// The sheet has no band: no row starts with the marker colour.
    NoBands,
    /// A band has no row with a baseline pixel.
    MissingBaseline,
    /// A band has more than one row with a baseline pixel.
    AmbiguousBaseline,
    /// A glyph cell is wider than 64 pixels.
    OversizedCell,
    /// A measured quantity does not fit the field that stores it.
    Overflow,
    /// The blank glyphs match no known pattern, so the first code point
    /// cannot be told; it must be given.
    AmbiguousOffset,
}

impl SheetError {
    /// A short description of the cause.
    pub fn describe(&self) -> (text: &'static str)
        ensures
            text@ == match *self {
                SheetError::NoBands => "no band marker in the sheet"@,
                SheetError::MissingBaseline => "missing baseline"@,
                SheetError::AmbiguousBaseline => "ambiguous baseline"@,
                SheetError::OversizedCell => "glyph cell wider than 64 pixels"@,
                SheetError::Overflow => "a measured quantity overflows its field"@,
                SheetError::AmbiguousOffset => "can't detect font offset due to ambiguous blank pattern"@,
            },
    {
        match self {
            SheetError::NoBands => "no band marker in the sheet",
            SheetError::MissingBaseline => "missing baseline",
            SheetError::AmbiguousBaseline => "ambiguous baseline",
            SheetError::OversizedCell => "glyph cell wider than 64 pixels",
            SheetError::Overflow => "a measured quantity overflows its field",
            SheetError::AmbiguousOffset => "can't detect font offset due to ambiguous blank pattern",
        }
    }
}

/// The mathematical sheet: `cols * rows` pixels, row by row.
pub struct Grid {
    pub cols: nat,
    pub rows: nat,
    pub cells: Seq<Rgb>,
}

impl Grid {
    /// The pixel at column `x`, row `y`.
    pub open spec fn at(&self, x: int, y: int) -> Rgb {
        self.cells[y * self.cols + x]
    }

    /// There is one pixel for each position.
    pub open spec fn wf(&self) -> bool {
        self.cells.len() == self.cols * self.rows
    }

    /// Row `y` closes a band: its first pixel has the marker colour.
    pub open spec fn closes_band(&self, y: int) -> bool {
        self.cols > 0 && red(self.at(0, y))
    }

    /// Row `y` holds a baseline pixel.
    pub open spec fn has_blue(&self, y: int) -> bool {
        exists|x: int| 0 <= x < self.cols && blue(#[trigger] self.at(x, y))
    }

    /// The first row of the band that row `y` lies in: the row after the
    /// last closing row above `y`, or row 0.
    pub open spec fn band_top(&self, y: int) -> int
        decreases y,
    {
        if y <= 0 {
            0
        } else if self.closes_band(y - 1) {
            y
        } else {
            self.band_top(y - 1)
        }
    }

    /// The first column of the cell that column `x` lies in, going by the
    /// marks in row `base`.
    pub open spec fn cell_left(&self, base: int, x: int) -> int
        decreases x,
    {
        if x <= 0 {
            0
        } else if red(self.at(x - 1, base)) {
            x
        } else {
            self.cell_left(base, x - 1)
        }
    }

    /// The bits of the first `n` pixels of row `y` from column `left` on:
    /// the leftmost pixel is the highest bit, ink is 1.
    pub open spec fn row_mask(&self, left: int, y: int, n: nat) -> u64
        decreases n,
    {
        if n == 0 {
            0
        } else if black(self.at(left + n - 1, y)) {
            self.row_mask(left, y, (n - 1) as nat) | (0x8000_0000_0000_0000u64 >> ((n - 1) as u64))
        } else {
            self.row_mask(left, y, (n - 1) as nat)
        }
    }

    /// The raw glyph of the cell of columns `left..right`, rows
    /// `top..bottom`.
    pub open spec fn cell(&self, left: int, right: int, top: int, bottom: int) -> RawModel {
        RawModel {
            rows: Seq::new(
                (bottom - top) as nat,
                |r: int| self.row_mask(left, top + r, (right - left) as nat),
            ),
            advance: (right - left) as u8,
        }
    }

    /// The glyphs of the cells that the marks in columns `0..n` of row
    /// `base` close, left to right. A mark right after another closes no
    /// cell.
    pub open spec fn cells_upto(&self, base: int, top: int, bottom: int, n: int) -> Seq<RawModel>
        decreases n,
    {
        if n <= 0 {
            Seq::empty()
        } else {
            let before = self.cells_upto(base, top, bottom, n - 1);
            let left = self.cell_left(base, n - 1);
            if red(self.at(n - 1, base)) && left < n - 1 {
                before.push(self.cell(left, n - 1, top, bottom))
            } else {
                before
            }
        }
    }

    /// Whether a mark in columns `0..n` of row `base` closes a cell wider
    /// than 64 pixels.
    pub open spec fn oversized_upto(&self, base: int, n: int) -> bool {
        exists|x: int| 0 <= x < n && red(#[trigger] self.at(x, base)) && x - self.cell_left(base, x) >= 65
    }

    /// The band of rows `top..bottom`, closed by row `bottom`.
    pub open spec fn band(&self, top: int, bottom: int) -> Result<BandModel, SheetError> {
        if forall|y: int| top <= y < bottom ==> !self.has_blue(y) {
            Err(SheetError::MissingBaseline)
        } else if exists|y: int, z: int| top <= y < z < bottom && self.has_blue(y) && self.has_blue(z) {
            Err(SheetError::AmbiguousBaseline)
        } else {
            let base = choose|y: int| top <= y < bottom && self.has_blue(y);
            if self.oversized_upto(base, self.cols as int) {
                Err(SheetError::OversizedCell)
            } else {
                Ok(
                    BandModel {
                        ascent: (base + 1 - top) as nat,
                        descent: (bottom - base - 1) as nat,
                        glyphs: self.cells_upto(base, top, bottom, self.cols as int),
                    },
                )
            }
        }
    }

    /// The bands that the closing rows among rows `0..n` close, top to
    /// bottom, or the error of the first band that has one.
    pub open spec fn bands_upto(&self, n: int) -> Result<Seq<BandModel>, SheetError>
        decreases n,
    {
        if n <= 0 {
            Ok(Seq::empty())
        } else {
            match self.bands_upto(n - 1) {
                Err(e) => Err(e),
                Ok(before) => if self.closes_band(n - 1) {
                    match self.band(self.band_top(n - 1), n - 1) {
                        Err(e) => Err(e),
                        Ok(b) => Ok(before.push(b)),
                    }
                } else {
                    Ok(before)
                },
            }
        }
    }

    /// All bands of the sheet. Rows below the last closing row belong to no
    /// band.
    pub open spec fn bands(&self) -> Result<Seq<BandModel>, SheetError> {
        self.bands_upto(self.rows as int)
    }
}

/// The mathematical raw glyph: one 64-bit mask per pixel row, leftmost pixel
/// in the highest bit, and the width of its cell.
pub struct RawModel {
    pub rows: Seq<u64>,
    pub advance: u8,
}

/// The mathematical band: its metrics and its raw glyphs, left to right.
pub struct BandModel {
    pub ascent: nat,
    pub descent: nat,
    pub glyphs: Seq<RawModel>,
}

/// A glyph as read from the sheet, before trimming.
#[derive(Clone, Debug)]
pub struct RawGlyph {
    /// One mask per pixel row, leftmost pixel in the highest bit.
    pub rows: Vec<u64>,
    /// Width of the cell in pixels.
    pub advance: u8,
}

impl View for RawGlyph {
    type V = RawModel;

    open spec fn view(&self) -> RawModel {
        RawModel { rows: self.rows@, advance: self.advance }
    }
}

/// The models of a sequence of raw glyphs.
pub open spec fn raw_models(glyphs: Seq<RawGlyph>) -> Seq<RawModel> {
    Seq::new(glyphs.len(), |i: int| glyphs[i]@)
}

/// One band of a sheet.
#[derive(Clone, Debug)]
pub struct Band {
    /// Rows from the top of the band down to the baseline, inclusive.
    pub ascent: usize,
    /// Rows below the baseline.
    pub descent: usize,
    /// The band's glyphs, left to right.
    pub glyphs: Vec<RawGlyph>,
}

impl View for Band {
    type V = BandModel;

    open spec fn view(&self) -> BandModel {
        BandModel {
            ascent: self.ascent as nat,
            descent: self.descent as nat,
            glyphs: raw_models(self.glyphs@),
        }
    }
}

/// The models of a sequence of bands.
pub open spec fn band_models(bands: Seq<Band>) -> Seq<BandModel> {
    Seq::new(bands.len(), |i: int| bands[i]@)
}

/// A decoded font sheet.
pub struct Sheet {
    width: usize,
    height: usize,
    pixels: Vec<Rgb>,
}

impl View for Sheet {
    type V = Grid;

    closed spec fn view(&self) -> Grid {
        Grid { cols: self.width as nat, rows: self.height as nat, cells: self.pixels@ }
    }
}

impl Sheet {
    #[verifier::type_invariant]
    spec fn inv(self) -> bool {
        self.pixels@.len() == self.width * self.height
    }

    /// A sheet of `width * height` pixels given row by row, or nothing if
    /// `pixels` has another length.
    pub fn new(width: usize, height: usize, pixels: Vec<Rgb>) -> (sheet: Option<Sheet>)
        ensures
            match sheet {
                Some(s) => s@ == (Grid { cols: width as nat, rows: height as nat, cells: pixels@ })
                    && s@.wf(),
                None => pixels@.len() != width * height,
            },
    {
        let len = pixels.len();
        match width.checked_mul(height) {
            Some(n) => {
                if n == len {
                    Some(Sheet { width, height, pixels })
                } else {
                    None
                }
            },
            None => None,
        }
    }

    /// Number of pixel columns.
    pub fn width(&self) -> (w: usize)
        ensures
            w == self@.cols,
            self@.wf(),
    {
        proof {
            use_type_invariant(self);
        }
        self.width
    }

    /// Number of pixel rows.
    pub fn height(&self) -> (h: usize)
        ensures
            h == self@.rows,
    {
        self.height
    }

    /// The pixel at column `x`, row `y`.
    pub fn pixel(&self, x: usize, y: usize) -> (p: Rgb)
        requires
            x < self@.cols,
            y < self@.rows,
        ensures
            p == self@.at(x as int, y as int),
    {
        proof {
            use_type_invariant(self);
            assert(0 <= y * self.width && y * self.width + self.width <= self.width * self.height)
                by (nonlinear_arith)
                requires
                    0 <= y < self.height,
                    0 <= self.width,
            ;
        }
        let len = self.pixels.len();
        self.pixels[y * self.width + x]
    }
}

/// Every glyph of every band is as high as its band.
pub open spec fn regular(bands: Seq<BandModel>) -> bool {
    forall|b: int, i: int|
        0 <= b < bands.len() && 0 <= i < bands[b].glyphs.len() ==> (
        #[trigger] bands[b].glyphs[i]).rows.len() == bands[b].ascent + bands[b].descent
}

/// A row mask has ink in a column exactly if the sheet has an ink pixel
/// there.
pub proof fn lemma_mask_shows_ink(grid: Grid, left: int, y: int, n: nat, col: int)
    requires
        n <= 64,
    ensures
        crate::trim::raw_bit(grid.row_mask(left, y, n), col) == (0 <= col < n && black(
            grid.at(left + col, y),
        )),
    decreases n,
{
    if n == 0 {
        crate::trim::lemma_empty_row(col);
    } else {
        lemma_mask_shows_ink(grid, left, y, (n - 1) as nat, col);
        if 0 <= col < 64 {
            let before: u64 = grid.row_mask(left, y, (n - 1) as nat);
            let k: u64 = (n - 1) as u64;
            let c: u64 = col as u64;
            assert(((before | (0x8000_0000_0000_0000u64 >> k)) & (0x8000_0000_0000_0000u64 >> c)
                != 0) == (before & (0x8000_0000_0000_0000u64 >> c) != 0 || c == k))
                by (bit_vector)
                requires
                    k < 64,
                    c < 64,
            ;
        }
    }
}

/// Every glyph of a band has one row for each row of the band.
pub proof fn lemma_cells_height(grid: Grid, base: int, top: int, bottom: int, n: int)
    requires
        top <= bottom,
    ensures
        forall|i: int|
            0 <= i < grid.cells_upto(base, top, bottom, n).len() ==> (#[trigger] grid.cells_upto(
                base,
                top,
                bottom,
                n,
            )[i]).rows.len() == bottom - top,
    decreases n,
{
    if n > 0 {
        lemma_cells_height(grid, base, top, bottom, n - 1);
        let before = grid.cells_upto(base, top, bottom, n - 1);
        let all = grid.cells_upto(base, top, bottom, n);
        assert forall|i: int| 0 <= i < all.len() implies (#[trigger] all[i]).rows.len() == bottom
            - top by {
            if i < before.len() {
                assert(all[i] == before[i]);
            }
        }
    }
}

/// The bands of a sheet are regular: every glyph is as high as its band,
/// which is its ascent and descent together.
pub proof fn lemma_bands_regular(grid: Grid, n: int)
    requires
        grid.bands_upto(n) is Ok,
    ensures
        regular(grid.bands_upto(n)->Ok_0),
    decreases n,
{
    if n > 0 {
        lemma_bands_regular(grid, n - 1);
        if grid.closes_band(n - 1) {
            let top = grid.band_top(n - 1);
            let bottom = n - 1;
            lemma_band_top(grid, n - 1);
            let band = grid.band(top, bottom)->Ok_0;
            let base = choose|y: int| top <= y < bottom && grid.has_blue(y);
            assert(top <= base < bottom);
            lemma_cells_height(grid, base, top, bottom, grid.cols as int);
            let before = grid.bands_upto(n - 1)->Ok_0;
            let all = grid.bands_upto(n)->Ok_0;
            assert forall|b: int, i: int| 0 <= b < all.len() && 0 <= i < all[b].glyphs.len() implies (
            #[trigger] all[b].glyphs[i]).rows.len() == all[b].ascent + all[b].descent by {
                if b < before.len() {
                    assert(all[b] == before[b]);
                }
            }
        }
    }
}

/// A band begins at or above the row it is asked for.
pub proof fn lemma_band_top(grid: Grid, y: int)
    ensures
        0 <= grid.band_top(y),
        y >= 0 ==> grid.band_top(y) <= y,
    decreases y,
{
    if y > 0 && !grid.closes_band(y - 1) {
        lemma_band_top(grid, y - 1);
    }
}

} // verus!
