//! Drawing a font sheet from glyphs of one size, given as rows of 32 bits:
//! the way back from raw glyph data to the picture that the compiler reads.

use vstd::prelude::*;
use crate::sheet::{Rgb, Sheet};

verus! {

/// Whether `r` has the bits of `row` in reverse order: bit `i` of `r` is
/// bit `31 - i` of `row`.
pub open spec fn is_mirror(row: u32, r: u32) -> bool {
    forall|i: u32| i < 32 ==> #[trigger] ((r >> i) & 1) == (row >> ((31 - i) as u32)) & 1
}

/// `u32::reverse_bits`: the bits in reverse order.
pub assume_specification[ u32::reverse_bits ](row: u32) -> (r: u32)
    ensures
        is_mirror(row, r),
;

/// Whether a row has ink in column `x`, counted from the highest bit.
pub open spec fn row_bit(row: u32, x: int) -> bool {
    0 <= x < 32 && row & (0x8000_0000u32 >> (x as u32)) != 0
}

/// A row of `width` pixels that stand in the low bits of the lowest
/// `(width + 7) / 8` bytes, moved up so that its first byte is the highest.
pub open spec fn raised(row: u32, width: int) -> u32 {
    row << ((8 * (4 - (width + 7) / 8)) as u32)
}

/// Brings rows to the form that is drawn, leftmost pixel in the highest
/// bit: a row is mirrored if `flip_x`, else its bytes are moved up.
pub fn align_rows(data: &Vec<u32>, width: usize, flip_x: bool) -> (rows: Vec<u32>)
    requires
        flip_x || 1 <= width <= 32,
    ensures
        rows@.len() == data@.len(),
        forall|i: int|
            0 <= i < data@.len() ==> (if flip_x {
                is_mirror(data@[i], #[trigger] rows@[i])
            } else {
                rows@[i] == raised(data@[i], width as int)
            }),
{
    let n = data.len();
    let mut rows: Vec<u32> = Vec::new();
    let mut i: usize = 0;
    while i < n
        invariant
            i <= n == data@.len(),
            flip_x || 1 <= width <= 32,
            rows@.len() == i,
            forall|k: int|
                0 <= k < i ==> (if flip_x {
                    is_mirror(data@[k], #[trigger] rows@[k])
                } else {
                    rows@[k] == raised(data@[k], width as int)
                }),
        decreases n - i,
    {
        let row = data[i];
        if flip_x {
            rows.push(row.reverse_bits());
        } else {
            let bytes = (width + 7) / 8;
            let shift: u32 = (8 * (4 - bytes)) as u32;
            rows.push(row << shift);
        }
        i += 1;
    }
    rows
}

/// The rows of glyph `g` of `height` rows each, top to bottom; bottom to
/// top in the data if `flip_y`.
pub open spec fn glyph_of(rows: Seq<u32>, height: int, flip_y: bool, g: int) -> Seq<u32> {
    Seq::new(
        height as nat,
        |r: int|
            if flip_y {
                rows[g * height + height - 1 - r]
            } else {
                rows[g * height + r]
            },
    )
}

/// The row sequences of a list of glyphs.
pub open spec fn glyph_rows(glyphs: Seq<Vec<u32>>) -> Seq<Seq<u32>> {
    Seq::new(glyphs.len(), |g: int| glyphs[g]@)
}

/// Cuts the rows into glyphs of `height` rows each. Rows that do not fill
/// a glyph are left out.
pub fn split_glyphs(rows: &Vec<u32>, height: usize, flip_y: bool) -> (glyphs: Vec<Vec<u32>>)
    requires
        height > 0,
    ensures
        glyphs@.len() == rows@.len() as int / height as int,
        forall|g: int|
            0 <= g < glyphs@.len() ==> (#[trigger] glyphs@[g])@ == glyph_of(
                rows@,
                height as int,
                flip_y,
                g,
            ),
{
    let total = rows.len();
    let count = total / height;
    let mut glyphs: Vec<Vec<u32>> = Vec::new();
    let mut g: usize = 0;
    while g < count
        invariant
            total == rows@.len(),
            height > 0,
            count == rows@.len() as int / height as int,
            g <= count,
            glyphs@.len() == g,
            forall|k: int|
                0 <= k < g ==> (#[trigger] glyphs@[k])@ == glyph_of(
                    rows@,
                    height as int,
                    flip_y,
                    k,
                ),
        decreases count - g,
    {
        assert(g * height + height <= rows@.len()) by (nonlinear_arith)
            requires
                g + 1 <= count,
                count == rows@.len() as int / height as int,
                height > 0,
        ;
        let mut glyph: Vec<u32> = Vec::new();
        let mut r: usize = 0;
        while r < height
            invariant
                total == rows@.len(),
                0 <= g * height,
                g * height + height <= rows@.len(),
                r <= height,
                glyph@.len() == r,
                forall|k: int|
                    0 <= k < r ==> #[trigger] glyph@[k] == (if flip_y {
                        rows@[g * height + height - 1 - k]
                    } else {
                        rows@[g * height + k]
                    }),
            decreases height - r,
        {
            if flip_y {
                glyph.push(rows[g * height + (height - 1 - r)]);
            } else {
                glyph.push(rows[g * height + r]);
            }
            r += 1;
        }
        assert(glyph@ =~= glyph_of(rows@, height as int, flip_y, g as int));
        glyphs.push(glyph);
        g += 1;
    }
    glyphs
}

/// The number of rows without ink at the bottom of a glyph.
pub open spec fn bottom_pad(rows: Seq<u32>) -> int
    decreases rows.len(),
{
    if rows.len() == 0 || rows.last() != 0 {
        0
    } else {
        1 + bottom_pad(rows.drop_last())
    }
}

/// How many of the first `n` glyphs have `p` rows without ink at their
/// bottom.
pub open spec fn count_with_pad(glyphs: Seq<Seq<u32>>, p: int, n: int) -> int
    decreases n,
{
    if n <= 0 {
        0
    } else if bottom_pad(glyphs[n - 1]) == p {
        count_with_pad(glyphs, p, n - 1) + 1
    } else {
        count_with_pad(glyphs, p, n - 1)
    }
}

/// Whether `p` is the bottom padding that most glyphs have, the greatest
/// such if several are as frequent. No padding at all does not count.
pub open spec fn is_mode(glyphs: Seq<Seq<u32>>, limit: int, p: int) -> bool {
    &&& 1 <= p <= limit
    &&& count_with_pad(glyphs, p, glyphs.len() as int) >= 1
    &&& forall|q: int|
        1 <= q <= limit ==> #[trigger] count_with_pad(glyphs, q, glyphs.len() as int)
            < count_with_pad(glyphs, p, glyphs.len() as int) || (count_with_pad(
            glyphs,
            q,
            glyphs.len() as int,
        ) == count_with_pad(glyphs, p, glyphs.len() as int) && q <= p)
}

/// The number of rows without ink at the bottom of a glyph.
pub fn measure_bottom(rows: &Vec<u32>) -> (pad: usize)
    ensures
        pad == bottom_pad(rows@),
        pad <= rows@.len(),
{
    let n = rows.len();
    let mut pad: usize = 0;
    assert(rows@.subrange(0, n as int) =~= rows@);
    while pad < n && rows[n - 1 - pad] == 0
        invariant
            pad <= n == rows@.len(),
            bottom_pad(rows@) == pad + bottom_pad(rows@.subrange(0, n - pad)),
        decreases n - pad,
    {
        assert(rows@.subrange(0, n - pad).drop_last() =~= rows@.subrange(0, n - pad - 1));
        pad += 1;
    }
    proof {
        lemma_pad_bound(rows@.subrange(0, n - pad));
    }
    pad
}

/// A glyph has at most as many empty rows at its bottom as it has rows.
pub proof fn lemma_pad_bound(rows: Seq<u32>)
    ensures
        0 <= bottom_pad(rows) <= rows.len(),
    decreases rows.len(),
{
    if rows.len() > 0 && rows.last() == 0 {
        lemma_pad_bound(rows.drop_last());
    }
}

/// Guesses the ascent of glyphs of `height` rows from the padding at their
/// bottoms: the height less the bottom padding that most glyphs have, where
/// glyphs without bottom padding do not count, and of paddings that are as
/// frequent the greatest is taken. Zero if no glyph has bottom padding.
pub fn guess_ascent(glyphs: &Vec<Vec<u32>>, height: usize) -> (ascent: usize)
    requires
        forall|g: int| 0 <= g < glyphs@.len() ==> (#[trigger] glyphs@[g])@.len() == height,
    ensures
        (forall|q: int|
            1 <= q <= height ==> #[trigger] count_with_pad(
                glyph_rows(glyphs@),
                q,
                glyphs@.len() as int,
            ) == 0) ==> ascent == 0,
        (exists|q: int|
            1 <= q <= height && #[trigger] count_with_pad(
                glyph_rows(glyphs@),
                q,
                glyphs@.len() as int,
            ) != 0) ==> is_mode(glyph_rows(glyphs@), height as int, height - ascent),
{
    let ghost models = glyph_rows(glyphs@);
    let n = glyphs.len();
    let mut pads: Vec<usize> = Vec::new();
    let mut g: usize = 0;
    while g < n
        invariant
            g <= n == glyphs@.len(),
            models == glyph_rows(glyphs@),
            pads@.len() == g,
            forall|k: int| 0 <= k < g ==> #[trigger] pads@[k] == bottom_pad(models[k]),
        decreases n - g,
    {
        let pad = measure_bottom(&glyphs[g]);
        pads.push(pad);
        g += 1;
    }
    let mut best: usize = 0;
    let mut most: usize = 0;
    let mut done: usize = 0;
    while done < height
        invariant
            done <= height,
            n == glyphs@.len(),
            models == glyph_rows(glyphs@),
            models.len() == n,
            pads@.len() == n,
            forall|k: int| 0 <= k < n ==> #[trigger] pads@[k] == bottom_pad(models[k]),
            best <= done,
            best == 0 ==> most == 0 && forall|q: int|
                1 <= q <= done ==> #[trigger] count_with_pad(models, q, n as int) == 0,
            best != 0 ==> most >= 1 && most == count_with_pad(models, best as int, n as int)
                && forall|q: int|
                1 <= q <= done ==> #[trigger] count_with_pad(models, q, n as int) < most || (
                count_with_pad(models, q, n as int) == most && q <= best),
        decreases height - done,
    {
        let p = done + 1;
        let mut count: usize = 0;
        let mut k: usize = 0;
        while k < n
            invariant
                k <= n == pads@.len(),
                models.len() == n,
                forall|j: int| 0 <= j < n ==> #[trigger] pads@[j] == bottom_pad(models[j]),
                count == count_with_pad(models, p as int, k as int),
                count <= k,
            decreases n - k,
        {
            if pads[k] == p {
                count += 1;
            }
            k += 1;
        }
        if count > 0 && count >= most {
            best = p;
            most = count;
        }
        done = p;
    }
    if best == 0 {
        0
    } else {
        height - best
    }
}

/// White: the colour of the empty sheet.
pub open spec fn white() -> Rgb {
    Rgb { r: 0xFF, g: 0xFF, b: 0xFF }
}

/// The layout of a drawn sheet: glyphs of `width` by `height` pixels, in
/// cells of `cell_width` columns and one for the mark, `per_band` cells to
/// a band, each band `height` rows and one for the marker row.
pub struct Layout {
    pub width: usize,
    pub height: usize,
    pub ascent: usize,
    pub per_band: usize,
    pub cell_width: usize,
}

impl Layout {
    /// The ascent leaves room for the two rows of each mark, and a glyph
    /// fits in its cell.
    pub open spec fn wf(&self) -> bool {
        &&& 2 <= self.ascent <= self.height
        &&& 1 <= self.per_band
        &&& self.width <= self.cell_width
    }

    /// Columns of the sheet.
    pub open spec fn cols(&self) -> int {
        (self.cell_width + 1) * self.per_band
    }

    /// Bands of a sheet of `count` glyphs.
    pub open spec fn bands(&self, count: int) -> int {
        if count <= 0 {
            0
        } else {
            (count - 1) / (self.per_band as int) + 1
        }
    }

    /// Rows of a sheet of `count` glyphs.
    pub open spec fn rows(&self, count: int) -> int {
        (self.height + 1) * self.bands(count)
    }

    /// The pixel at `(x, y)` of the sheet of `glyphs`. The ink of each glyph
    /// is black. In the column after each glyph's cell, the baseline row and
    /// the row above it have the marker colour. The last row of each band
    /// has the marker colour, and the rest of the baseline row the baseline
    /// colour. All else is white.
    pub open spec fn pixel(&self, glyphs: Seq<Seq<u32>>, x: int, y: int) -> Rgb {
        let band = y / (self.height + 1);
        let row = y % (self.height + 1);
        let cell = x / (self.cell_width + 1);
        let col = x % (self.cell_width + 1);
        let g = band * self.per_band + cell;
        if g < glyphs.len() && col < self.width && row < self.height && row_bit(
            glyphs[g][row],
            col,
        ) {
            Rgb { r: 0, g: 0, b: 0 }
        } else if g < glyphs.len() && col == self.cell_width && (row == self.ascent - 1 || row
            == self.ascent - 2) {
            Rgb { r: 0xFF, g: 0, b: 0 }
        } else if row == self.height {
            Rgb { r: 0xFF, g: 0, b: 0 }
        } else if row == self.ascent - 1 {
            Rgb { r: 0, g: 0, b: 0xFF }
        } else {
            white()
        }
    }

    /// The pixel at `(x, y)` of the sheet of `glyphs`.
    pub fn pixel_at(&self, glyphs: &Vec<Vec<u32>>, x: usize, y: usize) -> (p: Rgb)
        requires
            self.wf(),
            forall|g: int| 0 <= g < glyphs@.len() ==> (#[trigger] glyphs@[g])@.len() == self.height,
            self.cell_width < usize::MAX,
            self.height < usize::MAX,
        ensures
            p == self.pixel(glyph_rows(glyphs@), x as int, y as int),
    {
        let band = y / (self.height + 1);
        let row = y % (self.height + 1);
        let cell = x / (self.cell_width + 1);
        let col = x % (self.cell_width + 1);
        let n = glyphs.len();
        let index = match band.checked_mul(self.per_band) {
            Some(b) => b.checked_add(cell),
            None => None,
        };
        let held = match index {
            Some(g) => g < n,
            None => false,
        };
        assert(0 <= band * self.per_band) by (nonlinear_arith)
            requires
                0 <= band,
                0 <= self.per_band,
        ;
        assert(held == (band * self.per_band + cell < n));
        if held {
            let g = band * self.per_band + cell;
            if col < self.width && row < self.height && col < 32 {
                let bits = glyphs[g][row];
                if bits & (0x8000_0000u32 >> (col as u32)) != 0 {
                    return Rgb { r: 0, g: 0, b: 0 };
                }
            }
            if col == self.cell_width && (row == self.ascent - 1 || row == self.ascent - 2) {
                return Rgb { r: 0xFF, g: 0, b: 0 };
            }
        }
        if row == self.height {
            Rgb { r: 0xFF, g: 0, b: 0 }
        } else if row == self.ascent - 1 {
            Rgb { r: 0, g: 0, b: 0xFF }
        } else {
            Rgb { r: 0xFF, g: 0xFF, b: 0xFF }
        }
    }

    /// The size of the sheet of `count` glyphs, columns and rows, if both
    /// fit in 32 bits and the number of pixels in `usize`.
    pub fn size(&self, count: usize) -> (size: Option<(usize, usize)>)
        requires
            self.wf(),
        ensures
            match size {
                Some(s) => s.0 == self.cols() && s.1 == self.rows(count as int) && s.0 <= u32::MAX
                    && s.1 <= u32::MAX && s.0 * s.1 <= usize::MAX && self.cell_width < usize::MAX
                    && (s.1 > 0 ==> self.height < usize::MAX),
                None => self.cols() > u32::MAX || self.rows(count as int) > u32::MAX || self.cols()
                    * self.rows(count as int) > usize::MAX,
            },
    {
        let bands = if count == 0 {
            0
        } else {
            (count - 1) / self.per_band + 1
        };
        if self.cell_width >= 0xFFFF_FFFF {
            assert(self.cols() > u32::MAX) by (nonlinear_arith)
                requires
                    self.cols() == (self.cell_width + 1) * self.per_band,
                    self.cell_width >= 0xFFFF_FFFF,
                    self.per_band >= 1,
            ;
            return None;
        }
        let cols = match (self.cell_width + 1).checked_mul(self.per_band) {
            Some(c) => c,
            None => {
                return None;
            },
        };
        if cols > 0xFFFF_FFFF {
            return None;
        }
        if bands == 0 {
            assert(self.rows(count as int) == 0) by (nonlinear_arith)
                requires
                    self.rows(count as int) == (self.height + 1) * self.bands(count as int),
                    self.bands(count as int) == 0,
            ;
            assert(cols * 0 == 0);
            return Some((cols, 0));
        }
        if self.height >= 0xFFFF_FFFF {
            assert(self.rows(count as int) > u32::MAX) by (nonlinear_arith)
                requires
                    self.rows(count as int) == (self.height + 1) * self.bands(count as int),
                    self.height >= 0xFFFF_FFFF,
                    self.bands(count as int) >= 1,
            ;
            return None;
        }
        let rows = match (self.height + 1).checked_mul(bands) {
            Some(r) => r,
            None => {
                return None;
            },
        };
        if rows > 0xFFFF_FFFF {
            return None;
        }
        match cols.checked_mul(rows) {
            Some(total) => Some((cols, rows)),
            None => None,
        }
    }

    /// Draws the sheet of `glyphs`. There is none if the sheet would be
    /// wider or higher than 32 bits can say, or have more pixels than
    /// `usize` can count.
    pub fn draw_sheet(&self, glyphs: &Vec<Vec<u32>>) -> (sheet: Option<Sheet>)
        requires
            self.wf(),
            forall|g: int| 0 <= g < glyphs@.len() ==> (#[trigger] glyphs@[g])@.len() == self.height,
        ensures
            match sheet {
                Some(s) => {
                    &&& s@.cols == self.cols()
                    &&& s@.rows == self.rows(glyphs@.len() as int)
                    &&& s@.cols <= u32::MAX
                    &&& s@.rows <= u32::MAX
                    &&& s@.wf()
                    &&& forall|x: int, y: int|
                        0 <= x < s@.cols && 0 <= y < s@.rows ==> #[trigger] s@.at(x, y)
                            == self.pixel(glyph_rows(glyphs@), x, y)
                },
                None => self.cols() > u32::MAX || self.rows(glyphs@.len() as int) > u32::MAX
                    || self.cols() * self.rows(glyphs@.len() as int) > usize::MAX,
            },
    {
        let (cols, rows) = match self.size(glyphs.len()) {
            Some(s) => s,
            None => {
                return None;
            },
        };
        let ghost models = glyph_rows(glyphs@);
        let mut pixels: Vec<Rgb> = Vec::new();
        let mut y: usize = 0;
        while y < rows
            invariant
                self.wf(),
                forall|g: int|
                    0 <= g < glyphs@.len() ==> (#[trigger] glyphs@[g])@.len() == self.height,
                models == glyph_rows(glyphs@),
                cols == self.cols(),
                rows > 0 ==> self.cell_width < usize::MAX && self.height < usize::MAX,
                cols * rows <= usize::MAX,
                y <= rows,
                pixels@.len() == y * cols,
                forall|k: int|
                    0 <= k < pixels@.len() ==> #[trigger] pixels@[k] == self.pixel(
                        models,
                        k % (cols as int),
                        k / (cols as int),
                    ),
            decreases rows - y,
        {
            let mut x: usize = 0;
            while x < cols
                invariant
                    self.wf(),
                    forall|g: int|
                        0 <= g < glyphs@.len() ==> (#[trigger] glyphs@[g])@.len() == self.height,
                    models == glyph_rows(glyphs@),
                    self.cell_width < usize::MAX,
                    self.height < usize::MAX,
                    x <= cols,
                    y < rows,
                    pixels@.len() == y * cols + x,
                    forall|k: int|
                        0 <= k < pixels@.len() ==> #[trigger] pixels@[k] == self.pixel(
                            models,
                            k % (cols as int),
                            k / (cols as int),
                        ),
                decreases cols - x,
            {
                let p = self.pixel_at(glyphs, x, y);
                proof {
                    vstd::arithmetic::div_mod::lemma_fundamental_div_mod_converse(
                        y * cols + x,
                        cols as int,
                        y as int,
                        x as int,
                    );
                }
                pixels.push(p);
                x += 1;
            }
            assert(pixels@.len() == (y + 1) * cols) by (nonlinear_arith)
                requires
                    pixels@.len() == y * cols + cols,
            ;
            y += 1;
        }
        assert(pixels@.len() == cols * rows) by (nonlinear_arith)
            requires
                pixels@.len() == rows * cols,
        ;
        match Sheet::new(cols, rows, pixels) {
            Some(s) => {
                proof {
                    assert forall|x: int, y: int| 0 <= x < s@.cols && 0 <= y < s@.rows implies #[trigger] s@.at(
                        x,
                        y,
                    ) == self.pixel(models, x, y) by {
                        vstd::arithmetic::div_mod::lemma_fundamental_div_mod_converse(
                            y * cols + x,
                            cols as int,
                            y,
                            x,
                        );
                        assert(0 <= y * cols + x < cols * rows) by (nonlinear_arith)
                            requires
                                0 <= x < cols,
                                0 <= y < rows,
                        ;
                    }
                }
                Some(s)
            },
            None => {
                proof {
                    assert(false);
                }
                None
            },
        }
    }
}

} // verus!
