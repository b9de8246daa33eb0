//! The round trip from sheet to glyph and back: every glyph of a compiled
//! font, drawn with its image at its origin, shows the ink of its cell.

use vstd::prelude::*;
use crate::glyph::Glyph;
use crate::load::{compiled, GlyphOrder};
use crate::normalize::{all_padded, band_padded, lemma_max_bounds, max_ascent, max_descent, padded};
use crate::shape::{describes, lemma_built_describes, lemma_glyph_shows_rows};
use crate::sheet::{black, lemma_band_top, lemma_mask_shows_ink, BandModel, Grid, RawModel};

verus! {

/// A glyph cell of a sheet, with the empty rows that bring it to the
/// font's ascent and descent.
pub struct Cell {
    pub left: int,
    pub right: int,
    pub top: int,
    pub bottom: int,
    pub above: int,
    pub below: int,
}

impl Cell {
    /// The cell lies on the sheet, is from 1 to 64 columns wide, and is
    /// closed by a mark.
    pub open spec fn on(&self, grid: Grid) -> bool {
        &&& 0 <= self.left < self.right <= self.left + 64
        &&& self.right < grid.cols
        &&& 0 <= self.top <= self.bottom < grid.rows
        &&& 0 <= self.above
        &&& 0 <= self.below
    }

    /// The raw glyph of the cell, padded.
    pub open spec fn raw(&self, grid: Grid) -> RawModel {
        padded(grid.cell(self.left, self.right, self.top, self.bottom), self.above, self.below)
    }

    /// Whether the sheet has ink at column `col`, row `row` of the padded
    /// cell.
    pub open spec fn ink(&self, grid: Grid, col: int, row: int) -> bool {
        &&& 0 <= col < self.right - self.left
        &&& 0 <= row - self.above < self.bottom - self.top
        &&& black(grid.at(self.left + col, self.top + row - self.above))
    }
}

/// Round trip for one cell: the glyph that describes a cell of a sheet,
/// drawn with its image at its origin, shows exactly the ink pixels of the
/// cell; `col` and `row` count from the top left of the padded cell.
pub proof fn lemma_round_trip(grid: Grid, cell: Cell, g: Glyph, arena: Seq<u8>, col: int, row: int)
    requires
        cell.on(grid),
        describes(g, cell.raw(grid), arena),
    ensures
        g.ink(arena, col - g.origin.0, row - g.origin.1) == cell.ink(grid, col, row),
{
    let left = cell.left;
    let right = cell.right;
    let top = cell.top;
    let bottom = cell.bottom;
    let above = cell.above;
    let raw = cell.raw(grid);
    lemma_glyph_shows_rows(g, raw, arena, col, row);
    if 0 <= row < raw.rows.len() {
        if row < above || row - above >= bottom - top {
            assert(raw.rows[row] == 0);
            crate::trim::lemma_empty_row(col);
        } else {
            assert(raw.rows[row] == grid.row_mask(left, top + row - above, (right - left) as nat));
            lemma_mask_shows_ink(grid, left, top + row - above, (right - left) as nat, col);
        }
    }
}

/// The first column of a cell is on the sheet, at or before the column
/// asked for.
pub proof fn lemma_cell_left(grid: Grid, base: int, x: int)
    ensures
        0 <= grid.cell_left(base, x),
        x >= 0 ==> grid.cell_left(base, x) <= x,
    decreases x,
{
    if x > 0 && !crate::sheet::red(grid.at(x - 1, base)) {
        lemma_cell_left(grid, base, x - 1);
    }
}

/// Every glyph that the marks of a baseline row close is the glyph of a
/// cell of 1 to 64 columns, if no mark closes a wider one.
pub proof fn lemma_cells_are_cells(grid: Grid, base: int, top: int, bottom: int, n: int, i: int)
    requires
        0 <= n,
        !grid.oversized_upto(base, n),
        0 <= i < grid.cells_upto(base, top, bottom, n).len(),
    ensures
        exists|l: int, r: int|
            0 <= l < r <= l + 64 && r < n && grid.cells_upto(base, top, bottom, n)[i]
                == #[trigger] grid.cell(l, r, top, bottom),
    decreases n,
{
    let before = grid.cells_upto(base, top, bottom, n - 1);
    assert(!grid.oversized_upto(base, n - 1)) by {
        if grid.oversized_upto(base, n - 1) {
            let x = choose|x: int|
                0 <= x < n - 1 && crate::sheet::red(#[trigger] grid.at(x, base)) && x
                    - grid.cell_left(base, x) >= 65;
            assert(0 <= x < n && crate::sheet::red(grid.at(x, base)));
        }
    }
    if i < before.len() {
        lemma_cells_are_cells(grid, base, top, bottom, n - 1, i);
        let (l, r) = choose|l: int, r: int|
            0 <= l < r <= l + 64 && r < n - 1 && before[i] == #[trigger] grid.cell(
                l,
                r,
                top,
                bottom,
            );
        assert(grid.cells_upto(base, top, bottom, n)[i] == grid.cell(l, r, top, bottom));
    } else {
        let l = grid.cell_left(base, n - 1);
        lemma_cell_left(grid, base, n - 1);
        assert(crate::sheet::red(grid.at(n - 1, base)));
        assert(grid.cells_upto(base, top, bottom, n)[i] == grid.cell(l, n - 1, top, bottom));
    }
}

/// Every band of a sheet is the band of some rows of it.
pub proof fn lemma_bands_are_bands(grid: Grid, n: int, b: int)
    requires
        grid.bands_upto(n) is Ok,
        0 <= b < grid.bands_upto(n)->Ok_0.len(),
    ensures
        exists|top: int, bottom: int|
            0 <= top <= bottom < n && #[trigger] grid.band(top, bottom) == Ok::<
                BandModel,
                crate::sheet::SheetError,
            >(grid.bands_upto(n)->Ok_0[b]),
    decreases n,
{
    let before = grid.bands_upto(n - 1)->Ok_0;
    if b < before.len() {
        lemma_bands_are_bands(grid, n - 1, b);
        let (top, bottom) = choose|top: int, bottom: int|
            0 <= top <= bottom < n - 1 && #[trigger] grid.band(top, bottom) == Ok::<
                BandModel,
                crate::sheet::SheetError,
            >(before[b]);
        assert(grid.band(top, bottom) == Ok::<BandModel, crate::sheet::SheetError>(
            grid.bands_upto(n)->Ok_0[b],
        ));
    } else {
        lemma_band_top(grid, n - 1);
        assert(grid.band(grid.band_top(n - 1), n - 1) == Ok::<BandModel, crate::sheet::SheetError>(
            grid.bands_upto(n)->Ok_0[b],
        ));
    }
}

/// Every padded glyph is a glyph of one of the bands, padded to the common
/// ascent and descent.
pub proof fn lemma_padded_are_padded(
    bands: Seq<BandModel>,
    ascent: nat,
    descent: nat,
    n: int,
    i: int,
)
    requires
        0 <= n <= bands.len(),
        0 <= i < all_padded(bands, ascent, descent, n).len(),
    ensures
        exists|b: int, k: int|
            0 <= b < n && 0 <= k < bands[b].glyphs.len() && all_padded(bands, ascent, descent, n)[i]
                == #[trigger] band_padded(bands[b], ascent, descent)[k],
    decreases n,
{
    let before = all_padded(bands, ascent, descent, n - 1);
    if i < before.len() {
        lemma_padded_are_padded(bands, ascent, descent, n - 1, i);
        let (b, k) = choose|b: int, k: int|
            0 <= b < n - 1 && 0 <= k < bands[b].glyphs.len() && before[i] == #[trigger] band_padded(
                bands[b],
                ascent,
                descent,
            )[k];
        assert(all_padded(bands, ascent, descent, n)[i] == band_padded(bands[b], ascent, descent)[k]);
    } else {
        let k = i - before.len();
        assert(all_padded(bands, ascent, descent, n)[i] == band_padded(
            bands[n - 1],
            ascent,
            descent,
        )[k]);
    }
}

/// Round trip: every glyph of a font that a sheet compiles to has a cell
/// on the sheet of which it shows exactly the ink, when it is drawn with
/// its image at its origin; its advance is the width of the cell, and the
/// padded cell is as high as the font's ascent and descent together.
pub proof fn lemma_compiled_round_trip(grid: Grid, order: GlyphOrder, first: Option<u8>, i: int)
    requires
        compiled(grid, order, first) is Ok,
        0 <= i < compiled(grid, order, first)->Ok_0.glyphs.len(),
    ensures
        ({
            let font = compiled(grid, order, first)->Ok_0;
            exists|cell: Cell|
                {
                    &&& #[trigger] cell.on(grid)
                    &&& font.glyphs[i].advance == cell.right - cell.left
                    &&& cell.above + (cell.bottom - cell.top) + cell.below == font.ascent
                        + font.descent
                    &&& forall|col: int, row: int|
                        font.glyphs[i].ink(
                            font.bitmaps,
                            col - font.glyphs[i].origin.0,
                            row - font.glyphs[i].origin.1,
                        ) == #[trigger] cell.ink(grid, col, row)
                }
        }),
{
    let font = compiled(grid, order, first)->Ok_0;
    let bands = grid.bands()->Ok_0;
    let n = bands.len() as int;
    let ascent = max_ascent(bands, n);
    let descent = max_descent(bands, n);
    let raws = all_padded(bands, ascent, descent, n);
    lemma_built_describes(raws, raws.len() as int);
    lemma_padded_are_padded(bands, ascent, descent, n, i);
    let (b, k) = choose|b: int, k: int|
        0 <= b < n && 0 <= k < bands[b].glyphs.len() && raws[i] == #[trigger] band_padded(
            bands[b],
            ascent,
            descent,
        )[k];
    lemma_max_bounds(bands, n, b);
    lemma_bands_are_bands(grid, grid.rows as int, b);
    let (top, bottom) = choose|top: int, bottom: int|
        0 <= top <= bottom < grid.rows && #[trigger] grid.band(top, bottom) == Ok::<
            BandModel,
            crate::sheet::SheetError,
        >(bands[b]);
    let base = choose|y: int| top <= y < bottom && grid.has_blue(y);
    assert(top <= base < bottom);
    lemma_cells_are_cells(grid, base, top, bottom, grid.cols as int, k);
    let (l, r) = choose|l: int, r: int|
        0 <= l < r <= l + 64 && r < grid.cols && bands[b].glyphs[k] == #[trigger] grid.cell(
            l,
            r,
            top,
            bottom,
        );
    let cell = Cell {
        left: l,
        right: r,
        top,
        bottom,
        above: ascent - bands[b].ascent,
        below: descent - bands[b].descent,
    };
    assert(cell.on(grid));
    assert(cell.raw(grid) == raws[i]);
    assert(describes(font.glyphs[i], raws[i], font.bitmaps));
    assert forall|col: int, row: int|
        font.glyphs[i].ink(
            font.bitmaps,
            col - font.glyphs[i].origin.0,
            row - font.glyphs[i].origin.1,
        ) == #[trigger] cell.ink(grid, col, row) by {
        lemma_round_trip(grid, cell, font.glyphs[i], font.bitmaps, col, row);
    }
}

} // verus!
