//! Drawing text on a surface, pixel by pixel or run by run.

use vstd::prelude::*;
use crate::font::{inked, Font, Placement};
use crate::glyph::{bit_at, Glyph};
use crate::target::{clamped, DirectRenderTarget, RenderTarget};

verus! {

/// Whether `after` is `before` with the set pixels of the placed images
/// painted in `fg`: the same size, `fg` at each position on the surface
/// where an image has a set pixel, and every other pixel as it was. This is
/// what drawing pixel by pixel leaves.
pub open spec fn painted<T: RenderTarget>(
    before: T,
    after: T,
    marks: Seq<Placement>,
    arena: Seq<u8>,
    fg: T::Pixel,
) -> bool {
    &&& after.cols() == before.cols()
    &&& after.rows() == before.rows()
    &&& forall|px: int, py: int|
        0 <= px < before.cols() && 0 <= py < before.rows() ==> #[trigger] after.pixel(px, py) == (
        if inked(marks, arena, px, py) {
            fg
        } else {
            before.pixel(px, py)
        })
}

/// The same as `painted`, read through the surface's runs. This is what
/// drawing run by run leaves.
pub open spec fn painted_direct<T: DirectRenderTarget>(
    before: T,
    after: T,
    marks: Seq<Placement>,
    arena: Seq<u8>,
    fg: T::Pixel,
) -> bool {
    &&& after.cols() == before.cols()
    &&& after.rows() == before.rows()
    &&& forall|px: int, py: int|
        0 <= px < before.cols() && 0 <= py < before.rows() ==> #[trigger] after.pixel(px, py) == (
        if inked(marks, arena, px, py) {
            fg
        } else {
            before.pixel(px, py)
        })
}

/// Whether a surface that can be drawn on in both ways shows the same
/// pixels either way.
pub open spec fn one_surface<T>(t: T) -> bool where
    T: RenderTarget + DirectRenderTarget<Pixel = <T as RenderTarget>::Pixel>,
 {
    &&& RenderTarget::cols(&t) == DirectRenderTarget::cols(&t)
    &&& RenderTarget::rows(&t) == DirectRenderTarget::rows(&t)
    &&& forall|px: int, py: int|
        0 <= px < RenderTarget::cols(&t) && 0 <= py < RenderTarget::rows(&t)
            ==> #[trigger] RenderTarget::pixel(&t, px, py) == DirectRenderTarget::pixel(&t, px, py)
}

/// The two ways of drawing leave the same picture: where the same text is
/// drawn at the same place on the same surface, once pixel by pixel and
/// once run by run, every pixel of the one result is that of the other.
pub proof fn lemma_strategies_agree<T>(
    before: T,
    slow: T,
    direct: T,
    marks: Seq<Placement>,
    arena: Seq<u8>,
    fg: <T as RenderTarget>::Pixel,
) where T: RenderTarget + DirectRenderTarget<Pixel = <T as RenderTarget>::Pixel>
    requires
        one_surface(before),
        one_surface(slow),
        one_surface(direct),
        painted(before, slow, marks, arena, fg),
        painted_direct(before, direct, marks, arena, fg),
    ensures
        RenderTarget::cols(&slow) == RenderTarget::cols(&direct),
        RenderTarget::rows(&slow) == RenderTarget::rows(&direct),
        forall|px: int, py: int|
            0 <= px < RenderTarget::cols(&slow) && 0 <= py < RenderTarget::rows(&slow)
                ==> #[trigger] RenderTarget::pixel(&slow, px, py) == RenderTarget::pixel(
                &direct,
                px,
                py,
            ),
{
    assert forall|px: int, py: int|
        0 <= px < RenderTarget::cols(&slow) && 0 <= py < RenderTarget::rows(
            &slow,
        ) implies #[trigger] RenderTarget::pixel(&slow, px, py) == RenderTarget::pixel(
        &direct,
        px,
        py,
    ) by {
        assert(RenderTarget::pixel(&before, px, py) == DirectRenderTarget::pixel(&before, px, py));
        assert(RenderTarget::pixel(&direct, px, py) == DirectRenderTarget::pixel(&direct, px, py));
    }
}

/// Whether every row of every placed image is a row of a surface with
/// `rows` rows.
pub open spec fn rows_fit(marks: Seq<Placement>, rows: nat) -> bool {
    forall|j: int|
        0 <= j < marks.len() ==> (#[trigger] marks[j]).y + marks[j].glyph.image_height <= rows
}

/// Whether every placed image lies inside an arena of `arena_len` bytes.
pub open spec fn marks_wf(marks: Seq<Placement>, arena_len: nat) -> bool {
    forall|j: int| 0 <= j < marks.len() ==> (#[trigger] marks[j]).glyph.wf(arena_len)
}

/// Whether every row of every placed image is a row of a surface with
/// `rows` rows: what drawing run by run asks for.
pub fn check_rows_fit(marks: &Vec<Placement>, rows: usize) -> (ok: bool)
    ensures
        ok == rows_fit(marks@, rows as nat),
{
    let n = marks.len();
    let mut j: usize = 0;
    while j < n
        invariant
            j <= n == marks@.len(),
            forall|k: int|
                0 <= k < j ==> (#[trigger] marks@[k]).y + marks@[k].glyph.image_height <= rows,
        decreases n - j,
    {
        let m = &marks[j];
        let h = m.glyph.image_height as usize;
        if h > rows || m.y > rows - h {
            return false;
        }
        j += 1;
    }
    true
}

/// The glyph drawn for any character of a well-formed font lies inside
/// the font's arena.
pub proof fn lemma_glyph_for_wf(font: Font, c: char)
    requires
        font.wf(),
    ensures
        font.glyph_for(c).wf(font.bitmaps@.len()),
{
    match font.glyph_storage.index_of(c) {
        Some(i) => {
            assert(font.glyph_storage.holds(c, i));
            assert(font.glyph_storage.at(i).wf(font.bitmaps@.len()));
        },
        None => {
            assert(font.glyph_storage.at(font.replacement as int).wf(font.bitmaps@.len()));
        },
    }
}

/// Every image that a well-formed font places lies inside its arena.
pub proof fn lemma_marks_wf(font: Font, text: Seq<char>, x: int, y: int, n: int)
    requires
        font.wf(),
        0 <= n <= text.len(),
    ensures
        marks_wf(font.marks_upto(text, x, y, n), font.bitmaps@.len()),
    decreases n,
{
    if n > 0 {
        lemma_marks_wf(font, text, x, y, n - 1);
        lemma_glyph_for_wf(font, text[n - 1]);
    }
}

/// Draws row `r` of a placed image, one pixel at a time.
fn blit_row<T: RenderTarget>(target: &mut T, mark: &Placement, arena: &[u8], r: usize, fg: T::Pixel)
    requires
        mark.glyph.wf(arena@.len()),
        r < mark.glyph.image_height,
        old(target).cols() <= usize::MAX,
        old(target).rows() <= usize::MAX,
    ensures
        final(target).cols() == old(target).cols(),
        final(target).rows() == old(target).rows(),
        forall|px: int, py: int|
            0 <= px < old(target).cols() && 0 <= py < old(target).rows() ==> #[trigger] final(target).pixel(px, py) == (if py == mark.y + r && mark.ink(arena@, px, py) {
                fg
            } else {
                old(target).pixel(px, py)
            }),
{
    let y = match mark.y.checked_add(r) {
        Some(v) => v,
        None => {
            return ;
        },
    };
    let row_bytes = mark.glyph.row_bytes as usize;
    let width = row_bytes * 8;
    assert(r * row_bytes + row_bytes <= mark.glyph.image_len()) by (nonlinear_arith)
        requires
            r < mark.glyph.image_height,
            row_bytes == mark.glyph.row_bytes,
            mark.glyph.image_len() == (mark.glyph.row_bytes as nat) * (
            mark.glyph.image_height as nat),
    ;
    let n = arena.len();
    let base = mark.glyph.image_offset as usize + r * row_bytes;
    let mut col: usize = 0;
    while col < width
        invariant
            mark.glyph.wf(arena@.len()),
            r < mark.glyph.image_height,
            y == mark.y + r,
            row_bytes == mark.glyph.row_bytes,
            width == row_bytes * 8,
            base == mark.glyph.image_offset + r * row_bytes,
            base + row_bytes <= arena@.len(),
            n == arena@.len(),
            old(target).cols() <= usize::MAX,
            old(target).rows() <= usize::MAX,
            col <= width,
            target.cols() == old(target).cols(),
            target.rows() == old(target).rows(),
            forall|px: int, py: int|
                0 <= px < old(target).cols() && 0 <= py < old(target).rows()
                    ==> #[trigger] target.pixel(px, py) == (if py == y && mark.ink(arena@, px, py)
                    && px - mark.x < col {
                    fg
                } else {
                    old(target).pixel(px, py)
                }),
        decreases width - col,
    {
        let byte = arena[base + col / 8];
        let k: u8 = (col % 8) as u8;
        let set = byte & (0x80u8 >> k) != 0;
        let ghost before = *target;
        match mark.x.checked_add(col) {
            Some(x) => {
                if set {
                    target.put_pixel_slow(x, y, fg);
                }
            },
            None => {},
        }
        proof {
            assert forall|px: int, py: int|
                0 <= px < old(target).cols() && 0 <= py < old(target).rows() implies (py == y
                && mark.ink(arena@, px, py) && px - mark.x < col + 1) == ((py == y && mark.ink(
                arena@,
                px,
                py,
            ) && px - mark.x < col) || (py == y && px == mark.x + col && set)) by {
                if py == y && px == mark.x + col {
                    assert(mark.ink(arena@, px, py) == bit_at(arena@[base + col / 8], k));
                }
            }
        }
        col += 1;
    }
}

/// Draws a placed image, one pixel at a time. Pixels outside the surface
/// are dropped.
pub fn blit<T: RenderTarget>(target: &mut T, mark: &Placement, arena: &[u8], fg: T::Pixel)
    requires
        mark.glyph.wf(arena@.len()),
        old(target).cols() <= usize::MAX,
        old(target).rows() <= usize::MAX,
    ensures
        final(target).cols() == old(target).cols(),
        final(target).rows() == old(target).rows(),
        forall|px: int, py: int|
            0 <= px < old(target).cols() && 0 <= py < old(target).rows() ==> #[trigger] final(target).pixel(px, py) == (if mark.ink(arena@, px, py) {
                fg
            } else {
                old(target).pixel(px, py)
            }),
{
    let height = mark.glyph.image_height as usize;
    let mut r: usize = 0;
    while r < height
        invariant
            mark.glyph.wf(arena@.len()),
            height == mark.glyph.image_height,
            r <= height,
            target.cols() == old(target).cols(),
            target.rows() == old(target).rows(),
            old(target).cols() <= usize::MAX,
            old(target).rows() <= usize::MAX,
            forall|px: int, py: int|
                0 <= px < old(target).cols() && 0 <= py < old(target).rows()
                    ==> #[trigger] target.pixel(px, py) == (if mark.ink(arena@, px, py) && py
                    - mark.y < r {
                    fg
                } else {
                    old(target).pixel(px, py)
                }),
        decreases height - r,
    {
        blit_row(target, mark, arena, r, fg);
        r += 1;
    }
}

/// Draws row `r` of a placed image into the run of the surface row that it
/// falls on.
#[verifier::loop_isolation(false)]
fn blit_row_direct<T: DirectRenderTarget>(
    target: &mut T,
    mark: &Placement,
    arena: &[u8],
    r: usize,
    fg: T::Pixel,
)
    requires
        mark.glyph.wf(arena@.len()),
        r < mark.glyph.image_height,
        mark.y + r < old(target).rows(),
        old(target).cols() <= usize::MAX,
        old(target).rows() <= usize::MAX,
    ensures
        final(target).cols() == old(target).cols(),
        final(target).rows() == old(target).rows(),
        forall|px: int, py: int|
            0 <= px < old(target).cols() && 0 <= py < old(target).rows() ==> #[trigger] final(target).pixel(px, py) == (if py == mark.y + r && mark.ink(arena@, px, py) {
                fg
            } else {
                old(target).pixel(px, py)
            }),
{
    let y = mark.y + r;
    let row_bytes = mark.glyph.row_bytes as usize;
    let width = row_bytes * 8;
    assert(r * row_bytes + row_bytes <= mark.glyph.image_len()) by (nonlinear_arith)
        requires
            r < mark.glyph.image_height,
            row_bytes == mark.glyph.row_bytes,
            mark.glyph.image_len() == (mark.glyph.row_bytes as nat) * (
            mark.glyph.image_height as nat),
    ;
    let n = arena.len();
    let base = mark.glyph.image_offset as usize + r * row_bytes;
    let end = mark.x.saturating_add(width);
    let ghost lo = clamped(mark.x as int, old(target).cols());
    let ghost hi = clamped(end as int, old(target).cols());
    let dest = target.subrow_mut(y, mark.x..end);
    let ghost start = dest@;
    let len = dest.len();
    let mut i: usize = 0;
    while i < len
        invariant
            i <= len == dest@.len(),
            len == hi - lo,
            len <= width,
            len > 0 ==> lo == mark.x,
            forall|k: int|
                0 <= k < len ==> #[trigger] dest@[k] == (if k < i && bit_at(
                    arena@[base + k / 8],
                    (k % 8) as u8,
                ) {
                    fg
                } else {
                    start[k]
                }),
        decreases len - i,
    {
        let byte = arena[base + i / 8];
        let k: u8 = (i % 8) as u8;
        if byte & (0x80u8 >> k) != 0 {
            dest[i] = fg;
        }
        i += 1;
    }
    proof {
        assert forall|px: int, py: int|
            0 <= px < old(target).cols() && 0 <= py < old(target).rows() && py == y implies (
        lo <= px < hi && bit_at(arena@[base + (px - lo) / 8], ((px - lo) % 8) as u8)) == mark.ink(
            arena@,
            px,
            py,
        ) by {
            if lo <= px < hi {
                assert(mark.ink(arena@, px, py) == bit_at(
                    arena@[base + (px - mark.x) / 8],
                    ((px - mark.x) % 8) as u8,
                ));
            }
        }
    }
}

/// Draws a placed image run by run. Columns outside the surface are
/// dropped; every row of the image must be a row of the surface.
pub fn blit_direct<T: DirectRenderTarget>(
    target: &mut T,
    mark: &Placement,
    arena: &[u8],
    fg: T::Pixel,
)
    requires
        mark.glyph.wf(arena@.len()),
        mark.y + mark.glyph.image_height <= old(target).rows(),
        old(target).cols() <= usize::MAX,
        old(target).rows() <= usize::MAX,
    ensures
        final(target).cols() == old(target).cols(),
        final(target).rows() == old(target).rows(),
        forall|px: int, py: int|
            0 <= px < old(target).cols() && 0 <= py < old(target).rows() ==> #[trigger] final(target).pixel(px, py) == (if mark.ink(arena@, px, py) {
                fg
            } else {
                old(target).pixel(px, py)
            }),
{
    let height = mark.glyph.image_height as usize;
    let mut r: usize = 0;
    while r < height
        invariant
            mark.glyph.wf(arena@.len()),
            height == mark.glyph.image_height,
            mark.y + height <= old(target).rows(),
            r <= height,
            target.cols() == old(target).cols(),
            target.rows() == old(target).rows(),
            old(target).cols() <= usize::MAX,
            old(target).rows() <= usize::MAX,
            forall|px: int, py: int|
                0 <= px < old(target).cols() && 0 <= py < old(target).rows()
                    ==> #[trigger] target.pixel(px, py) == (if mark.ink(arena@, px, py) && py
                    - mark.y < r {
                    fg
                } else {
                    old(target).pixel(px, py)
                }),
        decreases height - r,
    {
        blit_row_direct(target, mark, arena, r, fg);
        r += 1;
    }
}

impl<'g, 'i, 'k> Font<'g, 'i, 'k> {
    /// Renders text on a single line, run by run: the same drawing as
    /// `render`, for a surface that hands out runs of its rows. Columns
    /// outside the surface are dropped. Every row that an image falls on
    /// must be a row of the surface.
    pub fn render_direct<T>(
        &self,
        string: &str,
        x: usize,
        y: usize,
        target: &mut T,
        fg: T::Pixel,
    ) where T: DirectRenderTarget
        requires
            self.wf(),
            rows_fit(self.marks(string@, x as int, y as int), old(target).rows()),
            old(target).cols() <= usize::MAX,
            old(target).rows() <= usize::MAX,
        ensures
            painted_direct(
                *old(target),
                *final(target),
                self.marks(string@, x as int, y as int),
                self.bitmaps@,
                fg,
            ),
    {
        let marks = self.render_core(string, x, y);
        proof {
            lemma_marks_wf(*self, string@, x as int, y as int, string@.len() as int);
        }
        let n = marks.len();
        let mut j: usize = 0;
        while j < n
            invariant
                j <= n == marks@.len(),
                marks_wf(marks@, self.bitmaps@.len()),
                rows_fit(marks@, old(target).rows()),
                target.cols() == old(target).cols(),
                target.rows() == old(target).rows(),
                old(target).cols() <= usize::MAX,
                old(target).rows() <= usize::MAX,
                forall|px: int, py: int|
                    0 <= px < old(target).cols() && 0 <= py < old(target).rows()
                        ==> #[trigger] target.pixel(px, py) == (if inked(
                        marks@.subrange(0, j as int),
                        self.bitmaps@,
                        px,
                        py,
                    ) {
                        fg
                    } else {
                        old(target).pixel(px, py)
                    }),
            decreases n - j,
        {
            blit_direct(target, &marks[j], self.bitmaps, fg);
            proof {
                lemma_inked_step(marks@, self.bitmaps@, j as int);
            }
            j += 1;
        }
        assert(marks@.subrange(0, n as int) =~= marks@);
    }

    /// Renders text on a single line, one pixel at a time.
    ///
    /// The box of the line has its top left at `(x, y)`: `y` is the top of
    /// the box, not the baseline (see `baseline_to_y`). Pixels that are set
    /// in the glyphs are filled with `fg`; all others stay as they are.
    /// Pixels that fall outside the surface are dropped. Kerning counts; a
    /// newline is a character like any other.
    pub fn render<T>(&self, string: &str, x: usize, y: usize, target: &mut T, fg: T::Pixel) where
        T: RenderTarget,

        requires
            self.wf(),
            old(target).cols() <= usize::MAX,
            old(target).rows() <= usize::MAX,
        ensures
            painted(
                *old(target),
                *final(target),
                self.marks(string@, x as int, y as int),
                self.bitmaps@,
                fg,
            ),
    {
        let marks = self.render_core(string, x, y);
        proof {
            lemma_marks_wf(*self, string@, x as int, y as int, string@.len() as int);
        }
        let n = marks.len();
        let mut j: usize = 0;
        while j < n
            invariant
                j <= n == marks@.len(),
                marks_wf(marks@, self.bitmaps@.len()),
                target.cols() == old(target).cols(),
                target.rows() == old(target).rows(),
                old(target).cols() <= usize::MAX,
                old(target).rows() <= usize::MAX,
                forall|px: int, py: int|
                    0 <= px < old(target).cols() && 0 <= py < old(target).rows()
                        ==> #[trigger] target.pixel(px, py) == (if inked(
                        marks@.subrange(0, j as int),
                        self.bitmaps@,
                        px,
                        py,
                    ) {
                        fg
                    } else {
                        old(target).pixel(px, py)
                    }),
            decreases n - j,
        {
            blit(target, &marks[j], self.bitmaps, fg);
            proof {
                lemma_inked_step(marks@, self.bitmaps@, j as int);
            }
            j += 1;
        }
        assert(marks@.subrange(0, n as int) =~= marks@);
    }
}

/// A position is inked by the first `j + 1` placements exactly if it is
/// inked by the first `j` or by placement `j`.
pub proof fn lemma_inked_step(marks: Seq<Placement>, arena: Seq<u8>, j: int)
    requires
        0 <= j < marks.len(),
    ensures
        forall|px: int, py: int|
            #[trigger] inked(marks.subrange(0, j + 1), arena, px, py) == (inked(
                marks.subrange(0, j),
                arena,
                px,
                py,
            ) || marks[j].ink(arena, px, py)),
{
    let more = marks.subrange(0, j + 1);
    let less = marks.subrange(0, j);
    assert forall|px: int, py: int|
        #[trigger] inked(more, arena, px, py) == (inked(less, arena, px, py) || marks[j].ink(
            arena,
            px,
            py,
        )) by {
        if inked(more, arena, px, py) {
            let k = choose|k: int| 0 <= k < more.len() && (#[trigger] more[k]).ink(arena, px, py);
            if k < j {
                assert(less[k].ink(arena, px, py));
            }
        }
        if inked(less, arena, px, py) {
            let k = choose|k: int| 0 <= k < less.len() && (#[trigger] less[k]).ink(arena, px, py);
            assert(more[k].ink(arena, px, py));
        }
        if marks[j].ink(arena, px, py) {
            assert(more[j].ink(arena, px, py));
        }
    }
}

} // verus!
