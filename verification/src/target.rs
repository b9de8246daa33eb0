//! Surfaces that text is drawn on: one pixel at a time, or run by run
//! within a row.

use vstd::prelude::*;

verus! {

/// `v`, held to at most `cols`.
pub open spec fn clamped(v: int, cols: nat) -> int {
    if v <= cols {
        v
    } else {
        cols as int
    }
}

/// A surface that takes one pixel at a time and ignores pixels outside it.
pub trait RenderTarget {
    type Pixel: Copy + 'static;

    /// Number of pixel columns. A surface that says nothing counts as
    /// empty.
    open spec fn cols(&self) -> nat {
        0
    }

    /// Number of pixel rows. A surface that says nothing counts as empty.
    open spec fn rows(&self) -> nat {
        0
    }

    /// The pixel at column `x`, row `y`, for a position on the surface.
    open spec fn pixel(&self, x: int, y: int) -> Self::Pixel {
        arbitrary()
    }

    /// Sets the pixel at `(x, y)` if that position is on the surface, and
    /// does nothing if it is not. No other pixel changes.
    fn put_pixel_slow(&mut self, x: usize, y: usize, pixel: Self::Pixel)
        ensures
            final(self).cols() == old(self).cols(),
            final(self).rows() == old(self).rows(),
            forall|px: int, py: int|
                0 <= px < old(self).cols() && 0 <= py < old(self).rows() ==> #[trigger] final(self).pixel(px, py) == (if px == x && py == y {
                    pixel
                } else {
                    old(self).pixel(px, py)
                }),
    ;
}

/// A surface of one channel whose rows lie flat in memory, so that a run of
/// pixels within a row can be handed out for writing.
pub trait DirectRenderTarget {
    type Pixel: Copy + 'static;

    /// Number of pixel columns. A surface that says nothing counts as
    /// empty.
    open spec fn cols(&self) -> nat {
        0
    }

    /// Number of pixel rows. A surface that says nothing counts as empty.
    open spec fn rows(&self) -> nat {
        0
    }

    /// The pixel at column `x`, row `y`, for a position on the surface.
    open spec fn pixel(&self, x: int, y: int) -> Self::Pixel {
        arbitrary()
    }

    /// The pixels of row `y` in the columns of `x`, cut off at the right
    /// edge of the surface, for writing. What is written there is in the
    /// surface afterwards; no other pixel changes. (The last clause is
    /// stated for a run that keeps its length, as every run does.)
    fn subrow_mut(&mut self, y: usize, x: core::ops::Range<usize>) -> (run: &mut [Self::Pixel])
        requires
            y < old(self).rows(),
            x.start <= x.end,
        ensures
            run@.len() == clamped(x.end as int, old(self).cols()) - clamped(
                x.start as int,
                old(self).cols(),
            ),
            forall|i: int|
                0 <= i < run@.len() ==> #[trigger] run@[i] == old(self).pixel(
                    clamped(x.start as int, old(self).cols()) + i,
                    y as int,
                ),
            final(run)@.len() == run@.len() ==> {
                &&& final(self).cols() == old(self).cols()
                &&& final(self).rows() == old(self).rows()
                &&& forall|px: int, py: int|
                    0 <= px < old(self).cols() && 0 <= py < old(self).rows()
                        ==> #[trigger] final(self).pixel(px, py) == (if py == y && clamped(
                        x.start as int,
                        old(self).cols(),
                    ) <= px < clamped(x.end as int, old(self).cols()) {
                        final(run)@[px - clamped(x.start as int, old(self).cols())]
                    } else {
                        old(self).pixel(px, py)
                    })
            },
    ;
}

/// A surface of 8-bit pixels in memory, row by row.
#[derive(Clone, Debug)]
pub struct Canvas {
    width: usize,
    height: usize,
    data: Vec<u8>,
}

/// The place in memory of position `(x, y)` on a surface of `w` columns.
pub open spec fn place(w: int, x: int, y: int) -> int {
    y * w + x
}

/// Positions on a surface of `w` columns have distinct places in memory,
/// within `w * h`.
pub proof fn lemma_place(w: int, h: int, x: int, y: int)
    requires
        0 <= x < w,
        0 <= y < h,
    ensures
        0 <= y * w + x < w * h,
        (y * w + x) / w == y,
        (y * w + x) % w == x,
        0 <= y * w,
        y * w + w <= w * h,
{
    assert(0 <= y * w && y * w + w <= w * h) by (nonlinear_arith)
        requires
            0 <= y < h,
            0 < w,
    ;
    vstd::arithmetic::div_mod::lemma_fundamental_div_mod_converse(y * w + x, w, y, x);
}

impl Canvas {
    /// There is one pixel for each position.
    pub closed spec fn wf(&self) -> bool {
        self.data@.len() == self.width * self.height
    }

    /// A surface of `width * height` pixels, all of value `fill`. There is
    /// none if the number of pixels does not fit in `usize`.
    pub fn new(width: usize, height: usize, fill: u8) -> (canvas: Option<Canvas>)
        ensures
            match canvas {
                Some(c) => {
                    &&& c.wf()
                    &&& RenderTarget::cols(&c) == width
                    &&& RenderTarget::rows(&c) == height
                    &&& forall|x: int, y: int|
                        0 <= x < width && 0 <= y < height ==> #[trigger] RenderTarget::pixel(
                            &c,
                            x,
                            y,
                        ) == fill
                },
                None => width * height > usize::MAX,
            },
    {
        match width.checked_mul(height) {
            Some(n) => {
                let mut data: Vec<u8> = Vec::new();
                let mut i: usize = 0;
                while i < n
                    invariant
                        i <= n,
                        data@.len() == i,
                        forall|k: int| 0 <= k < i ==> data@[k] == fill,
                    decreases n - i,
                {
                    data.push(fill);
                    i += 1;
                }
                proof {
                    assert forall|x: int, y: int| 0 <= x < width && 0 <= y < height implies 0
                        <= #[trigger] place(width as int, x, y) < n by {
                        lemma_place(width as int, height as int, x, y);
                    }
                }
                Some(Canvas { width, height, data })
            },
            None => None,
        }
    }

    /// Number of pixel columns.
    pub fn width(&self) -> (w: usize)
        ensures
            self.wf() ==> w == RenderTarget::cols(self),
    {
        self.width
    }

    /// Number of pixel rows.
    pub fn height(&self) -> (h: usize)
        ensures
            self.wf() ==> h == RenderTarget::rows(self),
    {
        self.height
    }

    /// The pixel at column `x`, row `y`, if that position is on the
    /// surface.
    pub fn get_pixel(&self, x: usize, y: usize) -> (p: Option<u8>)
        ensures
            p == (if x < RenderTarget::cols(self) && y < RenderTarget::rows(self) {
                Some(RenderTarget::pixel(self, x as int, y as int))
            } else {
                None
            }),
    {
        let n = self.data.len();
        match self.width.checked_mul(self.height) {
            Some(m) => {
                if m == n && x < self.width && y < self.height {
                    proof {
                        lemma_place(self.width as int, self.height as int, x as int, y as int);
                    }
                    Some(self.data[y * self.width + x])
                } else {
                    None
                }
            },
            None => None,
        }
    }
}

impl Canvas {
    /// A canvas shows the same pixels pixel by pixel and run by run, and its
    /// size fits in `usize`.
    pub proof fn lemma_one_surface(&self)
        ensures
            RenderTarget::cols(self) <= usize::MAX,
            RenderTarget::rows(self) <= usize::MAX,
            RenderTarget::cols(self) == DirectRenderTarget::cols(self),
            RenderTarget::rows(self) == DirectRenderTarget::rows(self),
            forall|x: int, y: int|
                #[trigger] RenderTarget::pixel(self, x, y) == DirectRenderTarget::pixel(self, x, y),
    {
    }
}

impl RenderTarget for Canvas {
    type Pixel = u8;

    closed spec fn cols(&self) -> nat {
        if self.wf() {
            self.width as nat
        } else {
            0
        }
    }

    closed spec fn rows(&self) -> nat {
        if self.wf() {
            self.height as nat
        } else {
            0
        }
    }

    closed spec fn pixel(&self, x: int, y: int) -> u8 {
        self.data@[place(self.width as int, x, y)]
    }

    fn put_pixel_slow(&mut self, x: usize, y: usize, pixel: u8) {
        let n = self.data.len();
        match self.width.checked_mul(self.height) {
            Some(m) => {
                if m == n && x < self.width && y < self.height {
                    proof {
                        lemma_place(self.width as int, self.height as int, x as int, y as int);
                    }
                    let i = y * self.width + x;
                    self.data.set(i, pixel);
                    proof {
                        let w = self.width as int;
                        let h = self.height as int;
                        assert forall|px: int, py: int| 0 <= px < w && 0 <= py < h implies 0 <= (
                        #[trigger] place(w, px, py)) < n && (place(w, px, py) == i) == (px == x
                            && py == y) by {
                            lemma_place(w, h, px, py);
                        }
                    }
                }
            },
            None => {},
        }
    }
}

impl DirectRenderTarget for Canvas {
    type Pixel = u8;

    closed spec fn cols(&self) -> nat {
        RenderTarget::cols(self)
    }

    closed spec fn rows(&self) -> nat {
        RenderTarget::rows(self)
    }

    closed spec fn pixel(&self, x: int, y: int) -> u8 {
        RenderTarget::pixel(self, x, y)
    }

    fn subrow_mut(&mut self, y: usize, x: core::ops::Range<usize>) -> (run: &mut [u8]) {
        let w = self.width;
        let ghost h = self.height as int;
        let ghost before = self.data@;
        let n = self.data.len();
        assert(0 <= y * w && y * w + w <= w * h) by (nonlinear_arith)
            requires
                0 <= y < h,
                0 <= w,
        ;
        let lo = if x.start <= w {
            x.start
        } else {
            w
        };
        let hi = if x.end <= w {
            x.end
        } else {
            w
        };
        let from = y * w + lo;
        let to = y * w + hi;
        let whole = self.data.as_mut_slice();
        let (head, _tail) = whole.split_at_mut(to);
        let (_pre, run) = head.split_at_mut(from);
        proof {
            assert forall|px: int, py: int| 0 <= px < w && 0 <= py < h implies 0
                <= #[trigger] place(w as int, px, py) < w * h && ((from <= place(w as int, px, py)
                < to) == (py == y && lo <= px < hi)) by {
                lemma_place(w as int, h, px, py);
                if py < y {
                    assert(py * w + w <= y * w) by (nonlinear_arith)
                        requires
                            py + 1 <= y,
                            0 < w,
                    ;
                } else if py > y {
                    assert(y * w + w <= py * w) by (nonlinear_arith)
                        requires
                            y + 1 <= py,
                            0 < w,
                    ;
                }
            }
        }
        run
    }
}

} // verus!
