//! Glyph descriptors and the two ways a font stores them.

use vstd::prelude::*;

verus! {

/// Number of distinct values of a 32-bit code point difference.
pub open spec fn code_space() -> int {
    0x1_0000_0000
}

/// Whether bit `k` of `byte` is set, counting from the most significant bit.
pub open spec fn bit_at(byte: u8, k: u8) -> bool {
    byte & (0x80u8 >> k) != 0
}

/// Data for a single glyph in a font.
#[derive(Copy, Clone, Debug, Eq, PartialEq)]
pub struct Glyph {
    /// Width of each pixel row of the image, in bytes (units of 8 pixels).
    /// Zero for a blank glyph.
    pub row_bytes: u8,
    /// Position of the image in the font's bitmap arena.
    pub image_offset: u16,
    /// Number of pixel rows in the image.
    pub image_height: u8,
    /// Displacement (x, y) from the top left of the glyph's box to the top
    /// left pixel of the image.
    pub origin: (u8, u8),
    /// Default horizontal pen movement after this glyph.
    pub advance: u8,
}

impl Glyph {
    /// Number of arena bytes the image occupies.
    pub open spec fn image_len(&self) -> nat {
        (self.row_bytes as nat) * (self.image_height as nat)
    }

    /// The image lies inside an arena of `arena_len` bytes, and a glyph
    /// without row bytes has no rows.
    pub open spec fn wf(&self, arena_len: nat) -> bool {
        &&& self.row_bytes == 0 ==> self.image_height == 0
        &&& self.image_offset as nat + self.image_len() <= arena_len
    }

    /// Whether the image has a set pixel at column `col`, row `row`, both
    /// counted from the image's top left. False outside the image.
    pub open spec fn ink(&self, arena: Seq<u8>, col: int, row: int) -> bool {
        &&& 0 <= row < self.image_height
        &&& 0 <= col < 8 * self.row_bytes
        &&& bit_at(
            arena[self.image_offset + row * self.row_bytes + col / 8],
            (col % 8) as u8,
        )
    }

    /// Whether the glyph is well formed for an arena of `arena_len` bytes.
    pub fn is_wf(&self, arena_len: usize) -> (ok: bool)
        ensures
            ok == self.wf(arena_len as nat),
    {
        let offset = self.image_offset as usize;
        let height = self.image_height as usize;
        let row_bytes = self.row_bytes as usize;
        assert(row_bytes * height <= 255 * 255) by (nonlinear_arith)
            requires
                row_bytes <= 255,
                height <= 255,
        ;
        let len = row_bytes * height;
        !(self.row_bytes == 0 && self.image_height != 0) && offset <= arena_len && len <= arena_len
            - offset
    }

    /// Checks whether this glyph has an image, i.e. is not blank.
    pub fn has_image(&self) -> (b: bool)
        ensures
            b == (self.row_bytes != 0),
    {
        self.row_bytes != 0
    }

    /// Adds this glyph's origin to the given coordinates, giving the top left
    /// of the glyph's image.
    pub fn displace_usize(&self, x: usize, y: usize) -> (at: (usize, usize))
        requires
            x + self.origin.0 <= usize::MAX,
            y + self.origin.1 <= usize::MAX,
        ensures
            at.0 == x + self.origin.0,
            at.1 == y + self.origin.1,
    {
        (x + self.origin.0 as usize, y + self.origin.1 as usize)
    }

    /// Width in pixels of this glyph's image.
    pub fn width_in_pixels(&self) -> (w: usize)
        ensures
            w == 8 * self.row_bytes,
    {
        self.row_bytes_usize() * 8
    }

    /// Slices this glyph's image out of a shared bitmap arena.
    pub fn slice_bitmap<'b>(&self, bitmap: &'b [u8]) -> (image: &'b [u8])
        requires
            self.image_offset as nat + self.image_len() <= bitmap@.len(),
        ensures
            image@ == bitmap@.subrange(
                self.image_offset as int,
                self.image_offset + self.image_len(),
            ),
    {
        let data_off = self.image_offset as usize;
        let height = self.image_height as usize;
        let row_bytes = self.row_bytes_usize();
        assert(row_bytes * height <= 255 * 255) by (nonlinear_arith)
            requires
                row_bytes <= 255,
                height <= 255,
        ;
        let data_len = row_bytes * height;
        vstd::slice::slice_subrange(bitmap, data_off, data_off + data_len)
    }

    /// The default horizontal advance, as a `usize`.
    pub fn default_advance_usize(&self) -> (a: usize)
        ensures
            a == self.advance,
    {
        self.advance as usize
    }

    /// The number of bitmap bytes in a row of the image, as a `usize`.
    pub fn row_bytes_usize(&self) -> (n: usize)
        ensures
            n == self.row_bytes,
    {
        self.row_bytes as usize
    }
}

/// Storage for the set of glyphs that make up a font.
#[derive(Copy, Clone, Debug)]
pub enum GlyphStorage<'g> {
    /// Glyphs for a contiguous range of code points.
    Dense {
        /// Code point of `glyphs[0]`.
        first: u8,
        /// Glyphs of consecutive code points from `first` on.
        glyphs: &'g [Glyph],
    },
    /// Glyphs for scattered code points, in ascending order of code point.
    Sparse {
        /// Pairs of code point and glyph; no code point occurs twice.
        sorted_glyphs: &'g [(char, Glyph)],
    },
}

/// Whether `pairs` ascends strictly by code point.
pub open spec fn ascending(pairs: Seq<(char, Glyph)>) -> bool {
    forall|i: int, j: int| 0 <= i < j < pairs.len() ==> pairs[i].0 < pairs[j].0
}

/// Distance from `first` to `c` in 32-bit wrapping arithmetic.
pub open spec fn dense_index(first: u8, c: char) -> int {
    if c as u32 >= first {
        c as u32 - first
    } else {
        c as u32 - first + code_space()
    }
}

impl<'g> GlyphStorage<'g> {
    /// Number of glyphs held.
    pub open spec fn count(&self) -> nat {
        match *self {
            GlyphStorage::Dense { first, glyphs } => glyphs@.len(),
            GlyphStorage::Sparse { sorted_glyphs } => sorted_glyphs@.len(),
        }
    }

    /// The glyph at a storage index below `count()`.
    pub open spec fn at(&self, index: int) -> Glyph {
        match *self {
            GlyphStorage::Dense { first, glyphs } => glyphs@[index],
            GlyphStorage::Sparse { sorted_glyphs } => sorted_glyphs@[index].1,
        }
    }

    /// A sparse table ascends strictly; a dense one is always in order.
    pub open spec fn wf(&self) -> bool {
        match *self {
            GlyphStorage::Dense { first, glyphs } => true,
            GlyphStorage::Sparse { sorted_glyphs } => ascending(sorted_glyphs@),
        }
    }

    /// Whether index `i` holds the glyph of code point `c`.
    pub open spec fn holds(&self, c: char, i: int) -> bool {
        match *self {
            GlyphStorage::Dense { first, glyphs } => {
                i == dense_index(first, c) && i < glyphs@.len()
            },
            GlyphStorage::Sparse { sorted_glyphs } => {
                0 <= i < sorted_glyphs@.len() && sorted_glyphs@[i].0 == c
            },
        }
    }

    /// The storage index of code point `c`, if it has a glyph.
    pub open spec fn index_of(&self, c: char) -> Option<int> {
        if exists|i: int| self.holds(c, i) {
            Some(choose|i: int| self.holds(c, i))
        } else {
            None
        }
    }

    /// The glyph of code point `c`, if the storage has one.
    pub open spec fn lookup(&self, c: char) -> Option<Glyph> {
        match self.index_of(c) {
            Some(i) => Some(self.at(i)),
            None => None,
        }
    }

    /// In well-formed storage at most one index holds a code point.
    pub proof fn lemma_holds_unique(&self, c: char, i: int, j: int)
        requires
            self.wf(),
            self.holds(c, i),
            self.holds(c, j),
        ensures
            i == j,
    {
    }

    /// Dense lookup: code point `first + i` resolves to glyph `i` for each
    /// `i` below the number of glyphs, and every other code point misses.
    /// (A table so long that code points below `first` wrap round into it
    /// is left out.)
    pub proof fn lemma_dense_lookup(&self, c: char)
        requires
            *self matches GlyphStorage::Dense { first, glyphs } && glyphs@.len() <= code_space()
                - 0x100,
        ensures
            *self matches GlyphStorage::Dense { first, glyphs } && self.lookup(c) == (if first
                <= c as u32 && c as u32 - first < glyphs@.len() {
                Some(glyphs@[c as u32 - first])
            } else {
                None
            }),
    {
        if let GlyphStorage::Dense { first, glyphs } = *self {
            let i = dense_index(first, c);
            if i < glyphs@.len() {
                assert(self.holds(c, i));
                let k = choose|k: int| self.holds(c, k);
                self.lemma_holds_unique(c, k, i);
            }
        }
    }

    /// Looks up a `char`. Gives `None` if the storage has no glyph for it.
    /// Whatever the order of a sparse table, a glyph that is returned stands
    /// in the table under `c`; in well-formed storage the result is exactly
    /// `lookup(c)`.
    pub fn get(&self, c: char) -> (found: Option<&Glyph>)
        ensures
            match found {
                Some(g) => exists|i: int| self.holds(c, i) && *g == self.at(i),
                None => self.wf() ==> self.lookup(c) is None,
            },
            self.wf() ==> match found {
                Some(g) => self.lookup(c) == Some(*g),
                None => self.lookup(c) is None,
            },
    {
        match self {
            GlyphStorage::Dense { first, glyphs } => {
                let i = (c as u32).wrapping_sub(*first as u32) as usize;
                assert(i == dense_index(*first, c));
                if i < glyphs.len() {
                    assert(self.holds(c, i as int));
                    proof {
                        let k = choose|k: int| self.holds(c, k);
                        self.lemma_holds_unique(c, k, i as int);
                    }
                    Some(&glyphs[i])
                } else {
                    None
                }
            },
            GlyphStorage::Sparse { sorted_glyphs } => {
                let mut lo: usize = 0;
                let mut hi: usize = sorted_glyphs.len();
                while lo < hi
                    invariant
                        lo <= hi <= sorted_glyphs@.len(),
                        *self == (GlyphStorage::Sparse { sorted_glyphs: *sorted_glyphs }),
                        ascending(sorted_glyphs@) ==> forall|i: int|
                            0 <= i < lo ==> (#[trigger] sorted_glyphs@[i]).0 != c,
                        ascending(sorted_glyphs@) ==> forall|i: int|
                            hi <= i < sorted_glyphs@.len() ==> (#[trigger] sorted_glyphs@[i]).0 != c,
                    decreases hi - lo,
                {
                    let mid = lo + (hi - lo) / 2;
                    let probe = sorted_glyphs[mid].0;
                    if probe == c {
                        assert(self.holds(c, mid as int));
                        proof {
                            if self.wf() {
                                let k = choose|k: int| self.holds(c, k);
                                self.lemma_holds_unique(c, k, mid as int);
                            }
                        }
                        let g = &sorted_glyphs[mid].1;
                        assert(self.holds(c, mid as int) && *g == self.at(mid as int));
                        return Some(g);
                    } else if probe < c {
                        lo = mid + 1;
                    } else {
                        hi = mid;
                    }
                }
                None
            },
        }
    }

    /// Number of glyphs held.
    pub fn len(&self) -> (n: usize)
        ensures
            n == self.count(),
    {
        match self {
            GlyphStorage::Dense { first, glyphs } => glyphs.len(),
            GlyphStorage::Sparse { sorted_glyphs } => sorted_glyphs.len(),
        }
    }

    /// Looks up a glyph by storage index, as the replacement glyph is found.
    pub fn get_by_index(&self, index: usize) -> (found: Option<&Glyph>)
        ensures
            index < self.count() ==> found == Some(&self.at(index as int)),
            index >= self.count() ==> found is None,
    {
        match self {
            GlyphStorage::Dense { first, glyphs } => {
                if index < glyphs.len() {
                    Some(&glyphs[index])
                } else {
                    None
                }
            },
            GlyphStorage::Sparse { sorted_glyphs } => {
                if index < sorted_glyphs.len() {
                    Some(&sorted_glyphs[index].1)
                } else {
                    None
                }
            },
        }
    }
}

} // verus!
