//! The font value and the layout of a line of text: which glyph stands for
//! each character, where the pen is before and after it, and where each
//! glyph image lands.

use vstd::prelude::*;
use crate::glyph::{Glyph, GlyphStorage};
use crate::kerning::{saturate, KerningState, KerningTable};

verus! {

/// A font: a typeface at one size, held as bitmaps.
#[derive(Copy, Clone, Debug)]
pub struct Font<'g, 'i, 'k> {
    /// Rows from the top of a line's box down to the baseline.
    pub ascent: u8,
    /// Rows from the baseline down to the bottom of the box.
    pub descent: u8,
    /// Rows from the box of one line to the box of the next.
    pub line_spacing: u8,
    /// The glyphs.
    pub glyph_storage: GlyphStorage<'g>,
    /// Storage index of the glyph drawn for characters that have none.
    pub replacement: u8,
    /// The bitmap arena that the glyphs' images lie in.
    pub bitmaps: &'i [u8],
    /// Adjustments between pairs of characters.
    pub kerning: KerningTable<'k>,
}

/// Where the image of one glyph lands: the surface position of its top left
/// pixel, and the glyph.
#[derive(Copy, Clone, Debug)]
pub struct Placement {
    pub x: usize,
    pub y: usize,
    pub glyph: Glyph,
}

impl Placement {
    /// Whether the placed image has a set pixel at surface position
    /// `(px, py)`.
    pub open spec fn ink(&self, arena: Seq<u8>, px: int, py: int) -> bool {
        self.glyph.ink(arena, px - self.x, py - self.y)
    }
}

/// Whether any of `marks` has a set pixel at surface position `(px, py)`.
pub open spec fn inked(marks: Seq<Placement>, arena: Seq<u8>, px: int, py: int) -> bool {
    exists|j: int| 0 <= j < marks.len() && (#[trigger] marks[j]).ink(arena, px, py)
}

impl<'g, 'i, 'k> Font<'g, 'i, 'k> {
    /// The tables are in order, the replacement glyph exists, and every
    /// glyph's image lies inside the arena.
    pub open spec fn wf(&self) -> bool {
        &&& self.glyph_storage.wf()
        &&& self.kerning.wf()
        &&& (self.replacement as nat) < self.glyph_storage.count()
        &&& forall|i: int|
            0 <= i < self.glyph_storage.count() ==> (#[trigger] self.glyph_storage.at(i)).wf(
                self.bitmaps@.len(),
            )
    }

    /// The glyph drawn for `c`: its own, or the replacement glyph.
    pub open spec fn glyph_for(&self, c: char) -> Glyph {
        match self.glyph_storage.lookup(c) {
            Some(g) => g,
            None => self.glyph_storage.at(self.replacement as int),
        }
    }

    /// The pen position at which character `k` of `text` is drawn, when the
    /// line starts at `x`: after the advances of the characters before it
    /// and the kerning between neighbours, each step saturating.
    pub open spec fn pen_before(&self, text: Seq<char>, x: int, k: int) -> int
        decreases k, 0int,
    {
        if k <= 0 {
            x
        } else {
            saturate(self.pen_after(text, x, k - 1) + self.kerning.kern(text[k - 1], text[k]))
        }
    }

    /// The pen position after character `k` of `text` is drawn.
    pub open spec fn pen_after(&self, text: Seq<char>, x: int, k: int) -> int
        decreases k, 1int,
    {
        if k < 0 {
            x
        } else {
            saturate(self.pen_before(text, x, k) + self.glyph_for(text[k]).advance)
        }
    }

    /// The pen position after the whole of `text`.
    pub open spec fn pen_end(&self, text: Seq<char>, x: int) -> int {
        self.pen_after(text, x, text.len() - 1)
    }

    /// The placements of the images of the first `n` characters of `text`,
    /// for a line whose box has its top left at `(x, y)`. Blank glyphs and
    /// images whose top left is beyond `usize` have none.
    pub open spec fn marks_upto(&self, text: Seq<char>, x: int, y: int, n: int) -> Seq<Placement>
        decreases n,
    {
        if n <= 0 {
            Seq::empty()
        } else {
            let before = self.marks_upto(text, x, y, n - 1);
            let g = self.glyph_for(text[n - 1]);
            let gx = self.pen_before(text, x, n - 1) + g.origin.0;
            let gy = y + g.origin.1;
            if g.row_bytes != 0 && gx <= usize::MAX && gy <= usize::MAX {
                before.push(Placement { x: gx as usize, y: gy as usize, glyph: g })
            } else {
                before
            }
        }
    }

    /// The placements of all images of `text`.
    pub open spec fn marks(&self, text: Seq<char>, x: int, y: int) -> Seq<Placement> {
        self.marks_upto(text, x, y, text.len() as int)
    }

    /// Whether the font is well formed.
    pub fn is_wf(&self) -> (ok: bool)
        ensures
            ok == self.wf(),
    {
        if !storage_in_order(&self.glyph_storage) {
            return false;
        }
        if !table_in_order(&self.kerning) {
            return false;
        }
        let n = self.glyph_storage.len();
        if self.replacement as usize >= n {
            return false;
        }
        let arena_len = self.bitmaps.len();
        let mut i: usize = 0;
        while i < n
            invariant
                n == self.glyph_storage.count(),
                arena_len == self.bitmaps@.len(),
                i <= n,
                forall|k: int|
                    0 <= k < i ==> (#[trigger] self.glyph_storage.at(k)).wf(self.bitmaps@.len()),
            decreases n - i,
        {
            match self.glyph_storage.get_by_index(i) {
                Some(g) => {
                    if !g.is_wf(arena_len) {
                        return false;
                    }
                },
                None => {},
            }
            i += 1;
        }
        true
    }

    /// The row of the top of the box of a line whose baseline is row
    /// `baseline`, as `render` wants it. There is none when the baseline is
    /// less than the ascent: the top would be negative.
    pub fn baseline_to_y(&self, baseline: usize) -> (top: Option<usize>)
        ensures
            baseline >= self.ascent ==> top == Some((baseline - self.ascent) as usize),
            baseline < self.ascent ==> top is None,
    {
        baseline.checked_sub(self.ascent as usize)
    }

    /// The spacing between lines of text, as a `usize`.
    pub fn line_spacing_usize(&self) -> (rows: usize)
        ensures
            rows == self.line_spacing,
    {
        self.line_spacing as usize
    }

    /// The glyph for `c`, or the replacement glyph if the font has none.
    pub fn get_glyph_or_replacement(&self, c: char) -> (glyph: &Glyph)
        requires
            self.wf(),
        ensures
            *glyph == self.glyph_for(c),
    {
        match self.glyph_storage.get(c) {
            Some(g) => g,
            None => {
                match self.glyph_storage.get_by_index(self.replacement as usize) {
                    Some(g) => g,
                    None => {
                        proof {
                            assert(false);
                        }
                        vstd::pervasive::unreached()
                    },
                }
            },
        }
    }

    /// The width in pixels of `c` alone: its glyph's advance. Kerning is
    /// left out, so the widths of a string's characters do not add up to
    /// the string's width.
    pub fn char_width(&self, c: char) -> (w: usize)
        requires
            self.wf(),
        ensures
            w == self.glyph_for(c).advance,
    {
        self.get_glyph_or_replacement(c).advance as usize
    }

    /// The width in pixels of `s` drawn on one line: where the pen ends
    /// when it starts at 0. Kerning counts; a newline is a character like
    /// any other.
    pub fn width(&self, s: &str) -> (w: usize)
        requires
            self.wf(),
        ensures
            w == self.pen_end(s@, 0),
    {
        let mut x: usize = 0;
        let mut kerning = self.start_kerning();
        for c in it: s.chars()
            invariant
                self.wf(),
                it.seq() == s@,
                kerning.table() == self.kerning,
                kerning.last_char() == (if it.index() == 0 {
                    None
                } else {
                    Some(s@[it.index() - 1])
                }),
                x == self.pen_after(s@, 0, it.index() - 1),
        {
            kerning.adjust_usize_for_char(c, &mut x);
            assert(x == self.pen_before(s@, 0, it.index() as int));
            x = x.saturating_add(self.char_width(c));
        }
        x
    }

    /// Lays out `string` on one line whose box has its top left at
    /// `(x, y)`: the placement of each glyph image, in the order of the
    /// characters.
    pub fn render_core(&self, string: &str, x: usize, y: usize) -> (marks: Vec<Placement>)
        requires
            self.wf(),
        ensures
            marks@ == self.marks(string@, x as int, y as int),
    {
        let mut marks: Vec<Placement> = Vec::new();
        let mut pen_x: usize = x;
        let mut kerning = self.start_kerning();
        for c in it: string.chars()
            invariant
                self.wf(),
                it.seq() == string@,
                kerning.table() == self.kerning,
                kerning.last_char() == (if it.index() == 0 {
                    None
                } else {
                    Some(string@[it.index() - 1])
                }),
                pen_x == self.pen_after(string@, x as int, it.index() - 1),
                marks@ == self.marks_upto(string@, x as int, y as int, it.index() as int),
        {
            kerning.adjust_usize_for_char(c, &mut pen_x);
            assert(pen_x == self.pen_before(string@, x as int, it.index() as int));
            let glyph = self.get_glyph_or_replacement(c);
            if glyph.has_image() && pen_x <= usize::MAX - glyph.origin.0 as usize && y
                <= usize::MAX - glyph.origin.1 as usize {
                let (gx, gy) = glyph.displace_usize(pen_x, y);
                marks.push(Placement { x: gx, y: gy, glyph: *glyph });
            }
            pen_x = pen_x.saturating_add(glyph.default_advance_usize());
        }
        marks
    }

    /// A kerning state for the start of a line.
    pub fn start_kerning(&self) -> (state: KerningState<'k>)
        ensures
            state.table() == self.kerning,
            state.last_char() is None,
    {
        KerningState::new(self.kerning)
    }
}

/// Kerning: the width of two characters is the sum of their widths and of
/// the adjustment between them, which is zero where the table has no entry.
/// (An adjustment that would move the pen left of zero is left out: there
/// the pen stops at zero.)
pub proof fn lemma_width_of_pair(font: Font, a: char, b: char)
    requires
        font.glyph_for(a).advance + font.kerning.kern(a, b) >= 0,
    ensures
        font.pen_end(seq![a, b], 0) == font.pen_end(seq![a], 0) + font.kerning.kern(a, b)
            + font.pen_end(seq![b], 0),
        font.kerning.find(a, b) is None ==> font.pen_end(seq![a, b], 0) == font.pen_end(seq![a], 0)
            + font.pen_end(seq![b], 0),
{
    let pair = seq![a, b];
    assert(pair[0] == a && pair[1] == b);
    assert(seq![a][0] == a);
    assert(seq![b][0] == b);
    assert(font.pen_before(pair, 0, 0) == 0);
    assert(font.pen_after(pair, 0, 0) == font.glyph_for(a).advance);
    assert(font.pen_before(pair, 0, 1) == font.glyph_for(a).advance + font.kerning.kern(a, b));
    assert(font.pen_before(seq![a], 0, 0) == 0);
    assert(font.pen_before(seq![b], 0, 0) == 0);
}

/// Whether a glyph table is in order.
pub fn storage_in_order(storage: &GlyphStorage) -> (ok: bool)
    ensures
        ok == storage.wf(),
{
    match storage {
        GlyphStorage::Dense { first, glyphs } => true,
        GlyphStorage::Sparse { sorted_glyphs } => {
            let n = sorted_glyphs.len();
            if n == 0 {
                return true;
            }
            let mut i: usize = 1;
            while i < n
                invariant
                    1 <= i <= n,
                    n == sorted_glyphs@.len(),
                    storage.wf() == crate::glyph::ascending(sorted_glyphs@),
                    forall|a: int, b: int|
                        0 <= a < b < i ==> sorted_glyphs@[a].0 < sorted_glyphs@[b].0,
                decreases n - i,
            {
                if !(sorted_glyphs[i - 1].0 < sorted_glyphs[i].0) {
                    assert(!(sorted_glyphs@[i - 1].0 < sorted_glyphs@[i as int].0));
                    return false;
                }
                i += 1;
            }
            true
        },
    }
}

/// Whether a kerning table is in order.
pub fn table_in_order(table: &KerningTable) -> (ok: bool)
    ensures
        ok == table.wf(),
{
    let n = table.entries.len();
    if n == 0 {
        return true;
    }
    let mut i: usize = 1;
    while i < n
        invariant
            1 <= i <= n,
            n == table.entries@.len(),
            forall|a: int, b: int|
                0 <= a < b < i ==> table.entries@[a].key() < table.entries@[b].key(),
        decreases n - i,
    {
        let p = &table.entries[i - 1];
        let q = &table.entries[i];
        let pk: u32 = (p.pair.0 as u32) * 256 + (p.pair.1 as u32);
        let qk: u32 = (q.pair.0 as u32) * 256 + (q.pair.1 as u32);
        if !(pk < qk) {
            return false;
        }
        i += 1;
    }
    true
}

} // verus!
