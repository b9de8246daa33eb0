//! Compiling a font sheet: from the decoded pixels to the font.

use vstd::prelude::*;
use crate::arena::{earlier_copies, images_fit, image_of, is_match, lies_before, occurs_at};
use crate::cp437::{cp437, cp437_char, lemma_cp437_injective};
use crate::font::Font;
use crate::glyph::{ascending, Glyph, GlyphStorage};
use crate::kerning::{KerningEntry, KerningTable};
use crate::normalize::{
    all_padded, lemma_max_bounds, lemma_padded_heights, max_ascent, max_descent, normalize_bands,
};
use crate::scan::scan_sheet;
use crate::shape::{
    build_glyphs, built, describes, lemma_built_describes,
};
use crate::sheet::{
    band_models, lemma_bands_regular, raw_models, Grid, Sheet, SheetError,
};

verus! {

/// The character set that the glyphs of a sheet follow, in their order.
#[derive(Copy, Clone, Eq, PartialEq, Debug)]
pub enum GlyphOrder {
    /// Consecutive code points: glyph `i` is code point `first + i`.
    Iso8859_1,
    /// Code page 437: glyph `i` is the code point of code `first + i`.
    Cp437,
}

/// The indices of the glyphs without image among the first `n`, ascending.
pub open spec fn blanks_upto(glyphs: Seq<Glyph>, n: int) -> Seq<usize>
    decreases n,
{
    if n <= 0 {
        Seq::empty()
    } else if glyphs[n - 1].image_height == 0 {
        blanks_upto(glyphs, n - 1).push((n - 1) as usize)
    } else {
        blanks_upto(glyphs, n - 1)
    }
}

/// The first code point that a pattern of blank glyphs stands for. One
/// blank is the space; the other known patterns are blanks at 0 and 32, at
/// `x` and `x + 223`, at 0, 32 and 255, and at 0 and 95. A single blank
/// beyond index 32 would put the first code point below zero.
pub open spec fn inferred_first(blanks: Seq<usize>) -> Result<u8, SheetError> {
    if blanks.len() == 1 {
        if blanks[0] <= 32 {
            Ok((32 - blanks[0]) as u8)
        } else {
            Err(SheetError::Overflow)
        }
    } else if blanks.len() == 2 {
        if blanks[0] == 0 && blanks[1] == 32 {
            Ok(0u8)
        } else if blanks[1] == blanks[0] + 223 {
            Ok(32u8)
        } else if blanks[0] == 0 && blanks[1] == 95 {
            Ok(32u8)
        } else {
            Err(SheetError::AmbiguousOffset)
        }
    } else if blanks.len() == 3 && blanks[0] == 0 && blanks[1] == 32 && blanks[2] == 255 {
        Ok(0u8)
    } else {
        Err(SheetError::AmbiguousOffset)
    }
}

/// The first code point of a font: the one given, or else the one inferred
/// from the blank glyphs.
pub open spec fn chosen_first(given: Option<u8>, glyphs: Seq<Glyph>) -> Result<u8, SheetError> {
    match given {
        Some(f) => Ok(f),
        None => inferred_first(blanks_upto(glyphs, glyphs.len() as int)),
    }
}

/// The first index from `k` on whose code point is not below `c`.
pub open spec fn rank_from(table: Seq<(char, Glyph)>, c: char, k: int) -> int
    decreases table.len() - k,
{
    if k < 0 || k >= table.len() || !(table[k].0 < c) {
        k
    } else {
        rank_from(table, c, k + 1)
    }
}

/// The table with the pair of `c` and `g` put before the first entry whose
/// code point is not below `c`.
pub open spec fn inserted(table: Seq<(char, Glyph)>, c: char, g: Glyph) -> Seq<(char, Glyph)> {
    table.insert(rank_from(table, c, 0), (c, g))
}

/// The sparse table of the first `n` glyphs: glyph `i` stands under the
/// code point of code `first + i` of code page 437, each pair put in its
/// place by code point.
pub open spec fn sparse_upto(glyphs: Seq<Glyph>, first: u8, n: int) -> Seq<(char, Glyph)>
    decreases n,
{
    if n <= 0 {
        Seq::empty()
    } else {
        inserted(sparse_upto(glyphs, first, n - 1), cp437((first + n - 1) as u8), glyphs[n - 1])
    }
}

/// How many glyphs have a code in code page 437 when the first has code
/// `first`.
pub open spec fn sparse_count(glyphs: Seq<Glyph>, first: u8) -> int {
    if glyphs.len() <= 256 - first {
        glyphs.len() as int
    } else {
        256 - first
    }
}

/// The sparse table of a font in code page 437 order. Glyphs beyond code
/// 255 have no place in it.
pub open spec fn sparse_table(glyphs: Seq<Glyph>, first: u8) -> Seq<(char, Glyph)> {
    sparse_upto(glyphs, first, sparse_count(glyphs, first))
}

/// The mathematical compiled font.
pub struct Compiled {
    pub ascent: u8,
    pub descent: u8,
    pub line_spacing: u8,
    pub order: GlyphOrder,
    pub first: u8,
    pub glyphs: Seq<Glyph>,
    pub sorted_glyphs: Seq<(char, Glyph)>,
    pub bitmaps: Seq<u8>,
}

impl Compiled {
    /// Whether `storage` holds this font's glyphs: dense from `first` on
    /// for consecutive code points, the sparse table for code page 437.
    pub open spec fn stored_in(&self, storage: GlyphStorage) -> bool {
        match storage {
            GlyphStorage::Dense { first, glyphs } => {
                &&& self.order == GlyphOrder::Iso8859_1
                &&& first == self.first
                &&& glyphs@ == self.glyphs
            },
            GlyphStorage::Sparse { sorted_glyphs } => {
                &&& self.order == GlyphOrder::Cp437
                &&& sorted_glyphs@ == self.sorted_glyphs
            },
        }
    }
}

/// The font that a sheet compiles to, or why it does not. The scan's error
/// comes first, then a sheet without bands, then an overflow in a glyph,
/// then a first code point that cannot be told, then metrics beyond 8 bits.
pub open spec fn compiled(grid: Grid, order: GlyphOrder, first: Option<u8>) -> Result<
    Compiled,
    SheetError,
> {
    match grid.bands() {
        Err(e) => Err(e),
        Ok(bands) => {
            let n = bands.len() as int;
            let ascent = max_ascent(bands, n);
            let descent = max_descent(bands, n);
            let raws = all_padded(bands, ascent, descent, n);
            if n == 0 {
                Err(SheetError::NoBands)
            } else {
                match built(raws, raws.len() as int) {
                    Err(e) => Err(e),
                    Ok((glyphs, arena)) => match chosen_first(first, glyphs) {
                        Err(e) => Err(e),
                        Ok(f) => if ascent + descent > 0xFF {
                            Err(SheetError::Overflow)
                        } else {
                            Ok(
                                Compiled {
                                    ascent: ascent as u8,
                                    descent: descent as u8,
                                    line_spacing: (ascent + descent) as u8,
                                    order,
                                    first: f,
                                    glyphs,
                                    sorted_glyphs: match order {
                                        GlyphOrder::Iso8859_1 => Seq::empty(),
                                        GlyphOrder::Cp437 => sparse_table(glyphs, f),
                                    },
                                    bitmaps: arena,
                                },
                            )
                        },
                    },
                }
            }
        },
    }
}

/// A compiled font, which owns its tables.
#[derive(Clone, Debug)]
pub struct CompiledFont {
    /// Rows from the top of a line's box down to the baseline.
    pub ascent: u8,
    /// Rows from the baseline down to the bottom of the box.
    pub descent: u8,
    /// Rows from one line to the next: ascent and descent together.
    pub line_spacing: u8,
    /// The character set the glyphs follow.
    pub order: GlyphOrder,
    /// Code point, or code page code, of the first glyph.
    pub first: u8,
    /// The glyphs in the order of the sheet.
    pub glyphs: Vec<Glyph>,
    /// For code page 437, the glyphs by code point, ascending; else empty.
    pub sorted_glyphs: Vec<(char, Glyph)>,
    /// The bitmap arena.
    pub bitmaps: Vec<u8>,
    /// The kerning entries: none come from a sheet.
    pub kerning: Vec<KerningEntry>,
}

impl View for CompiledFont {
    type V = Compiled;

    open spec fn view(&self) -> Compiled {
        Compiled {
            ascent: self.ascent,
            descent: self.descent,
            line_spacing: self.line_spacing,
            order: self.order,
            first: self.first,
            glyphs: self.glyphs@,
            sorted_glyphs: self.sorted_glyphs@,
            bitmaps: self.bitmaps@,
        }
    }
}

impl CompiledFont {
    /// The font, borrowing the tables: dense storage from `first` on for
    /// consecutive code points, sparse storage for code page 437. The
    /// replacement glyph is the first.
    pub fn font(&self) -> (font: Font<'_, '_, '_>)
        ensures
            font.ascent == self.ascent,
            font.descent == self.descent,
            font.line_spacing == self.line_spacing,
            font.replacement == 0,
            font.bitmaps@ == self.bitmaps@,
            font.kerning.entries@ == self.kerning@,
            self@.stored_in(font.glyph_storage),
            self@.wf() && self.glyphs@.len() > 0 && self.kerning@.len() == 0 ==> font.wf(),
    {
        proof {
            if self@.wf() && self.glyphs@.len() > 0 && self.order == GlyphOrder::Cp437 {
                lemma_sparse(self.glyphs@, self.first, sparse_count(self.glyphs@, self.first));
            }
        }
        let glyph_storage = match self.order {
            GlyphOrder::Iso8859_1 => GlyphStorage::Dense {
                first: self.first,
                glyphs: self.glyphs.as_slice(),
            },
            GlyphOrder::Cp437 => GlyphStorage::Sparse { sorted_glyphs: self.sorted_glyphs.as_slice() },
        };
        Font {
            ascent: self.ascent,
            descent: self.descent,
            line_spacing: self.line_spacing,
            glyph_storage,
            replacement: 0,
            bitmaps: self.bitmaps.as_slice(),
            kerning: KerningTable { entries: self.kerning.as_slice() },
        }
    }
}

/// The indices of the glyphs without image, ascending.
pub fn blank_indices(glyphs: &Vec<Glyph>) -> (blanks: Vec<usize>)
    ensures
        blanks@ == blanks_upto(glyphs@, glyphs@.len() as int),
{
    let n = glyphs.len();
    let mut blanks: Vec<usize> = Vec::new();
    let mut i: usize = 0;
    while i < n
        invariant
            i <= n == glyphs@.len(),
            blanks@ == blanks_upto(glyphs@, i as int),
        decreases n - i,
    {
        if glyphs[i].image_height == 0 {
            blanks.push(i);
        }
        i += 1;
    }
    blanks
}

/// Infers the first code point of a font from the indices of its blank
/// glyphs. A pattern that is not known is an error: the first code point
/// must then be given.
pub fn infer_first(blanks: &Vec<usize>) -> (first: Result<u8, SheetError>)
    ensures
        first == inferred_first(blanks@),
{
    let n = blanks.len();
    if n == 1 {
        let x = blanks[0];
        if x <= 32 {
            Ok((32 - x) as u8)
        } else {
            Err(SheetError::Overflow)
        }
    } else if n == 2 {
        let x = blanks[0];
        let y = blanks[1];
        if x == 0 && y == 32 {
            Ok(0)
        } else if y >= 223 && y - 223 == x {
            Ok(32)
        } else if x == 0 && y == 95 {
            Ok(32)
        } else {
            Err(SheetError::AmbiguousOffset)
        }
    } else if n == 3 && blanks[0] == 0 && blanks[1] == 32 && blanks[2] == 255 {
        Ok(0)
    } else {
        Err(SheetError::AmbiguousOffset)
    }
}

/// Puts the pair of `c` and `g` into a table before the first entry whose
/// code point is not below `c`.
pub fn insert_glyph(table: &mut Vec<(char, Glyph)>, c: char, g: Glyph)
    ensures
        final(table)@ == inserted(old(table)@, c, g),
{
    let n = table.len();
    let mut k: usize = 0;
    while k < n && table[k].0 < c
        invariant
            k <= n == table@.len(),
            table@ == old(table)@,
            rank_from(table@, c, 0) == rank_from(table@, c, k as int),
        decreases n - k,
    {
        k += 1;
    }
    table.insert(k, (c, g));
}

/// Builds the sparse table of a font in code page 437 order, whose first
/// glyph has code `first`.
pub fn sparse_glyphs(glyphs: &Vec<Glyph>, first: u8) -> (table: Vec<(char, Glyph)>)
    ensures
        table@ == sparse_table(glyphs@, first),
{
    let room: usize = 256 - first as usize;
    let count = if glyphs.len() <= room {
        glyphs.len()
    } else {
        room
    };
    let mut table: Vec<(char, Glyph)> = Vec::new();
    let mut i: usize = 0;
    while i < count
        invariant
            i <= count <= glyphs@.len(),
            count == sparse_count(glyphs@, first),
            table@ == sparse_upto(glyphs@, first, i as int),
        decreases count - i,
    {
        let c = cp437_char((first as usize + i) as u8);
        insert_glyph(&mut table, c, glyphs[i]);
        i += 1;
    }
    table
}

/// Compiles a decoded font sheet. The rows that start with the marker
/// colour close the bands; in each band the one row with a baseline pixel
/// gives ascent and descent, and the marks along it the glyph cells. All
/// glyphs are padded to the greatest ascent and descent, trimmed to their
/// ink, packed, and interned in one arena. The first code point is `first`
/// or, if none is given, inferred from the blank glyphs.
pub fn compile_sheet(sheet: &Sheet, order: GlyphOrder, first: Option<u8>) -> (made: Result<
    CompiledFont,
    SheetError,
>)
    ensures
        match made {
            Ok(font) => compiled(sheet@, order, first) == Ok::<_, SheetError>(font@)
                && font.kerning@.len() == 0 && font@.wf(),
            Err(e) => compiled(sheet@, order, first) == Err::<Compiled, _>(e),
        },
{
    let bands = match scan_sheet(sheet) {
        Ok(b) => b,
        Err(e) => {
            return Err(e);
        },
    };
    if bands.len() == 0 {
        return Err(SheetError::NoBands);
    }
    let normal = normalize_bands(&bands);
    let (glyphs, bitmaps) = match build_glyphs(&normal.glyphs) {
        Ok(pair) => pair,
        Err(e) => {
            return Err(e);
        },
    };
    // The arena shares every image that it can, so the search for images
    // that stand before their recorded place finds none.
    proof {
        lemma_built_describes(raw_models(normal.glyphs@), normal.glyphs@.len() as int);
    }
    let copies = earlier_copies(&glyphs, &bitmaps);
    assert(copies@.len() == 0) by {
        if copies@.len() > 0 {
            let m = copies@[0];
            assert(lies_before(glyphs@, m));
            assert(is_match(crate::arena::images_of(glyphs@, bitmaps@), bitmaps@, m));
            crate::shape::lemma_built_has_no_earlier_copy(
                raw_models(normal.glyphs@),
                m.pattern as int,
                m.start as int,
            );
        }
    }
    let ghost given = first;
    let first = match first {
        Some(f) => f,
        None => {
            let blanks = blank_indices(&glyphs);
            match infer_first(&blanks) {
                Ok(f) => f,
                Err(e) => {
                    return Err(e);
                },
            }
        },
    };
    if normal.ascent > 0xFF || normal.descent > 0xFF || normal.ascent + normal.descent > 0xFF {
        return Err(SheetError::Overflow);
    }
    let sorted_glyphs = match order {
        GlyphOrder::Iso8859_1 => Vec::new(),
        GlyphOrder::Cp437 => sparse_glyphs(&glyphs, first),
    };
    proof {
        lemma_compiled_wf(sheet@, order, given);
    }
    Ok(
        CompiledFont {
            ascent: normal.ascent as u8,
            descent: normal.descent as u8,
            line_spacing: (normal.ascent + normal.descent) as u8,
            order,
            first,
            glyphs,
            sorted_glyphs,
            bitmaps,
            kerning: Vec::new(),
        },
    )
}

/// The rank of a code point lies at or after the place the search starts,
/// the entries between are below the code point, and the entry at the rank
/// is not.
pub proof fn lemma_rank(table: Seq<(char, Glyph)>, c: char, k: int)
    requires
        0 <= k <= table.len(),
    ensures
        k <= rank_from(table, c, k) <= table.len(),
        forall|j: int| k <= j < rank_from(table, c, k) ==> (#[trigger] table[j]).0 < c,
        rank_from(table, c, k) < table.len() ==> !(table[rank_from(table, c, k)].0 < c),
    decreases table.len() - k,
{
    if k < table.len() && table[k].0 < c {
        lemma_rank(table, c, k + 1);
    }
}

/// Putting a code point that the table lacks into its place keeps the
/// table ascending.
pub proof fn lemma_inserted_ascends(table: Seq<(char, Glyph)>, c: char, g: Glyph)
    requires
        ascending(table),
        forall|j: int| 0 <= j < table.len() ==> (#[trigger] table[j]).0 != c,
    ensures
        ascending(inserted(table, c, g)),
{
    lemma_rank(table, c, 0);
    let r = rank_from(table, c, 0);
    let next = inserted(table, c, g);
    assert forall|i: int, j: int| 0 <= i < j < next.len() implies next[i].0 < next[j].0 by {
        if r < table.len() {
            assert(table[r].0 != c);
        }
        if j == r {
            assert(next[i] == table[i]);
        } else if i == r {
            assert(next[j] == table[j - 1]);
            if r < j - 1 {
                assert(table[r].0 < table[j - 1].0);
            }
        } else {
            let a = if i < r {
                i
            } else {
                i - 1
            };
            let b = if j < r {
                j
            } else {
                j - 1
            };
            assert(next[i] == table[a] && next[j] == table[b]);
        }
    }
}

/// The table entry of glyph `i`: the code point of code `first + i`, and
/// the glyph.
pub open spec fn entry(glyphs: Seq<Glyph>, first: u8, i: int) -> (char, Glyph) {
    (cp437((first + i) as u8), glyphs[i])
}

/// Whether every entry of `table` is the entry of one of the first `n`
/// glyphs.
pub open spec fn from_glyphs(table: Seq<(char, Glyph)>, glyphs: Seq<Glyph>, first: u8, n: int) -> bool {
    forall|k: int|
        0 <= k < table.len() ==> exists|i: int|
            0 <= i < n && #[trigger] table[k] == #[trigger] entry(glyphs, first, i)
}

/// Whether each of the first `n` glyphs has its entry in `table`.
pub open spec fn has_glyphs(table: Seq<(char, Glyph)>, glyphs: Seq<Glyph>, first: u8, n: int) -> bool {
    forall|i: int|
        0 <= i < n ==> exists|k: int|
            0 <= k < table.len() && #[trigger] table[k] == #[trigger] entry(glyphs, first, i)
}

/// Every entry of a table after an insertion is the new entry or one that
/// the table held.
pub proof fn lemma_inserted_from(table: Seq<(char, Glyph)>, c: char, g: Glyph, k: int)
    requires
        0 <= k < table.len() + 1,
    ensures
        inserted(table, c, g).len() == table.len() + 1,
        inserted(table, c, g)[k] == (c, g) || exists|a: int|
            0 <= a < table.len() && inserted(table, c, g)[k] == #[trigger] table[a],
{
    lemma_rank(table, c, 0);
    let r = rank_from(table, c, 0);
    let next = inserted(table, c, g);
    if k < r {
        assert(next[k] == table[k]);
    } else if k > r {
        assert(next[k] == table[k - 1]);
    }
}

/// After an insertion the table holds the new entry.
pub proof fn lemma_inserted_has_new(table: Seq<(char, Glyph)>, c: char, g: Glyph)
    ensures
        exists|k: int| 0 <= k < table.len() + 1 && #[trigger] inserted(table, c, g)[k] == (c, g),
{
    lemma_rank(table, c, 0);
    let r = rank_from(table, c, 0);
    assert(inserted(table, c, g)[r] == (c, g));
}

/// After an insertion the table holds each entry that it held.
pub proof fn lemma_inserted_keeps(table: Seq<(char, Glyph)>, c: char, g: Glyph, a: int)
    requires
        0 <= a < table.len(),
    ensures
        exists|k: int| 0 <= k < table.len() + 1 && #[trigger] inserted(table, c, g)[k] == table[a],
{
    lemma_rank(table, c, 0);
    let r = rank_from(table, c, 0);
    let next = inserted(table, c, g);
    if a < r {
        assert(next[a] == table[a]);
    } else {
        assert(next[a + 1] == table[a]);
    }
}

/// The sparse table of the first `n` glyphs has `n` entries, each the
/// entry of one of these glyphs.
pub proof fn lemma_sparse_from(glyphs: Seq<Glyph>, first: u8, n: int)
    requires
        0 <= n <= sparse_count(glyphs, first),
    ensures
        sparse_upto(glyphs, first, n).len() == n,
        from_glyphs(sparse_upto(glyphs, first, n), glyphs, first, n),
    decreases n,
{
    if n > 0 {
        lemma_sparse_from(glyphs, first, n - 1);
        let table = sparse_upto(glyphs, first, n - 1);
        let c = cp437((first + n - 1) as u8);
        let g = glyphs[n - 1];
        let next = inserted(table, c, g);
        assert(sparse_upto(glyphs, first, n) == next);
        assert((c, g) == entry(glyphs, first, n - 1));
        lemma_inserted_from(table, c, g, 0);
        assert forall|k: int| 0 <= k < next.len() implies exists|i: int|
            0 <= i < n && #[trigger] next[k] == #[trigger] entry(glyphs, first, i) by {
            lemma_inserted_from(table, c, g, k);
            if next[k] == (c, g) {
                assert(next[k] == entry(glyphs, first, n - 1));
            } else {
                let a = choose|a: int| 0 <= a < table.len() && next[k] == #[trigger] table[a];
                let i = choose|i: int|
                    0 <= i < n - 1 && table[a] == #[trigger] entry(glyphs, first, i);
                assert(next[k] == entry(glyphs, first, i));
            }
        }
    }
}

/// The sparse table of the first `n` glyphs ascends.
pub proof fn lemma_sparse_ascends(glyphs: Seq<Glyph>, first: u8, n: int)
    requires
        0 <= n <= sparse_count(glyphs, first),
    ensures
        ascending(sparse_upto(glyphs, first, n)),
    decreases n,
{
    if n > 0 {
        lemma_sparse_ascends(glyphs, first, n - 1);
        lemma_sparse_from(glyphs, first, n - 1);
        let table = sparse_upto(glyphs, first, n - 1);
        let c = cp437((first + n - 1) as u8);
        let g = glyphs[n - 1];
        assert forall|j: int| 0 <= j < table.len() implies (#[trigger] table[j]).0 != c by {
            let i = choose|i: int| 0 <= i < n - 1 && table[j] == #[trigger] entry(glyphs, first, i);
            if table[j].0 == c {
                lemma_cp437_injective((first + i) as u8, (first + n - 1) as u8);
            }
        }
        lemma_inserted_ascends(table, c, g);
    }
}

/// The sparse table of the first `n` glyphs holds the entry of each of
/// them.
pub proof fn lemma_sparse_has(glyphs: Seq<Glyph>, first: u8, n: int)
    requires
        0 <= n <= sparse_count(glyphs, first),
    ensures
        has_glyphs(sparse_upto(glyphs, first, n), glyphs, first, n),
    decreases n,
{
    if n > 0 {
        lemma_sparse_has(glyphs, first, n - 1);
        lemma_sparse_from(glyphs, first, n - 1);
        let table = sparse_upto(glyphs, first, n - 1);
        let c = cp437((first + n - 1) as u8);
        let g = glyphs[n - 1];
        let next = inserted(table, c, g);
        assert(sparse_upto(glyphs, first, n) == next);
        assert((c, g) == entry(glyphs, first, n - 1));
        lemma_inserted_from(table, c, g, 0);
        assert forall|i: int| 0 <= i < n implies exists|k: int|
            0 <= k < next.len() && #[trigger] next[k] == #[trigger] entry(glyphs, first, i) by {
            if i == n - 1 {
                lemma_inserted_has_new(table, c, g);
                let k = choose|k: int| 0 <= k < table.len() + 1 && #[trigger] next[k] == (c, g);
                assert(next[k] == entry(glyphs, first, i));
            } else {
                let a = choose|a: int|
                    0 <= a < table.len() && #[trigger] table[a] == #[trigger] entry(
                        glyphs,
                        first,
                        i,
                    );
                lemma_inserted_keeps(table, c, g, a);
                let k = choose|k: int| 0 <= k < table.len() + 1 && #[trigger] next[k] == table[a];
                assert(next[k] == entry(glyphs, first, i));
            }
        }
    }
}

/// The sparse table of the first `n` glyphs has one entry for each of
/// them, under the code point of its code, and ascends.
pub proof fn lemma_sparse(glyphs: Seq<Glyph>, first: u8, n: int)
    requires
        0 <= n <= sparse_count(glyphs, first),
    ensures
        sparse_upto(glyphs, first, n).len() == n,
        ascending(sparse_upto(glyphs, first, n)),
        from_glyphs(sparse_upto(glyphs, first, n), glyphs, first, n),
        has_glyphs(sparse_upto(glyphs, first, n), glyphs, first, n),
{
    lemma_sparse_from(glyphs, first, n);
    lemma_sparse_ascends(glyphs, first, n);
    lemma_sparse_has(glyphs, first, n);
}

impl Compiled {
    /// The metrics agree, every glyph lies inside the arena, and the sparse
    /// table, where there is one, ascends and holds glyphs of the font.
    pub open spec fn wf(&self) -> bool {
        &&& self.line_spacing == self.ascent + self.descent
        &&& images_fit(self.glyphs, self.bitmaps.len())
        &&& ascending(self.sorted_glyphs)
        &&& forall|k: int|
            0 <= k < self.sorted_glyphs.len() ==> (#[trigger] self.sorted_glyphs[k]).1.wf(
                self.bitmaps.len(),
            )
        &&& self.order == GlyphOrder::Cp437 ==> self.sorted_glyphs == sparse_table(
            self.glyphs,
            self.first,
        )
    }
}

/// What a sheet compiles to is well formed: line spacing is ascent and
/// descent together, every glyph has as many rows before trimming as that,
/// and every glyph describes its padded cell in the arena.
pub proof fn lemma_compiled_wf(grid: Grid, order: GlyphOrder, first: Option<u8>)
    requires
        compiled(grid, order, first) is Ok,
    ensures
        compiled(grid, order, first)->Ok_0.wf(),
        ({
            let font = compiled(grid, order, first)->Ok_0;
            let bands = grid.bands()->Ok_0;
            let raws = all_padded(
                bands,
                font.ascent as nat,
                font.descent as nat,
                bands.len() as int,
            );
            &&& font.glyphs.len() == raws.len()
            &&& forall|i: int|
                0 <= i < raws.len() ==> (#[trigger] raws[i]).rows.len() == font.ascent
                    + font.descent
            &&& forall|i: int|
                0 <= i < raws.len() ==> describes(#[trigger] font.glyphs[i], raws[i], font.bitmaps)
        }),
{
    let font = compiled(grid, order, first)->Ok_0;
    let bands = grid.bands()->Ok_0;
    let n = bands.len() as int;
    let ascent = max_ascent(bands, n);
    let descent = max_descent(bands, n);
    let raws = all_padded(bands, ascent, descent, n);
    lemma_built_describes(raws, raws.len() as int);
    lemma_bands_regular(grid, grid.rows as int);
    assert forall|b: int| 0 <= b < n implies bands[b].ascent <= ascent && bands[b].descent
        <= descent by {
        lemma_max_bounds(bands, n, b);
    }
    lemma_padded_heights(bands, ascent, descent, n);
    if order == GlyphOrder::Cp437 {
        let count = sparse_count(font.glyphs, font.first);
        lemma_sparse(font.glyphs, font.first, count);
        assert forall|k: int| 0 <= k < font.sorted_glyphs.len() implies (
        #[trigger] font.sorted_glyphs[k]).1.wf(font.bitmaps.len()) by {
            let i = choose|i: int|
                0 <= i < count && font.sorted_glyphs[k] == #[trigger] entry(
                    font.glyphs,
                    font.first,
                    i,
                );
            assert(describes(font.glyphs[i], raws[i], font.bitmaps));
        }
    }
    assert forall|i: int| 0 <= i < font.glyphs.len() implies (#[trigger] font.glyphs[i]).wf(
        font.bitmaps.len(),
    ) by {
        assert(describes(font.glyphs[i], raws[i], font.bitmaps));
    }
}

/// Compiling is a function of the sheet: the same pixels, order and first
/// code point give the same font, arena and glyph tables byte for byte, or
/// the same error.
pub proof fn lemma_compile_repeats(
    a: Grid,
    b: Grid,
    order: GlyphOrder,
    first: Option<u8>,
)
    requires
        a.cols == b.cols,
        a.rows == b.rows,
        a.cells =~= b.cells,
    ensures
        compiled(a, order, first) == compiled(b, order, first),
{
    assert(a == b);
}

/// In the sparse table of a font in code page 437 order, the code point
/// of code `first + i` resolves to glyph `i`.
pub proof fn lemma_sparse_lookup(storage: GlyphStorage, glyphs: Seq<Glyph>, first: u8, i: int)
    requires
        storage matches GlyphStorage::Sparse { sorted_glyphs } && sorted_glyphs@ == sparse_table(
            glyphs,
            first,
        ),
        0 <= i < sparse_count(glyphs, first),
    ensures
        storage.wf(),
        storage.lookup(cp437((first + i) as u8)) == Some(glyphs[i]),
{
    let count = sparse_count(glyphs, first);
    lemma_sparse(glyphs, first, count);
    let table = sparse_table(glyphs, first);
    let c = cp437((first + i) as u8);
    let k = choose|k: int| 0 <= k < table.len() && #[trigger] table[k] == #[trigger] entry(
        glyphs,
        first,
        i,
    );
    assert(storage.holds(c, k));
    let j = choose|j: int| storage.holds(c, j);
    storage.lemma_holds_unique(c, j, k);
}

} // verus!
