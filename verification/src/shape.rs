//! From raw glyphs to glyph descriptors and the shared bitmap arena.

use vstd::prelude::*;
use crate::arena::{
    first_occurrence, image_of, intern, interned_arena, interned_at, is_first_occurrence,
    lemma_first_exists, occurs_at,
};
use crate::glyph::Glyph;
use crate::sheet::{raw_models, RawGlyph, RawModel, SheetError};
use crate::trim::{
    blank, image_ink, lemma_empty_row, lemma_outline_fits, lemma_packed_shows_rows, measure,
    outline, pack_rows, packed, raw_bit,
};

verus! {

/// The descriptor of a glyph without ink: no image, the cell's advance.
pub open spec fn blank_glyph(advance: u8) -> Glyph {
    Glyph { row_bytes: 0, image_offset: 0, image_height: 0, origin: (0, 0), advance }
}

/// The descriptor of one raw glyph and the arena after it, given the arena
/// before it. A glyph with ink is trimmed and packed, and its image is
/// interned. An image offset beyond 16 bits, or a height or top padding
/// beyond 8 bits, is an overflow.
pub open spec fn shaped(arena: Seq<u8>, raw: RawModel) -> Result<(Glyph, Seq<u8>), SheetError> {
    if blank(raw.rows) {
        Ok((blank_glyph(raw.advance), arena))
    } else {
        let o = outline(raw.rows);
        let image = packed(raw.rows);
        let at = interned_at(arena, image);
        if at > 0xFFFF || o.height > 0xFF || o.top > 0xFF {
            Err(SheetError::Overflow)
        } else {
            Ok(
                (
                    Glyph {
                        row_bytes: o.row_bytes as u8,
                        image_offset: at as u16,
                        image_height: o.height as u8,
                        origin: (o.left as u8, o.top as u8),
                        advance: raw.advance,
                    },
                    interned_arena(arena, image),
                ),
            )
        }
    }
}

/// The descriptors of the first `n` raw glyphs and the arena that holds
/// their images, or the error of the first glyph that has one.
pub open spec fn built(raws: Seq<RawModel>, n: int) -> Result<(Seq<Glyph>, Seq<u8>), SheetError>
    decreases n,
{
    if n <= 0 {
        Ok((Seq::empty(), Seq::empty()))
    } else {
        match built(raws, n - 1) {
            Err(e) => Err(e),
            Ok((glyphs, arena)) => match shaped(arena, raws[n - 1]) {
                Err(e) => Err(e),
                Ok((g, next)) => Ok((glyphs.push(g), next)),
            },
        }
    }
}

/// Once the first `n` glyphs give an error, so do any more.
pub proof fn lemma_build_error_stays(raws: Seq<RawModel>, n: int, m: int, e: SheetError)
    requires
        n <= m,
        built(raws, n) == Err::<(Seq<Glyph>, Seq<u8>), _>(e),
    ensures
        built(raws, m) == Err::<(Seq<Glyph>, Seq<u8>), _>(e),
    decreases m - n,
{
    if n < m {
        lemma_build_error_stays(raws, n, m - 1, e);
    }
}

/// Turns one raw glyph into its descriptor, adding its image to the arena
/// unless the arena holds it already.
pub fn shape_glyph(arena: &mut Vec<u8>, raw: &RawGlyph) -> (made: Result<Glyph, SheetError>)
    ensures
        match made {
            Ok(g) => shaped(old(arena)@, raw@) == Ok::<_, SheetError>((g, final(arena)@)),
            Err(e) => shaped(old(arena)@, raw@) == Err::<(Glyph, Seq<u8>), _>(e),
        },
{
    match measure(&raw.rows) {
        None => Ok(
            Glyph { row_bytes: 0, image_offset: 0, image_height: 0, origin: (0, 0), advance: raw.advance },
        ),
        Some(t) => {
            let image = pack_rows(&raw.rows, &t);
            let at = intern(arena, &image);
            if at > 0xFFFF || t.height > 0xFF || t.top > 0xFF {
                return Err(SheetError::Overflow);
            }
            Ok(
                Glyph {
                    row_bytes: t.row_bytes,
                    image_offset: at as u16,
                    image_height: t.height as u8,
                    origin: (t.left as u8, t.top as u8),
                    advance: raw.advance,
                },
            )
        },
    }
}

/// Turns the raw glyphs into descriptors, in order, and builds the arena
/// of their images.
pub fn build_glyphs(raws: &Vec<RawGlyph>) -> (made: Result<(Vec<Glyph>, Vec<u8>), SheetError>)
    ensures
        match made {
            Ok(pair) => built(raw_models(raws@), raws@.len() as int) == Ok::<_, SheetError>(
                (pair.0@, pair.1@),
            ),
            Err(e) => built(raw_models(raws@), raws@.len() as int) == Err::<
                (Seq<Glyph>, Seq<u8>),
                _,
            >(e),
        },
{
    let ghost models = raw_models(raws@);
    let n = raws.len();
    let mut glyphs: Vec<Glyph> = Vec::new();
    let mut arena: Vec<u8> = Vec::new();
    let mut i: usize = 0;
    while i < n
        invariant
            i <= n == raws@.len(),
            models == raw_models(raws@),
            built(models, i as int) == Ok::<_, SheetError>((glyphs@, arena@)),
        decreases n - i,
    {
        match shape_glyph(&mut arena, &raws[i]) {
            Ok(g) => {
                glyphs.push(g);
            },
            Err(e) => {
                proof {
                    lemma_build_error_stays(models, i + 1, n as int, e);
                }
                return Err(e);
            },
        }
        i += 1;
    }
    Ok((glyphs, arena))
}

/// Whether `g` is the descriptor of the raw glyph `raw` in `arena`: it has
/// the cell's advance; a glyph without ink is blank; one with ink has the
/// measures of its tightest box, its packed image stands in the arena where
/// `g` says, and nowhere wholly before that place.
pub open spec fn describes(g: Glyph, raw: RawModel, arena: Seq<u8>) -> bool {
    &&& g.advance == raw.advance
    &&& g.wf(arena.len())
    &&& if blank(raw.rows) {
        g == blank_glyph(raw.advance)
    } else {
        &&& g.row_bytes == outline(raw.rows).row_bytes
        &&& g.image_height == outline(raw.rows).height
        &&& g.origin.0 == outline(raw.rows).left
        &&& g.origin.1 == outline(raw.rows).top
        &&& image_of(g, arena) == packed(raw.rows)
        &&& forall|s: int|
            0 <= s && s + g.image_len() <= g.image_offset ==> !#[trigger] occurs_at(
                arena,
                packed(raw.rows),
                s,
            )
    }
}

/// Whether `arena` is the beginning of `next`.
pub open spec fn begins(arena: Seq<u8>, next: Seq<u8>) -> bool {
    arena.len() <= next.len() && next.subrange(0, arena.len() as int) == arena
}

/// A pattern that stands in the beginning of an arena stands there in the
/// whole, and the other way round if it ends inside the beginning.
pub proof fn lemma_occurs_in_beginning(arena: Seq<u8>, next: Seq<u8>, pat: Seq<u8>, s: int)
    requires
        begins(arena, next),
        0 <= s,
        s + pat.len() <= arena.len(),
    ensures
        occurs_at(arena, pat, s) == occurs_at(next, pat, s),
{
    assert(arena.subrange(s, s + pat.len()) =~= next.subrange(0, arena.len() as int).subrange(
        s,
        s + pat.len(),
    ));
    assert(next.subrange(0, arena.len() as int).subrange(s, s + pat.len()) =~= next.subrange(
        s,
        s + pat.len(),
    ));
}

/// Shaping a glyph gives its descriptor, and keeps what the arena held.
pub proof fn lemma_shaped_describes(arena: Seq<u8>, raw: RawModel)
    requires
        shaped(arena, raw) is Ok,
    ensures
        describes(shaped(arena, raw)->Ok_0.0, raw, shaped(arena, raw)->Ok_0.1),
        begins(arena, shaped(arena, raw)->Ok_0.1),
{
    let g = shaped(arena, raw)->Ok_0.0;
    let next = shaped(arena, raw)->Ok_0.1;
    if blank(raw.rows) {
        assert(next.subrange(0, arena.len() as int) =~= arena);
    } else {
        lemma_outline_fits(raw.rows);
        let o = outline(raw.rows);
        let image = packed(raw.rows);
        assert(image.len() == o.height * o.row_bytes);
        assert(g.image_len() == image.len()) by (nonlinear_arith)
            requires
                g.row_bytes == o.row_bytes,
                g.image_height == o.height,
                image.len() == o.height * o.row_bytes,
                g.image_len() == (g.row_bytes as nat) * (g.image_height as nat),
        ;
        assert(image.len() > 0) by (nonlinear_arith)
            requires
                image.len() == o.height * o.row_bytes,
                o.height >= 1,
                o.row_bytes >= 1,
        ;
        match first_occurrence(arena, image) {
            Some(p) => {
                assert(is_first_occurrence(arena, image, p));
                assert(next.subrange(0, arena.len() as int) =~= arena);
            },
            None => {
                assert(next.subrange(0, arena.len() as int) =~= arena);
                assert(next.subrange(arena.len() as int, (arena.len() + image.len()) as int) =~= image);
                assert forall|s: int| 0 <= s && s + g.image_len() <= g.image_offset implies !occurs_at(
                    next,
                    image,
                    s,
                ) by {
                    lemma_occurs_in_beginning(arena, next, image, s);
                    if occurs_at(arena, image, s) {
                        lemma_first_exists(arena, image, s);
                    }
                }
            },
        }
    }
}

/// A descriptor stays one when the arena grows at its end.
pub proof fn lemma_describes_stays(g: Glyph, raw: RawModel, arena: Seq<u8>, next: Seq<u8>)
    requires
        describes(g, raw, arena),
        begins(arena, next),
    ensures
        describes(g, raw, next),
{
    if !blank(raw.rows) {
        let image = packed(raw.rows);
        lemma_occurs_in_beginning(arena, next, image_of(g, arena), g.image_offset as int);
        assert(occurs_at(arena, image_of(g, arena), g.image_offset as int));
        assert(image_of(g, next) == image);
        assert forall|s: int| 0 <= s && s + g.image_len() <= g.image_offset implies !occurs_at(
            next,
            image,
            s,
        ) by {
            lemma_occurs_in_beginning(arena, next, image, s);
        }
    }
}

/// What is built is one descriptor for each raw glyph, in order, each in
/// the final arena.
pub proof fn lemma_built_describes(raws: Seq<RawModel>, n: int)
    requires
        0 <= n <= raws.len(),
        built(raws, n) is Ok,
    ensures
        built(raws, n)->Ok_0.0.len() == n,
        forall|i: int|
            0 <= i < n ==> describes(
                #[trigger] built(raws, n)->Ok_0.0[i],
                raws[i],
                built(raws, n)->Ok_0.1,
            ),
    decreases n,
{
    if n > 0 {
        lemma_built_describes(raws, n - 1);
        let before = built(raws, n - 1)->Ok_0;
        let after = built(raws, n)->Ok_0;
        lemma_shaped_describes(before.1, raws[n - 1]);
        assert forall|i: int| 0 <= i < n implies describes(#[trigger] after.0[i], raws[i], after.1) by {
            if i < n - 1 {
                assert(after.0[i] == before.0[i]);
                lemma_describes_stays(before.0[i], raws[i], before.1, after.1);
            }
        }
    }
}

/// A glyph drawn with its image at its origin shows exactly the ink of the
/// raw glyph that it describes: at column `col`, row `row` of the glyph's
/// box there is a set pixel exactly if the raw glyph has ink there.
pub proof fn lemma_glyph_shows_rows(g: Glyph, raw: RawModel, arena: Seq<u8>, col: int, row: int)
    requires
        describes(g, raw, arena),
    ensures
        g.ink(arena, col - g.origin.0, row - g.origin.1) == (0 <= row < raw.rows.len() && raw_bit(
            raw.rows[row],
            col,
        )),
{
    if blank(raw.rows) {
        if 0 <= row < raw.rows.len() {
            lemma_empty_row(col);
        }
    } else {
        lemma_outline_fits(raw.rows);
        lemma_packed_shows_rows(raw.rows, col, row);
        let o = outline(raw.rows);
        let c = col - o.left;
        let r = row - o.top;
        if 0 <= r < o.height && 0 <= c < 8 * o.row_bytes {
            let k = r * o.row_bytes + c / 8;
            assert(0 <= k < o.height * o.row_bytes) by (nonlinear_arith)
                requires
                    0 <= r < o.height,
                    0 <= c / 8 < o.row_bytes,
                    k == r * o.row_bytes + c / 8,
            ;
            assert(g.image_len() == o.height * o.row_bytes) by (nonlinear_arith)
                requires
                    g.row_bytes == o.row_bytes,
                    g.image_height == o.height,
                    g.image_len() == (g.row_bytes as nat) * (g.image_height as nat),
            ;
            assert(image_of(g, arena)[k] == arena[g.image_offset + k]);
        }
    }
}

/// In what is built no image stands wholly before the place that its
/// glyph records.
pub proof fn lemma_built_has_no_earlier_copy(raws: Seq<RawModel>, i: int, s: int)
    requires
        built(raws, raws.len() as int) is Ok,
        0 <= i < raws.len(),
        0 <= s,
    ensures
        ({
            let glyphs = built(raws, raws.len() as int)->Ok_0.0;
            let arena = built(raws, raws.len() as int)->Ok_0.1;
            !(s < glyphs[i].image_offset && s + glyphs[i].image_len() <= glyphs[i].image_offset
                && occurs_at(arena, image_of(glyphs[i], arena), s))
        }),
{
    lemma_built_describes(raws, raws.len() as int);
    let glyphs = built(raws, raws.len() as int)->Ok_0.0;
    let arena = built(raws, raws.len() as int)->Ok_0.1;
    assert(describes(glyphs[i], raws[i], arena));
}

} // verus!
