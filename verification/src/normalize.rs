//! Bringing the bands of a sheet to one ascent and one descent.

use vstd::prelude::*;
use crate::sheet::{band_models, raw_models, regular, Band, BandModel, RawGlyph, RawModel};

verus! {

/// The greatest ascent among the first `n` bands.
pub open spec fn max_ascent(bands: Seq<BandModel>, n: int) -> nat
    decreases n,
{
    if n <= 0 {
        0
    } else {
        let rest = max_ascent(bands, n - 1);
        if bands[n - 1].ascent > rest {
            bands[n - 1].ascent
        } else {
            rest
        }
    }
}

/// The greatest descent among the first `n` bands.
pub open spec fn max_descent(bands: Seq<BandModel>, n: int) -> nat
    decreases n,
{
    if n <= 0 {
        0
    } else {
        let rest = max_descent(bands, n - 1);
        if bands[n - 1].descent > rest {
            bands[n - 1].descent
        } else {
            rest
        }
    }
}

/// `count` rows without ink.
pub open spec fn empty_rows(count: int) -> Seq<u64> {
    Seq::new(count as nat, |i: int| 0u64)
}

/// A glyph with `above` empty rows added at its top and `below` at its
/// bottom.
pub open spec fn padded(raw: RawModel, above: int, below: int) -> RawModel {
    RawModel { rows: empty_rows(above) + raw.rows + empty_rows(below), advance: raw.advance }
}

/// The glyphs of a band, padded to the given ascent and descent.
pub open spec fn band_padded(band: BandModel, ascent: nat, descent: nat) -> Seq<RawModel> {
    Seq::new(
        band.glyphs.len(),
        |i: int| padded(band.glyphs[i], ascent - band.ascent, descent - band.descent),
    )
}

/// The padded glyphs of the first `n` bands, band after band.
pub open spec fn all_padded(bands: Seq<BandModel>, ascent: nat, descent: nat, n: int) -> Seq<
    RawModel,
>
    decreases n,
{
    if n <= 0 {
        Seq::empty()
    } else {
        all_padded(bands, ascent, descent, n - 1) + band_padded(bands[n - 1], ascent, descent)
    }
}

/// The bands of a sheet brought to common metrics: the greatest ascent and
/// descent, and all glyphs padded to them, band after band.
pub struct Normalized {
    pub ascent: usize,
    pub descent: usize,
    pub glyphs: Vec<RawGlyph>,
}

/// No band rises above the greatest ascent or falls below the greatest
/// descent.
pub proof fn lemma_max_bounds(bands: Seq<BandModel>, n: int, b: int)
    requires
        0 <= b < n <= bands.len(),
    ensures
        bands[b].ascent <= max_ascent(bands, n),
        bands[b].descent <= max_descent(bands, n),
    decreases n,
{
    if b < n - 1 {
        lemma_max_bounds(bands, n - 1, b);
    }
}

/// After padding, every glyph of regular bands has as many rows as the
/// common ascent and descent together.
pub proof fn lemma_padded_heights(bands: Seq<BandModel>, ascent: nat, descent: nat, n: int)
    requires
        0 <= n <= bands.len(),
        regular(bands),
        forall|b: int| 0 <= b < n ==> bands[b].ascent <= ascent && bands[b].descent <= descent,
    ensures
        forall|i: int|
            0 <= i < all_padded(bands, ascent, descent, n).len() ==> (#[trigger] all_padded(
                bands,
                ascent,
                descent,
                n,
            )[i]).rows.len() == ascent + descent,
    decreases n,
{
    if n > 0 {
        lemma_padded_heights(bands, ascent, descent, n - 1);
        let before = all_padded(bands, ascent, descent, n - 1);
        let here = band_padded(bands[n - 1], ascent, descent);
        assert forall|i: int| 0 <= i < (before + here).len() implies (#[trigger] (before + here)[i]).rows.len()
            == ascent + descent by {
            if i >= before.len() {
                let k = i - before.len();
                assert((before + here)[i] == here[k]);
                assert(bands[n - 1].glyphs[k].rows.len() == bands[n - 1].ascent + bands[n
                    - 1].descent);
            }
        }
    }
}

/// A copy of `glyph` with `above` empty rows added at its top and `below`
/// at its bottom.
pub fn pad_glyph(glyph: &RawGlyph, above: usize, below: usize) -> (out: RawGlyph)
    ensures
        out@ == padded(glyph@, above as int, below as int),
{
    let mut rows: Vec<u64> = Vec::new();
    let mut i: usize = 0;
    while i < above
        invariant
            i <= above,
            rows@ == empty_rows(i as int),
        decreases above - i,
    {
        rows.push(0);
        assert(rows@ =~= empty_rows(i + 1));
        i += 1;
    }
    let n = glyph.rows.len();
    let mut k: usize = 0;
    while k < n
        invariant
            k <= n == glyph.rows@.len(),
            rows@ == empty_rows(above as int) + glyph.rows@.subrange(0, k as int),
        decreases n - k,
    {
        rows.push(glyph.rows[k]);
        assert(rows@ =~= empty_rows(above as int) + glyph.rows@.subrange(0, k + 1));
        k += 1;
    }
    assert(glyph.rows@.subrange(0, n as int) =~= glyph.rows@);
    let mut j: usize = 0;
    while j < below
        invariant
            j <= below,
            rows@ == empty_rows(above as int) + glyph.rows@ + empty_rows(j as int),
        decreases below - j,
    {
        rows.push(0);
        assert(rows@ =~= empty_rows(above as int) + glyph.rows@ + empty_rows(j + 1));
        j += 1;
    }
    RawGlyph { rows, advance: glyph.advance }
}

/// Brings all bands to the greatest ascent and the greatest descent among
/// them, padding each glyph with empty rows at its top and bottom. Where
/// every glyph was as high as its band, every glyph is afterwards as high
/// as the common ascent and descent together.
pub fn normalize_bands(bands: &Vec<Band>) -> (out: Normalized)
    ensures
        out.ascent == max_ascent(band_models(bands@), bands@.len() as int),
        out.descent == max_descent(band_models(bands@), bands@.len() as int),
        raw_models(out.glyphs@) == all_padded(
            band_models(bands@),
            out.ascent as nat,
            out.descent as nat,
            bands@.len() as int,
        ),
        regular(band_models(bands@)) ==> forall|i: int|
            0 <= i < out.glyphs@.len() ==> (#[trigger] out.glyphs@[i])@.rows.len() == out.ascent
                + out.descent,
{
    let ghost models = band_models(bands@);
    let n = bands.len();
    let mut ascent: usize = 0;
    let mut descent: usize = 0;
    let mut b: usize = 0;
    while b < n
        invariant
            b <= n == bands@.len(),
            models == band_models(bands@),
            ascent == max_ascent(models, b as int),
            descent == max_descent(models, b as int),
        decreases n - b,
    {
        if bands[b].ascent > ascent {
            ascent = bands[b].ascent;
        }
        if bands[b].descent > descent {
            descent = bands[b].descent;
        }
        b += 1;
    }
    let mut glyphs: Vec<RawGlyph> = Vec::new();
    let mut b: usize = 0;
    assert(raw_models(glyphs@) =~= all_padded(models, ascent as nat, descent as nat, 0));
    while b < n
        invariant
            b <= n == bands@.len(),
            models == band_models(bands@),
            ascent == max_ascent(models, n as int),
            descent == max_descent(models, n as int),
            raw_models(glyphs@) == all_padded(models, ascent as nat, descent as nat, b as int),
        decreases n - b,
    {
        proof {
            lemma_max_bounds(models, n as int, b as int);
        }
        let band = &bands[b];
        let above = ascent - band.ascent;
        let below = descent - band.descent;
        let ghost before = glyphs@;
        let m = band.glyphs.len();
        let mut i: usize = 0;
        while i < m
            invariant
                i <= m == band.glyphs@.len(),
                band@ == models[b as int],
                above == ascent - band.ascent,
                below == descent - band.descent,
                glyphs@.len() == before.len() + i,
                forall|k: int| 0 <= k < before.len() ==> glyphs@[k] == before[k],
                forall|k: int|
                    0 <= k < i ==> (#[trigger] glyphs@[before.len() + k])@ == padded(
                        band.glyphs@[k]@,
                        above as int,
                        below as int,
                    ),
            decreases m - i,
        {
            let g = pad_glyph(&band.glyphs[i], above, below);
            glyphs.push(g);
            i += 1;
        }
        proof {
            let here = band_padded(models[b as int], ascent as nat, descent as nat);
            let joined = raw_models(before) + here;
            assert(raw_models(glyphs@).len() == joined.len());
            assert forall|k: int| 0 <= k < joined.len() implies raw_models(glyphs@)[k]
                == joined[k] by {
                if k >= before.len() {
                    let j = k - before.len();
                    assert(glyphs@[before.len() + j]@ == padded(
                        band.glyphs@[j]@,
                        above as int,
                        below as int,
                    ));
                    assert(joined[k] == here[j]);
                }
            }
            assert(raw_models(glyphs@) =~= joined);
        }
        b += 1;
    }
    proof {
        if regular(models) {
            assert forall|k: int| 0 <= k < n implies models[k].ascent <= ascent && models[k].descent
                <= descent by {
                lemma_max_bounds(models, n as int, k);
            }
            lemma_padded_heights(models, ascent as nat, descent as nat, n as int);
            let all = all_padded(models, ascent as nat, descent as nat, n as int);
            assert forall|i: int| 0 <= i < glyphs@.len() implies (#[trigger] glyphs@[i])@.rows.len()
                == ascent + descent by {
                assert(raw_models(glyphs@)[i] == all[i]);
            }
        }
    }
    Normalized { ascent, descent, glyphs }
}

} // verus!
