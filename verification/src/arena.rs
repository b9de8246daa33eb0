//! The bitmap arena: finding a glyph image that is already there, adding
//! one that is not, and looking for images that could have been shared.

use vstd::prelude::*;
use crate::glyph::Glyph;

verus! {

/// Whether `pat` stands in `arena` from position `p` on.
pub open spec fn occurs_at(arena: Seq<u8>, pat: Seq<u8>, p: int) -> bool {
    &&& 0 <= p
    &&& p + pat.len() <= arena.len()
    &&& arena.subrange(p, p + pat.len()) == pat
}

/// Whether `p` is the first position at which `pat` stands in `arena`.
pub open spec fn is_first_occurrence(arena: Seq<u8>, pat: Seq<u8>, p: int) -> bool {
    &&& occurs_at(arena, pat, p)
    &&& forall|q: int| 0 <= q < p ==> !occurs_at(arena, pat, q)
}

/// The first position at which `pat` stands in `arena`, if it does.
pub open spec fn first_occurrence(arena: Seq<u8>, pat: Seq<u8>) -> Option<int> {
    if exists|p: int| is_first_occurrence(arena, pat, p) {
        Some(choose|p: int| is_first_occurrence(arena, pat, p))
    } else {
        None
    }
}

/// Where an image is after interning: at its first occurrence, or at the
/// end of the arena.
pub open spec fn interned_at(arena: Seq<u8>, image: Seq<u8>) -> int {
    match first_occurrence(arena, image) {
        Some(p) => p,
        None => arena.len() as int,
    }
}

/// The arena after interning an image: unchanged if the image is there,
/// else with the image at its end.
pub open spec fn interned_arena(arena: Seq<u8>, image: Seq<u8>) -> Seq<u8> {
    match first_occurrence(arena, image) {
        Some(p) => arena,
        None => arena + image,
    }
}

/// Where `pat` stands somewhere, it has a first occurrence, at or before
/// that place.
pub proof fn lemma_first_exists(arena: Seq<u8>, pat: Seq<u8>, p: int)
    requires
        occurs_at(arena, pat, p),
    ensures
        exists|q: int| is_first_occurrence(arena, pat, q) && q <= p,
    decreases p,
{
    if exists|q: int| 0 <= q < p && occurs_at(arena, pat, q) {
        let q = choose|q: int| 0 <= q < p && occurs_at(arena, pat, q);
        lemma_first_exists(arena, pat, q);
    } else {
        assert(is_first_occurrence(arena, pat, p));
    }
}

/// Whether `pat` stands in `arena` at position `p`.
pub fn stands_at(arena: &Vec<u8>, pat: &Vec<u8>, p: usize) -> (yes: bool)
    requires
        p + pat@.len() <= arena@.len(),
    ensures
        yes == occurs_at(arena@, pat@, p as int),
{
    let m = pat.len();
    let n = arena.len();
    let mut k: usize = 0;
    while k < m
        invariant
            k <= m == pat@.len(),
            n == arena@.len(),
            p + m <= arena@.len(),
            forall|j: int| 0 <= j < k ==> arena@[p + j] == pat@[j],
        decreases m - k,
    {
        if arena[p + k] != pat[k] {
            assert(arena@.subrange(p as int, p + m)[k as int] != pat@[k as int]);
            return false;
        }
        k += 1;
    }
    assert(arena@.subrange(p as int, p + m) =~= pat@);
    true
}

/// The first position at which `pat` stands in `arena`, if it does.
pub fn find_first(arena: &Vec<u8>, pat: &Vec<u8>) -> (found: Option<usize>)
    ensures
        match found {
            Some(p) => first_occurrence(arena@, pat@) == Some(p as int),
            None => first_occurrence(arena@, pat@) is None,
        },
{
    let n = arena.len();
    let m = pat.len();
    if m > n {
        return None;
    }
    let last = n - m;
    let mut p: usize = 0;
    loop
        invariant
            n == arena@.len(),
            m == pat@.len(),
            last == n - m,
            p <= last,
            forall|q: int| 0 <= q < p ==> !occurs_at(arena@, pat@, q),
        decreases last - p,
    {
        if stands_at(arena, pat, p) {
            assert(is_first_occurrence(arena@, pat@, p as int));
            return Some(p);
        }
        if p == last {
            return None;
        }
        p += 1;
    }
}

/// Interns an image: gives the position of its first occurrence in the
/// arena, or adds it at the end and gives that position.
pub fn intern(arena: &mut Vec<u8>, image: &Vec<u8>) -> (offset: usize)
    ensures
        offset == interned_at(old(arena)@, image@),
        final(arena)@ == interned_arena(old(arena)@, image@),
{
    match find_first(arena, image) {
        Some(p) => p,
        None => {
            let offset = arena.len();
            let ghost before = arena@;
            let m = image.len();
            let mut k: usize = 0;
            while k < m
                invariant
                    k <= m == image@.len(),
                    arena@ == before + image@.subrange(0, k as int),
                decreases m - k,
            {
                arena.push(image[k]);
                assert(arena@ =~= before + image@.subrange(0, k + 1));
                k += 1;
            }
            assert(image@.subrange(0, m as int) =~= image@);
            offset
        },
    }
}

/// One occurrence of a pattern in a haystack: which pattern, and from
/// where to where.
#[derive(Copy, Clone, Debug, PartialEq, Eq)]
pub struct ArenaMatch {
    pub pattern: usize,
    pub start: usize,
    pub end: usize,
}

/// A multi-pattern matcher, built once from its patterns: an
/// `aho_corasick::AhoCorasick`, of which nothing is seen here but the
/// patterns it was built from.
#[verifier::external_body]
pub struct Automaton {
    fsm: aho_corasick::AhoCorasick,
}

/// The patterns that a matcher was built from, in their order.
pub uninterp spec fn automaton_patterns(fsm: Automaton) -> Seq<Seq<u8>>;

/// The byte sequences of a list of patterns.
pub open spec fn pattern_views(patterns: Seq<Vec<u8>>) -> Seq<Seq<u8>> {
    Seq::new(patterns.len(), |i: int| patterns[i]@)
}

/// Whether `m` names a pattern and a place in `haystack` where that pattern
/// stands.
pub open spec fn is_match(patterns: Seq<Seq<u8>>, haystack: Seq<u8>, m: ArenaMatch) -> bool {
    &&& m.pattern < patterns.len()
    &&& m.start + patterns[m.pattern as int].len() == m.end
    &&& occurs_at(haystack, patterns[m.pattern as int], m.start as int)
}

/// `aho_corasick::AhoCorasick::new_auto_configured`: builds the matcher of
/// the given patterns. The claim is only that the matcher is one of these
/// patterns, in this order.
#[verifier::external_body]
fn build_automaton(patterns: &Vec<Vec<u8>>) -> (fsm: Automaton)
    ensures
        automaton_patterns(fsm) == pattern_views(patterns@),
{
    Automaton { fsm: aho_corasick::AhoCorasick::new_auto_configured(patterns.as_slice()) }
}

/// `aho_corasick::AhoCorasick::find_overlapping_iter`, collected: all
/// occurrences of the matcher's patterns in `haystack`, overlapping ones
/// too. The claims are that each item is an occurrence of the pattern it
/// names, and that every occurrence of a pattern that is not empty is
/// among the items. Nothing is claimed of their order.
#[verifier::external_body]
fn overlapping_matches(fsm: &Automaton, haystack: &[u8]) -> (found: Vec<ArenaMatch>)
    ensures
        forall|k: int|
            0 <= k < found@.len() ==> is_match(
                automaton_patterns(*fsm),
                haystack@,
                #[trigger] found@[k],
            ),
        forall|p: int, s: int|
            0 <= p < automaton_patterns(*fsm).len() && automaton_patterns(*fsm)[p].len() > 0
                && #[trigger] occurs_at(haystack@, automaton_patterns(*fsm)[p], s)
                ==> exists|k: int|
                0 <= k < found@.len() && (#[trigger] found@[k]).pattern == p && found@[k].start
                    == s,
{
    fsm.fsm.find_overlapping_iter(haystack).map(
        |m| ArenaMatch { pattern: m.pattern(), start: m.start(), end: m.end() },
    ).collect()
}

/// The image of a glyph in an arena.
pub open spec fn image_of(g: Glyph, arena: Seq<u8>) -> Seq<u8> {
    arena.subrange(g.image_offset as int, g.image_offset + g.image_len())
}

/// The images of a list of glyphs.
pub open spec fn images_of(glyphs: Seq<Glyph>, arena: Seq<u8>) -> Seq<Seq<u8>> {
    Seq::new(glyphs.len(), |i: int| image_of(glyphs[i], arena))
}

/// Whether every glyph is well formed for an arena of `arena_len` bytes.
pub open spec fn images_fit(glyphs: Seq<Glyph>, arena_len: nat) -> bool {
    forall|i: int| 0 <= i < glyphs.len() ==> (#[trigger] glyphs[i]).wf(arena_len)
}

/// Whether a match lies wholly before the recorded image of the glyph that
/// it names.
pub open spec fn lies_before(glyphs: Seq<Glyph>, m: ArenaMatch) -> bool {
    &&& m.pattern < glyphs.len()
    &&& m.start < glyphs[m.pattern as int].image_offset
    &&& m.end <= glyphs[m.pattern as int].image_offset
}

/// Those of the first `n` matches that lie wholly before the image of
/// their glyph, in their order.
pub open spec fn earlier_upto(glyphs: Seq<Glyph>, found: Seq<ArenaMatch>, n: int) -> Seq<ArenaMatch>
    decreases n,
{
    if n <= 0 {
        Seq::empty()
    } else if lies_before(glyphs, found[n - 1]) {
        earlier_upto(glyphs, found, n - 1).push(found[n - 1])
    } else {
        earlier_upto(glyphs, found, n - 1)
    }
}

/// What is selected comes from the matches, and every match that lies
/// before its glyph's image is selected.
pub proof fn lemma_earlier_upto(glyphs: Seq<Glyph>, found: Seq<ArenaMatch>, n: int)
    requires
        0 <= n <= found.len(),
    ensures
        forall|k: int|
            0 <= k < earlier_upto(glyphs, found, n).len() ==> lies_before(
                glyphs,
                #[trigger] earlier_upto(glyphs, found, n)[k],
            ) && exists|j: int| 0 <= j < n && found[j] == earlier_upto(glyphs, found, n)[k],
        forall|j: int|
            0 <= j < n && lies_before(glyphs, #[trigger] found[j]) ==> exists|k: int|
                0 <= k < earlier_upto(glyphs, found, n).len() && earlier_upto(glyphs, found, n)[k]
                    == found[j],
    decreases n,
{
    if n > 0 {
        lemma_earlier_upto(glyphs, found, n - 1);
        let less = earlier_upto(glyphs, found, n - 1);
        let more = earlier_upto(glyphs, found, n);
        assert forall|k: int| 0 <= k < more.len() implies lies_before(glyphs, #[trigger] more[k])
            && exists|j: int| 0 <= j < n && found[j] == more[k] by {
            if k < less.len() {
                assert(more[k] == less[k]);
                let j = choose|j: int| 0 <= j < n - 1 && found[j] == less[k];
                assert(found[j] == more[k]);
            } else {
                assert(found[n - 1] == more[k]);
            }
        }
        assert forall|j: int| 0 <= j < n && lies_before(glyphs, #[trigger] found[j]) implies exists|
            k: int,
        | 0 <= k < more.len() && more[k] == found[j] by {
            if j < n - 1 {
                let k = choose|k: int| 0 <= k < less.len() && less[k] == found[j];
                assert(more[k] == found[j]);
            } else {
                assert(more[more.len() - 1] == found[j]);
            }
        }
    }
}

/// Whether every glyph is well formed for an arena of `arena_len` bytes.
pub fn check_images_fit(glyphs: &Vec<Glyph>, arena_len: usize) -> (ok: bool)
    ensures
        ok == images_fit(glyphs@, arena_len as nat),
{
    let n = glyphs.len();
    let mut i: usize = 0;
    while i < n
        invariant
            i <= n == glyphs@.len(),
            forall|k: int| 0 <= k < i ==> (#[trigger] glyphs@[k]).wf(arena_len as nat),
        decreases n - i,
    {
        if !glyphs[i].is_wf(arena_len) {
            return false;
        }
        i += 1;
    }
    true
}

/// Selects from the matches of a search for the glyphs' images those that
/// lie wholly before the recorded image of their glyph.
pub fn select_earlier(glyphs: &Vec<Glyph>, found: &Vec<ArenaMatch>) -> (earlier: Vec<ArenaMatch>)
    ensures
        earlier@ == earlier_upto(glyphs@, found@, found@.len() as int),
{
    let n = found.len();
    let count = glyphs.len();
    let mut earlier: Vec<ArenaMatch> = Vec::new();
    let mut j: usize = 0;
    while j < n
        invariant
            j <= n == found@.len(),
            count == glyphs@.len(),
            earlier@ == earlier_upto(glyphs@, found@, j as int),
        decreases n - j,
    {
        let m = found[j];
        if m.pattern < count {
            let at = glyphs[m.pattern].image_offset as usize;
            if m.start < at && m.end <= at {
                earlier.push(m);
            }
        }
        j += 1;
    }
    earlier
}

/// Copies the images of the glyphs out of the arena, one pattern each.
pub fn copy_images(glyphs: &Vec<Glyph>, arena: &Vec<u8>) -> (patterns: Vec<Vec<u8>>)
    requires
        images_fit(glyphs@, arena@.len()),
    ensures
        pattern_views(patterns@) == images_of(glyphs@, arena@),
{
    let n = glyphs.len();
    let mut patterns: Vec<Vec<u8>> = Vec::new();
    let mut i: usize = 0;
    while i < n
        invariant
            i <= n == glyphs@.len(),
            images_fit(glyphs@, arena@.len()),
            patterns@.len() == i,
            forall|k: int| 0 <= k < i ==> (#[trigger] patterns@[k])@ == image_of(glyphs@[k], arena@),
        decreases n - i,
    {
        let g = &glyphs[i];
        let image = g.slice_bitmap(arena.as_slice());
        patterns.push(vstd::slice::slice_to_vec(image));
        i += 1;
    }
    assert(pattern_views(patterns@) =~= images_of(glyphs@, arena@));
    patterns
}

/// Looks for glyph images that stand in the arena wholly before the place
/// that their glyph records: images that interning should have shared.
/// Every item names a glyph and such a place; every such place of an image
/// that is not empty is among the items.
pub fn earlier_copies(glyphs: &Vec<Glyph>, arena: &Vec<u8>) -> (copies: Vec<ArenaMatch>)
    requires
        images_fit(glyphs@, arena@.len()),
    ensures
        forall|k: int|
            0 <= k < copies@.len() ==> lies_before(glyphs@, #[trigger] copies@[k]) && is_match(
                images_of(glyphs@, arena@),
                arena@,
                copies@[k],
            ),
        forall|i: int, s: int|
            0 <= i < glyphs@.len() && glyphs@[i].image_len() > 0 && s + glyphs@[i].image_len()
                <= glyphs@[i].image_offset && #[trigger] occurs_at(
                arena@,
                image_of(glyphs@[i], arena@),
                s,
            ) ==> exists|k: int|
                0 <= k < copies@.len() && (#[trigger] copies@[k]).pattern == i && copies@[k].start
                    == s,
{
    let patterns = copy_images(glyphs, arena);
    let fsm = build_automaton(&patterns);
    let found = overlapping_matches(&fsm, arena.as_slice());
    let copies = select_earlier(glyphs, &found);
    proof {
        let images = images_of(glyphs@, arena@);
        lemma_earlier_upto(glyphs@, found@, found@.len() as int);
        assert forall|k: int| 0 <= k < copies@.len() implies lies_before(
            glyphs@,
            #[trigger] copies@[k],
        ) && is_match(images, arena@, copies@[k]) by {
            let j = choose|j: int| 0 <= j < found@.len() && found@[j] == copies@[k];
            assert(is_match(images, arena@, found@[j]));
        }
        assert forall|i: int, s: int|
            0 <= i < glyphs@.len() && glyphs@[i].image_len() > 0 && s + glyphs@[i].image_len()
                <= glyphs@[i].image_offset && #[trigger] occurs_at(
                arena@,
                image_of(glyphs@[i], arena@),
                s,
            ) implies exists|k: int|
            0 <= k < copies@.len() && (#[trigger] copies@[k]).pattern == i && copies@[k].start
                == s by {
            assert(images[i] == image_of(glyphs@[i], arena@));
            assert(occurs_at(arena@, images[i], s));
            let j = choose|j: int|
                0 <= j < found@.len() && (#[trigger] found@[j]).pattern == i && found@[j].start
                    == s;
            assert(is_match(images, arena@, found@[j]));
            assert(lies_before(glyphs@, found@[j]));
            let k = choose|k: int| 0 <= k < copies@.len() && copies@[k] == found@[j];
            assert(copies@[k].pattern == i && copies@[k].start == s);
        }
    }
    copies
}

} // verus!
