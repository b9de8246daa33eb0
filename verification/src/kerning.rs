//! Pairwise kerning: the table, its lookup, and the state kept along a line.

use vstd::prelude::*;

verus! {

/// An entry in the kerning table.
#[derive(Copy, Clone, Debug, Default, Ord, PartialOrd, Eq, PartialEq)]
pub struct KerningEntry {
    /// The two characters, each given by the low 8 bits of its code point,
    /// whose meeting makes this entry apply.
    pub pair: (u8, u8),
    /// Adjustment to the pen between the two characters. Negative values
    /// bring the glyphs closer together.
    pub adjust: i8,
}

/// A position held to the range of `usize`.
pub open spec fn saturate(val: int) -> int {
    if val < 0 {
        0
    } else if val > usize::MAX {
        usize::MAX as int
    } else {
        val
    }
}

impl KerningEntry {
    /// The pair as one number, by which the table is ordered.
    pub open spec fn key(&self) -> int {
        self.pair.0 * 256 + self.pair.1
    }

    /// Applies this entry's adjustment to a position, saturating at both
    /// ends of `usize`.
    #[must_use]
    pub fn adjust_usize(&self, val: usize) -> (moved: usize)
        ensures
            moved == saturate(val + self.adjust),
    {
        if self.adjust < 0 {
            let back: usize = (0 - (self.adjust as i16)) as usize;
            val.saturating_sub(back)
        } else {
            val.saturating_add(self.adjust as usize)
        }
    }
}

/// A kerning table: entries in ascending order of pair, each pair once.
#[derive(Copy, Clone, Debug, Default, Ord, PartialOrd, Eq, PartialEq)]
pub struct KerningTable<'k> {
    pub entries: &'k [KerningEntry],
}

/// The key of a pair of characters that both fit in one byte.
pub open spec fn pair_key(before: char, after: char) -> int {
    (before as u32) * 256 + (after as u32)
}

impl<'k> KerningTable<'k> {
    /// The entries ascend strictly by pair.
    pub open spec fn wf(&self) -> bool {
        forall|i: int, j: int|
            0 <= i < j < self.entries@.len() ==> self.entries@[i].key() < self.entries@[j].key()
    }

    /// Whether entry `i` is the one for `before` followed by `after`.
    pub open spec fn holds(&self, before: char, after: char, i: int) -> bool {
        &&& before as u32 <= 0xFF
        &&& after as u32 <= 0xFF
        &&& 0 <= i < self.entries@.len()
        &&& self.entries@[i].key() == pair_key(before, after)
    }

    /// The entry for `before` followed by `after`, if the table has one.
    pub open spec fn find(&self, before: char, after: char) -> Option<KerningEntry> {
        if exists|i: int| self.holds(before, after, i) {
            Some(self.entries@[choose|i: int| self.holds(before, after, i)])
        } else {
            None
        }
    }

    /// The adjustment between `before` and `after`: zero where the table has
    /// no entry.
    pub open spec fn kern(&self, before: char, after: char) -> int {
        match self.find(before, after) {
            Some(e) => e.adjust as int,
            None => 0,
        }
    }

    /// Looks up the entry for `before` followed by `after`. There is none
    /// when either character is beyond one byte. An entry that is returned
    /// always stands in the table under that pair; in a well-formed table
    /// the result is exactly `find(before, after)`.
    pub fn get(&self, before: char, after: char) -> (found: Option<&KerningEntry>)
        ensures
            match found {
                Some(e) => exists|i: int| self.holds(before, after, i) && *e == self.entries@[i],
                None => (before as u32 > 0xFF || after as u32 > 0xFF || self.wf())
                    ==> self.find(before, after) is None,
            },
            self.wf() ==> match found {
                Some(e) => self.find(before, after) == Some(*e),
                None => self.find(before, after) is None,
            },
    {
        let b = before as u32;
        let a = after as u32;
        if b > 0xFF || a > 0xFF {
            return None;
        }
        let key: u32 = b * 256 + a;
        let mut lo: usize = 0;
        let mut hi: usize = self.entries.len();
        while lo < hi
            invariant
                lo <= hi <= self.entries@.len(),
                key == pair_key(before, after),
                before as u32 <= 0xFF,
                after as u32 <= 0xFF,
                self.wf() ==> forall|i: int|
                    0 <= i < lo ==> (#[trigger] self.entries@[i]).key() != key,
                self.wf() ==> forall|i: int|
                    hi <= i < self.entries@.len() ==> (#[trigger] self.entries@[i]).key() != key,
            decreases hi - lo,
        {
            let mid = lo + (hi - lo) / 2;
            let e = &self.entries[mid];
            let probe: u32 = (e.pair.0 as u32) * 256 + (e.pair.1 as u32);
            if probe == key {
                assert(self.holds(before, after, mid as int));
                proof {
                    if self.wf() {
                        let k = choose|k: int| self.holds(before, after, k);
                        assert(k == mid);
                    }
                }
                return Some(e);
            } else if probe < key {
                lo = mid + 1;
            } else {
                hi = mid;
            }
        }
        None
    }
}

/// What kerning remembers along one line: the table and the character drawn
/// last. A fresh state belongs at the start of each line.
pub struct KerningState<'k> {
    table: KerningTable<'k>,
    last_char: Option<char>,
}

impl<'k> KerningState<'k> {
    /// The table this state looks pairs up in.
    pub closed spec fn table(&self) -> KerningTable<'k> {
        self.table
    }

    /// The character drawn last on this line, if any.
    pub closed spec fn last_char(&self) -> Option<char> {
        self.last_char
    }

    /// A state for the start of a line.
    pub fn new(table: KerningTable<'k>) -> (state: Self)
        ensures
            state.table() == table,
            state.last_char() is None,
    {
        KerningState { table, last_char: None }
    }

    /// The pen position at which `c` is drawn when the pen stands at `x`
    /// after the character drawn before, if any.
    pub open spec fn adjusted(table: KerningTable<'k>, last: Option<char>, c: char, x: int) -> int {
        match last {
            Some(prev) => saturate(x + table.kern(prev, c)),
            None => x,
        }
    }

    /// Moves the pen `x` by the adjustment between the character drawn last
    /// and `c`, saturating, and remembers `c`. The first character of a line
    /// moves nothing.
    pub fn adjust_usize_for_char(&mut self, c: char, x: &mut usize)
        requires
            old(self).table().wf(),
        ensures
            final(self).table() == old(self).table(),
            final(self).last_char() == Some(c),
            *final(x) == Self::adjusted(old(self).table(), old(self).last_char(), c, *old(x) as int),
    {
        let last = self.last_char;
        self.last_char = Some(c);
        if let Some(prev) = last {
            if let Some(entry) = self.table.get(prev, c) {
                *x = entry.adjust_usize(*x);
            }
        }
    }
}

} // verus!
