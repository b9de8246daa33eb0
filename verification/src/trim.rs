//! Trimming a raw glyph to its tightest box and packing its rows.

use vstd::prelude::*;
use vstd::std_specs::bits::{u64_leading_zeros, u64_trailing_zeros};

verus! {

/// A row with ink has fewer than 64 zero bits at its two ends together.
pub proof fn lemma_ends_leave_a_bit(row: u64)
    requires
        row != 0,
    ensures
        0 <= u64_leading_zeros(row),
        0 <= u64_trailing_zeros(row),
        u64_leading_zeros(row) + u64_trailing_zeros(row) <= 63,
{
    vstd::std_specs::bits::axiom_u64_leading_zeros(row);
    vstd::std_specs::bits::axiom_u64_trailing_zeros(row);
    let lz = u64_leading_zeros(row);
    let tz = u64_trailing_zeros(row);
    if lz + tz > 63 {
        let j = (63 - lz) as u64;
        assert(j < tz);
        assert((row >> j) & 1u64 == 0u64);
    }
}


/// The highest bit of a row mask: the leftmost pixel.
pub open spec fn leftmost() -> u64 {
    0x8000_0000_0000_0000u64
}

/// Whether a row mask has ink in column `col`, counted from the left.
pub open spec fn raw_bit(row: u64, col: int) -> bool {
    0 <= col < 64 && row & (leftmost() >> (col as u64)) != 0
}

/// Whether no row has ink.
pub open spec fn blank(rows: Seq<u64>) -> bool {
    forall|i: int| 0 <= i < rows.len() ==> rows[i] == 0
}

/// Whether row `i` is the first with ink.
pub open spec fn is_first_ink(rows: Seq<u64>, i: int) -> bool {
    &&& 0 <= i < rows.len()
    &&& rows[i] != 0
    &&& forall|j: int| 0 <= j < i ==> rows[j] == 0
}

/// Whether row `i` is the last with ink.
pub open spec fn is_last_ink(rows: Seq<u64>, i: int) -> bool {
    &&& 0 <= i < rows.len()
    &&& rows[i] != 0
    &&& forall|j: int| i < j < rows.len() ==> rows[j] == 0
}

/// The first row with ink.
pub open spec fn first_ink(rows: Seq<u64>) -> int {
    choose|i: int| is_first_ink(rows, i)
}

/// The last row with ink.
pub open spec fn last_ink(rows: Seq<u64>) -> int {
    choose|i: int| is_last_ink(rows, i)
}

/// The least number of leading zero bits among the first `n` rows; 64 for
/// no rows.
pub open spec fn least_leading(rows: Seq<u64>, n: int) -> int
    decreases n,
{
    if n <= 0 {
        64
    } else {
        let rest = least_leading(rows, n - 1);
        let here = u64_leading_zeros(rows[n - 1]);
        if here < rest {
            here
        } else {
            rest
        }
    }
}

/// The least number of trailing zero bits among the first `n` rows; 64 for
/// no rows.
pub open spec fn least_trailing(rows: Seq<u64>, n: int) -> int
    decreases n,
{
    if n <= 0 {
        64
    } else {
        let rest = least_trailing(rows, n - 1);
        let here = u64_trailing_zeros(rows[n - 1]) as int;
        if here < rest {
            here
        } else {
            rest
        }
    }
}

/// The tightest box round the ink of a glyph: rows and columns to skip at
/// the top and on the left, the rows kept, and the bytes that hold one kept
/// row.
pub struct Outline {
    pub top: int,
    pub height: int,
    pub left: int,
    pub row_bytes: int,
}

/// The box of a glyph that is not blank.
pub open spec fn outline(rows: Seq<u64>) -> Outline {
    let left = least_leading(rows, rows.len() as int);
    let right = least_trailing(rows, rows.len() as int);
    Outline {
        top: first_ink(rows),
        height: last_ink(rows) - first_ink(rows) + 1,
        left,
        row_bytes: (64 - right - left + 7) / 8,
    }
}

/// Byte `j` of a row whose first `left` columns are cut off.
pub open spec fn pack_byte(row: u64, left: u64, j: u64) -> u8 {
    (((row << left) << ((8 * j) as u64)) >> 56u64) as u8
}

/// The image of a glyph that is not blank: its kept rows, top to bottom,
/// each cut on the left and packed into `row_bytes` bytes, leftmost pixel
/// in the highest bit.
pub open spec fn packed(rows: Seq<u64>) -> Seq<u8> {
    let o = outline(rows);
    Seq::new(
        (o.height * o.row_bytes) as nat,
        |k: int| pack_byte(rows[o.top + k / o.row_bytes], o.left as u64, (k % o.row_bytes) as u64),
    )
}

/// The measured box of a glyph.
#[derive(Copy, Clone, Debug)]
pub struct Trim {
    /// Rows without ink above the image.
    pub top: usize,
    /// Rows of the image.
    pub height: usize,
    /// Columns without ink left of the image.
    pub left: u32,
    /// Bytes that hold one row of the image.
    pub row_bytes: u8,
}

impl View for Trim {
    type V = Outline;

    open spec fn view(&self) -> Outline {
        Outline {
            top: self.top as int,
            height: self.height as int,
            left: self.left as int,
            row_bytes: self.row_bytes as int,
        }
    }
}

/// The box of a glyph with ink lies inside its rows and columns.
pub open spec fn outline_fits(rows: Seq<u64>, o: Outline) -> bool {
    &&& 0 <= o.top
    &&& 1 <= o.height
    &&& o.top + o.height <= rows.len()
    &&& 0 <= o.left < 64
    &&& 1 <= o.row_bytes <= 8
}

/// Every row has at least as many leading zero bits as the least.
pub proof fn lemma_least_leading(rows: Seq<u64>, n: int, k: int)
    requires
        0 <= k < n <= rows.len(),
    ensures
        0 <= least_leading(rows, n) <= u64_leading_zeros(rows[k]) <= 64,
    decreases n,
{
    vstd::std_specs::bits::axiom_u64_leading_zeros(rows[n - 1]);
    vstd::std_specs::bits::axiom_u64_leading_zeros(rows[k]);
    if k < n - 1 {
        lemma_least_leading(rows, n - 1, k);
    } else if n - 1 > 0 {
        lemma_least_leading(rows, n - 1, 0);
    } else {
        assert(least_leading(rows, n - 1) == 64);
    }
}

/// Every row has at least as many trailing zero bits as the least.
pub proof fn lemma_least_trailing(rows: Seq<u64>, n: int, k: int)
    requires
        0 <= k < n <= rows.len(),
    ensures
        0 <= least_trailing(rows, n) <= u64_trailing_zeros(rows[k]) <= 64,
    decreases n,
{
    vstd::std_specs::bits::axiom_u64_trailing_zeros(rows[n - 1]);
    vstd::std_specs::bits::axiom_u64_trailing_zeros(rows[k]);
    if k < n - 1 {
        lemma_least_trailing(rows, n - 1, k);
    } else if n - 1 > 0 {
        lemma_least_trailing(rows, n - 1, 0);
    } else {
        assert(least_trailing(rows, n - 1) == 64);
    }
}

/// The box of a glyph with ink lies inside its rows and columns.
pub proof fn lemma_outline_fits(rows: Seq<u64>)
    requires
        !blank(rows),
    ensures
        is_first_ink(rows, first_ink(rows)),
        is_last_ink(rows, last_ink(rows)),
        first_ink(rows) <= last_ink(rows),
        outline_fits(rows, outline(rows)),
        least_leading(rows, rows.len() as int) + least_trailing(rows, rows.len() as int) <= 63,
        0 <= least_trailing(rows, rows.len() as int),
{
    let some = choose|i: int| 0 <= i < rows.len() && rows[i] != 0;
    lemma_has_first(rows, some);
    lemma_has_last(rows, some);
    let top = first_ink(rows);
    let n = rows.len() as int;
    lemma_least_leading(rows, n, top);
    lemma_least_trailing(rows, n, top);
    lemma_ends_leave_a_bit(rows[top]);
}

/// A first row with ink exists at or above any row with ink.
pub proof fn lemma_has_first(rows: Seq<u64>, k: int)
    requires
        0 <= k < rows.len(),
        rows[k] != 0,
    ensures
        exists|i: int| is_first_ink(rows, i) && i <= k,
    decreases k,
{
    if exists|j: int| 0 <= j < k && rows[j] != 0 {
        let j = choose|j: int| 0 <= j < k && rows[j] != 0;
        lemma_has_first(rows, j);
    } else {
        assert(is_first_ink(rows, k));
    }
}

/// A last row with ink exists at or below any row with ink.
pub proof fn lemma_has_last(rows: Seq<u64>, k: int)
    requires
        0 <= k < rows.len(),
        rows[k] != 0,
    ensures
        exists|i: int| is_last_ink(rows, i) && k <= i,
    decreases rows.len() - k,
{
    if exists|j: int| k < j < rows.len() && rows[j] != 0 {
        let j = choose|j: int| k < j < rows.len() && rows[j] != 0;
        lemma_has_last(rows, j);
    } else {
        assert(is_last_ink(rows, k));
    }
}

/// Measures the tightest box round a glyph's ink. A glyph without ink has
/// none.
pub fn measure(rows: &Vec<u64>) -> (found: Option<Trim>)
    ensures
        match found {
            None => blank(rows@),
            Some(t) => !blank(rows@) && t@ == outline(rows@) && outline_fits(rows@, t@),
        },
{
    let n = rows.len();
    let mut top: usize = 0;
    while top < n && rows[top] == 0
        invariant
            top <= n == rows@.len(),
            forall|j: int| 0 <= j < top ==> rows@[j] == 0,
        decreases n - top,
    {
        top += 1;
    }
    if top == n {
        return None;
    }
    assert(is_first_ink(rows@, top as int));
    let mut last: usize = n - 1;
    while rows[last] == 0
        invariant
            top <= last < n == rows@.len(),
            rows@[top as int] != 0,
            forall|j: int| last < j < n ==> rows@[j] == 0,
        decreases last,
    {
        last -= 1;
    }
    assert(is_last_ink(rows@, last as int));
    let mut left: u32 = 64;
    let mut right: u32 = 64;
    let mut i: usize = 0;
    while i < n
        invariant
            i <= n == rows@.len(),
            left == least_leading(rows@, i as int),
            right == least_trailing(rows@, i as int),
        decreases n - i,
    {
        proof {
            vstd::std_specs::bits::axiom_u64_leading_zeros(rows@[i as int]);
            vstd::std_specs::bits::axiom_u64_trailing_zeros(rows@[i as int]);
        }
        let lz = rows[i].leading_zeros();
        let tz = rows[i].trailing_zeros();
        if lz < left {
            left = lz;
        }
        if tz < right {
            right = tz;
        }
        i += 1;
    }
    proof {
        lemma_outline_fits(rows@);
        assert(first_ink(rows@) == top);
        assert(last_ink(rows@) == last);
    }
    let bits = 64 - right - left;
    let row_bytes = ((bits + 7) / 8) as u8;
    Some(Trim { top, height: last - top + 1, left, row_bytes })
}

/// Packs the kept rows of a glyph with ink into bytes.
pub fn pack_rows(rows: &Vec<u64>, t: &Trim) -> (bytes: Vec<u8>)
    requires
        !blank(rows@),
        t@ == outline(rows@),
        outline_fits(rows@, t@),
    ensures
        bytes@ == packed(rows@),
{
    let mut bytes: Vec<u8> = Vec::new();
    let row_bytes = t.row_bytes as usize;
    let n = rows.len();
    let mut r: usize = 0;
    while r < t.height
        invariant
            n == rows@.len(),
            t@ == outline(rows@),
            outline_fits(rows@, t@),
            row_bytes == t.row_bytes,
            r <= t.height,
            bytes@.len() == r * row_bytes,
            forall|k: int|
                0 <= k < bytes@.len() ==> #[trigger] bytes@[k] == pack_byte(
                    rows@[t.top + k / (row_bytes as int)],
                    t.left as u64,
                    (k % (row_bytes as int)) as u64,
                ),
        decreases t.height - r,
    {
        let shifted: u64 = rows[t.top + r] << t.left;
        let mut j: usize = 0;
        while j < row_bytes
            invariant
                t@ == outline(rows@),
                outline_fits(rows@, t@),
                row_bytes == t.row_bytes,
                r < t.height,
                j <= row_bytes,
                shifted == rows@[t.top + r] << (t.left as u64),
                bytes@.len() == r * row_bytes + j,
                forall|k: int|
                    0 <= k < bytes@.len() ==> #[trigger] bytes@[k] == pack_byte(
                        rows@[t.top + k / (row_bytes as int)],
                        t.left as u64,
                        (k % (row_bytes as int)) as u64,
                    ),
            decreases row_bytes - j,
        {
            let moved: u64 = (shifted << (8 * j as u64)) >> 56u64;
            assert(moved < 256) by (bit_vector)
                requires
                    moved == (shifted << (8 * j as u64)) >> 56u64,
            ;
            proof {
                let k = (r * row_bytes + j) as int;
                vstd::arithmetic::div_mod::lemma_fundamental_div_mod_converse(
                    k,
                    row_bytes as int,
                    r as int,
                    j as int,
                );
            }
            bytes.push(moved as u8);
            j += 1;
        }
        r += 1;
        assert(bytes@.len() == r * row_bytes) by (nonlinear_arith)
            requires
                bytes@.len() == (r - 1) * row_bytes + row_bytes,
        ;
    }
    assert(bytes@.len() == t.height * row_bytes);
    assert(bytes@ =~= packed(rows@));
    bytes
}

/// Bit `m` of packed byte `j` is the ink of column `left + 8 * j + m`.
pub proof fn lemma_pack_byte_bit(row: u64, left: u64, j: u64, m: u64)
    requires
        left < 64,
        j < 8,
        m < 8,
    ensures
        crate::glyph::bit_at(pack_byte(row, left, j), m as u8) == raw_bit(
            row,
            left + 8 * j + m,
        ),
{
    let shift: u64 = (8 * j) as u64;
    let col: u64 = (left + 8 * j + m) as u64;
    let byte: u8 = pack_byte(row, left, j);
    let bit: u8 = m as u8;
    assert((byte & (0x80u8 >> bit) != 0) == (col < 64 && row & (0x8000_0000_0000_0000u64 >> col)
        != 0)) by (bit_vector)
        requires
            left < 64,
            j < 8,
            m < 8,
            shift == 8 * j,
            col == left + 8 * j + m,
            byte == (((row << left) << shift) >> 56u64) as u8,
            bit == m as u8,
    ;
}

/// A column that lies in the leading zeros of a row has no ink.
pub proof fn lemma_leading_is_empty(row: u64, col: int)
    requires
        0 <= col < u64_leading_zeros(row),
    ensures
        !raw_bit(row, col),
{
    vstd::std_specs::bits::axiom_u64_leading_zeros(row);
    let j: u64 = (63 - col) as u64;
    let c: u64 = col as u64;
    assert((row >> j) & 1u64 == 0u64);
    assert(row & (0x8000_0000_0000_0000u64 >> c) == 0) by (bit_vector)
        requires
            (row >> j) & 1u64 == 0u64,
            c < 64,
            j == 63 - c,
    ;
}

/// A column that lies in the trailing zeros of a row has no ink.
pub proof fn lemma_trailing_is_empty(row: u64, col: int)
    requires
        64 - u64_trailing_zeros(row) <= col < 64,
        0 <= col,
    ensures
        !raw_bit(row, col),
{
    vstd::std_specs::bits::axiom_u64_trailing_zeros(row);
    let j: u64 = (63 - col) as u64;
    let c: u64 = col as u64;
    assert((row >> j) & 1u64 == 0u64);
    assert(row & (0x8000_0000_0000_0000u64 >> c) == 0) by (bit_vector)
        requires
            (row >> j) & 1u64 == 0u64,
            c < 64,
            j == 63 - c,
    ;
}

/// A row without ink has no ink in any column.
pub proof fn lemma_empty_row(col: int)
    ensures
        !raw_bit(0u64, col),
{
    if 0 <= col < 64 {
        let c: u64 = col as u64;
        assert(0u64 & (0x8000_0000_0000_0000u64 >> c) == 0) by (bit_vector);
    }
}

/// Whether an image of `height` rows of `row_bytes` bytes has a set pixel
/// at column `c`, row `r`.
pub open spec fn image_ink(image: Seq<u8>, row_bytes: int, height: int, c: int, r: int) -> bool {
    &&& 0 <= r < height
    &&& 0 <= c < 8 * row_bytes
    &&& crate::glyph::bit_at(image[r * row_bytes + c / 8], (c % 8) as u8)
}

/// The packed image of a glyph, put back at the top left of its box, shows
/// exactly the ink of the glyph's rows.
pub proof fn lemma_packed_shows_rows(rows: Seq<u64>, col: int, row: int)
    requires
        !blank(rows),
    ensures
        image_ink(
            packed(rows),
            outline(rows).row_bytes,
            outline(rows).height,
            col - outline(rows).left,
            row - outline(rows).top,
        ) == (0 <= row < rows.len() && raw_bit(rows[row], col)),
{
    lemma_outline_fits(rows);
    let o = outline(rows);
    let n = rows.len() as int;
    let c = col - o.left;
    let r = row - o.top;
    let right = least_trailing(rows, n);
    if 0 <= row < n {
        let v = rows[row];
        lemma_least_leading(rows, n, row);
        lemma_least_trailing(rows, n, row);
        if !(0 <= r < o.height) {
            assert(v == 0);
            lemma_empty_row(col);
        } else if c < 0 {
            if 0 <= col {
                lemma_leading_is_empty(v, col);
            }
        } else if c >= 8 * o.row_bytes {
            if col < 64 {
                lemma_trailing_is_empty(v, col);
            }
        } else {
            let j = c / 8;
            let m = c % 8;
            let k = r * o.row_bytes + j;
            assert(0 <= k < o.height * o.row_bytes) by (nonlinear_arith)
                requires
                    0 <= r < o.height,
                    0 <= j < o.row_bytes,
                    k == r * o.row_bytes + j,
            ;
            vstd::arithmetic::div_mod::lemma_fundamental_div_mod_converse(k, o.row_bytes, r, j);
            assert(packed(rows)[k] == pack_byte(v, o.left as u64, j as u64));
            lemma_pack_byte_bit(v, o.left as u64, j as u64, m as u64);
        }
    }
}

} // verus!
