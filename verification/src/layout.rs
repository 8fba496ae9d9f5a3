//! Column layout engine: arranges entries of known print widths into the
//! widest grid whose rows stay inside a maximum line width.
//!
//! Entries are assigned to columns round-robin (`index mod column_count`);
//! a column is as wide as its widest entry, and every column additionally
//! reserves `extra` characters for separation (and quoting, when names are
//! quoted).  The engine considers every column count from one up to
//! [`upper_bound_cols`] and picks the largest one whose total row width
//! fits; when none fits it falls back to one entry per line.

use vstd::prelude::*;

verus! {

/// Width of column `c` in a grid of `ncols` columns: the widest entry
/// assigned to that column, or 0 when the column is empty.
pub open spec fn col_max(ws: Seq<u8>, ncols: int, c: int) -> int
    recommends
        0 < ncols,
    decreases ws.len(),
{
    if ws.len() == 0 {
        0
    } else {
        let rest = col_max(ws.drop_last(), ncols, c);
        if (ws.len() - 1) % ncols == c && ws.last() > rest {
            ws.last() as int
        } else {
            rest
        }
    }
}

/// Sum of the widths of the first `c` columns.
pub open spec fn sum_cols(ws: Seq<u8>, ncols: int, c: int) -> int
    decreases c,
{
    if c <= 0 {
        0
    } else {
        sum_cols(ws, ncols, c - 1) + col_max(ws, ncols, c - 1)
    }
}

/// Total printed width of one row of a grid with `ncols` columns, with
/// `extra` characters reserved per column.
pub open spec fn row_total(ws: Seq<u8>, ncols: int, extra: int) -> int {
    sum_cols(ws, ncols, ncols) + ncols * extra
}

/// The grid with `ncols` columns stays within the line width `maxw`.
pub open spec fn grid_fits(ws: Seq<u8>, ncols: int, extra: int, maxw: int) -> bool {
    row_total(ws, ncols, extra) <= maxw
}

/// Shortest entry width, or 0 when there are no entries.
pub open spec fn min_width(ws: Seq<u8>) -> int
    decreases ws.len(),
{
    if ws.len() == 0 {
        0
    } else if ws.len() == 1 {
        ws[0] as int
    } else {
        let rest = min_width(ws.drop_last());
        if ws.last() < rest {
            ws.last() as int
        } else {
            rest
        }
    }
}

/// Largest column count the engine considers: `maxw` divided by the
/// shortest entry width (a grid with more columns than that cannot fit
/// even if every entry were as short as the shortest one). A count beyond
/// the entry count only appends empty columns, whose reserved characters
/// still count against the budget; the width budget, not the entry count,
/// bounds the search.
pub open spec fn upper_bound_cols(ws: Seq<u8>, maxw: int) -> int {
    if min_width(ws) == 0 {
        maxw
    } else {
        maxw / min_width(ws)
    }
}

/// The chosen arrangement for a list of entries.
pub enum Layout {
    /// No grid fits: print one entry per line.
    OnePerLine,
    /// A grid; the vector holds the width of each column.
    Grid(Vec<u8>),
}

proof fn lemma_col_max_nonneg(ws: Seq<u8>, ncols: int, c: int)
    ensures
        0 <= col_max(ws, ncols, c),
    decreases ws.len(),
{
    if ws.len() > 0 {
        lemma_col_max_nonneg(ws.drop_last(), ncols, c);
    }
}

proof fn lemma_col_max_take_succ(ws: Seq<u8>, j: int, ncols: int, c: int)
    requires
        0 <= j < ws.len(),
        0 < ncols,
    ensures
        col_max(ws.take(j + 1), ncols, c) == if j % ncols == c && ws[j] > col_max(
            ws.take(j),
            ncols,
            c,
        ) {
            ws[j] as int
        } else {
            col_max(ws.take(j), ncols, c)
        },
{
    assert(ws.take(j + 1).drop_last() =~= ws.take(j));
    assert(ws.take(j + 1).last() == ws[j]);
}

proof fn lemma_sum_cols_take_succ(ws: Seq<u8>, j: int, ncols: int, c: int)
    requires
        0 <= j < ws.len(),
        0 < ncols,
        0 <= c,
    ensures
        sum_cols(ws.take(j + 1), ncols, c) == sum_cols(ws.take(j), ncols, c) + if j % ncols < c {
            col_max(ws.take(j + 1), ncols, j % ncols) - col_max(ws.take(j), ncols, j % ncols)
        } else {
            0
        },
    decreases c,
{
    if c > 0 {
        lemma_sum_cols_take_succ(ws, j, ncols, c - 1);
        lemma_col_max_take_succ(ws, j, ncols, c - 1);
    }
}

proof fn lemma_col_max_take_mono(ws: Seq<u8>, j: int, ncols: int, c: int)
    requires
        0 <= j <= ws.len(),
    ensures
        col_max(ws.take(j), ncols, c) <= col_max(ws, ncols, c),
    decreases ws.len(),
{
    if j == ws.len() {
        assert(ws.take(j) =~= ws);
    } else if ws.len() > 0 {
        assert(ws.drop_last().take(j) =~= ws.take(j));
        lemma_col_max_take_mono(ws.drop_last(), j, ncols, c);
    }
}

proof fn lemma_sum_cols_take_mono(ws: Seq<u8>, j: int, ncols: int, c: int)
    requires
        0 <= j <= ws.len(),
    ensures
        sum_cols(ws.take(j), ncols, c) <= sum_cols(ws, ncols, c),
    decreases c,
{
    if c > 0 {
        lemma_sum_cols_take_mono(ws, j, ncols, c - 1);
        lemma_col_max_take_mono(ws, j, ncols, c - 1);
    }
}

/// A row that fits a prefix of the entries never shrinks when the remaining
/// entries are added: the running total of the scan only grows.
proof fn lemma_row_total_take_mono(ws: Seq<u8>, j: int, ncols: int, extra: int)
    requires
        0 <= j <= ws.len(),
    ensures
        row_total(ws.take(j), ncols, extra) <= row_total(ws, ncols, extra),
{
    lemma_sum_cols_take_mono(ws, j, ncols, ncols);
}

/// Every entry fits inside the column it is assigned to: the padding
/// subtraction `column width - entry width` can never underflow.
pub proof fn lemma_entry_fits_column(ws: Seq<u8>, ncols: int, i: int)
    requires
        0 <= i < ws.len(),
        0 < ncols,
    ensures
        ws[i] <= col_max(ws, ncols, i % ncols),
    decreases ws.len(),
{
    if i == ws.len() - 1 {
        lemma_col_max_nonneg(ws.drop_last(), ncols, i % ncols);
    } else {
        lemma_entry_fits_column(ws.drop_last(), ncols, i);
        lemma_col_max_take_mono(ws, ws.len() - 1, ncols, i % ncols);
        assert(ws.take(ws.len() - 1) =~= ws.drop_last());
    }
}

/// Scans the entries once for a fixed candidate column count `k`, tracking
/// each column's running maximum and the running row total; gives up early
/// as soon as the running total exceeds the line width.
fn candidate_widths(widths: &Vec<u8>, k: usize, extra: u8, maxw: u16) -> (r: Option<Vec<u8>>)
    requires
        1 <= k <= u16::MAX,
        1 <= extra,
    ensures
        match r {
            Some(cols) => {
                &&& cols@.len() == k
                &&& forall|c: int|
                    0 <= c < k ==> cols@[c] == col_max(widths@, k as int, c)
                &&& grid_fits(widths@, k as int, extra as int, maxw as int)
            },
            None => !grid_fits(widths@, k as int, extra as int, maxw as int),
        },
{
    let mut colw: Vec<u8> = Vec::new();
    let mut c: usize = 0;
    while c < k
        invariant
            c <= k,
            colw@.len() == c,
            forall|x: int| 0 <= x < c ==> colw@[x] == 0,
        decreases k - c,
    {
        colw.push(0);
        c = c + 1;
    }
    proof {
        assert((extra as int) * (k as int) <= 255 * 65535) by (nonlinear_arith)
            requires
                0 <= extra as int <= 255,
                0 <= k as int <= 65535,
        ;
    }
    let mut total: u32 = (extra as u32) * (k as u32);
    proof {
        assert(widths@.take(0) =~= Seq::<u8>::empty());
        lemma_sum_cols_empty(k as int, k as int);
        assert((k as int) * (extra as int) == (extra as int) * (k as int)) by (nonlinear_arith);
        assert(row_total(widths@.take(0), k as int, extra as int) == total);
    }
    if total > maxw as u32 {
        proof {
            lemma_row_total_take_mono(widths@, 0, k as int, extra as int);
        }
        return None;
    }
    let n = widths.len();
    let mut j: usize = 0;
    while j < n
        invariant
            n == widths@.len(),
            j <= n,
            1 <= k <= u16::MAX,
            1 <= extra,
            colw@.len() == k,
            forall|x: int| 0 <= x < k ==> colw@[x] == col_max(widths@.take(j as int), k as int, x),
            total == row_total(widths@.take(j as int), k as int, extra as int),
            total <= maxw,
        decreases n - j,
    {
        let w = widths[j];
        let c = j % k;
        proof {
            assert forall|x: int| 0 <= x < k implies col_max(widths@.take(j + 1), k as int, x)
                == (if (j as int) % (k as int) == x && widths@[j as int] > col_max(
                widths@.take(j as int),
                k as int,
                x,
            ) {
                widths@[j as int] as int
            } else {
                col_max(widths@.take(j as int), k as int, x)
            }) by {
                lemma_col_max_take_succ(widths@, j as int, k as int, x);
            }
            lemma_sum_cols_take_succ(widths@, j as int, k as int, k as int);
        }
        if w > colw[c] {
            total = total + ((w - colw[c]) as u32);
            colw.set(c, w);
            if total > maxw as u32 {
                proof {
                    lemma_row_total_take_mono(widths@, j + 1, k as int, extra as int);
                }
                return None;
            }
        }
        j = j + 1;
    }
    proof {
        assert(widths@.take(n as int) =~= widths@);
    }
    Some(colw)
}

proof fn lemma_sum_cols_empty(ncols: int, c: int)
    ensures
        sum_cols(Seq::<u8>::empty(), ncols, c) == 0,
    decreases c,
{
    if c > 0 {
        lemma_sum_cols_empty(ncols, c - 1);
    }
}

/// Computes the shortest entry width, or 0 for an empty list.
fn shortest_width(widths: &Vec<u8>) -> (m: u8)
    ensures
        m as int == min_width(widths@),
{
    let n = widths.len();
    if n == 0 {
        return 0;
    }
    let mut m = widths[0];
    let mut j: usize = 1;
    proof {
        assert(widths@.take(1) =~= seq![widths@[0]]);
    }
    while j < n
        invariant
            n == widths@.len(),
            1 <= j <= n,
            m as int == min_width(widths@.take(j as int)),
        decreases n - j,
    {
        let w = widths[j];
        proof {
            assert(widths@.take(j + 1).drop_last() =~= widths@.take(j as int));
            assert(widths@.take(j + 1).last() == widths@[j as int]);
        }
        if w < m {
            m = w;
        }
        j = j + 1;
    }
    proof {
        assert(widths@.take(n as int) =~= widths@);
    }
    m
}

/// Chooses the largest column count, up to [`upper_bound_cols`], whose grid
/// fits in `maxw` columns of text, with `extra` characters reserved per
/// column; falls back to one entry per line when no grid fits or there are
/// no entries at all.
pub fn compute_layout(widths: &Vec<u8>, maxw: u16, extra: u8) -> (r: Layout)
    requires
        1 <= extra,
    ensures
        match r {
            Layout::Grid(cols) => {
                &&& 1 <= cols@.len() <= upper_bound_cols(widths@, maxw as int)
                &&& forall|c: int|
                    0 <= c < cols@.len() ==> cols@[c] == col_max(widths@, cols@.len() as int, c)
                &&& grid_fits(widths@, cols@.len() as int, extra as int, maxw as int)
                &&& forall|k: int|
                    cols@.len() < k <= upper_bound_cols(widths@, maxw as int) ==> !grid_fits(
                        widths@,
                        k,
                        extra as int,
                        maxw as int,
                    )
            },
            Layout::OnePerLine => widths@.len() == 0 || forall|k: int|
                1 <= k <= upper_bound_cols(widths@, maxw as int) ==> !grid_fits(
                    widths@,
                    k,
                    extra as int,
                    maxw as int,
                ),
        },
{
    let n = widths.len();
    if n == 0 {
        return Layout::OnePerLine;
    }
    let minw = shortest_width(widths);
    let bound: usize = if minw == 0 {
        maxw as usize
    } else {
        (maxw / (minw as u16)) as usize
    };
    let mut k: usize = bound;
    while k >= 1
        invariant
            bound == upper_bound_cols(widths@, maxw as int),
            bound <= u16::MAX,
            k <= bound,
            1 <= extra,
            forall|x: int|
                k < x <= bound ==> !grid_fits(widths@, x, extra as int, maxw as int),
        decreases k,
    {
        match candidate_widths(widths, k, extra, maxw) {
            Some(cols) => {
                return Layout::Grid(cols);
            },
            None => {
                k = k - 1;
            },
        }
    }
    Layout::OnePerLine
}

} // verus!
