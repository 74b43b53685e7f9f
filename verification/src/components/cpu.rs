use crate::text::{decimal, push_decimal};
use vstd::prelude::*;

verus! {

/// Gauges per row in the cores panel: one per 12 columns, between 1 and 8.
pub open spec fn core_columns(width: u16) -> nat {
    let c = width as nat / 12;
    if c < 1 {
        1
    } else if c > 8 {
        8
    } else {
        c
    }
}

/// `n / d` rounded up.
pub open spec fn ceil_div(n: nat, d: nat) -> nat {
    ((n + d - 1) as nat) / d
}

pub open spec fn min_nat(a: nat, b: nat) -> nat {
    if a < b {
        a
    } else {
        b
    }
}

/// The cores shown in row `r` of a grid with `cols` gauges per row.
pub open spec fn core_row(n: nat, cols: nat, r: nat) -> (nat, nat) {
    (r * cols, min_nat(r * cols + cols, n))
}

/// Rows of the cores panel: as many as the cores need, at most the panel's height.
pub open spec fn core_rows_shown(n: nat, width: u16, height: u16) -> nat {
    if n == 0 || height == 0 || width == 0 {
        0
    } else {
        min_nat(height as nat, ceil_div(n, core_columns(width)))
    }
}

/// The rows `ranges` of a cores grid, each a run of core indices `[start, end)`.
pub open spec fn is_core_grid(ranges: Seq<(usize, usize)>, n: nat, cols: nat, rows: nat) -> bool {
    &&& ranges.len() == rows
    &&& forall|r: int|
        0 <= r < rows ==> #[trigger] ranges[r].0 == core_row(n, cols, r as nat).0
            && ranges[r].1 == core_row(n, cols, r as nat).1
}

/// Rows inside the grid start at an existing core.
pub proof fn lemma_row_start_below(n: nat, c: nat, i: nat)
    requires
        c > 0,
        i < ceil_div(n, c),
    ensures
        i * c < n,
{
    assert(i * c < n) by (nonlinear_arith)
        requires
            c > 0,
            i + 1 <= ((n + c - 1) as nat) / c,
    ;
}

/// The core index runs of the first `rows` rows of a grid with `cols` per row.
pub fn core_ranges(n: usize, cols: usize, rows: usize) -> (ranges: Vec<(usize, usize)>)
    requires
        cols > 0,
        rows <= ceil_div(n as nat, cols as nat),
        rows * cols <= usize::MAX,
    ensures
        is_core_grid(ranges@, n as nat, cols as nat, rows as nat),
{
    let mut ranges: Vec<(usize, usize)> = Vec::new();
    let mut row_idx: usize = 0;
    let mut start: usize = 0;
    while row_idx < rows
        invariant
            cols > 0,
            rows <= ceil_div(n as nat, cols as nat),
            rows * cols <= usize::MAX,
            row_idx <= rows,
            start == row_idx * cols,
            is_core_grid(ranges@, n as nat, cols as nat, row_idx as nat),
        decreases rows - row_idx,
    {
        proof {
            lemma_row_start_below(n as nat, cols as nat, row_idx as nat);
            assert((row_idx + 1) * cols == row_idx * cols + cols) by (nonlinear_arith);
            assert((row_idx + 1) * cols <= rows * cols) by (nonlinear_arith)
                requires
                    row_idx + 1 <= rows,
            ;
        }
        let next = start + cols;
        let end = if next < n {
            next
        } else {
            n
        };
        ranges.push((start, end));
        row_idx = row_idx + 1;
        start = next;
    }
    ranges
}

/// Splits the cores panel into rows of core gauges: `width / 12` gauges per row
/// (between 1 and 8), as many rows as the cores need but no more than the
/// panel's height; nothing when there are no cores or the panel is empty.
pub fn core_layout(n: usize, width: u16, height: u16) -> (ranges: Vec<(usize, usize)>)
    requires
        n == 0 || height == 0 || width == 0 || n + core_columns(width) <= usize::MAX,
    ensures
        is_core_grid(
            ranges@,
            n as nat,
            core_columns(width),
            core_rows_shown(n as nat, width, height),
        ),
{
    if n == 0 || height == 0 || width == 0 {
        return Vec::new();
    }
    let per = (width / 12) as usize;
    let cols = if per < 1 {
        1
    } else if per > 8 {
        8
    } else {
        per
    };
    assert(cols == core_columns(width));
    let rows_needed = (n + cols - 1) / cols;
    let max_rows = if (height as usize) < rows_needed {
        height as usize
    } else {
        rows_needed
    };
    proof {
        let t = (n + cols - 1) as int;
        assert(max_rows * cols <= t) by (nonlinear_arith)
            requires
                max_rows <= t / (cols as int),
                cols > 0,
                t >= 0,
        ;
    }
    core_ranges(n, cols, max_rows)
}

/// Law: the rows of a cores grid run over the cores in order without gaps or
/// overlaps, none is empty, and none holds more than a row's worth.
pub proof fn lemma_core_grid_partitions(ranges: Seq<(usize, usize)>, n: nat, cols: nat, rows: nat)
    requires
        is_core_grid(ranges, n, cols, rows),
        cols > 0,
        rows <= ceil_div(n, cols),
    ensures
        rows > 0 ==> ranges[0].0 == 0,
        forall|r: int| 0 < r < rows ==> #[trigger] ranges[r].0 == ranges[r - 1].1,
        forall|r: int|
            0 <= r < rows ==> #[trigger] ranges[r].0 < ranges[r].1 <= n && ranges[r].1
                - ranges[r].0 <= cols,
{
    assert forall|r: int| 0 < r < rows implies #[trigger] ranges[r].0 == ranges[r - 1].1 by {
        lemma_row_start_below(n, cols, r as nat);
        assert(r * cols == (r - 1) * cols + cols) by (nonlinear_arith);
        assert(ranges[r - 1].0 == core_row(n, cols, (r - 1) as nat).0);
        assert(ranges[r].0 == core_row(n, cols, r as nat).0);
    }
    assert forall|r: int| 0 <= r < rows implies #[trigger] ranges[r].0 < ranges[r].1 <= n
        && ranges[r].1 - ranges[r].0 <= cols by {
        lemma_row_start_below(n, cols, r as nat);
    }
    if rows > 0 {
        assert(0 * cols == 0) by (nonlinear_arith);
    }
}

/// The cores panel's title, e.g. " Cores (8) ".
pub open spec fn cores_title_text(n: nat) -> Seq<char> {
    " Cores ("@ + decimal(n) + ") "@
}

pub fn cores_title(n: usize) -> (s: String)
    ensures
        s@ == cores_title_text(n as nat),
{
    let mut s = String::new();
    s.append(" Cores (");
    push_decimal(&mut s, n as u64);
    s.append(") ");
    s
}

} // verus!
