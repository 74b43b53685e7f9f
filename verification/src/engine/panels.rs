//! Where each panel of the screen and each widget inside it goes.
use crate::components::cpu::{core_layout, core_columns, core_rows_shown, is_core_grid, min_nat};
use crate::dashboard::{btop_columns, btop_core_layout, btop_rows, visible_disk_count};
use crate::engine::grid::Rect;
use ratatui::layout::{Constraint, Direction, Layout};
use vstd::prelude::*;

verus! {

/// The direction in which an area is split.
#[derive(Clone, Copy, Debug, PartialEq, Eq, Structural)]
pub enum Axis {
    Horizontal,
    Vertical,
}

/// A size rule for one part of a split.
#[derive(Clone, Copy, Debug, PartialEq, Eq, Structural)]
pub enum Size {
    /// Exactly this many cells.
    Length(u16),
    /// At least this many cells.
    Min(u16),
    /// This percentage of the area.
    Percentage(u16),
    /// This fraction of the area.
    Ratio(u32, u32),
}

/// Name for what ratatui's `Layout::split` returns for an area split along an
/// axis by a list of size rules.
pub uninterp spec fn split_areas(axis: Axis, sizes: Seq<Size>, area: Rect) -> Seq<Rect>;

/// Calls ratatui's `Layout::split` (default margins, flex and spacing). The
/// result is the named split, with one area per size rule, as the solver in the
/// crate's source makes one segment per constraint. The solver's own failure,
/// on which the call panics, is not excluded here.
#[verifier::external_body]
fn split(axis: Axis, sizes: &Vec<Size>, area: Rect) -> (r: Vec<Rect>)
    ensures
        r@ == split_areas(axis, sizes@, area),
        r@.len() == sizes@.len(),
{
    let direction = match axis {
        Axis::Horizontal => Direction::Horizontal,
        Axis::Vertical => Direction::Vertical,
    };
    let constraints = sizes.iter().map(|s| match *s {
        Size::Length(n) => Constraint::Length(n),
        Size::Min(n) => Constraint::Min(n),
        Size::Percentage(p) => Constraint::Percentage(p),
        Size::Ratio(a, b) => Constraint::Ratio(a, b),
    });
    let whole = ratatui::layout::Rect { x: area.x, y: area.y, width: area.width, height: area.height };
    let parts = Layout::default().direction(direction).constraints(constraints).split(whole);
    parts.iter().map(|p| Rect::new(p.x, p.y, p.width, p.height)).collect()
}

pub open spec fn sat_add16(a: u16, b: u16) -> u16 {
    if a + b > u16::MAX {
        u16::MAX
    } else {
        (a + b) as u16
    }
}

pub open spec fn sat_sub16(a: u16, b: u16) -> u16 {
    if a >= b {
        (a - b) as u16
    } else {
        0
    }
}

pub open spec fn min16(a: u16, b: u16) -> u16 {
    if a < b {
        a
    } else {
        b
    }
}

/// The inside of a box drawn with borders on all four sides: one cell in from
/// each edge (never past the far edge), as ratatui's `Block::inner` computes it
/// for a block with all borders and no padding.
pub open spec fn bordered_inner_area(a: Rect) -> Rect {
    Rect {
        x: min16(sat_add16(a.x, 1), sat_add16(a.x, a.width)),
        y: min16(sat_add16(a.y, 1), sat_add16(a.y, a.height)),
        width: sat_sub16(sat_sub16(a.width, 1), 1),
        height: sat_sub16(sat_sub16(a.height, 1), 1),
    }
}

/// The inside of a box with borders on all four sides.
pub fn bordered_inner(a: Rect) -> (r: Rect)
    ensures
        r == bordered_inner_area(a),
{
    let right = a.x.saturating_add(a.width);
    let bottom = a.y.saturating_add(a.height);
    let x1 = a.x.saturating_add(1);
    let y1 = a.y.saturating_add(1);
    Rect::new(
        if x1 < right {
            x1
        } else {
            right
        },
        if y1 < bottom {
            y1
        } else {
            bottom
        },
        a.width.saturating_sub(1).saturating_sub(1),
        a.height.saturating_sub(1).saturating_sub(1),
    )
}

/// `n` copies of a size rule.
pub open spec fn repeat_size(s: Size, n: nat) -> Seq<Size> {
    Seq::new(n, |i: int| s)
}

fn repeat_sizes(s: Size, n: usize) -> (v: Vec<Size>)
    ensures
        v@ == repeat_size(s, n as nat),
{
    let mut v: Vec<Size> = Vec::new();
    let mut i: usize = 0;
    while i < n
        invariant
            i <= n,
            v@ == repeat_size(s, i as nat),
        decreases n - i,
    {
        v.push(s);
        i = i + 1;
        assert(v@ =~= repeat_size(s, i as nat));
    }
    v
}

fn two_sizes(a: Size, b: Size) -> (v: Vec<Size>)
    ensures
        v@ == seq![a, b],
{
    let mut v: Vec<Size> = Vec::new();
    v.push(a);
    v.push(b);
    assert(v@ =~= seq![a, b]);
    v
}

fn three_sizes(a: Size, b: Size, c: Size) -> (v: Vec<Size>)
    ensures
        v@ == seq![a, b, c],
{
    let mut v: Vec<Size> = Vec::new();
    v.push(a);
    v.push(b);
    v.push(c);
    assert(v@ =~= seq![a, b, c]);
    v
}

/// Two equal halves.
pub open spec fn halves() -> Seq<Size> {
    seq![Size::Ratio(1, 2), Size::Ratio(1, 2)]
}

/// A bordered panel holding two widgets stacked inside it.
pub struct StackedPanel {
    pub inner: Rect,
    pub first: Rect,
    pub second: Rect,
}

/// The inside of a bordered panel split top to bottom by two size rules.
pub open spec fn stacked_panel_spec(area: Rect, a: Size, b: Size) -> (Rect, Rect, Rect) {
    let inner = bordered_inner_area(area);
    let parts = split_areas(Axis::Vertical, seq![a, b], inner);
    (inner, parts[0], parts[1])
}

/// Lays out a bordered panel with two widgets stacked inside it, e.g. the
/// read and write graphs of the disk panel.
pub fn stacked_panel(area: Rect, a: Size, b: Size) -> (p: StackedPanel)
    ensures
        (p.inner, p.first, p.second) == stacked_panel_spec(area, a, b),
{
    let inner = bordered_inner(area);
    let parts = split(Axis::Vertical, &two_sizes(a, b), inner);
    StackedPanel { inner, first: parts[0], second: parts[1] }
}

/// The gauges of a cores grid: for each row area, the row's cores split evenly
/// across it, each with its core index.
pub open spec fn core_cells_spec(grid: Seq<(usize, usize)>, rows: Seq<Rect>) -> Seq<(usize, Rect)>
    decreases grid.len(),
{
    if grid.len() == 0 || rows.len() < grid.len() {
        seq![]
    } else {
        let r = (grid.len() - 1) as int;
        let (start, end) = grid[r];
        let count = (end - start) as nat;
        let segs = split_areas(Axis::Horizontal, repeat_size(Size::Ratio(1, count as u32), count), rows[r]);
        core_cells_spec(grid.drop_last(), rows) + Seq::new(count, |i: int| ((start + i) as usize, segs[i]))
    }
}

/// Splits each grid row's area evenly among its cores.
fn core_cells(grid: &Vec<(usize, usize)>, rows: &Vec<Rect>) -> (cells: Vec<(usize, Rect)>)
    requires
        rows@.len() >= grid@.len(),
        forall|r: int| 0 <= r < grid@.len() ==> #[trigger] grid@[r].0 < grid@[r].1 && grid@[r].1 - grid@[r].0 <= u32::MAX,
    ensures
        cells@ == core_cells_spec(grid@, rows@),
{
    let mut cells: Vec<(usize, Rect)> = Vec::new();
    let mut r: usize = 0;
    assert(core_cells_spec(grid@.take(0), rows@) =~= Seq::<(usize, Rect)>::empty());
    while r < grid.len()
        invariant
            rows@.len() >= grid@.len(),
            forall|k: int| 0 <= k < grid@.len() ==> #[trigger] grid@[k].0 < grid@[k].1 && grid@[k].1 - grid@[k].0 <= u32::MAX,
            r <= grid@.len(),
            cells@ == core_cells_spec(grid@.take(r as int), rows@),
        decreases grid@.len() - r,
    {
        let (start, end) = grid[r];
        let count = end - start;
        let segs = split(Axis::Horizontal, &repeat_sizes(Size::Ratio(1, count as u32), count), rows[r]);
        let ghost before = cells@;
        let mut i: usize = 0;
        while i < count
            invariant
                count == end - start,
                segs@.len() == count,
                i <= count,
                cells@ == before + Seq::new(i as nat, |j: int| ((start + j) as usize, segs@[j])),
            decreases count - i,
        {
            cells.push((start + i, segs[i]));
            i = i + 1;
            assert(cells@ =~= before + Seq::new(i as nat, |j: int| ((start + j) as usize, segs@[j])));
        }
        assert(grid@.take(r + 1).drop_last() =~= grid@.take(r as int));
        assert(grid@.take(r + 1)[r as int] == grid@[r as int]);
        r = r + 1;
    }
    assert(grid@.take(grid@.len() as int) =~= grid@);
    cells
}

/// The rows of a cores grid with `cols` cores per row, as a sequence.
pub open spec fn core_grid_spec(n: nat, cols: nat, rows: nat) -> Seq<(usize, usize)> {
    Seq::new(
        rows,
        |r: int| ((r * cols) as usize, min_nat((r * cols + cols) as nat, n) as usize),
    )
}

proof fn lemma_grid_is_spec(ranges: Seq<(usize, usize)>, n: nat, cols: nat, rows: nat)
    requires
        is_core_grid(ranges, n, cols, rows),
        cols > 0,
        rows <= crate::components::cpu::ceil_div(n, cols),
    ensures
        ranges == core_grid_spec(n, cols, rows),
        forall|r: int| 0 <= r < ranges.len() ==> #[trigger] ranges[r].0 < ranges[r].1 && ranges[r].1 - ranges[r].0 <= cols,
{
    crate::components::cpu::lemma_core_grid_partitions(ranges, n, cols, rows);
    let g = core_grid_spec(n, cols, rows);
    assert forall|r: int| 0 <= r < rows implies #[trigger] ranges[r] == g[r] by {
        crate::components::cpu::lemma_row_start_below(n, cols, r as nat);
        assert(ranges[r].0 == crate::components::cpu::core_row(n, cols, r as nat).0);
    }
    assert(ranges =~= g);
}

/// The gauges of a cores grid laid over the inside of its box: one row of
/// height 1 per grid row, each row split evenly among its cores.
pub open spec fn grid_cells(grid: Seq<(usize, usize)>, inner: Rect) -> Seq<(usize, Rect)> {
    if grid.len() == 0 {
        seq![]
    } else {
        core_cells_spec(grid, split_areas(Axis::Vertical, repeat_size(Size::Length(1), grid.len()), inner))
    }
}

fn grid_cells_exec(grid: &Vec<(usize, usize)>, inner: Rect, cols: Ghost<nat>) -> (cells: Vec<(usize, Rect)>)
    requires
        cols@ <= u32::MAX,
        forall|r: int| 0 <= r < grid@.len() ==> #[trigger] grid@[r].0 < grid@[r].1 && grid@[r].1 - grid@[r].0 <= cols@,
    ensures
        cells@ == grid_cells(grid@, inner),
{
    if grid.len() == 0 {
        return Vec::new();
    }
    let rows = split(Axis::Vertical, &repeat_sizes(Size::Length(1), grid.len()), inner);
    core_cells(grid, &rows)
}

/// The CPU panel of the compact view: the load box with its two stacked graphs
/// (when it is at least two rows high inside), and the cores box with one gauge
/// per core.
pub struct CpuPanel {
    pub load_box: Rect,
    pub load_inner: Rect,
    pub waves: Option<(Rect, Rect)>,
    pub cores_box: Rect,
    pub cores_inner: Rect,
    pub cells: Vec<(usize, Rect)>,
}

/// Lays out the compact CPU panel for `n` cores: the area split in halves, the
/// left one for the load graphs, the right one for the core gauges.
pub fn cpu_panel(area: Rect, n: usize) -> (p: CpuPanel)
    requires
        n + 8 <= usize::MAX,
    ensures
        ({
            let halves_ = split_areas(
                Axis::Horizontal,
                seq![Size::Percentage(50), Size::Percentage(50)],
                area,
            );
            let load_inner = bordered_inner_area(halves_[0]);
            let waves = split_areas(Axis::Vertical, halves(), load_inner);
            let cores_inner = bordered_inner_area(halves_[1]);
            &&& p.load_box == halves_[0]
            &&& p.load_inner == load_inner
            &&& p.waves == if load_inner.height >= 2 {
                Some((waves[0], waves[1]))
            } else {
                None
            }
            &&& p.cores_box == halves_[1]
            &&& p.cores_inner == cores_inner
            &&& p.cells@ == grid_cells(
                core_grid_spec(
                    n as nat,
                    core_columns(cores_inner.width),
                    core_rows_shown(n as nat, cores_inner.width, cores_inner.height),
                ),
                cores_inner,
            )
        }),
{
    let halves_ = split(Axis::Horizontal, &two_sizes(Size::Percentage(50), Size::Percentage(50)), area);
    let load_inner = bordered_inner(halves_[0]);
    let waves = if load_inner.height >= 2 {
        let w = split(Axis::Vertical, &two_sizes(Size::Ratio(1, 2), Size::Ratio(1, 2)), load_inner);
        Some((w[0], w[1]))
    } else {
        None
    };
    let cores_inner = bordered_inner(halves_[1]);
    let grid = core_layout(n, cores_inner.width, cores_inner.height);
    let ghost cols = core_columns(cores_inner.width);
    proof {
        if n > 0 && cores_inner.height > 0 && cores_inner.width > 0 {
            assert(core_rows_shown(n as nat, cores_inner.width, cores_inner.height) <= crate::components::cpu::ceil_div(n as nat, cols));
        }
        lemma_grid_is_spec(grid@, n as nat, cols, core_rows_shown(n as nat, cores_inner.width, cores_inner.height));
    }
    let cells = grid_cells_exec(&grid, cores_inner, Ghost(cols));
    CpuPanel { load_box: halves_[0], load_inner, waves, cores_box: halves_[1], cores_inner, cells }
}

/// The CPU panel of the dashboard: the load box (its graph shown when it has
/// room inside) and the cores box with one gauge per core.
pub struct CpuOverview {
    pub load_box: Rect,
    pub load_inner: Rect,
    pub show_graph: bool,
    pub cores_box: Rect,
    pub cores_inner: Rect,
    pub cells: Vec<(usize, Rect)>,
}

/// Lays out the dashboard's CPU panel for `n` cores, split 48 / 52 percent
/// between the load graph and the core gauges.
pub fn cpu_overview(area: Rect, n: usize) -> (p: CpuOverview)
    ensures
        ({
            let parts = split_areas(
                Axis::Horizontal,
                seq![Size::Percentage(48), Size::Percentage(52)],
                area,
            );
            let cores_inner = bordered_inner_area(parts[1]);
            &&& p.load_box == parts[0]
            &&& p.load_inner == bordered_inner_area(parts[0])
            &&& p.show_graph == (p.load_inner.height > 0)
            &&& p.cores_box == parts[1]
            &&& p.cores_inner == cores_inner
            &&& p.cells@ == grid_cells(
                core_grid_spec(
                    n as nat,
                    btop_columns(cores_inner.width),
                    btop_rows(n as nat, cores_inner.width, cores_inner.height),
                ),
                cores_inner,
            )
        }),
{
    let parts = split(Axis::Horizontal, &two_sizes(Size::Percentage(48), Size::Percentage(52)), area);
    let load_inner = bordered_inner(parts[0]);
    let cores_inner = bordered_inner(parts[1]);
    let ghost cols = btop_columns(cores_inner.width);
    let ghost rows = btop_rows(n as nat, cores_inner.width, cores_inner.height);
    proof {
        assert(cols <= 4681);
        assert(rows <= 65535);
        assert(rows * cols <= 65535 * 4681) by (nonlinear_arith)
            requires
                rows <= 65535,
                cols <= 4681,
        ;
    }
    let grid = btop_core_layout(n, cores_inner.width, cores_inner.height);
    proof {
        if n > 0 && cores_inner.height > 0 {
            assert(rows <= crate::components::cpu::ceil_div(n as nat, cols));
        }
        lemma_grid_is_spec(grid@, n as nat, cols, rows);
    }
    let cells = grid_cells_exec(&grid, cores_inner, Ghost(cols));
    CpuOverview {
        load_box: parts[0],
        load_inner,
        show_graph: load_inner.height > 0,
        cores_box: parts[1],
        cores_inner,
        cells,
    }
}

/// The screen's panels: CPU on top, memory, disk and network stacked on the
/// left below it, the process table on the right, and the status line at the
/// bottom.
pub struct ScreenAreas {
    pub cpu: Rect,
    pub mem: Rect,
    pub disk: Rect,
    pub net: Rect,
    pub processes: Rect,
    pub status: Rect,
}

pub open spec fn screen_areas_spec(screen: Rect) -> (Rect, Rect, Rect, Rect, Rect, Rect) {
    let root = split_areas(
        Axis::Vertical,
        seq![Size::Length(12), Size::Min(14), Size::Length(1)],
        screen,
    );
    let bottom = split_areas(
        Axis::Horizontal,
        seq![Size::Percentage(35), Size::Percentage(65)],
        root[1],
    );
    let left = split_areas(
        Axis::Vertical,
        seq![Size::Length(6), Size::Length(9), Size::Min(7)],
        bottom[0],
    );
    (root[0], left[0], left[1], left[2], bottom[1], root[2])
}

/// Lays out the screen: a 12-row CPU strip, the body below it split 35 / 65
/// percent between the stacked memory, disk and network panels and the process
/// table, and a one-row status line.
pub fn screen_areas(screen: Rect) -> (a: ScreenAreas)
    ensures
        (a.cpu, a.mem, a.disk, a.net, a.processes, a.status) == screen_areas_spec(screen),
{
    let root = split(
        Axis::Vertical,
        &three_sizes(Size::Length(12), Size::Min(14), Size::Length(1)),
        screen,
    );
    let bottom = split(Axis::Horizontal, &two_sizes(Size::Percentage(35), Size::Percentage(65)), root[1]);
    let left = split(
        Axis::Vertical,
        &three_sizes(Size::Length(6), Size::Length(9), Size::Min(7)),
        bottom[0],
    );
    ScreenAreas {
        cpu: root[0],
        mem: left[0],
        disk: left[1],
        net: left[2],
        processes: bottom[1],
        status: root[2],
    }
}

/// The dashboard's disk panel: the read and write graphs side by side on top,
/// and one gauge row per disk below, as many as fit.
pub struct DiskPanel {
    pub inner: Rect,
    pub read_graph: Rect,
    pub write_graph: Rect,
    pub disk_rows: Vec<Rect>,
}

pub open spec fn disk_panel_spec(area: Rect, disks: nat) -> (Rect, Rect, Rect, Seq<Rect>) {
    let inner = bordered_inner_area(area);
    let parts = split_areas(Axis::Vertical, seq![Size::Length(2), Size::Min(2)], inner);
    let io = split_areas(
        Axis::Horizontal,
        seq![Size::Percentage(50), Size::Percentage(50)],
        parts[0],
    );
    let rows = if disks > 0 && parts[1].height > 0 {
        split_areas(
            Axis::Vertical,
            repeat_size(Size::Length(1), min_nat(disks, parts[1].height as nat)),
            parts[1],
        )
    } else {
        seq![]
    };
    (inner, io[0], io[1], rows)
}

/// Lays out the dashboard's disk panel for `disks` disks.
pub fn disk_panel(area: Rect, disks: usize) -> (p: DiskPanel)
    ensures
        (p.inner, p.read_graph, p.write_graph, p.disk_rows@) == disk_panel_spec(area, disks as nat),
{
    let inner = bordered_inner(area);
    let parts = split(Axis::Vertical, &two_sizes(Size::Length(2), Size::Min(2)), inner);
    let io = split(Axis::Horizontal, &two_sizes(Size::Percentage(50), Size::Percentage(50)), parts[0]);
    let disk_rows = if disks > 0 && parts[1].height > 0 {
        let shown = visible_disk_count(disks, parts[1].height);
        split(Axis::Vertical, &repeat_sizes(Size::Length(1), shown), parts[1])
    } else {
        Vec::new()
    };
    proof {
        if !(disks > 0 && parts[1].height > 0) {
            assert(disk_rows@ =~= Seq::<Rect>::empty());
        }
    }
    DiskPanel { inner, read_graph: io[0], write_graph: io[1], disk_rows }
}

} // verus!
