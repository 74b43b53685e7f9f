//! What the dashboard screen shows: sizes, durations, titles and labels, and
//! the cores grid.
use crate::components::cpu::{ceil_div, core_ranges, is_core_grid, min_nat};
use crate::components::network::{gib, human_bytes_per_sec, rate_text};
use crate::filter::{sort_label, FilterView, ProcessFilter};
use crate::telemetry::DiskInfo;
use crate::text::{
    decimal, fixed_point, nearest_double, nearest_double_exec, push_decimal, push_fixed_point,
    round_half_even, round_half_even_exec,
};
use vstd::arithmetic::div_mod::lemma_fundamental_div_mod_converse;
use vstd::prelude::*;

verus! {

/// Whole MiB in a byte count.
pub fn bytes_to_mb(b: u64) -> (r: u64)
    ensures
        r == b / 1048576u64,
{
    b / 1024 / 1024
}

/// An uptime as days, hours and minutes: "2d 3h 4m", "3h 4m" under a day,
/// "4m" under an hour.
pub open spec fn uptime_text(secs: nat) -> Seq<char> {
    let d = secs / 86400;
    let h = (secs % 86400) / 3600;
    let m = (secs % 3600) / 60;
    if d > 0 {
        decimal(d) + "d "@ + decimal(h) + "h "@ + decimal(m) + "m"@
    } else if h > 0 {
        decimal(h) + "h "@ + decimal(m) + "m"@
    } else {
        decimal(m) + "m"@
    }
}

/// Days, hours and minutes written as the uptime shows them: all three when
/// there is a day, else hours and minutes when there is an hour, else minutes.
pub open spec fn dhm_text(d: nat, h: nat, m: nat) -> Seq<char> {
    if d > 0 {
        decimal(d) + "d "@ + decimal(h) + "h "@ + decimal(m) + "m"@
    } else if h > 0 {
        decimal(h) + "h "@ + decimal(m) + "m"@
    } else {
        decimal(m) + "m"@
    }
}

/// Law: the uptime shows whole days, hours below 24 and minutes below 60 that
/// add back to the uptime to the minute: for any such `d`, `h`, `m` with
/// `d·86400 + h·3600 + m·60 <= secs < d·86400 + h·3600 + m·60 + 60`, the text is
/// theirs.
pub proof fn lemma_uptime_adds_up(secs: nat, d: nat, h: nat, m: nat)
    requires
        h < 24,
        m < 60,
        d * 86400 + h * 3600 + m * 60 <= secs < d * 86400 + h * 3600 + m * 60 + 60,
    ensures
        uptime_text(secs) == dhm_text(d, h, m),
{
    let s0 = secs - (d * 86400 + h * 3600 + m * 60);
    lemma_fundamental_div_mod_converse(secs as int, 86400, d as int, h * 3600 + m * 60 + s0);
    lemma_fundamental_div_mod_converse(
        (h * 3600 + m * 60 + s0) as int,
        3600,
        h as int,
        m * 60 + s0,
    );
    lemma_fundamental_div_mod_converse(secs as int, 3600, (d * 24 + h) as int, m * 60 + s0);
    lemma_fundamental_div_mod_converse((m * 60 + s0) as int, 60, m as int, s0);
}

pub fn format_uptime(secs: u64) -> (s: String)
    ensures
        s@ == uptime_text(secs as nat),
{
    let d = secs / 86400;
    let h = (secs % 86400) / 3600;
    let m = (secs % 3600) / 60;
    let mut s = String::new();
    if d > 0 {
        push_decimal(&mut s, d);
        s.append("d ");
        push_decimal(&mut s, h);
        s.append("h ");
        push_decimal(&mut s, m);
        s.append("m");
    } else if h > 0 {
        push_decimal(&mut s, h);
        s.append("h ");
        push_decimal(&mut s, m);
        s.append("m");
    } else {
        push_decimal(&mut s, m);
        s.append("m");
    }
    s
}

/// A gauge label in whole MiB, e.g. "RAM: 512/2048MB", the prefix including its colon.
pub open spec fn mb_label_text(prefix: Seq<char>, used: nat, total: nat) -> Seq<char> {
    prefix + decimal(used / 1048576) + "/"@ + decimal(total / 1048576) + "MB"@
}

pub fn ram_gauge_label(used: u64, total: u64) -> (s: String)
    ensures
        s@ == mb_label_text("RAM: "@, used as nat, total as nat),
{
    let mut s = String::new();
    s.append("RAM: ");
    push_decimal(&mut s, bytes_to_mb(used));
    s.append("/");
    push_decimal(&mut s, bytes_to_mb(total));
    s.append("MB");
    s
}

pub fn swap_gauge_label(used: u64, total: u64) -> (s: String)
    ensures
        s@ == mb_label_text("SWP: "@, used as nat, total as nat),
{
    let mut s = String::new();
    s.append("SWP: ");
    push_decimal(&mut s, bytes_to_mb(used));
    s.append("/");
    push_decimal(&mut s, bytes_to_mb(total));
    s.append("MB");
    s
}

/// `s` padded with spaces on the right to at least `w` characters.
pub open spec fn pad_right(s: Seq<char>, w: nat) -> Seq<char> {
    if s.len() >= w {
        s
    } else {
        s + Seq::new((w - s.len()) as nat, |i: int| ' ')
    }
}

/// A byte count in GiB with one decimal (from the nearest double, rounded
/// half to even), without the unit.
pub open spec fn gib_text(bytes: nat) -> Seq<char> {
    fixed_point(round_half_even(nearest_double(bytes) * 10, gib()), 1)
}

fn push_gib(s: &mut String, bytes: u64)
    ensures
        final(s)@ == old(s)@ + gib_text(bytes as nat),
{
    let b = nearest_double_exec(bytes);
    let v = round_half_even_exec(b * 10, 1024 * 1024 * 1024);
    push_fixed_point(s, v, 1);
}

/// A disk gauge's label: the mount point padded to 6 characters, then used and
/// total size in GiB, e.g. "/      12.5/100.0GB".
pub open spec fn disk_label_text(mount: Seq<char>, used: nat, total: nat) -> Seq<char> {
    pad_right(mount, 6) + " "@ + gib_text(used) + "/"@ + gib_text(total) + "GB"@
}

pub fn disk_gauge_label(disk: &DiskInfo) -> (s: String)
    ensures
        s@ == disk_label_text(disk.mount@, disk.used_bytes as nat, disk.total_bytes as nat),
{
    let mut s = disk.mount.clone();
    let n = crate::text::chars_of(disk.mount.as_str()).len();
    let mut k = n;
    while k < 6
        invariant
            n == disk.mount@.len(),
            n <= k <= 6 || (n > 6 && k == n),
            s@ == disk.mount@ + Seq::new((k - n) as nat, |i: int| ' '),
        decreases 6 - k,
    {
        s.push(' ');
        k = k + 1;
        assert(s@ =~= disk.mount@ + Seq::new((k - n) as nat, |i: int| ' '));
    }
    assert(s@ =~= pad_right(disk.mount@, 6));
    s.append(" ");
    push_gib(&mut s, disk.used_bytes);
    s.append("/");
    push_gib(&mut s, disk.total_bytes);
    s.append("GB");
    s
}

/// How many disks the disk panel lists: as many as fit in its rows.
pub fn visible_disk_count(disks: usize, rows: u16) -> (r: usize)
    ensures
        r == min_nat(disks as nat, rows as nat),
{
    if disks < rows as usize {
        disks
    } else {
        rows as usize
    }
}

/// The disk panel's title, e.g. " 3disk │ R:0 B/s W:1.0 KB/s ".
pub open spec fn disk_panel_title_text(read_bps: nat, write_bps: nat) -> Seq<char> {
    " 3disk │ R:"@ + rate_text(read_bps) + " W:"@ + rate_text(write_bps) + " "@
}

pub fn disk_panel_title(read_bps: u64, write_bps: u64) -> (s: String)
    ensures
        s@ == disk_panel_title_text(read_bps as nat, write_bps as nat),
{
    let mut s = String::new();
    s.append(" 3disk │ R:");
    s.append(human_bytes_per_sec(read_bps).as_str());
    s.append(" W:");
    s.append(human_bytes_per_sec(write_bps).as_str());
    s.append(" ");
    s
}

/// The network panel's title, e.g. " net │ ↓2.00 MB/s ↑10 B/s ".
pub open spec fn net_panel_title_text(rx_bps: nat, tx_bps: nat) -> Seq<char> {
    " net │ ↓"@ + rate_text(rx_bps) + " ↑"@ + rate_text(tx_bps) + " "@
}

pub fn net_panel_title(rx_bps: u64, tx_bps: u64) -> (s: String)
    ensures
        s@ == net_panel_title_text(rx_bps as nat, tx_bps as nat),
{
    let mut s = String::new();
    s.append(" net │ ↓");
    s.append(human_bytes_per_sec(rx_bps).as_str());
    s.append(" ↑");
    s.append(human_bytes_per_sec(tx_bps).as_str());
    s.append(" ");
    s
}

/// The process panel's title: the query being typed while searching; else the
/// query, the number of matches and the sort column when there is a query;
/// else the number of processes and the sort column.
pub open spec fn process_panel_title_text(f: FilterView, count: nat) -> Seq<char> {
    if f.active {
        " 4proc │ filter: "@ + f.query + "_ "@
    } else if f.query.len() > 0 {
        " 4proc │ Filter: \""@ + f.query + "\" ("@ + decimal(count) + " matches, sort: "@
            + sort_label(f.sort_key) + ") "@
    } else {
        " 4proc │ Process Matrix ("@ + decimal(count) + " total, sort: "@ + sort_label(f.sort_key)
            + ") "@
    }
}

pub fn process_panel_title(filter: &ProcessFilter, count: usize) -> (s: String)
    ensures
        s@ == process_panel_title_text(filter@, count as nat),
{
    let mut s = String::new();
    if filter.is_active() {
        s.append(" 4proc │ filter: ");
        s.append(filter.get_query());
        s.append("_ ");
    } else if filter.has_query() {
        s.append(" 4proc │ Filter: \"");
        s.append(filter.get_query());
        s.append("\" (");
        push_decimal(&mut s, count as u64);
        s.append(" matches, sort: ");
        s.append(filter.sort_key().label());
        s.append(") ");
    } else {
        s.append(" 4proc │ Process Matrix (");
        push_decimal(&mut s, count as u64);
        s.append(" total, sort: ");
        s.append(filter.sort_key().label());
        s.append(") ");
    }
    s
}

/// The highlighted row of the process panel: none in an empty table, else the selection.
pub fn panel_selection(selected: usize, len: usize) -> (r: Option<usize>)
    ensures
        len == 0 ==> r is None,
        len > 0 ==> r == Some(selected),
{
    if len == 0 {
        None
    } else {
        Some(selected)
    }
}

/// The help line shown in the status bar when there is no message.
pub open spec fn help_text() -> Seq<char> {
    "/ filter  s sort  r direction  k kill  space pause  ↑↓/jk navigate  q quit"@
}

/// The status bar's text: the current message, or the key help.
pub fn status_text(message: Option<String>) -> (s: String)
    ensures
        message matches Some(m) ==> s@ == m@,
        message is None ==> s@ == help_text(),
{
    match message {
        Some(m) => m,
        None => {
            let mut s = String::new();
            s.append("/ filter  s sort  r direction  k kill  space pause  ↑↓/jk navigate  q quit");
            s
        },
    }
}

/// Gauges per row in the dashboard's cores panel: one per 14 columns, at least one.
pub open spec fn btop_columns(width: u16) -> nat {
    if width as nat / 14 < 1 {
        1
    } else {
        width as nat / 14
    }
}

/// Rows of the dashboard's cores panel: as many as the cores need, at most its height.
pub open spec fn btop_rows(n: nat, width: u16, height: u16) -> nat {
    if n == 0 || height == 0 {
        0
    } else {
        min_nat(ceil_div(n, btop_columns(width)), height as nat)
    }
}

/// Splits the dashboard's cores panel into rows of core gauges, `width / 14`
/// per row (at least one), as many rows as needed but no more than its height.
pub fn btop_core_layout(n: usize, width: u16, height: u16) -> (ranges: Vec<(usize, usize)>)
    requires
        btop_rows(n as nat, width, height) * btop_columns(width) <= usize::MAX,
    ensures
        is_core_grid(ranges@, n as nat, btop_columns(width), btop_rows(n as nat, width, height)),
{
    if n == 0 || height == 0 {
        return Vec::new();
    }
    let per = (width / 14) as usize;
    let cols = if per < 1 {
        1
    } else {
        per
    };
    assert(n % cols > 0 ==> n / cols < usize::MAX) by (nonlinear_arith)
        requires
            cols > 0,
            n <= usize::MAX,
    ;
    let rows_needed = n / cols + if n % cols > 0 {
        1
    } else {
        0
    };
    proof {
        assert(cols == btop_columns(width));
        assert(rows_needed == ceil_div(n as nat, cols as nat)) by (nonlinear_arith)
            requires
                cols > 0,
                rows_needed == n / cols + if n % cols > 0 {
                    1int
                } else {
                    0int
                },
        ;
    }
    let rows = if rows_needed < height as usize {
        rows_needed
    } else {
        height as usize
    };
    core_ranges(n, cols, rows)
}

} // verus!
