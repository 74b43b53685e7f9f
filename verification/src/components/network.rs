use crate::text::{
    decimal, fixed_point, nearest_double, nearest_double_exec, push_decimal_wide,
    push_fixed_point, round_half_even, round_half_even_exec,
};
use vstd::prelude::*;

verus! {

pub open spec fn kib() -> nat {
    1024
}

pub open spec fn mib() -> nat {
    1024 * 1024
}

pub open spec fn gib() -> nat {
    1024 * 1024 * 1024
}

/// The text shown for a transfer rate of `bps` bytes per second: the largest
/// binary unit (GB, MB, KB) that the rate reaches, with two decimals for GB and MB,
/// one for KB, and the whole number of bytes below one KB. The rate is first taken
/// as the nearest double, then scaled and rounded half to even.
pub open spec fn rate_text(bps: nat) -> Seq<char> {
    let b = nearest_double(bps);
    if b >= gib() {
        fixed_point(round_half_even(b * 100, gib()), 2) + " GB/s"@
    } else if b >= mib() {
        fixed_point(round_half_even(b * 100, mib()), 2) + " MB/s"@
    } else if b >= kib() {
        fixed_point(round_half_even(b * 10, kib()), 1) + " KB/s"@
    } else {
        decimal(b) + " B/s"@
    }
}

/// Formats a byte rate for the dashboard, e.g. `1536` gives "1.5 KB/s".
pub fn human_bytes_per_sec(bps: u64) -> (s: String)
    ensures
        s@ == rate_text(bps as nat),
{
    let b = nearest_double_exec(bps);
    let mut s = String::new();
    if b >= 1024 * 1024 * 1024 {
        let v = round_half_even_exec(b * 100, 1024 * 1024 * 1024);
        push_fixed_point(&mut s, v, 2);
        s.append(" GB/s");
    } else if b >= 1024 * 1024 {
        let v = round_half_even_exec(b * 100, 1024 * 1024);
        push_fixed_point(&mut s, v, 2);
        s.append(" MB/s");
    } else if b >= 1024 {
        let v = round_half_even_exec(b * 10, 1024);
        push_fixed_point(&mut s, v, 1);
        s.append(" KB/s");
    } else {
        push_decimal_wide(&mut s, b);
        s.append(" B/s");
    }
    s
}

/// The network panel's title, e.g. " Net ↓1.5 KB/s ↑0 B/s ".
pub open spec fn net_title_text(rx_bps: nat, tx_bps: nat) -> Seq<char> {
    " Net ↓"@ + rate_text(rx_bps) + " ↑"@ + rate_text(tx_bps) + " "@
}

pub fn net_title(rx_bps: u64, tx_bps: u64) -> (s: String)
    ensures
        s@ == net_title_text(rx_bps as nat, tx_bps as nat),
{
    let mut s = String::new();
    s.append(" Net ↓");
    s.append(human_bytes_per_sec(rx_bps).as_str());
    s.append(" ↑");
    s.append(human_bytes_per_sec(tx_bps).as_str());
    s.append(" ");
    s
}

} // verus!
