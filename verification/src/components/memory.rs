use crate::components::network::{gib, mib};
use crate::text::{
    decimal, fixed_point, nearest_double, nearest_double_exec, push_decimal, push_fixed_point,
    round_half_even, round_half_even_exec,
};
use vstd::prelude::*;

verus! {

/// A memory size as the memory panel shows it: whole MiB below one GiB, else
/// GiB with one decimal (from the nearest double, rounded half to even).
pub open spec fn bytes_text(bytes: nat) -> Seq<char> {
    if bytes >= gib() {
        fixed_point(round_half_even(nearest_double(bytes) * 10, gib()), 1) + "GB"@
    } else {
        decimal(bytes / mib()) + "MB"@
    }
}

/// Formats a memory size, e.g. `512 MiB` gives "512MB" and `1.5 GiB` gives "1.5GB".
pub fn format_bytes(bytes: u64) -> (s: String)
    ensures
        s@ == bytes_text(bytes as nat),
{
    let mut s = String::new();
    if bytes >= 1024 * 1024 * 1024 {
        let b = nearest_double_exec(bytes);
        let v = round_half_even_exec(b * 10, 1024 * 1024 * 1024);
        push_fixed_point(&mut s, v, 1);
        s.append("GB");
    } else {
        push_decimal(&mut s, bytes / (1024 * 1024));
        s.append("MB");
    }
    s
}

/// A gauge label such as "RAM: 512MB/2.0GB", the prefix including its colon.
pub open spec fn usage_label_text(prefix: Seq<char>, used: nat, total: nat) -> Seq<char> {
    prefix + bytes_text(used) + "/"@ + bytes_text(total)
}

/// The RAM gauge's label.
pub fn ram_label(used: u64, total: u64) -> (s: String)
    ensures
        s@ == usage_label_text("RAM: "@, used as nat, total as nat),
{
    let mut s = String::new();
    s.append("RAM: ");
    s.append(format_bytes(used).as_str());
    s.append("/");
    s.append(format_bytes(total).as_str());
    s
}

/// The swap gauge's label.
pub fn swap_label(used: u64, total: u64) -> (s: String)
    ensures
        s@ == usage_label_text("SWP: "@, used as nat, total as nat),
{
    let mut s = String::new();
    s.append("SWP: ");
    s.append(format_bytes(used).as_str());
    s.append("/");
    s.append(format_bytes(total).as_str());
    s
}

} // verus!
