use crate::components::network::{human_bytes_per_sec, rate_text};
use vstd::prelude::*;

verus! {

/// The disk panel's title, e.g. " Disk R:0 B/s W:2.00 MB/s ".
pub open spec fn disk_title_text(read_bps: nat, write_bps: nat) -> Seq<char> {
    " Disk R:"@ + rate_text(read_bps) + " W:"@ + rate_text(write_bps) + " "@
}

pub fn disk_title(read_bps: u64, write_bps: u64) -> (s: String)
    ensures
        s@ == disk_title_text(read_bps as nat, write_bps as nat),
{
    let mut s = String::new();
    s.append(" Disk R:");
    s.append(human_bytes_per_sec(read_bps).as_str());
    s.append(" W:");
    s.append(human_bytes_per_sec(write_bps).as_str());
    s.append(" ");
    s
}

} // verus!
