use crate::filter::{sort_label, FilterView, ProcessFilter};
use crate::text::{decimal, push_decimal};
use vstd::prelude::*;

verus! {

/// The arrow for the sort direction: down for descending, up for ascending.
pub open spec fn direction_arrow(desc: bool) -> Seq<char> {
    if desc {
        "▼"@
    } else {
        "▲"@
    }
}

/// The process panel's title: the query being typed while searching; else the
/// query and the number of matches when there is a query; else the number of
/// processes; the latter two with the sort column and direction.
pub open spec fn matrix_title_text(f: FilterView, count: nat) -> Seq<char> {
    if f.active {
        " Process Matrix [SEARCHING]: "@ + f.query + "_ "@
    } else if f.query.len() > 0 {
        " Process Matrix [Filter: \""@ + f.query + "\"] ("@ + decimal(count) + " matches, sort: "@
            + sort_label(f.sort_key) + " "@ + direction_arrow(f.sort_desc) + ") "@
    } else {
        " Process Matrix ("@ + decimal(count) + " total, sort: "@ + sort_label(f.sort_key) + " "@
            + direction_arrow(f.sort_desc) + ") "@
    }
}

pub fn matrix_title(filter: &ProcessFilter, count: usize) -> (s: String)
    ensures
        s@ == matrix_title_text(filter@, count as nat),
{
    let arrow = if filter.sort_desc() {
        "▼"
    } else {
        "▲"
    };
    let mut s = String::new();
    if filter.is_active() {
        s.append(" Process Matrix [SEARCHING]: ");
        s.append(filter.get_query());
        s.append("_ ");
    } else if filter.has_query() {
        s.append(" Process Matrix [Filter: \"");
        s.append(filter.get_query());
        s.append("\"] (");
        push_decimal(&mut s, count as u64);
        s.append(" matches, sort: ");
        s.append(filter.sort_key().label());
        s.append(" ");
        s.append(arrow);
        s.append(") ");
    } else {
        s.append(" Process Matrix (");
        push_decimal(&mut s, count as u64);
        s.append(" total, sort: ");
        s.append(filter.sort_key().label());
        s.append(" ");
        s.append(arrow);
        s.append(") ");
    }
    s
}

/// The highlighted row: none in an empty table, else the selection clamped to
/// the last row.
pub open spec fn clamped_selection(selected: nat, len: nat) -> Option<nat> {
    if len == 0 {
        None
    } else if selected < len {
        Some(selected)
    } else {
        Some((len - 1) as nat)
    }
}

pub fn table_selection(selected: usize, len: usize) -> (r: Option<usize>)
    ensures
        r matches Some(i) ==> clamped_selection(selected as nat, len as nat) == Some(i as nat),
        r is None <==> clamped_selection(selected as nat, len as nat) is None,
        r matches Some(i) ==> i < len,
{
    if len == 0 {
        None
    } else if selected < len - 1 {
        Some(selected)
    } else {
        Some(len - 1)
    }
}

} // verus!
