use crate::text::{
    chars_of, contains, contains_exec, decimal, keep, lemma_keep_append,
    lemma_lex_order_antisymmetric, lemma_lex_order_equal, lemma_lex_order_transitive, lex_order,
    lex_order_exec, push_decimal,
};
use vstd::prelude::*;

verus! {

/// The column by which the process table is ordered.
#[derive(Clone, Copy, Debug, PartialEq, Eq, Structural, Default)]
pub enum SortKey {
    #[default]
    Cpu,
    Mem,
    Pid,
    Name,
}

/// The header text of a sort key.
pub open spec fn sort_label(k: SortKey) -> Seq<char> {
    match k {
        SortKey::Cpu => "CPU%"@,
        SortKey::Mem => "MEM%"@,
        SortKey::Pid => "PID"@,
        SortKey::Name => "NAME"@,
    }
}

/// The key that follows `k` when the user cycles the sort column.
pub open spec fn next_sort_key(k: SortKey) -> SortKey {
    match k {
        SortKey::Cpu => SortKey::Mem,
        SortKey::Mem => SortKey::Pid,
        SortKey::Pid => SortKey::Name,
        SortKey::Name => SortKey::Cpu,
    }
}

impl SortKey {
    pub fn label(&self) -> (s: &'static str)
        ensures
            s@ == sort_label(*self),
    {
        match self {
            SortKey::Cpu => "CPU%",
            SortKey::Mem => "MEM%",
            SortKey::Pid => "PID",
            SortKey::Name => "NAME",
        }
    }
}

/// Cycling the sort column visits the four keys in turn and comes back after four steps.
pub proof fn lemma_sort_cycle(k: SortKey)
    ensures
        next_sort_key(next_sort_key(next_sort_key(next_sort_key(k)))) == k,
        next_sort_key(k) != k,
        next_sort_key(next_sort_key(k)) != k,
        next_sort_key(next_sort_key(next_sort_key(k))) != k,
{
}

/// Scheduler state of a process, as far as the table shows it.
#[derive(Clone, Copy, Debug, PartialEq, Eq, Structural)]
pub enum ProcessState {
    Run,
    Sleep,
    Idle,
    Zombie,
    Stop,
    Other,
}

/// The one-letter state shown in the table.
pub open spec fn state_letter(s: ProcessState) -> char {
    match s {
        ProcessState::Run => 'R',
        ProcessState::Sleep => 'S',
        ProcessState::Idle => 'I',
        ProcessState::Zombie => 'Z',
        ProcessState::Stop => 'T',
        ProcessState::Other => '?',
    }
}

pub fn state_char(s: ProcessState) -> (c: char)
    ensures
        c == state_letter(s),
{
    match s {
        ProcessState::Run => 'R',
        ProcessState::Sleep => 'S',
        ProcessState::Idle => 'I',
        ProcessState::Zombie => 'Z',
        ProcessState::Stop => 'T',
        ProcessState::Other => '?',
    }
}

/// What the process table reads of one process in the system snapshot.
/// `cpu_order` and `mem_order` stand for the CPU and memory percentages:
/// they order processes as the percentages do, equal percentages having
/// equal keys.
#[derive(Clone, Debug)]
pub struct ProcessSample {
    pub pid: u32,
    /// The owner's user name, when the owner is known.
    pub user: Option<String>,
    pub name: String,
    pub cmd: Vec<String>,
    pub status: ProcessState,
    /// Resident memory in bytes.
    pub memory: u64,
    pub cpu_order: u32,
    pub mem_order: u32,
}

/// One line of the process table.
#[derive(Clone, Debug)]
pub struct ProcessRow {
    pub pid: usize,
    pub user: String,
    pub cpu_order: u32,
    pub mem_order: u32,
    pub mem_mb: u64,
    pub state: char,
    pub cmd: String,
}

/// A process table line as a value.
pub struct RowView {
    pub pid: usize,
    pub user: Seq<char>,
    pub cpu_order: u32,
    pub mem_order: u32,
    pub mem_mb: u64,
    pub state: char,
    pub cmd: Seq<char>,
}

impl View for ProcessRow {
    type V = RowView;

    open spec fn view(&self) -> RowView {
        RowView {
            pid: self.pid,
            user: self.user@,
            cpu_order: self.cpu_order,
            mem_order: self.mem_order,
            mem_mb: self.mem_mb,
            state: self.state,
            cmd: self.cmd@,
        }
    }
}

pub open spec fn rows_view(rows: Seq<ProcessRow>) -> Seq<RowView> {
    rows.map_values(|r: ProcessRow| r@)
}

/// Words joined by single spaces.
pub open spec fn join_words(w: Seq<Seq<char>>) -> Seq<char>
    decreases w.len(),
{
    if w.len() == 0 {
        seq![]
    } else if w.len() == 1 {
        w[0]
    } else {
        join_words(w.drop_last()) + seq![' '] + w.last()
    }
}

/// The command line shown for a process: its arguments joined by spaces, or its
/// name when it has no arguments.
pub open spec fn command_text(s: ProcessSample) -> Seq<char> {
    if s.cmd@.len() == 0 {
        s.name@
    } else {
        join_words(s.cmd@.map_values(|c: String| c@))
    }
}

/// The table line of a sampled process.
pub open spec fn sample_row(s: ProcessSample) -> RowView {
    RowView {
        pid: s.pid as usize,
        user: match s.user {
            Some(u) => u@,
            None => "unknown"@,
        },
        cpu_order: s.cpu_order,
        mem_order: s.mem_order,
        mem_mb: s.memory / 1048576u64,
        state: state_letter(s.status),
        cmd: command_text(s),
    }
}

pub open spec fn sample_rows(samples: Seq<ProcessSample>) -> Seq<RowView> {
    samples.map_values(|s: ProcessSample| sample_row(s))
}

/// Name for what `str::to_lowercase` returns: the Unicode lowercase mapping
/// of the characters (which may change the length).
pub uninterp spec fn lowercase(s: Seq<char>) -> Seq<char>;

/// Calls `str::to_lowercase`; the result is the named lowercase mapping of `s`.
#[verifier::external_body]
fn to_lowercase(s: &str) -> (r: String)
    ensures
        r@ == lowercase(s@),
{
    s.to_lowercase()
}

/// A line matches a lowercased query when the query occurs in its lowercased
/// command, its lowercased user name, or its process id in decimal.
pub open spec fn row_matches(r: RowView, q: Seq<char>) -> bool {
    contains(lowercase(r.cmd), q) || contains(lowercase(r.user), q) || contains(
        decimal(r.pid as nat),
        q,
    )
}

pub open spec fn matcher(q: Seq<char>) -> spec_fn(RowView) -> bool {
    |r: RowView| row_matches(r, q)
}

/// Three-way comparison of two integers.
pub open spec fn int_order(a: int, b: int) -> int {
    if a < b {
        -1
    } else if a > b {
        1
    } else {
        0
    }
}

/// Three-way comparison of two lines by a sort key, ascending.
pub open spec fn key_order(key: SortKey, a: RowView, b: RowView) -> int {
    match key {
        SortKey::Cpu => int_order(a.cpu_order as int, b.cpu_order as int),
        SortKey::Mem => int_order(a.mem_order as int, b.mem_order as int),
        SortKey::Pid => int_order(a.pid as int, b.pid as int),
        SortKey::Name => lex_order(lowercase(a.cmd), lowercase(b.cmd)),
    }
}

/// Three-way comparison of two lines in the table's direction.
pub open spec fn row_order(key: SortKey, desc: bool, a: RowView, b: RowView) -> int {
    if desc {
        key_order(key, b, a)
    } else {
        key_order(key, a, b)
    }
}

/// The first position in `t` holding a line that comes strictly after `x`
/// (the length of `t` when there is none).
pub open spec fn first_after(t: Seq<RowView>, x: RowView, key: SortKey, desc: bool) -> nat
    decreases t.len(),
{
    if t.len() == 0 {
        0
    } else if row_order(key, desc, t[0], x) > 0 {
        0
    } else {
        1 + first_after(t.drop_first(), x, key, desc)
    }
}

/// `s` sorted stably: each line in turn goes after every line already placed
/// that does not come after it.
pub open spec fn sort_rows(s: Seq<RowView>, key: SortKey, desc: bool) -> Seq<RowView>
    decreases s.len(),
{
    if s.len() == 0 {
        s
    } else {
        let t = sort_rows(s.drop_last(), key, desc);
        t.insert(first_after(t, s.last(), key, desc) as int, s.last())
    }
}

/// Every pair of neighbours, indeed every pair, is in the table's order.
pub open spec fn is_sorted(t: Seq<RowView>, key: SortKey, desc: bool) -> bool {
    forall|i: int, j: int| 0 <= i < j < t.len() ==> row_order(key, desc, t[i], t[j]) <= 0
}

/// The lines that sort level with `x`.
pub open spec fn level_with(key: SortKey, desc: bool, x: RowView) -> spec_fn(RowView) -> bool {
    |y: RowView| row_order(key, desc, y, x) == 0
}

/// The table order is a total preorder: swapping the arguments negates it, and
/// "not after" is transitive.
pub proof fn lemma_row_order_preorder(key: SortKey, desc: bool, a: RowView, b: RowView, c: RowView)
    ensures
        row_order(key, desc, a, b) == -row_order(key, desc, b, a),
        -1 <= row_order(key, desc, a, b) <= 1,
        row_order(key, desc, a, a) == 0,
        row_order(key, desc, a, b) <= 0 && row_order(key, desc, b, c) <= 0 ==> row_order(
            key,
            desc,
            a,
            c,
        ) <= 0,
{
    match key {
        SortKey::Name => {
            let (la, lb, lc) = (lowercase(a.cmd), lowercase(b.cmd), lowercase(c.cmd));
            lemma_lex_order_antisymmetric(la, lb);
            lemma_lex_order_equal(la, la);
            if desc {
                if lex_order(lb, la) <= 0 && lex_order(lc, lb) <= 0 {
                    lemma_lex_order_transitive(lc, lb, la);
                }
            } else {
                if lex_order(la, lb) <= 0 && lex_order(lb, lc) <= 0 {
                    lemma_lex_order_transitive(la, lb, lc);
                }
            }
        },
        _ => {},
    }
}

proof fn lemma_first_after(t: Seq<RowView>, x: RowView, key: SortKey, desc: bool)
    ensures
        first_after(t, x, key, desc) <= t.len(),
        forall|k: int|
            0 <= k < first_after(t, x, key, desc) ==> row_order(key, desc, #[trigger] t[k], x)
                <= 0,
        first_after(t, x, key, desc) < t.len() ==> row_order(
            key,
            desc,
            t[first_after(t, x, key, desc) as int],
            x,
        ) > 0,
    decreases t.len(),
{
    if t.len() > 0 && row_order(key, desc, t[0], x) <= 0 {
        lemma_first_after(t.drop_first(), x, key, desc);
        assert forall|k: int| 0 <= k < first_after(t, x, key, desc) implies row_order(
            key,
            desc,
            #[trigger] t[k],
            x,
        ) <= 0 by {
            if k > 0 {
                assert(t[k] == t.drop_first()[k - 1]);
            }
        }
    }
}

/// Inserting a line at its place keeps a sorted sequence sorted, and every line
/// from that place on comes strictly after the inserted one.
proof fn lemma_insert_sorted(t: Seq<RowView>, x: RowView, key: SortKey, desc: bool)
    requires
        is_sorted(t, key, desc),
    ensures
        ({
            let p = first_after(t, x, key, desc) as int;
            &&& is_sorted(t.insert(p, x), key, desc)
            &&& forall|k: int| p <= k < t.len() ==> row_order(key, desc, #[trigger] t[k], x) > 0
        }),
{
    let p = first_after(t, x, key, desc) as int;
    lemma_first_after(t, x, key, desc);
    t.insert_ensures(p, x);
    let u = t.insert(p, x);
    assert forall|k: int| p <= k < t.len() implies row_order(key, desc, #[trigger] t[k], x) > 0 by {
        if row_order(key, desc, t[k], x) <= 0 {
            lemma_row_order_preorder(key, desc, t[p], t[k], x);
            if p < k {
                assert(row_order(key, desc, t[p], t[k]) <= 0);
            }
        }
    }
    assert forall|i: int, j: int| 0 <= i < j < u.len() implies row_order(key, desc, u[i], u[j])
        <= 0 by {
        if j < p {
            assert(u[i] == t[i] && u[j] == t[j]);
        } else if j == p {
            assert(u[i] == t[i] && u[j] == x);
        } else if i == p {
            assert(u[j] == t[j - 1]);
            lemma_row_order_preorder(key, desc, t[j - 1], x, x);
        } else if i < p {
            assert(u[i] == t[i] && u[j] == t[j - 1]);
        } else {
            assert(u[i] == t[i - 1] && u[j] == t[j - 1]);
        }
    }
}

/// Law: the table is in order: no line comes after a line below it.
pub proof fn lemma_sort_rows_sorted(s: Seq<RowView>, key: SortKey, desc: bool)
    ensures
        is_sorted(sort_rows(s, key, desc), key, desc),
    decreases s.len(),
{
    if s.len() > 0 {
        lemma_sort_rows_sorted(s.drop_last(), key, desc);
        lemma_insert_sorted(sort_rows(s.drop_last(), key, desc), s.last(), key, desc);
    }
}

/// Law: sorting neither loses nor adds lines: the result holds the same lines,
/// each as often.
pub proof fn lemma_sort_rows_permutes(s: Seq<RowView>, key: SortKey, desc: bool)
    ensures
        sort_rows(s, key, desc).to_multiset() == s.to_multiset(),
    decreases s.len(),
{
    broadcast use vstd::seq_lib::group_to_multiset_ensures;
    broadcast use vstd::multiset::group_multiset_axioms;

    if s.len() > 0 {
        lemma_sort_rows_permutes(s.drop_last(), key, desc);
        let t = sort_rows(s.drop_last(), key, desc);
        let x = s.last();
        lemma_first_after(t, x, key, desc);
        let p = first_after(t, x, key, desc) as int;
        let u = t.insert(p, x);
        t.insert_ensures(p, x);
        assert(u.remove(p) =~= t);
        assert(u[p] == x);
        assert(u.remove(p).to_multiset() =~= u.to_multiset().remove(x));
        assert(u.to_multiset().count(x) > 0) by {
            assert(u.contains(x));
        }
        assert(s.drop_last().push(x) =~= s);
        assert(u.to_multiset() =~= t.to_multiset().insert(x));
    }
}

/// Law: sorting is stable: the lines that sort level with any given line come
/// out in the order in which they went in.
pub proof fn lemma_sort_rows_stable(s: Seq<RowView>, key: SortKey, desc: bool, z: RowView)
    ensures
        keep(sort_rows(s, key, desc), level_with(key, desc, z)) == keep(
            s,
            level_with(key, desc, z),
        ),
    decreases s.len(),
{
    if s.len() > 0 {
        let c = level_with(key, desc, z);
        lemma_sort_rows_stable(s.drop_last(), key, desc, z);
        lemma_sort_rows_sorted(s.drop_last(), key, desc);
        let t = sort_rows(s.drop_last(), key, desc);
        let x = s.last();
        lemma_insert_sorted(t, x, key, desc);
        lemma_first_after(t, x, key, desc);
        let p = first_after(t, x, key, desc) as int;
        let front = t.subrange(0, p);
        let back = t.subrange(p, t.len() as int);
        assert(t =~= front + back);
        assert(t.insert(p, x) =~= front + (seq![x] + back));
        lemma_keep_append(front, back, c);
        lemma_keep_append(seq![x], back, c);
        lemma_keep_append(front, seq![x] + back, c);
        assert(seq![x].drop_last() =~= Seq::<RowView>::empty());
        assert(seq![x].last() == x);
        assert(keep(Seq::<RowView>::empty(), c) =~= Seq::<RowView>::empty());
        if c(x) {
            // nothing from `back` sorts level with `z`
            assert forall|k: int| 0 <= k < back.len() implies !c(#[trigger] back[k]) by {
                assert(back[k] == t[p + k]);
                assert(row_order(key, desc, t[p + k], x) > 0);
                lemma_row_order_preorder(key, desc, t[p + k], z, x);
                lemma_row_order_preorder(key, desc, x, z, t[p + k]);
            }
            lemma_keep_none(back, c);
            assert(keep(front + back, c) =~= keep(front, c));
            assert(keep(seq![x] + back, c) =~= seq![x]);
        } else {
            assert(keep(seq![x], c) =~= Seq::<RowView>::empty());
        }
    }
}

proof fn lemma_keep_none<A>(s: Seq<A>, p: spec_fn(A) -> bool)
    requires
        forall|k: int| 0 <= k < s.len() ==> !p(#[trigger] s[k]),
    ensures
        keep(s, p) == Seq::<A>::empty(),
    decreases s.len(),
{
    if s.len() > 0 {
        lemma_keep_none(s.drop_last(), p);
        assert(s.last() == s[s.len() - 1]);
    }
}

/// Law: the table runs in the chosen column's order and direction: by CPU,
/// memory or process id, each line's value is at least (descending) or at most
/// (ascending) the value of every line below it; by name, each lowercased
/// command comes at or after (descending) or at or before (ascending) every one
/// below it in dictionary order.
pub proof fn lemma_table_in_column_order(f: FilterView, samples: Seq<ProcessSample>)
    ensures
        forall|i: int, j: int|
            #![trigger process_table(f, samples)[i], process_table(f, samples)[j]]
            0 <= i < j < process_table(f, samples).len() ==> {
                let a = process_table(f, samples)[i];
                let b = process_table(f, samples)[j];
                match f.sort_key {
                    SortKey::Cpu => if f.sort_desc {
                        a.cpu_order >= b.cpu_order
                    } else {
                        a.cpu_order <= b.cpu_order
                    },
                    SortKey::Mem => if f.sort_desc {
                        a.mem_order >= b.mem_order
                    } else {
                        a.mem_order <= b.mem_order
                    },
                    SortKey::Pid => if f.sort_desc {
                        a.pid >= b.pid
                    } else {
                        a.pid <= b.pid
                    },
                    SortKey::Name => if f.sort_desc {
                        lex_order(lowercase(a.cmd), lowercase(b.cmd)) >= 0
                    } else {
                        lex_order(lowercase(a.cmd), lowercase(b.cmd)) <= 0
                    },
                }
            },
{
    let t = process_table(f, samples);
    lemma_sort_rows_sorted(selected_rows(sample_rows(samples), f), f.sort_key, f.sort_desc);
    assert forall|i: int, j: int|
        #![trigger t[i], t[j]]
        0 <= i < j < t.len() implies {
        let a = t[i];
        let b = t[j];
        match f.sort_key {
            SortKey::Cpu => if f.sort_desc {
                a.cpu_order >= b.cpu_order
            } else {
                a.cpu_order <= b.cpu_order
            },
            SortKey::Mem => if f.sort_desc {
                a.mem_order >= b.mem_order
            } else {
                a.mem_order <= b.mem_order
            },
            SortKey::Pid => if f.sort_desc {
                a.pid >= b.pid
            } else {
                a.pid <= b.pid
            },
            SortKey::Name => if f.sort_desc {
                lex_order(lowercase(a.cmd), lowercase(b.cmd)) >= 0
            } else {
                lex_order(lowercase(a.cmd), lowercase(b.cmd)) <= 0
            },
        }
    } by {
        assert(row_order(f.sort_key, f.sort_desc, t[i], t[j]) <= 0);
        lemma_lex_order_antisymmetric(lowercase(t[i].cmd), lowercase(t[j].cmd));
    }
}

/// Law: with a query, every line of the table matches it; every process that
/// matches it has its line in the table; and each line appears as often as in
/// the snapshot.
pub proof fn lemma_table_matches_query(f: FilterView, samples: Seq<ProcessSample>)
    requires
        f.query.len() > 0,
    ensures
        forall|i: int|
            0 <= i < process_table(f, samples).len() ==> row_matches(
                #[trigger] process_table(f, samples)[i],
                lowercase(f.query),
            ),
        process_table(f, samples).to_multiset() == keep(
            sample_rows(samples),
            matcher(lowercase(f.query)),
        ).to_multiset(),
        forall|j: int|
            0 <= j < samples.len() && row_matches(sample_row(#[trigger] samples[j]), lowercase(f.query))
                ==> process_table(f, samples).contains(sample_row(samples[j])),
{
    broadcast use vstd::seq_lib::group_to_multiset_ensures;

    let kept = keep(sample_rows(samples), matcher(lowercase(f.query)));
    lemma_sort_rows_permutes(kept, f.sort_key, f.sort_desc);
    let t = process_table(f, samples);
    lemma_keep_satisfies(sample_rows(samples), matcher(lowercase(f.query)));
    assert forall|i: int| 0 <= i < t.len() implies row_matches(
        #[trigger] t[i],
        lowercase(f.query),
    ) by {
        assert(t.to_multiset().count(t[i]) > 0) by {
            assert(t.contains(t[i]));
        }
        assert(kept.contains(t[i]));
    }
    assert forall|j: int|
        0 <= j < samples.len() && row_matches(sample_row(#[trigger] samples[j]), lowercase(f.query))
            implies t.contains(sample_row(samples[j])) by {
        lemma_keep_has(sample_rows(samples), matcher(lowercase(f.query)), j);
        assert(kept.to_multiset().count(sample_row(samples[j])) > 0);
    }
}

proof fn lemma_keep_satisfies<A>(s: Seq<A>, p: spec_fn(A) -> bool)
    ensures
        forall|x: A| keep(s, p).contains(x) ==> p(x),
    decreases s.len(),
{
    if s.len() > 0 {
        lemma_keep_satisfies(s.drop_last(), p);
        assert forall|x: A| keep(s, p).contains(x) implies p(x) by {
            if p(s.last()) {
                let i = choose|i: int| 0 <= i < keep(s, p).len() && keep(s, p)[i] == x;
                if i < keep(s.drop_last(), p).len() {
                    assert(keep(s.drop_last(), p)[i] == x);
                    assert(keep(s.drop_last(), p).contains(x));
                } else {
                    assert(x == s.last());
                }
            } else {
                assert(keep(s.drop_last(), p).contains(x));
            }
        }
    }
}

proof fn lemma_keep_has<A>(s: Seq<A>, p: spec_fn(A) -> bool, j: int)
    requires
        0 <= j < s.len(),
        p(s[j]),
    ensures
        keep(s, p).contains(s[j]),
    decreases s.len(),
{
    if j == s.len() - 1 {
        assert(keep(s, p) == keep(s.drop_last(), p).push(s.last()));
        assert(keep(s, p)[keep(s.drop_last(), p).len() as int] == s[j]);
    } else {
        lemma_keep_has(s.drop_last(), p, j);
        assert(s.drop_last()[j] == s[j]);
        let i = choose|i: int|
            0 <= i < keep(s.drop_last(), p).len() && keep(s.drop_last(), p)[i] == s[j];
        if p(s.last()) {
            assert(keep(s, p)[i] == s[j]);
        }
    }
}

/// Law: switching the search mode or the sort direction twice changes nothing,
/// and clearing ends the search with an empty query but keeps the sort settings.
pub proof fn lemma_switches_and_clear(f: FilterView)
    ensures
        (FilterView { active: !(FilterView { active: !f.active, ..f }).active, ..f }) == f,
        (FilterView { sort_desc: !(FilterView { sort_desc: !f.sort_desc, ..f }).sort_desc, ..f })
            == f,
        ({
            let c = FilterView { query: Seq::empty(), active: false, ..f };
            &&& c.query.len() == 0 && !c.active
            &&& c.sort_key == f.sort_key && c.sort_desc == f.sort_desc
        }),
{
}

/// Law: typing a character and deleting it restores the query.
pub proof fn lemma_push_then_pop(q: Seq<char>, c: char)
    ensures
        q.push(c).len() > 0 && q.push(c).drop_last() == q,
{
    assert(q.push(c).drop_last() =~= q);
}

/// The filter's state as a value.
pub struct FilterView {
    pub query: Seq<char>,
    pub active: bool,
    pub sort_key: SortKey,
    pub sort_desc: bool,
}

/// The lines that pass the filter: all of them without a query, else those
/// matching the lowercased query, in their order.
pub open spec fn selected_rows(rows: Seq<RowView>, f: FilterView) -> Seq<RowView> {
    if f.query.len() == 0 {
        rows
    } else {
        keep(rows, matcher(lowercase(f.query)))
    }
}

/// The process table for a snapshot: the selected lines, stably sorted.
pub open spec fn process_table(f: FilterView, samples: Seq<ProcessSample>) -> Seq<RowView> {
    sort_rows(selected_rows(sample_rows(samples), f), f.sort_key, f.sort_desc)
}

/// Search text, search mode and sort settings of the process table.
#[derive(Debug, Clone)]
pub struct ProcessFilter {
    query: String,
    active: bool,
    sort_key: SortKey,
    sort_desc: bool,
}

impl View for ProcessFilter {
    type V = FilterView;

    closed spec fn view(&self) -> FilterView {
        FilterView {
            query: self.query@,
            active: self.active,
            sort_key: self.sort_key,
            sort_desc: self.sort_desc,
        }
    }
}

/// The filter at start-up: no query, not searching, by CPU, descending.
pub open spec fn initial_filter() -> FilterView {
    FilterView { query: Seq::empty(), active: false, sort_key: SortKey::Cpu, sort_desc: true }
}

impl Default for ProcessFilter {
    fn default() -> (r: Self)
        ensures
            r@ == initial_filter(),
    {
        Self { query: String::new(), active: false, sort_key: SortKey::Cpu, sort_desc: true }
    }
}

impl ProcessFilter {
    pub fn new() -> (r: Self)
        ensures
            r@ == initial_filter(),
    {
        Self::default()
    }

    pub fn is_active(&self) -> (b: bool)
        ensures
            b == self@.active,
    {
        self.active
    }

    pub fn toggle_active(&mut self)
        ensures
            final(self)@ == (FilterView { active: !old(self)@.active, ..old(self)@ }),
    {
        self.active = !self.active;
    }

    pub fn has_query(&self) -> (b: bool)
        ensures
            b == (self@.query.len() > 0),
    {
        !self.query.as_str().is_empty()
    }

    pub fn get_query(&self) -> (q: &str)
        ensures
            q@ == self@.query,
    {
        self.query.as_str()
    }

    pub fn push_char(&mut self, c: char)
        ensures
            final(self)@ == (FilterView { query: old(self)@.query.push(c), ..old(self)@ }),
    {
        self.query.push(c);
    }

    pub fn pop_char(&mut self)
        ensures
            final(self)@ == (FilterView {
                query: if old(self)@.query.len() == 0 {
                    old(self)@.query
                } else {
                    old(self)@.query.drop_last()
                },
                ..old(self)@
            }),
    {
        self.query.pop();
    }

    pub fn clear(&mut self)
        ensures
            final(self)@ == (FilterView { query: Seq::empty(), active: false, ..old(self)@ }),
    {
        self.query.clear();
        self.active = false;
    }

    pub fn sort_key(&self) -> (k: SortKey)
        ensures
            k == self@.sort_key,
    {
        self.sort_key
    }

    pub fn sort_desc(&self) -> (d: bool)
        ensures
            d == self@.sort_desc,
    {
        self.sort_desc
    }

    pub fn cycle_sort(&mut self)
        ensures
            final(self)@ == (FilterView {
                sort_key: next_sort_key(old(self)@.sort_key),
                ..old(self)@
            }),
    {
        self.sort_key = match self.sort_key {
            SortKey::Cpu => SortKey::Mem,
            SortKey::Mem => SortKey::Pid,
            SortKey::Pid => SortKey::Name,
            SortKey::Name => SortKey::Cpu,
        };
    }

    pub fn toggle_sort_direction(&mut self)
        ensures
            final(self)@ == (FilterView { sort_desc: !old(self)@.sort_desc, ..old(self)@ }),
    {
        self.sort_desc = !self.sort_desc;
    }
}

/// The arguments joined by single spaces.
fn join_command(cmd: &Vec<String>) -> (s: String)
    ensures
        s@ == join_words(cmd@.map_values(|c: String| c@)),
{
    let ghost words = cmd@.map_values(|c: String| c@);
    let mut s = String::new();
    let mut i: usize = 0;
    assert(words.take(0) =~= Seq::<Seq<char>>::empty());
    while i < cmd.len()
        invariant
            i <= cmd@.len(),
            words == cmd@.map_values(|c: String| c@),
            s@ == join_words(words.take(i as int)),
        decreases cmd@.len() - i,
    {
        assert(words.take(i + 1).drop_last() =~= words.take(i as int));
        assert(words.take(i + 1).last() == cmd@[i as int]@);
        if i > 0 {
            s.push(' ');
        } else {
            assert(words.take(1) =~= seq![cmd@[0]@]);
        }
        s.append(cmd[i].as_str());
        i = i + 1;
    }
    assert(words.take(cmd@.len() as int) =~= words);
    s
}

/// The table line of a sampled process.
pub fn build_row(s: &ProcessSample) -> (r: ProcessRow)
    ensures
        r@ == sample_row(*s),
{
    let user = match &s.user {
        Some(u) => u.clone(),
        None => {
            let mut u = String::new();
            u.append("unknown");
            u
        },
    };
    let cmd = if s.cmd.len() == 0 {
        s.name.clone()
    } else {
        join_command(&s.cmd)
    };
    ProcessRow {
        pid: s.pid as usize,
        user,
        cpu_order: s.cpu_order,
        mem_order: s.mem_order,
        mem_mb: s.memory / (1024 * 1024),
        state: state_char(s.status),
        cmd,
    }
}

fn int_order_exec(a: u64, b: u64) -> (c: i8)
    ensures
        c == int_order(a as int, b as int),
{
    if a < b {
        -1
    } else if a > b {
        1
    } else {
        0
    }
}

/// Three-way comparison of two lines by a sort key, given their lowercased commands.
fn key_order_exec(key: SortKey, a: &ProcessRow, a_name: &Vec<char>, b: &ProcessRow, b_name: &Vec<char>) -> (c: i8)
    requires
        a_name@ == lowercase(a.cmd@),
        b_name@ == lowercase(b.cmd@),
    ensures
        c == key_order(key, a@, b@),
{
    match key {
        SortKey::Cpu => int_order_exec(a.cpu_order as u64, b.cpu_order as u64),
        SortKey::Mem => int_order_exec(a.mem_order as u64, b.mem_order as u64),
        SortKey::Pid => int_order_exec(a.pid as u64, b.pid as u64),
        SortKey::Name => lex_order_exec(a_name, b_name),
    }
}

/// Lines and their lowercased commands, side by side.
pub open spec fn names_match(rows: Seq<ProcessRow>, names: Seq<Vec<char>>) -> bool {
    &&& rows.len() == names.len()
    &&& forall|j: int| 0 <= j < rows.len() ==> #[trigger] names[j]@ == lowercase(rows[j].cmd@)
}

/// Where a new line goes among the lines sorted so far.
fn insert_position(
    sorted: &Vec<ProcessRow>,
    names: &Vec<Vec<char>>,
    row: &ProcessRow,
    name: &Vec<char>,
    key: SortKey,
    desc: bool,
) -> (p: usize)
    requires
        names_match(sorted@, names@),
        name@ == lowercase(row.cmd@),
    ensures
        p == first_after(rows_view(sorted@), row@, key, desc),
        p <= sorted@.len(),
{
    let ghost v = rows_view(sorted@);
    let mut j: usize = 0;
    assert(v.skip(0) =~= v);
    while j < sorted.len()
        invariant
            names_match(sorted@, names@),
            name@ == lowercase(row.cmd@),
            v == rows_view(sorted@),
            j <= sorted@.len(),
            first_after(v, row@, key, desc) == j + first_after(v.skip(j as int), row@, key, desc),
        decreases sorted@.len() - j,
    {
        assert(v.skip(j as int)[0] == sorted@[j as int]@);
        let c = if desc {
            key_order_exec(key, row, name, &sorted[j], &names[j])
        } else {
            key_order_exec(key, &sorted[j], &names[j], row, name)
        };
        if c > 0 {
            return j;
        }
        assert(v.skip(j as int).drop_first() =~= v.skip(j + 1));
        j = j + 1;
    }
    assert(v.skip(j as int) =~= Seq::<RowView>::empty());
    j
}

/// Whether a line matches the lowercased query `q`, given its lowercased command.
fn row_passes(row: &ProcessRow, name: &Vec<char>, q: &Vec<char>) -> (b: bool)
    requires
        name@ == lowercase(row.cmd@),
    ensures
        b == row_matches(row@, q@),
{
    if contains_exec(name, q) {
        return true;
    }
    let user = chars_of(to_lowercase(row.user.as_str()).as_str());
    if contains_exec(&user, q) {
        return true;
    }
    let mut digits = String::new();
    push_decimal(&mut digits, row.pid as u64);
    assert(digits@ =~= decimal(row.pid as nat));
    let digits = chars_of(digits.as_str());
    contains_exec(&digits, q)
}

impl ProcessFilter {
    /// Applies process filtering and sorting to a snapshot of the process table:
    /// builds a line per process, keeps those matching the query (all of them when
    /// the query is empty), and sorts them stably by the sort key in the chosen
    /// direction.
    pub fn apply(&self, samples: &Vec<ProcessSample>) -> (rows: Vec<ProcessRow>)
        ensures
            rows_view(rows@) == process_table(self@, samples@),
    {
        let ghost f = self@;
        let ghost built = sample_rows(samples@);
        let has_query = self.has_query();
        let q: Vec<char> = if has_query {
            chars_of(to_lowercase(self.query.as_str()).as_str())
        } else {
            Vec::new()
        };
        let mut sorted: Vec<ProcessRow> = Vec::new();
        let mut names: Vec<Vec<char>> = Vec::new();
        assert(built.take(0) =~= Seq::<RowView>::empty());
        assert(rows_view(sorted@) =~= Seq::<RowView>::empty());
        let mut i: usize = 0;
        while i < samples.len()
            invariant
                f == self@,
                built == sample_rows(samples@),
                has_query == (f.query.len() > 0),
                has_query ==> q@ == lowercase(f.query),
                i <= samples@.len(),
                names_match(sorted@, names@),
                rows_view(sorted@) == sort_rows(
                    selected_rows(built.take(i as int), f),
                    f.sort_key,
                    f.sort_desc,
                ),
            decreases samples@.len() - i,
        {
            let row = build_row(&samples[i]);
            let name = chars_of(to_lowercase(row.cmd.as_str()).as_str());
            let ghost prefix = built.take(i as int);
            assert(built.take(i + 1) =~= prefix.push(row@));
            assert(built.take(i + 1).drop_last() =~= prefix);
            let pass = if has_query {
                row_passes(&row, &name, &q)
            } else {
                true
            };
            if pass {
                let ghost before = rows_view(sorted@);
                let p = insert_position(&sorted, &names, &row, &name, self.sort_key, self.sort_desc);
                let ghost r = row@;
                let ghost old_rows = sorted@;
                let ghost old_names = names@;
                sorted.insert(p, row);
                names.insert(p, name);
                assert(rows_view(sorted@) =~= before.insert(p as int, r));
                assert(selected_rows(built.take(i + 1), f) =~= selected_rows(prefix, f).push(r));
                assert(selected_rows(built.take(i + 1), f).drop_last() =~= selected_rows(prefix, f));
                assert forall|j: int| 0 <= j < sorted@.len() implies #[trigger] names@[j]@
                    == lowercase(sorted@[j].cmd@) by {
                    if j < p {
                        assert(sorted@[j] == old_rows[j] && names@[j] == old_names[j]);
                    } else if j > p {
                        assert(sorted@[j] == old_rows[j - 1] && names@[j] == old_names[j - 1]);
                    }
                }
            } else {
                assert(selected_rows(built.take(i + 1), f) =~= selected_rows(prefix, f));
            }
            i = i + 1;
        }
        assert(built.take(samples@.len() as int) =~= built);
        sorted
    }
}

} // verus!
