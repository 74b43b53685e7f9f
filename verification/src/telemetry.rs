use std::collections::VecDeque;
use vstd::prelude::*;

verus! {

/// How many samples a history keeps.
pub const HISTORY_LEN: usize = 90;

/// Appends `v` to a history, dropping the oldest sample when it is full.
pub open spec fn history_push(h: Seq<u64>, v: u64) -> Seq<u64> {
    if h.len() >= HISTORY_LEN {
        h.drop_first().push(v)
    } else {
        h.push(v)
    }
}

/// The history after recording `vs` in order.
pub open spec fn history_push_all(h: Seq<u64>, vs: Seq<u64>) -> Seq<u64>
    decreases vs.len(),
{
    if vs.len() == 0 {
        h
    } else {
        history_push(history_push_all(h, vs.drop_last()), vs.last())
    }
}

/// The last (at most) `HISTORY_LEN` elements of `s`.
pub open spec fn latest(s: Seq<u64>) -> Seq<u64> {
    if s.len() > HISTORY_LEN {
        s.skip(s.len() - HISTORY_LEN)
    } else {
        s
    }
}

/// A rolling window of the most recent samples, oldest first.
pub struct History {
    buf: VecDeque<u64>,
}

impl View for History {
    type V = Seq<u64>;

    closed spec fn view(&self) -> Seq<u64> {
        self.buf@
    }
}

impl History {
    #[verifier::type_invariant]
    spec fn bounded(self) -> bool {
        self.buf@.len() <= HISTORY_LEN
    }

    pub fn new() -> (h: Self)
        ensures
            h@ == Seq::<u64>::empty(),
    {
        History { buf: VecDeque::new() }
    }

    /// Records a sample, dropping the oldest one when the window is full.
    pub fn push(&mut self, v: u64)
        ensures
            final(self)@ == history_push(old(self)@, v),
            final(self)@.len() <= HISTORY_LEN,
    {
        proof {
            use_type_invariant(&*self);
        }
        let mut buf = VecDeque::new();
        std::mem::swap(&mut buf, &mut self.buf);
        if buf.len() >= HISTORY_LEN {
            buf.pop_front();
        }
        buf.push_back(v);
        assert(buf@ =~= history_push(old(self)@, v));
        self.buf = buf;
    }

    /// The samples, oldest first.
    pub fn as_vec(&self) -> (v: Vec<u64>)
        ensures
            v@ == self@,
            v@.len() <= HISTORY_LEN,
    {
        proof {
            use_type_invariant(self);
        }
        let mut v: Vec<u64> = Vec::new();
        let mut i: usize = 0;
        while i < self.buf.len()
            invariant
                i <= self.buf@.len(),
                v@ == self.buf@.take(i as int),
            decreases self.buf@.len() - i,
        {
            v.push(self.buf[i]);
            i = i + 1;
            assert(v@ =~= self.buf@.take(i as int));
        }
        assert(self.buf@.take(i as int) =~= self.buf@);
        v
    }
}

impl Default for History {
    fn default() -> (h: Self)
        ensures
            h@ == Seq::<u64>::empty(),
    {
        History::new()
    }
}

impl Clone for History {
    fn clone(&self) -> (h: Self)
        ensures
            h@ == self@,
    {
        proof {
            use_type_invariant(self);
        }
        let v = self.as_vec();
        let mut buf = VecDeque::new();
        let mut i: usize = 0;
        while i < v.len()
            invariant
                v@ == self@,
                v@.len() <= HISTORY_LEN,
                i <= v@.len(),
                buf@ == v@.take(i as int),
            decreases v@.len() - i,
        {
            buf.push_back(v[i]);
            i = i + 1;
            assert(buf@ =~= v@.take(i as int));
        }
        assert(v@.take(i as int) =~= v@);
        History { buf }
    }
}

/// Law: a history holds exactly the latest `HISTORY_LEN` samples recorded,
/// oldest first.
pub proof fn lemma_history_keeps_latest(h: Seq<u64>, vs: Seq<u64>)
    requires
        h.len() <= HISTORY_LEN,
    ensures
        history_push_all(h, vs) == latest(h + vs),
        history_push_all(h, vs).len() <= HISTORY_LEN,
    decreases vs.len(),
{
    if vs.len() > 0 {
        lemma_history_keeps_latest(h, vs.drop_last());
        let prev = latest(h + vs.drop_last());
        assert(h + vs =~= (h + vs.drop_last()).push(vs.last()));
        let s = h + vs.drop_last();
        if s.len() >= HISTORY_LEN {
            assert(prev.drop_first().push(vs.last()) =~= latest(h + vs));
        } else {
            assert(prev.push(vs.last()) =~= latest(h + vs));
        }
    }
}

/// `a - b`, or zero when `b` is larger.
pub open spec fn sat_sub(a: u64, b: u64) -> u64 {
    if a >= b {
        (a - b) as u64
    } else {
        0
    }
}

/// One mounted disk as the dashboard shows it.
#[derive(Clone, Debug)]
pub struct DiskInfo {
    pub name: String,
    pub mount: String,
    pub used_bytes: u64,
    pub total_bytes: u64,
}

impl DiskInfo {
    /// A disk's entry from its size and its free space: used is what is not
    /// available (zero if more is available than the disk holds).
    pub fn from_space(name: String, mount: String, total_space: u64, available_space: u64) -> (d:
        Self)
        ensures
            d.name == name,
            d.mount == mount,
            d.total_bytes == total_space,
            d.used_bytes == sat_sub(total_space, available_space),
    {
        DiskInfo {
            name,
            mount,
            used_bytes: total_space.saturating_sub(available_space),
            total_bytes: total_space,
        }
    }
}

/// The sum of a sequence of counters.
pub open spec fn counter_sum(s: Seq<u64>) -> nat
    decreases s.len(),
{
    if s.len() == 0 {
        0
    } else {
        counter_sum(s.drop_last()) + (s.last() as nat)
    }
}

/// The total of per-device or per-process counters, or `None` when the total
/// does not fit in 64 bits.
pub fn total_of(values: &Vec<u64>) -> (r: Option<u64>)
    ensures
        counter_sum(values@) <= u64::MAX ==> r == Some(counter_sum(values@) as u64),
        counter_sum(values@) > u64::MAX ==> r is None,
{
    let mut total: u64 = 0;
    let mut i: usize = 0;
    assert(values@.take(0) =~= Seq::<u64>::empty());
    while i < values.len()
        invariant
            i <= values@.len(),
            total == counter_sum(values@.take(i as int)),
        decreases values@.len() - i,
    {
        assert(values@.take(i + 1).drop_last() =~= values@.take(i as int));
        proof {
            lemma_counter_sum_prefix(values@, i + 1);
        }
        if total > u64::MAX - values[i] {
            return None;
        }
        total = total + values[i];
        i = i + 1;
    }
    assert(values@.take(i as int) =~= values@);
    Some(total)
}

/// A prefix never sums to more than the whole.
proof fn lemma_counter_sum_prefix(s: Seq<u64>, k: int)
    requires
        0 <= k <= s.len(),
    ensures
        counter_sum(s.take(k)) <= counter_sum(s),
    decreases s.len(),
{
    if k < s.len() {
        assert(s.drop_last().take(k) =~= s.take(k));
        lemma_counter_sum_prefix(s.drop_last(), k);
    } else {
        assert(s.take(k) =~= s);
    }
}

/// The disk counters seen at the previous tick.
pub struct CounterState {
    pub prev_read: u64,
    pub prev_write: u64,
    pub first_tick: bool,
}

/// Tracks cumulative disk read and write counters from tick to tick.
pub struct DiskCounters {
    prev_read: u64,
    prev_write: u64,
    first_tick: bool,
}

impl View for DiskCounters {
    type V = CounterState;

    closed spec fn view(&self) -> CounterState {
        CounterState {
            prev_read: self.prev_read,
            prev_write: self.prev_write,
            first_tick: self.first_tick,
        }
    }
}

/// The bytes read and written since the previous tick: nothing on the first
/// tick, else the growth of each counter (zero if it went backwards).
pub open spec fn counter_deltas(c: CounterState, total_read: u64, total_write: u64) -> (u64, u64) {
    if c.first_tick {
        (0, 0)
    } else {
        (sat_sub(total_read, c.prev_read), sat_sub(total_write, c.prev_write))
    }
}

impl DiskCounters {
    pub fn new() -> (c: Self)
        ensures
            c@ == (CounterState { prev_read: 0, prev_write: 0, first_tick: true }),
    {
        DiskCounters { prev_read: 0, prev_write: 0, first_tick: true }
    }

    /// Takes this tick's cumulative totals and returns the bytes read and
    /// written since the previous tick.
    pub fn observe(&mut self, total_read: u64, total_write: u64) -> (d: (u64, u64))
        ensures
            d == counter_deltas(old(self)@, total_read, total_write),
            final(self)@ == (CounterState {
                prev_read: total_read,
                prev_write: total_write,
                first_tick: false,
            }),
    {
        let d = if self.first_tick {
            (0, 0)
        } else {
            (total_read.saturating_sub(self.prev_read), total_write.saturating_sub(self.prev_write))
        };
        self.prev_read = total_read;
        self.prev_write = total_write;
        self.first_tick = false;
        d
    }
}

/// The deltas of a run of ticks after the first.
pub open spec fn read_deltas(start: u64, totals: Seq<u64>) -> Seq<u64>
    decreases totals.len(),
{
    if totals.len() == 0 {
        seq![]
    } else {
        let prev = if totals.len() == 1 {
            start
        } else {
            totals[totals.len() - 2]
        };
        read_deltas(start, totals.drop_last()).push(sat_sub(totals.last(), prev))
    }
}

/// Law: while a counter never goes backwards, the deltas reported tick by tick
/// add up to its total growth.
pub proof fn lemma_deltas_telescope(start: u64, totals: Seq<u64>)
    requires
        totals.len() > 0,
        start <= totals[0],
        forall|i: int, j: int| 0 <= i <= j < totals.len() ==> totals[i] <= totals[j],
    ensures
        counter_sum(read_deltas(start, totals)) == totals.last() - start,
    decreases totals.len(),
{
    let d = read_deltas(start, totals);
    assert(d.len() > 0);
    assert(d.drop_last() == read_deltas(start, totals.drop_last()));
    assert(counter_sum(d) == counter_sum(d.drop_last()) + (d.last() as nat));
    if totals.len() > 1 {
        lemma_deltas_telescope(start, totals.drop_last());
        let prev = totals[totals.len() - 2];
        assert(totals.drop_last().last() == prev);
        assert(prev <= totals.last());
        assert(d.last() == totals.last() - prev);
    } else {
        assert(d.drop_last() =~= Seq::<u64>::empty());
        assert(counter_sum(d.drop_last()) == 0);
        assert(d.last() == totals.last() - start);
    }
}

/// The transfer rates of the last tick and their histories in KiB/s.
pub struct TrafficRates {
    pub net_rx_bps: u64,
    pub net_tx_bps: u64,
    pub disk_read_bps: u64,
    pub disk_write_bps: u64,
    pub net_rx_history: History,
    pub net_tx_history: History,
    pub disk_read_history: History,
    pub disk_write_history: History,
}

impl TrafficRates {
    pub fn new() -> (t: Self)
        ensures
            t.net_rx_bps == 0 && t.net_tx_bps == 0 && t.disk_read_bps == 0 && t.disk_write_bps
                == 0,
            t.net_rx_history@ == Seq::<u64>::empty(),
            t.net_tx_history@ == Seq::<u64>::empty(),
            t.disk_read_history@ == Seq::<u64>::empty(),
            t.disk_write_history@ == Seq::<u64>::empty(),
    {
        TrafficRates {
            net_rx_bps: 0,
            net_tx_bps: 0,
            disk_read_bps: 0,
            disk_write_bps: 0,
            net_rx_history: History::new(),
            net_tx_history: History::new(),
            disk_read_history: History::new(),
            disk_write_history: History::new(),
        }
    }

    /// Records one tick's rates (bytes per second) and appends each, in whole
    /// KiB/s, to its history.
    pub fn record(&mut self, net_rx_bps: u64, net_tx_bps: u64, disk_read_bps: u64, disk_write_bps: u64)
        ensures
            final(self).net_rx_bps == net_rx_bps,
            final(self).net_tx_bps == net_tx_bps,
            final(self).disk_read_bps == disk_read_bps,
            final(self).disk_write_bps == disk_write_bps,
            final(self).net_rx_history@ == history_push(old(self).net_rx_history@, net_rx_bps / 1024),
            final(self).net_tx_history@ == history_push(old(self).net_tx_history@, net_tx_bps / 1024),
            final(self).disk_read_history@ == history_push(
                old(self).disk_read_history@,
                disk_read_bps / 1024,
            ),
            final(self).disk_write_history@ == history_push(
                old(self).disk_write_history@,
                disk_write_bps / 1024,
            ),
    {
        self.net_rx_bps = net_rx_bps;
        self.net_tx_bps = net_tx_bps;
        self.net_rx_history.push(net_rx_bps / 1024);
        self.net_tx_history.push(net_tx_bps / 1024);
        self.disk_read_bps = disk_read_bps;
        self.disk_write_bps = disk_write_bps;
        self.disk_read_history.push(disk_read_bps / 1024);
        self.disk_write_history.push(disk_write_bps / 1024);
    }
}

impl Clone for TrafficRates {
    fn clone(&self) -> (t: Self)
        ensures
            t.net_rx_bps == self.net_rx_bps && t.net_tx_bps == self.net_tx_bps && t.disk_read_bps
                == self.disk_read_bps && t.disk_write_bps == self.disk_write_bps,
            t.net_rx_history@ == self.net_rx_history@,
            t.net_tx_history@ == self.net_tx_history@,
            t.disk_read_history@ == self.disk_read_history@,
            t.disk_write_history@ == self.disk_write_history@,
    {
        TrafficRates {
            net_rx_bps: self.net_rx_bps,
            net_tx_bps: self.net_tx_bps,
            disk_read_bps: self.disk_read_bps,
            disk_write_bps: self.disk_write_bps,
            net_rx_history: self.net_rx_history.clone(),
            net_tx_history: self.net_tx_history.clone(),
            disk_read_history: self.disk_read_history.clone(),
            disk_write_history: self.disk_write_history.clone(),
        }
    }
}

} // verus!
