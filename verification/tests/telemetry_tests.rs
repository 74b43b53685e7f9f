use sysmon::telemetry::{total_of, DiskCounters, History, TrafficRates, HISTORY_LEN};

#[test]
fn history_keeps_the_latest_samples() {
    let mut h = History::new();
    assert!(h.as_vec().is_empty());
    for v in 0..200u64 {
        h.push(v);
    }
    let v = h.as_vec();
    assert_eq!(v.len(), HISTORY_LEN);
    assert_eq!(v, (110..200).collect::<Vec<u64>>());
}

#[test]
fn history_below_capacity_keeps_all() {
    let mut h = History::default();
    h.push(5);
    h.push(7);
    assert_eq!(h.as_vec(), vec![5, 7]);
    let c = h.clone();
    h.push(9);
    assert_eq!(c.as_vec(), vec![5, 7]);
    assert_eq!(h.as_vec(), vec![5, 7, 9]);
}

#[test]
fn counters_add_up_or_overflow() {
    assert_eq!(total_of(&vec![]), Some(0));
    assert_eq!(total_of(&vec![1, 2, 3]), Some(6));
    assert_eq!(total_of(&vec![u64::MAX, 0]), Some(u64::MAX));
    assert_eq!(total_of(&vec![u64::MAX, 1]), None);
}

#[test]
fn disk_counter_deltas() {
    let mut c = DiskCounters::new();
    assert_eq!(c.observe(1000, 500), (0, 0));
    assert_eq!(c.observe(1500, 700), (500, 200));
    // a counter that goes backwards reports zero
    assert_eq!(c.observe(1400, 900), (0, 200));
    assert_eq!(c.observe(1400, 900), (0, 0));
}

#[test]
fn deltas_add_up_to_growth() {
    let totals = [100u64, 150, 150, 400, 1000];
    let mut c = DiskCounters::new();
    c.observe(totals[0], 0);
    let mut sum = 0;
    for t in &totals[1..] {
        sum += c.observe(*t, 0).0;
    }
    assert_eq!(sum, 1000 - 100);
}

#[test]
fn traffic_rates_record_kib_histories() {
    let mut t = TrafficRates::new();
    t.record(4096, 1023, 10 * 1024, 0);
    assert_eq!(t.net_rx_bps, 4096);
    assert_eq!(t.net_tx_bps, 1023);
    assert_eq!(t.net_rx_history.as_vec(), vec![4]);
    assert_eq!(t.net_tx_history.as_vec(), vec![0]);
    assert_eq!(t.disk_read_history.as_vec(), vec![10]);
    assert_eq!(t.disk_write_history.as_vec(), vec![0]);
    let c = t.clone();
    assert_eq!(c.disk_read_bps, 10 * 1024);
    assert_eq!(c.net_rx_history.as_vec(), vec![4]);
}
