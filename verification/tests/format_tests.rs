use sysmon::components::cpu::cores_title;
use sysmon::components::disk::disk_title;
use sysmon::components::memory::{format_bytes, ram_label, swap_label};
use sysmon::components::network::{human_bytes_per_sec, net_title};
use sysmon::dashboard::{
    bytes_to_mb, disk_gauge_label, disk_panel_title, format_uptime, net_panel_title,
    ram_gauge_label, status_text, swap_gauge_label, visible_disk_count,
};
use sysmon::telemetry::DiskInfo;

fn float_rate(bps: u64) -> String {
    const KB: f64 = 1024.0;
    const MB: f64 = KB * 1024.0;
    const GB: f64 = MB * 1024.0;
    let b = bps as f64;
    if b >= GB {
        format!("{:.2} GB/s", b / GB)
    } else if b >= MB {
        format!("{:.2} MB/s", b / MB)
    } else if b >= KB {
        format!("{:.1} KB/s", b / KB)
    } else {
        format!("{b:.0} B/s")
    }
}

fn float_bytes(bytes: u64) -> String {
    const MB: u64 = 1024 * 1024;
    const GB: u64 = MB * 1024;
    if bytes >= GB {
        format!("{:.1}GB", bytes as f64 / GB as f64)
    } else {
        format!("{}MB", bytes / MB)
    }
}

#[test]
fn rate_below_one_kib_is_whole_bytes() {
    assert_eq!(human_bytes_per_sec(0), "0 B/s");
    assert_eq!(human_bytes_per_sec(1), "1 B/s");
    assert_eq!(human_bytes_per_sec(1023), "1023 B/s");
}

#[test]
fn rate_in_kib_has_one_decimal() {
    assert_eq!(human_bytes_per_sec(1024), "1.0 KB/s");
    assert_eq!(human_bytes_per_sec(1536), "1.5 KB/s");
    // just below one MiB rounds up within the KiB unit
    assert_eq!(human_bytes_per_sec(1024 * 1024 - 1), "1024.0 KB/s");
}

#[test]
fn rate_in_mib_and_gib_has_two_decimals() {
    assert_eq!(human_bytes_per_sec(1024 * 1024), "1.00 MB/s");
    assert_eq!(human_bytes_per_sec(5 * 1024 * 1024 / 2), "2.50 MB/s");
    assert_eq!(human_bytes_per_sec(1024 * 1024 * 1024), "1.00 GB/s");
    assert_eq!(human_bytes_per_sec(3 * 1024 * 1024 * 1024), "3.00 GB/s");
}

#[test]
fn rate_ties_round_to_even() {
    // 0.25 KiB steps: 1.25 KiB is a tie at one decimal
    assert_eq!(human_bytes_per_sec(1280), float_rate(1280));
    assert_eq!(human_bytes_per_sec(1280), "1.2 KB/s");
    assert_eq!(human_bytes_per_sec(1408), "1.4 KB/s");
    assert_eq!(human_bytes_per_sec(1408), float_rate(1408));
}

#[test]
fn rate_matches_float_formatting_on_many_values() {
    let mut v: u64 = 1;
    for step in 0..4000u64 {
        v = v.wrapping_mul(6364136223846793005).wrapping_add(1442695040888963407 + step);
        for shift in [0u32, 8, 16, 24, 34, 44, 54, 60] {
            let x = v >> shift;
            assert_eq!(human_bytes_per_sec(x), float_rate(x), "value {x}");
        }
    }
    for x in [u64::MAX, u64::MAX - 1, 1u64 << 53, (1u64 << 53) + 1, (1u64 << 54) + 3] {
        assert_eq!(human_bytes_per_sec(x), float_rate(x), "value {x}");
    }
}

#[test]
fn memory_sizes_in_mib_and_gib() {
    assert_eq!(format_bytes(0), "0MB");
    assert_eq!(format_bytes(512 * 1024 * 1024), "512MB");
    assert_eq!(format_bytes(1024 * 1024 * 1024 - 1), "1023MB");
    assert_eq!(format_bytes(1024 * 1024 * 1024), "1.0GB");
    assert_eq!(format_bytes(3 * 512 * 1024 * 1024), "1.5GB");
    let mut v: u64 = 7;
    for _ in 0..3000 {
        v = v.wrapping_mul(2862933555777941757).wrapping_add(3037000493);
        for shift in [0u32, 20, 30, 34, 40] {
            let x = v >> shift;
            assert_eq!(format_bytes(x), float_bytes(x), "value {x}");
        }
    }
}

#[test]
fn memory_labels() {
    assert_eq!(ram_label(512 * 1024 * 1024, 2 * 1024 * 1024 * 1024), "RAM: 512MB/2.0GB");
    assert_eq!(swap_label(0, 0), "SWP: 0MB/0MB");
    assert_eq!(ram_gauge_label(512 * 1024 * 1024, 2048 * 1024 * 1024), "RAM: 512/2048MB");
    assert_eq!(swap_gauge_label(1024 * 1024 + 5, 0), "SWP: 1/0MB");
}

#[test]
fn megabytes_are_whole() {
    assert_eq!(bytes_to_mb(0), 0);
    assert_eq!(bytes_to_mb(1024 * 1024 - 1), 0);
    assert_eq!(bytes_to_mb(3 * 1024 * 1024 + 7), 3);
}

#[test]
fn uptime_in_days_hours_minutes() {
    assert_eq!(format_uptime(0), "0m");
    assert_eq!(format_uptime(59), "0m");
    assert_eq!(format_uptime(61), "1m");
    assert_eq!(format_uptime(3600), "1h 0m");
    assert_eq!(format_uptime(3 * 3600 + 4 * 60), "3h 4m");
    assert_eq!(format_uptime(2 * 86400 + 3 * 3600 + 4 * 60 + 5), "2d 3h 4m");
    assert_eq!(format_uptime(86400), "1d 0h 0m");
}

#[test]
fn panel_titles() {
    assert_eq!(net_title(1536, 0), " Net ↓1.5 KB/s ↑0 B/s ");
    assert_eq!(disk_title(0, 2 * 1024 * 1024), " Disk R:0 B/s W:2.00 MB/s ");
    assert_eq!(net_panel_title(2 * 1024 * 1024, 10), " net │ ↓2.00 MB/s ↑10 B/s ");
    assert_eq!(disk_panel_title(0, 1024), " 3disk │ R:0 B/s W:1.0 KB/s ");
    assert_eq!(cores_title(8), " Cores (8) ");
}

#[test]
fn disk_labels_pad_the_mount_point() {
    let d = DiskInfo::from_space("sda1".to_string(), "/".to_string(), 100 * 1024 * 1024 * 1024, 87 * 1024 * 1024 * 1024 + 512 * 1024 * 1024);
    assert_eq!(d.used_bytes, 12 * 1024 * 1024 * 1024 + 512 * 1024 * 1024);
    assert_eq!(disk_gauge_label(&d), "/      12.5/100.0GB");
    let long = DiskInfo::from_space("nvme".to_string(), "/home/user".to_string(), 0, 5);
    assert_eq!(long.used_bytes, 0);
    assert_eq!(disk_gauge_label(&long), "/home/user 0.0/0.0GB");
    let gb = 1024.0 * 1024.0 * 1024.0;
    let expected = format!("{:<6} {:.1}/{:.1}GB", d.mount, d.used_bytes as f64 / gb, d.total_bytes as f64 / gb);
    assert_eq!(disk_gauge_label(&d), expected);
}

#[test]
fn disk_rows_fit_the_panel() {
    assert_eq!(visible_disk_count(3, 5), 3);
    assert_eq!(visible_disk_count(7, 5), 5);
    assert_eq!(visible_disk_count(0, 5), 0);
}

#[test]
fn status_bar_text() {
    assert_eq!(status_text(Some("Resumed".to_string())), "Resumed");
    assert_eq!(
        status_text(None),
        "/ filter  s sort  r direction  k kill  space pause  ↑↓/jk navigate  q quit"
    );
}
