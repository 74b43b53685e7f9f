use sysmon::filter::{state_char, ProcessFilter, ProcessRow, ProcessSample, ProcessState, SortKey};

fn sample(pid: u32, user: Option<&str>, name: &str, cmd: &[&str], cpu: u32, mem: u32) -> ProcessSample {
    ProcessSample {
        pid,
        user: user.map(|u| u.to_string()),
        name: name.to_string(),
        cmd: cmd.iter().map(|s| s.to_string()).collect(),
        status: ProcessState::Sleep,
        memory: (pid as u64) * 1024 * 1024,
        cpu_order: cpu,
        mem_order: mem,
    }
}

fn pids(rows: &[ProcessRow]) -> Vec<usize> {
    rows.iter().map(|r| r.pid).collect()
}

fn snapshot() -> Vec<ProcessSample> {
    vec![
        sample(10, Some("root"), "init", &[], 5, 50),
        sample(22, Some("alice"), "firefox", &["/usr/bin/firefox", "--new-tab"], 40, 300),
        sample(31, None, "Xorg", &["/usr/lib/Xorg", ":0"], 12, 120),
        sample(47, Some("bob"), "bash", &["bash"], 40, 7),
        sample(5, Some("alice"), "kworker", &[], 0, 0),
    ]
}

#[test]
fn sort_labels() {
    assert_eq!(SortKey::Cpu.label(), "CPU%");
    assert_eq!(SortKey::Mem.label(), "MEM%");
    assert_eq!(SortKey::Pid.label(), "PID");
    assert_eq!(SortKey::Name.label(), "NAME");
    assert_eq!(SortKey::default(), SortKey::Cpu);
}

#[test]
fn new_filter_defaults() {
    let f = ProcessFilter::new();
    assert!(!f.is_active());
    assert!(!f.has_query());
    assert_eq!(f.get_query(), "");
    assert_eq!(f.sort_key(), SortKey::Cpu);
    assert!(f.sort_desc());
    let d = ProcessFilter::default();
    assert_eq!(d.sort_key(), SortKey::Cpu);
}

#[test]
fn editing_the_query() {
    let mut f = ProcessFilter::new();
    f.toggle_active();
    assert!(f.is_active());
    f.push_char('f');
    f.push_char('i');
    assert_eq!(f.get_query(), "fi");
    assert!(f.has_query());
    f.push_char('x');
    f.pop_char();
    assert_eq!(f.get_query(), "fi");
    f.pop_char();
    f.pop_char();
    f.pop_char();
    assert_eq!(f.get_query(), "");
    f.push_char('z');
    f.clear();
    assert_eq!(f.get_query(), "");
    assert!(!f.is_active());
    f.toggle_active();
    f.toggle_active();
    assert!(!f.is_active());
}

#[test]
fn cycling_sort_keys() {
    let mut f = ProcessFilter::new();
    f.cycle_sort();
    assert_eq!(f.sort_key(), SortKey::Mem);
    f.cycle_sort();
    assert_eq!(f.sort_key(), SortKey::Pid);
    f.cycle_sort();
    assert_eq!(f.sort_key(), SortKey::Name);
    f.cycle_sort();
    assert_eq!(f.sort_key(), SortKey::Cpu);
    f.toggle_sort_direction();
    assert!(!f.sort_desc());
    f.toggle_sort_direction();
    assert!(f.sort_desc());
}

#[test]
fn rows_are_built_from_samples() {
    let mut f = ProcessFilter::new();
    f.cycle_sort();
    f.cycle_sort(); // by pid
    f.toggle_sort_direction(); // ascending
    let rows = f.apply(&snapshot());
    assert_eq!(pids(&rows), vec![5, 10, 22, 31, 47]);
    assert_eq!(rows[0].cmd, "kworker");
    assert_eq!(rows[2].cmd, "/usr/bin/firefox --new-tab");
    assert_eq!(rows[3].user, "unknown");
    assert_eq!(rows[3].state, 'S');
    assert_eq!(rows[3].mem_mb, 31);
    assert_eq!(rows[4].cmd, "bash");
}

#[test]
fn cpu_descending_is_stable() {
    let f = ProcessFilter::new();
    let rows = f.apply(&snapshot());
    // 22 and 47 tie at the top and keep their snapshot order
    assert_eq!(pids(&rows), vec![22, 47, 31, 10, 5]);
}

#[test]
fn cpu_ascending_is_stable() {
    let mut f = ProcessFilter::new();
    f.toggle_sort_direction();
    let rows = f.apply(&snapshot());
    assert_eq!(pids(&rows), vec![5, 10, 31, 22, 47]);
}

#[test]
fn memory_order() {
    let mut f = ProcessFilter::new();
    f.cycle_sort();
    let rows = f.apply(&snapshot());
    assert_eq!(pids(&rows), vec![22, 31, 10, 47, 5]);
}

#[test]
fn name_order_ignores_case() {
    let mut f = ProcessFilter::new();
    f.cycle_sort();
    f.cycle_sort();
    f.cycle_sort();
    f.toggle_sort_direction();
    let rows = f.apply(&snapshot());
    // "/usr/bin/firefox ..." < "/usr/lib/xorg ..." < "bash" < "init" < "kworker"
    assert_eq!(pids(&rows), vec![22, 31, 47, 10, 5]);
}

#[test]
fn query_matches_command_user_or_pid_ignoring_case() {
    let mut f = ProcessFilter::new();
    for c in "XOR".chars() {
        f.push_char(c);
    }
    assert_eq!(pids(&f.apply(&snapshot())), vec![31]);
    f.clear();
    for c in "Alice".chars() {
        f.push_char(c);
    }
    assert_eq!(pids(&f.apply(&snapshot())), vec![22, 5]);
    f.clear();
    f.push_char('4');
    f.push_char('7');
    assert_eq!(pids(&f.apply(&snapshot())), vec![47]);
    f.clear();
    f.push_char('q');
    assert!(f.apply(&snapshot()).is_empty());
}

#[test]
fn empty_snapshot_gives_empty_table() {
    let f = ProcessFilter::new();
    assert!(f.apply(&Vec::new()).is_empty());
}

#[test]
fn process_states_have_letters() {
    assert_eq!(state_char(ProcessState::Run), 'R');
    assert_eq!(state_char(ProcessState::Sleep), 'S');
    assert_eq!(state_char(ProcessState::Idle), 'I');
    assert_eq!(state_char(ProcessState::Zombie), 'Z');
    assert_eq!(state_char(ProcessState::Stop), 'T');
    assert_eq!(state_char(ProcessState::Other), '?');
}
