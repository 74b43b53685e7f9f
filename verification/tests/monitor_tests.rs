use sysmon::components::cpu::core_layout;
use sysmon::components::processes::{matrix_title, table_selection};
use sysmon::dashboard::{btop_core_layout, panel_selection, process_panel_title};
use sysmon::engine::grid::Rect;
use sysmon::filter::{ProcessFilter, ProcessRow};
use sysmon::monitor::{
    kill_message, kill_target, KeyInput, KeyPress, KillOutcome, MonitorState, MouseInput, UiAction,
};

fn key(code: KeyInput) -> KeyPress {
    KeyPress { code, ctrl: false }
}

fn flash(a: UiAction) -> String {
    match a {
        UiAction::Flash(m) => m,
        _ => panic!("expected a message"),
    }
}

fn row(pid: usize, cmd: &str) -> ProcessRow {
    ProcessRow {
        pid,
        user: "root".to_string(),
        cpu_order: 0,
        mem_order: 0,
        mem_mb: 0,
        state: 'R',
        cmd: cmd.to_string(),
    }
}

#[test]
fn quitting() {
    let mut s = MonitorState::new();
    assert!(matches!(s.handle_key(key(KeyInput::Char('q')), 5), UiAction::Quit));
    assert!(matches!(s.handle_key(key(KeyInput::Char('Q')), 5), UiAction::Quit));
    assert!(matches!(s.handle_key(KeyPress { code: KeyInput::Char('c'), ctrl: true }, 5), UiAction::Quit));
    assert!(matches!(s.handle_key(key(KeyInput::Char('c')), 5), UiAction::Continue));
}

#[test]
fn navigation_stays_on_the_table() {
    let mut s = MonitorState::new();
    s.handle_key(key(KeyInput::Down), 3);
    s.handle_key(key(KeyInput::Char('j')), 3);
    s.handle_key(key(KeyInput::Down), 3);
    assert_eq!(s.selected, 2);
    s.handle_key(key(KeyInput::Up), 3);
    assert_eq!(s.selected, 1);
    s.handle_key(key(KeyInput::Char('k')), 3);
    s.handle_key(key(KeyInput::Char('k')), 3);
    assert_eq!(s.selected, 0);
    s.handle_key(key(KeyInput::PageDown), 25);
    assert_eq!(s.selected, 10);
    s.handle_key(key(KeyInput::PageDown), 25);
    s.handle_key(key(KeyInput::PageDown), 25);
    assert_eq!(s.selected, 24);
    s.handle_key(key(KeyInput::PageUp), 25);
    assert_eq!(s.selected, 14);
    s.handle_key(key(KeyInput::Home), 25);
    assert_eq!(s.selected, 0);
    s.handle_key(key(KeyInput::End), 25);
    assert_eq!(s.selected, 24);
    s.handle_key(key(KeyInput::End), 0);
    assert_eq!(s.selected, 0);
}

#[test]
fn clamping_the_selection() {
    let mut s = MonitorState::new();
    s.selected = 9;
    s.clamp_selection(4);
    assert_eq!(s.selected, 3);
    s.clamp_selection(0);
    assert_eq!(s.selected, 3);
}

#[test]
fn pause_sort_and_direction_messages() {
    let mut s = MonitorState::new();
    assert_eq!(flash(s.handle_key(key(KeyInput::Char(' ')), 1)), "Paused (Frozen)");
    assert!(s.paused);
    assert_eq!(flash(s.handle_key(key(KeyInput::Char(' ')), 1)), "Resumed");
    assert!(!s.paused);
    assert_eq!(flash(s.handle_key(key(KeyInput::Char('s')), 1)), "Sort: MEM%");
    assert_eq!(flash(s.handle_key(key(KeyInput::Char('r')), 1)), "Asc");
    assert_eq!(flash(s.handle_key(key(KeyInput::Char('r')), 1)), "Desc");
    assert!(matches!(s.handle_key(key(KeyInput::Delete), 1), UiAction::Kill));
}

#[test]
fn typing_a_query() {
    let mut s = MonitorState::new();
    s.selected = 2;
    s.handle_key(key(KeyInput::Char('/')), 5);
    assert!(s.filter.is_active());
    // while searching, letters are typed instead of acting
    assert!(matches!(s.handle_key(key(KeyInput::Char('q')), 5), UiAction::Continue));
    s.handle_key(key(KeyInput::Char('s')), 5);
    s.handle_key(key(KeyInput::Char('x')), 5);
    s.handle_key(key(KeyInput::Backspace), 5);
    assert_eq!(s.filter.get_query(), "qs");
    s.handle_key(key(KeyInput::Enter), 5);
    assert!(!s.filter.is_active());
    assert_eq!(s.selected, 0);
    assert_eq!(s.filter.get_query(), "qs");
    s.selected = 3;
    s.handle_key(key(KeyInput::Esc), 5);
    assert_eq!(s.filter.get_query(), "");
    assert_eq!(s.selected, 0);
}

#[test]
fn mouse_scroll_and_click() {
    let mut s = MonitorState::new();
    let area = Rect::new(10, 5, 40, 20);
    s.handle_mouse(MouseInput::ScrollDown, visible(), area, 0);
    assert_eq!(s.selected, 1);
    s.handle_mouse(MouseInput::ScrollUp, visible(), area, 0);
    s.handle_mouse(MouseInput::ScrollUp, visible(), area, 0);
    assert_eq!(s.selected, 0);
    // row 5 is the border, 6 the header, 7 the first listed row
    let m = flash(s.handle_mouse(MouseInput::LeftClick { column: 12, row: 9 }, visible(), area, 3));
    assert_eq!(s.selected, 5);
    assert_eq!(m, "Selected Row #6");
    // clicks on the header, the border or past the list change nothing
    assert!(matches!(s.handle_mouse(MouseInput::LeftClick { column: 12, row: 6 }, visible(), area, 0), UiAction::Continue));
    assert!(matches!(s.handle_mouse(MouseInput::LeftClick { column: 50, row: 9 }, visible(), area, 0), UiAction::Continue));
    assert!(matches!(s.handle_mouse(MouseInput::LeftClick { column: 12, row: 24 }, visible(), area, 0), UiAction::Continue));
    assert!(matches!(s.handle_mouse(MouseInput::LeftClick { column: 12, row: 20 }, 8, area, 0), UiAction::Continue));
    assert_eq!(s.selected, 5);
}

fn visible() -> usize {
    30
}

#[test]
fn kill_target_and_messages() {
    let rows = vec![row(42, "sleep 100"), row(7, "top")];
    assert_eq!(kill_target(&rows, 1), Some(1));
    assert_eq!(kill_target(&rows, 2), None);
    assert_eq!(kill_target(&Vec::new(), 0), None);
    assert_eq!(kill_message(&rows[0], KillOutcome::Terminated), "Terminated PID 42 (sleep 100)");
    assert_eq!(kill_message(&rows[1], KillOutcome::Refused), "Failed to kill PID 7 (Permission denied)");
    assert_eq!(kill_message(&rows[1], KillOutcome::NotFound), "PID 7 not found");
}

#[test]
fn cores_grid_rows() {
    assert!(core_layout(0, 100, 10).is_empty());
    assert!(core_layout(4, 0, 10).is_empty());
    assert!(core_layout(4, 100, 0).is_empty());
    // 100 columns: 8 gauges per row
    assert_eq!(core_layout(20, 100, 10), vec![(0, 8), (8, 16), (16, 20)]);
    // the panel's height limits the rows
    assert_eq!(core_layout(20, 100, 2), vec![(0, 8), (8, 16)]);
    // narrow panels still get one gauge per row
    assert_eq!(core_layout(3, 5, 10), vec![(0, 1), (1, 2), (2, 3)]);
    assert_eq!(core_layout(5, 36, 10), vec![(0, 3), (3, 5)]);
    assert_eq!(btop_core_layout(20, 100, 10), vec![(0, 7), (7, 14), (14, 20)]);
    assert_eq!(btop_core_layout(20, 10, 3), vec![(0, 1), (1, 2), (2, 3)]);
    assert!(btop_core_layout(0, 10, 3).is_empty());
}

#[test]
fn process_titles_and_selection() {
    let mut f = ProcessFilter::new();
    assert_eq!(matrix_title(&f, 12), " Process Matrix (12 total, sort: CPU% ▼) ");
    assert_eq!(process_panel_title(&f, 12), " 4proc │ Process Matrix (12 total, sort: CPU%) ");
    f.push_char('s');
    f.push_char('h');
    f.toggle_sort_direction();
    assert_eq!(matrix_title(&f, 3), " Process Matrix [Filter: \"sh\"] (3 matches, sort: CPU% ▲) ");
    assert_eq!(process_panel_title(&f, 3), " 4proc │ Filter: \"sh\" (3 matches, sort: CPU%) ");
    f.toggle_active();
    assert_eq!(matrix_title(&f, 3), " Process Matrix [SEARCHING]: sh_ ");
    assert_eq!(process_panel_title(&f, 3), " 4proc │ filter: sh_ ");
    assert_eq!(table_selection(5, 0), None);
    assert_eq!(table_selection(5, 3), Some(2));
    assert_eq!(table_selection(1, 3), Some(1));
    assert_eq!(panel_selection(5, 0), None);
    assert_eq!(panel_selection(5, 3), Some(5));
}
