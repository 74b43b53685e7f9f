use sysmon::engine::grid::{DashboardLayout, LayoutEngine, Rect};

#[test]
fn rect_new_sets_fields() {
    let r = Rect::new(1, 2, 3, 4);
    assert_eq!(r, Rect { x: 1, y: 2, width: 3, height: 4 });
    assert_eq!(Rect::default(), Rect::new(0, 0, 0, 0));
}

#[test]
fn tiny_screen_goes_to_the_header() {
    let screen = Rect::new(0, 0, 19, 40);
    let l = LayoutEngine::compute(screen, true);
    assert_eq!(l.header, screen);
    assert_eq!(l.cpu_panel, Rect::default());
    assert_eq!(l.process_table, Rect::default());
    assert_eq!(l.footer, Rect::default());
    let short = Rect::new(2, 3, 80, 5);
    assert_eq!(LayoutEngine::compute(short, false).header, short);
}

#[test]
fn standard_layout_without_filter_bar() {
    let l: DashboardLayout = LayoutEngine::compute(Rect::new(0, 0, 100, 40), false);
    assert_eq!(l.header, Rect::new(0, 0, 100, 3));
    assert_eq!(l.cpu_panel, Rect::new(0, 3, 33, 8));
    assert_eq!(l.mem_panel, Rect::new(33, 3, 33, 8));
    assert_eq!(l.net_panel, Rect::new(66, 3, 34, 8));
    assert_eq!(l.filter_bar, Rect::default());
    assert_eq!(l.process_table, Rect::new(0, 11, 100, 28));
    assert_eq!(l.footer, Rect::new(0, 39, 100, 1));
}

#[test]
fn standard_layout_with_filter_bar() {
    let l = LayoutEngine::compute(Rect::new(5, 2, 81, 12), true);
    // metrics strip is a third of the height
    assert_eq!(l.cpu_panel, Rect::new(5, 5, 27, 4));
    assert_eq!(l.net_panel, Rect::new(59, 5, 27, 4));
    assert_eq!(l.filter_bar, Rect::new(5, 9, 81, 3));
    assert_eq!(l.process_table, Rect::new(5, 12, 81, 1));
    assert_eq!(l.footer, Rect::new(5, 13, 81, 1));
}

#[test]
fn layout_tiles_the_screen() {
    for h in 6..60u16 {
        for w in [20u16, 21, 22, 50, 101] {
            for show in [false, true] {
                let s = Rect::new(3, 4, w, h);
                let l = LayoutEngine::compute(s, show);
                assert_eq!(l.header.y, s.y);
                assert_eq!(l.cpu_panel.y, l.header.y + l.header.height);
                assert_eq!(l.cpu_panel.width + l.mem_panel.width + l.net_panel.width, w);
                assert_eq!(l.net_panel.x + l.net_panel.width, s.x + w);
                let top = if show { l.filter_bar.y + l.filter_bar.height } else { l.cpu_panel.y + l.cpu_panel.height };
                assert_eq!(l.process_table.y, top);
                assert_eq!(l.process_table.y + l.process_table.height, l.footer.y);
                assert_eq!(l.footer.y + 1, s.y + h);
            }
        }
    }
}

#[test]
fn smallest_screen_has_empty_content() {
    let l = LayoutEngine::compute(Rect::new(0, 0, 20, 6), true);
    assert_eq!(l.cpu_panel.height, 2);
    assert_eq!(l.filter_bar.height, 0);
    assert_eq!(l.process_table.height, 0);
    assert_eq!(l.footer, Rect::new(0, 5, 20, 1));
}

#[test]
fn scroll_window_follows_selection() {
    assert_eq!(LayoutEngine::calculate_scroll(0, 0, 10), (0, 0));
    assert_eq!(LayoutEngine::calculate_scroll(3, 10, 0), (0, 0));
    assert_eq!(LayoutEngine::calculate_scroll(3, 100, 10), (0, 10));
    assert_eq!(LayoutEngine::calculate_scroll(10, 100, 10), (1, 11));
    assert_eq!(LayoutEngine::calculate_scroll(99, 100, 10), (90, 100));
    assert_eq!(LayoutEngine::calculate_scroll(2, 5, 10), (0, 5));
    for sel in 0..50usize {
        let (off, end) = LayoutEngine::calculate_scroll(sel, 50, 7);
        assert!(off <= sel && sel < end && end - off <= 7);
    }
}
