use sysmon::engine::grid::Rect;
use sysmon::engine::panels::{
    bordered_inner, cpu_overview, cpu_panel, disk_panel, screen_areas, stacked_panel, Size,
};

#[test]
fn inside_of_a_bordered_box() {
    assert_eq!(bordered_inner(Rect::new(0, 0, 10, 5)), Rect::new(1, 1, 8, 3));
    assert_eq!(bordered_inner(Rect::new(4, 7, 2, 2)), Rect::new(5, 8, 0, 0));
    assert_eq!(bordered_inner(Rect::new(4, 7, 1, 0)), Rect::new(5, 7, 0, 0));
    assert_eq!(bordered_inner(Rect::new(0, 0, 0, 0)), Rect::new(0, 0, 0, 0));
}

#[test]
fn screen_is_split_into_panels() {
    let a = screen_areas(Rect::new(0, 0, 100, 40));
    assert_eq!(a.cpu, Rect::new(0, 0, 100, 12));
    assert_eq!(a.status, Rect::new(0, 39, 100, 1));
    assert_eq!(a.mem, Rect::new(0, 12, 35, 6));
    assert_eq!(a.disk, Rect::new(0, 18, 35, 9));
    assert_eq!(a.net, Rect::new(0, 27, 35, 12));
    assert_eq!(a.processes, Rect::new(35, 12, 65, 27));
}

#[test]
fn stacked_panels_share_the_inside() {
    let p = stacked_panel(Rect::new(0, 0, 20, 10), Size::Ratio(1, 2), Size::Ratio(1, 2));
    assert_eq!(p.inner, Rect::new(1, 1, 18, 8));
    assert_eq!(p.first, Rect::new(1, 1, 18, 4));
    assert_eq!(p.second, Rect::new(1, 5, 18, 4));
    let m = stacked_panel(Rect::new(0, 0, 20, 4), Size::Length(1), Size::Length(1));
    assert_eq!(m.first, Rect::new(1, 1, 18, 1));
    assert_eq!(m.second, Rect::new(1, 2, 18, 1));
}

#[test]
fn compact_cpu_panel() {
    let p = cpu_panel(Rect::new(0, 0, 100, 12), 4);
    assert_eq!(p.load_box, Rect::new(0, 0, 50, 12));
    assert_eq!(p.load_inner, Rect::new(1, 1, 48, 10));
    assert_eq!(p.waves, Some((Rect::new(1, 1, 48, 5), Rect::new(1, 6, 48, 5))));
    assert_eq!(p.cores_box, Rect::new(50, 0, 50, 12));
    assert_eq!(p.cores_inner, Rect::new(51, 1, 48, 10));
    let idx: Vec<usize> = p.cells.iter().map(|c| c.0).collect();
    assert_eq!(idx, vec![0, 1, 2, 3]);
    let xs: Vec<u16> = p.cells.iter().map(|c| c.1.x).collect();
    assert_eq!(xs, vec![51, 63, 75, 87]);
    assert!(p.cells.iter().all(|c| c.1.width == 12 && c.1.y == 1));
    // a flat panel has no room for the graphs
    assert_eq!(cpu_panel(Rect::new(0, 0, 100, 3), 4).waves, None);
    assert!(cpu_panel(Rect::new(0, 0, 100, 12), 0).cells.is_empty());
}

#[test]
fn dashboard_cpu_panel() {
    let p = cpu_overview(Rect::new(0, 0, 100, 12), 9);
    assert_eq!(p.load_box, Rect::new(0, 0, 48, 12));
    assert!(p.show_graph);
    assert_eq!(p.cores_box, Rect::new(48, 0, 52, 12));
    assert_eq!(p.cores_inner, Rect::new(49, 1, 50, 10));
    // 50 columns hold 3 gauges per row: rows of 3, 3 and 3 cores
    let idx: Vec<usize> = p.cells.iter().map(|c| c.0).collect();
    assert_eq!(idx, (0..9).collect::<Vec<usize>>());
    let ys: Vec<u16> = p.cells.iter().map(|c| c.1.y).collect();
    assert_eq!(&ys[0..3], &[1, 1, 1]);
    assert_eq!(&ys[3..6], &[2, 2, 2]);
    assert!(!cpu_overview(Rect::new(0, 0, 100, 2), 9).show_graph);
}

#[test]
fn disk_panel_rows() {
    let p = disk_panel(Rect::new(0, 0, 35, 9), 10);
    assert_eq!(p.inner, Rect::new(1, 1, 33, 7));
    assert_eq!(p.read_graph.y, 1);
    assert_eq!(p.read_graph.height, 2);
    assert_eq!(p.write_graph.y, 1);
    assert_eq!(p.read_graph.width + p.write_graph.width, 33);
    assert_eq!(p.disk_rows.len(), 5);
    assert_eq!(p.disk_rows[0], Rect::new(1, 3, 33, 1));
    assert!(disk_panel(Rect::new(0, 0, 35, 9), 0).disk_rows.is_empty());
    assert_eq!(disk_panel(Rect::new(0, 0, 35, 9), 2).disk_rows.len(), 2);
}
