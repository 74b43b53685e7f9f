use vstd::prelude::*;

verus! {

/// A rectangle of terminal cells: top-left corner and size.
#[derive(Debug, Clone, Copy, PartialEq, Eq, Structural, Default)]
pub struct Rect {
    pub x: u16,
    pub y: u16,
    pub width: u16,
    pub height: u16,
}

/// The rectangle with the given corner and size, as a value.
pub open spec fn rect(x: int, y: int, width: int, height: int) -> Rect {
    Rect { x: x as u16, y: y as u16, width: width as u16, height: height as u16 }
}

/// The empty rectangle at the origin.
pub open spec fn empty_rect() -> Rect {
    Rect { x: 0, y: 0, width: 0, height: 0 }
}

impl Rect {
    pub fn new(x: u16, y: u16, width: u16, height: u16) -> (r: Self)
        ensures
            r == (Rect { x, y, width, height }),
    {
        Self { x, y, width, height }
    }

    /// The row just below the rectangle.
    pub open spec fn bottom(self) -> int {
        self.y + self.height
    }

    /// The column just right of the rectangle.
    pub open spec fn right(self) -> int {
        self.x + self.width
    }
}

/// Layout areas calculated for rendering dashboard components.
#[derive(Debug, Clone, Copy, PartialEq, Eq, Structural, Default)]
pub struct DashboardLayout {
    pub header: Rect,
    pub cpu_panel: Rect,
    pub mem_panel: Rect,
    pub net_panel: Rect,
    pub filter_bar: Rect,
    pub process_table: Rect,
    pub footer: Rect,
}

pub struct LayoutEngine;

/// A screen too small for the dashboard: narrower than 20 columns or lower than 6 rows.
pub open spec fn is_tiny(screen: Rect) -> bool {
    screen.width < 20 || screen.height < 6
}

/// Height of the CPU / memory / network strip: a third of the screen, at most 8 rows.
pub open spec fn metrics_height(screen: Rect) -> int {
    if screen.height / 3 < 8 {
        (screen.height / 3) as int
    } else {
        8
    }
}

/// Rows left below the metrics strip, above the footer.
pub open spec fn content_height(screen: Rect) -> int {
    let body = screen.height as int - 4;
    if body - metrics_height(screen) < 0 {
        0
    } else {
        body - metrics_height(screen)
    }
}

/// Height of the filter bar when it is shown: 3 rows, or what the content area has.
pub open spec fn filter_height(screen: Rect) -> int {
    if content_height(screen) < 3 {
        content_height(screen)
    } else {
        3
    }
}

/// The dashboard layout of `screen`: a 3-row header, then a strip of three
/// equal columns (the last one takes the remainder), then the optional
/// 3-row filter bar and the process table, and a 1-row footer at the bottom.
/// A tiny screen is given whole to the header and every other area is empty.
pub open spec fn dashboard_layout(screen: Rect, show_filter_bar: bool) -> DashboardLayout {
    if is_tiny(screen) {
        DashboardLayout {
            header: screen,
            cpu_panel: empty_rect(),
            mem_panel: empty_rect(),
            net_panel: empty_rect(),
            filter_bar: empty_rect(),
            process_table: empty_rect(),
            footer: empty_rect(),
        }
    } else {
        let x = screen.x as int;
        let y = screen.y as int;
        let w = screen.width as int;
        let mh = metrics_height(screen);
        let col = w / 3;
        let content_y = y + 3 + mh;
        let ch = content_height(screen);
        let fh = filter_height(screen);
        DashboardLayout {
            header: rect(x, y, w, 3),
            cpu_panel: rect(x, y + 3, col, mh),
            mem_panel: rect(x + col, y + 3, col, mh),
            net_panel: rect(x + 2 * col, y + 3, col + w % 3, mh),
            filter_bar: if show_filter_bar {
                rect(x, content_y, w, fh)
            } else {
                empty_rect()
            },
            process_table: if show_filter_bar {
                rect(x, content_y + fh, w, ch - fh)
            } else {
                rect(x, content_y, w, ch)
            },
            footer: rect(x, y + screen.height - 1, w, 1),
        }
    }
}

/// The screens on which the layout's coordinates fit in a `u16`.
pub open spec fn layout_fits(screen: Rect) -> bool {
    is_tiny(screen) || (screen.y + screen.height <= u16::MAX && screen.x + 2 * (screen.width
        / 3) <= u16::MAX)
}

impl LayoutEngine {
    /// Computes panel coordinates based on total available terminal bounds.
    pub fn compute(screen: Rect, show_filter_bar: bool) -> (l: DashboardLayout)
        requires
            layout_fits(screen),
        ensures
            l == dashboard_layout(screen, show_filter_bar),
    {
        // Fallback for extremely small terminal viewports
        if screen.width < 20 || screen.height < 6 {
            let zero = Rect::new(0, 0, 0, 0);
            return DashboardLayout {
                header: screen,
                cpu_panel: zero,
                mem_panel: zero,
                net_panel: zero,
                filter_bar: zero,
                process_table: zero,
                footer: zero,
            };
        }
        let header_height = 3u16;
        let footer_height = 1u16;
        let third = screen.height / 3;
        let metrics_height = if 8u16 < third {
            8u16
        } else {
            third
        };

        let header = Rect::new(screen.x, screen.y, screen.width, header_height);

        let body_y = screen.y + header_height;
        let body_height = screen.height - (header_height + footer_height);

        // Top metrics strip (CPU | Memory | Network)
        let metrics_y = body_y;
        let col_width = screen.width / 3;
        let rem_width = screen.width % 3;

        let cpu_panel = Rect::new(screen.x, metrics_y, col_width, metrics_height);
        let mem_panel = Rect::new(screen.x + col_width, metrics_y, col_width, metrics_height);
        let net_panel = Rect::new(
            screen.x + (col_width * 2),
            metrics_y,
            col_width + rem_width,
            metrics_height,
        );

        // Process list & filter bar
        let main_content_y = body_y + metrics_height;
        let main_content_height = if body_height >= metrics_height {
            body_height - metrics_height
        } else {
            0
        };

        let (filter_bar, process_table) = if show_filter_bar {
            let filter_h = if 3u16 < main_content_height {
                3u16
            } else {
                main_content_height
            };
            let proc_h = main_content_height - filter_h;
            let filter_rect = Rect::new(screen.x, main_content_y, screen.width, filter_h);
            let proc_rect = Rect::new(screen.x, main_content_y + filter_h, screen.width, proc_h);
            (filter_rect, proc_rect)
        } else {
            (
                Rect::new(0, 0, 0, 0),
                Rect::new(screen.x, main_content_y, screen.width, main_content_height),
            )
        };

        let footer = Rect::new(
            screen.x,
            screen.y + screen.height - footer_height,
            screen.width,
            footer_height,
        );

        DashboardLayout {
            header,
            cpu_panel,
            mem_panel,
            net_panel,
            filter_bar,
            process_table,
            footer,
        }
    }
}

/// The scroll window `(offset, end)` of a list: the first visible item and one
/// past the last, so that the selected item is the last visible row once it lies
/// below the first screenful.
pub open spec fn scroll_window(selected_index: int, total_items: int, visible_height: int) -> (int, int) {
    if total_items == 0 || visible_height == 0 {
        (0, 0)
    } else {
        let offset = if selected_index >= visible_height {
            selected_index - visible_height + 1
        } else {
            0
        };
        let end = if offset + visible_height < total_items {
            offset + visible_height
        } else {
            total_items
        };
        (offset, end)
    }
}

impl LayoutEngine {
    /// Calculates row scroll offsets for navigating the filtered process table.
    pub fn calculate_scroll(selected_index: usize, total_items: usize, visible_height: usize) -> (r: (
        usize,
        usize,
    ))
        requires
            total_items == 0 || visible_height == 0 || selected_index < visible_height
                || selected_index < usize::MAX,
        ensures
            r.0 == scroll_window(selected_index as int, total_items as int, visible_height as int).0,
            r.1 == scroll_window(selected_index as int, total_items as int, visible_height as int).1,
            // the selected item, when it exists, is inside the window
            total_items > 0 && visible_height > 0 && selected_index < total_items ==> r.0
                <= selected_index < r.1,
            // the window never shows more rows than fit, nor runs past the list
            r.1 - r.0 <= visible_height,
            r.1 <= total_items,
    {
        if total_items == 0 || visible_height == 0 {
            return (0, 0);
        }
        let scroll_offset = if selected_index >= visible_height {
            selected_index - visible_height + 1
        } else {
            0
        };
        let sum = scroll_offset + visible_height;
        let visible_end = if sum < total_items {
            sum
        } else {
            total_items
        };
        (scroll_offset, visible_end)
    }
}

/// On a screen big enough for the dashboard, the areas fill it without gaps or
/// overlaps: header, metrics strip, filter bar (when shown), process table and
/// footer stack down the full width, and the three metric panels split the
/// strip's width left to right.
pub proof fn lemma_layout_tiles_screen(screen: Rect, show_filter_bar: bool)
    requires
        layout_fits(screen),
        !is_tiny(screen),
    ensures
        ({
            let l = dashboard_layout(screen, show_filter_bar);
            &&& l.header.x == screen.x && l.header.y == screen.y && l.header.width == screen.width
            &&& l.cpu_panel.y == l.header.bottom() && l.mem_panel.y == l.cpu_panel.y
                && l.net_panel.y == l.cpu_panel.y
            &&& l.mem_panel.height == l.cpu_panel.height && l.net_panel.height
                == l.cpu_panel.height
            &&& l.cpu_panel.x == screen.x && l.mem_panel.x == l.cpu_panel.right() && l.net_panel.x
                == l.mem_panel.right() && l.net_panel.right() == screen.right()
            &&& show_filter_bar ==> l.filter_bar.x == screen.x && l.filter_bar.width
                == screen.width && l.filter_bar.y == l.cpu_panel.bottom() && l.process_table.y
                == l.filter_bar.bottom()
            &&& !show_filter_bar ==> l.process_table.y == l.cpu_panel.bottom()
            &&& l.process_table.x == screen.x && l.process_table.width == screen.width
            &&& l.process_table.bottom() == l.footer.y
            &&& l.footer.x == screen.x && l.footer.width == screen.width && l.footer.bottom()
                == screen.bottom()
        }),
{
}

/// Law: with the filter bar shown on a screen big enough for the dashboard,
/// the rows under the metrics strip (the screen's height less the 3-row header,
/// the 1-row footer and a strip of a third of the screen, at most 8 rows) go
/// first to a filter bar of 3 rows, or fewer when there are fewer, and the
/// rest to the process table; without the bar, the table takes them all.
pub proof fn lemma_filter_bar_height(screen: Rect)
    requires
        layout_fits(screen),
        !is_tiny(screen),
    ensures
        ({
            let strip = if screen.height / 3 < 8 {
                screen.height / 3
            } else {
                8
            };
            let rows = screen.height - 4 - strip;
            let with_bar = dashboard_layout(screen, true);
            let without = dashboard_layout(screen, false);
            &&& rows >= 0
            &&& with_bar.filter_bar.height == (if rows < 3 {
                rows
            } else {
                3
            })
            &&& with_bar.filter_bar.height <= 3
            &&& with_bar.process_table.height == rows - with_bar.filter_bar.height
            &&& without.filter_bar.height == 0
            &&& without.process_table.height == rows
        }),
{
}

} // verus!
