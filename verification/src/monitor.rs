//! The monitor's reaction to keys and mouse events: the selected row, the
//! pause switch, the process filter, and what to tell the user.
use crate::engine::grid::Rect;
use crate::filter::{
    initial_filter, next_sort_key, sort_label, FilterView, ProcessFilter, ProcessRow,
};
use crate::text::{decimal, push_decimal};
use vstd::prelude::*;

verus! {

/// A key, as far as the monitor tells keys apart.
#[derive(Clone, Copy, Debug, PartialEq, Eq, Structural)]
pub enum KeyInput {
    Char(char),
    Enter,
    Esc,
    Backspace,
    Delete,
    Down,
    Up,
    PageDown,
    PageUp,
    Home,
    End,
    Other,
}

/// A key press, with whether Control was held.
#[derive(Clone, Copy, Debug, PartialEq, Eq, Structural)]
pub struct KeyPress {
    pub code: KeyInput,
    pub ctrl: bool,
}

/// A mouse event, as far as the monitor tells them apart.
#[derive(Clone, Copy, Debug, PartialEq, Eq, Structural)]
pub enum MouseInput {
    ScrollDown,
    ScrollUp,
    LeftClick { column: u16, row: u16 },
    Other,
}

/// What the event loop does after an event.
pub enum UiAction {
    /// Keep going.
    Continue,
    /// Leave the monitor.
    Quit,
    /// Show a status message.
    Flash(String),
    /// Kill the selected process.
    Kill,
}

/// An action as a value.
pub enum ActionView {
    Continue,
    Quit,
    Flash(Seq<char>),
    Kill,
}

pub open spec fn action_view(a: UiAction) -> ActionView {
    match a {
        UiAction::Continue => ActionView::Continue,
        UiAction::Quit => ActionView::Quit,
        UiAction::Flash(m) => ActionView::Flash(m@),
        UiAction::Kill => ActionView::Kill,
    }
}

/// The monitor's interactive state as a value.
pub struct MonitorView {
    pub filter: FilterView,
    pub paused: bool,
    pub selected: nat,
}

/// The interactive state of the monitor.
pub struct MonitorState {
    pub filter: ProcessFilter,
    pub paused: bool,
    pub selected: usize,
}

impl View for MonitorState {
    type V = MonitorView;

    open spec fn view(&self) -> MonitorView {
        MonitorView { filter: self.filter@, paused: self.paused, selected: self.selected as nat }
    }
}

pub open spec fn sub_or_zero(a: nat, b: nat) -> nat {
    if a >= b {
        (a - b) as nat
    } else {
        0
    }
}

/// The step of the key `k` from state `s` with `visible` rows in the table:
/// the next state and the action.
///
/// While the search field is active, Enter confirms the query and Esc clears it
/// (both jump to the first row), Backspace deletes and characters are typed.
/// Otherwise: `q`, `Q` and Ctrl-`c` quit, `/` opens the search, Esc clears the
/// query, Space pauses or resumes, `s` cycles the sort column, `r` flips the
/// sort direction, Delete kills the selected process, and Down/`j`, Up/`k`,
/// PageDown, PageUp, Home and End move the selection within the table.
pub open spec fn key_step(s: MonitorView, k: KeyPress, visible: nat) -> (MonitorView, ActionView) {
    let f = s.filter;
    if f.active {
        match k.code {
            KeyInput::Enter => (
                MonitorView { filter: FilterView { active: !f.active, ..f }, selected: 0, ..s },
                ActionView::Continue,
            ),
            KeyInput::Esc => (
                MonitorView {
                    filter: FilterView { query: Seq::empty(), active: false, ..f },
                    selected: 0,
                    ..s
                },
                ActionView::Continue,
            ),
            KeyInput::Backspace => (
                MonitorView {
                    filter: FilterView {
                        query: if f.query.len() == 0 {
                            f.query
                        } else {
                            f.query.drop_last()
                        },
                        ..f
                    },
                    ..s
                },
                ActionView::Continue,
            ),
            KeyInput::Char(c) => (
                MonitorView { filter: FilterView { query: f.query.push(c), ..f }, ..s },
                ActionView::Continue,
            ),
            _ => (s, ActionView::Continue),
        }
    } else {
        match k.code {
            KeyInput::Char(c) => if c == 'q' || c == 'Q' || (c == 'c' && k.ctrl) {
                (s, ActionView::Quit)
            } else if c == '/' {
                (
                    MonitorView { filter: FilterView { active: !f.active, ..f }, ..s },
                    ActionView::Continue,
                )
            } else if c == ' ' {
                (
                    MonitorView { paused: !s.paused, ..s },
                    ActionView::Flash(
                        if !s.paused {
                            "Paused (Frozen)"@
                        } else {
                            "Resumed"@
                        },
                    ),
                )
            } else if c == 's' {
                (
                    MonitorView {
                        filter: FilterView { sort_key: next_sort_key(f.sort_key), ..f },
                        ..s
                    },
                    ActionView::Flash("Sort: "@ + sort_label(next_sort_key(f.sort_key))),
                )
            } else if c == 'r' {
                (
                    MonitorView { filter: FilterView { sort_desc: !f.sort_desc, ..f }, ..s },
                    ActionView::Flash(
                        if !f.sort_desc {
                            "Desc"@
                        } else {
                            "Asc"@
                        },
                    ),
                )
            } else if c == 'j' {
                (move_down(s, visible), ActionView::Continue)
            } else if c == 'k' {
                (MonitorView { selected: sub_or_zero(s.selected, 1), ..s }, ActionView::Continue)
            } else {
                (s, ActionView::Continue)
            },
            KeyInput::Esc => (
                MonitorView {
                    filter: FilterView { query: Seq::empty(), active: false, ..f },
                    selected: 0,
                    ..s
                },
                ActionView::Continue,
            ),
            KeyInput::Delete => (s, ActionView::Kill),
            KeyInput::Down => (move_down(s, visible), ActionView::Continue),
            KeyInput::Up => (
                MonitorView { selected: sub_or_zero(s.selected, 1), ..s },
                ActionView::Continue,
            ),
            KeyInput::PageDown => (
                MonitorView {
                    selected: if s.selected + 10 < sub_or_zero(visible, 1) {
                        s.selected + 10
                    } else {
                        sub_or_zero(visible, 1)
                    },
                    ..s
                },
                ActionView::Continue,
            ),
            KeyInput::PageUp => (
                MonitorView { selected: sub_or_zero(s.selected, 10), ..s },
                ActionView::Continue,
            ),
            KeyInput::Home => (MonitorView { selected: 0, ..s }, ActionView::Continue),
            KeyInput::End => (
                MonitorView { selected: sub_or_zero(visible, 1), ..s },
                ActionView::Continue,
            ),
            _ => (s, ActionView::Continue),
        }
    }
}

/// One row down, unless the selection is on the last row.
pub open spec fn move_down(s: MonitorView, visible: nat) -> MonitorView {
    if s.selected + 1 < visible {
        MonitorView { selected: s.selected + 1, ..s }
    } else {
        s
    }
}

/// Whether handling the key keeps the selection index in range: moving down
/// needs room for one more row, paging down for ten more.
pub open spec fn key_fits(s: MonitorView, k: KeyPress) -> bool {
    !s.filter.active ==> match k.code {
        KeyInput::Down => s.selected < usize::MAX,
        KeyInput::Char(c) => c == 'j' ==> s.selected < usize::MAX,
        KeyInput::PageDown => s.selected + 10 <= usize::MAX,
        _ => true,
    }
}

/// Where a left click lands on the table: the row under the pointer counted
/// from the first visible row (below the border and the header), when the
/// pointer is inside the table's body.
pub open spec fn clicked_row(area: Rect, column: u16, row: u16) -> Option<nat> {
    if column >= area.x && column < area.x + area.width && row > area.y + 1 && row < area.y
        + area.height - 1 {
        Some((row - area.y - 2) as nat)
    } else {
        None
    }
}

/// The step of a mouse event: scrolling moves the selection by one row; a left
/// click on a listed row selects it and reports which.
pub open spec fn mouse_step(
    s: MonitorView,
    m: MouseInput,
    visible: nat,
    area: Rect,
    offset: nat,
) -> (MonitorView, ActionView) {
    match m {
        MouseInput::ScrollDown => (move_down(s, visible), ActionView::Continue),
        MouseInput::ScrollUp => (
            MonitorView { selected: sub_or_zero(s.selected, 1), ..s },
            ActionView::Continue,
        ),
        MouseInput::LeftClick { column, row } => match clicked_row(area, column, row) {
            Some(r) => if offset + r < visible {
                (
                    MonitorView { selected: offset + r, ..s },
                    ActionView::Flash("Selected Row #"@ + decimal(offset + r + 1)),
                )
            } else {
                (s, ActionView::Continue)
            },
            None => (s, ActionView::Continue),
        },
        MouseInput::Other => (s, ActionView::Continue),
    }
}

/// The mouse events whose handling stays within the integer types: the
/// selection can move down, and the click test's sums fit.
pub open spec fn mouse_fits(s: MonitorView, m: MouseInput, area: Rect, offset: nat) -> bool {
    match m {
        MouseInput::ScrollDown => s.selected < usize::MAX,
        MouseInput::LeftClick { column, row } => {
            &&& column >= area.x ==> area.x + area.width <= u16::MAX
            &&& (column >= area.x && column < area.x + area.width) ==> area.y + 1 <= u16::MAX
            &&& (column >= area.x && column < area.x + area.width && row > area.y + 1) ==> (
            area.y + area.height <= u16::MAX && area.y + area.height >= 1)
            &&& clicked_row(area, column, row) matches Some(r) ==> offset + r <= usize::MAX
        },
        _ => true,
    }
}

impl MonitorState {
    pub fn new() -> (s: Self)
        ensures
            s@ == (MonitorView { filter: initial_filter(), paused: false, selected: 0 }),
    {
        MonitorState { filter: ProcessFilter::new(), paused: false, selected: 0 }
    }

    /// Keeps the selection on the table once it has rows.
    pub fn clamp_selection(&mut self, visible: usize)
        ensures
            final(self)@ == (if old(self).selected >= visible && visible > 0 {
                MonitorView { selected: (visible - 1) as nat, ..old(self)@ }
            } else {
                old(self)@
            }),
    {
        if self.selected >= visible && visible > 0 {
            self.selected = visible - 1;
        }
    }

    /// Reacts to a key press with `visible` rows in the table.
    pub fn handle_key(&mut self, key: KeyPress, visible: usize) -> (a: UiAction)
        requires
            key_fits(old(self)@, key),
        ensures
            (final(self)@, action_view(a)) == key_step(old(self)@, key, visible as nat),
    {
        if self.filter.is_active() {
            match key.code {
                KeyInput::Enter => {
                    self.filter.toggle_active();
                    self.selected = 0;
                },
                KeyInput::Esc => {
                    self.filter.clear();
                    self.selected = 0;
                },
                KeyInput::Backspace => self.filter.pop_char(),
                KeyInput::Char(c) => self.filter.push_char(c),
                _ => {},
            }
            return UiAction::Continue;
        }
        match key.code {
            KeyInput::Char(c) => {
                if c == 'q' || c == 'Q' || (c == 'c' && key.ctrl) {
                    UiAction::Quit
                } else if c == '/' {
                    self.filter.toggle_active();
                    UiAction::Continue
                } else if c == ' ' {
                    self.paused = !self.paused;
                    let mut m = String::new();
                    if self.paused {
                        m.append("Paused (Frozen)");
                    } else {
                        m.append("Resumed");
                    }
                    UiAction::Flash(m)
                } else if c == 's' {
                    self.filter.cycle_sort();
                    let mut m = String::new();
                    m.append("Sort: ");
                    m.append(self.filter.sort_key().label());
                    UiAction::Flash(m)
                } else if c == 'r' {
                    self.filter.toggle_sort_direction();
                    let mut m = String::new();
                    if self.filter.sort_desc() {
                        m.append("Desc");
                    } else {
                        m.append("Asc");
                    }
                    UiAction::Flash(m)
                } else if c == 'j' {
                    if self.selected + 1 < visible {
                        self.selected = self.selected + 1;
                    }
                    UiAction::Continue
                } else if c == 'k' {
                    self.selected = self.selected.saturating_sub(1);
                    UiAction::Continue
                } else {
                    UiAction::Continue
                }
            },
            KeyInput::Esc => {
                self.filter.clear();
                self.selected = 0;
                UiAction::Continue
            },
            KeyInput::Delete => UiAction::Kill,
            KeyInput::Down => {
                if self.selected + 1 < visible {
                    self.selected = self.selected + 1;
                }
                UiAction::Continue
            },
            KeyInput::Up => {
                self.selected = self.selected.saturating_sub(1);
                UiAction::Continue
            },
            KeyInput::PageDown => {
                let down = self.selected + 10;
                let last = visible.saturating_sub(1);
                self.selected = if down < last {
                    down
                } else {
                    last
                };
                UiAction::Continue
            },
            KeyInput::PageUp => {
                self.selected = self.selected.saturating_sub(10);
                UiAction::Continue
            },
            KeyInput::Home => {
                self.selected = 0;
                UiAction::Continue
            },
            KeyInput::End => {
                self.selected = visible.saturating_sub(1);
                UiAction::Continue
            },
            _ => UiAction::Continue,
        }
    }

    /// Reacts to a mouse event with `visible` rows in the table, which lies in
    /// `area` and is scrolled by `offset` rows.
    pub fn handle_mouse(&mut self, event: MouseInput, visible: usize, area: Rect, offset: usize) -> (a:
        UiAction)
        requires
            mouse_fits(old(self)@, event, area, offset as nat),
        ensures
            (final(self)@, action_view(a)) == mouse_step(
                old(self)@,
                event,
                visible as nat,
                area,
                offset as nat,
            ),
    {
        match event {
            MouseInput::ScrollDown => {
                if self.selected + 1 < visible {
                    self.selected = self.selected + 1;
                }
                UiAction::Continue
            },
            MouseInput::ScrollUp => {
                self.selected = self.selected.saturating_sub(1);
                UiAction::Continue
            },
            MouseInput::LeftClick { column, row } => {
                if column >= area.x && column < area.x + area.width && row > area.y + 1 && row
                    < area.y + area.height - 1 {
                    let clicked = (row - area.y - 2) as usize;
                    let target = offset + clicked;
                    if target < visible {
                        self.selected = target;
                        let mut m = String::new();
                        m.append("Selected Row #");
                        push_decimal(&mut m, (target + 1) as u64);
                        return UiAction::Flash(m);
                    }
                }
                UiAction::Continue
            },
            MouseInput::Other => UiAction::Continue,
        }
    }
}

/// Law: the selection never leaves the table: keys and mouse events move a
/// selection that is on the table (row 0 of an empty one) to a row that is too.
pub proof fn lemma_selection_stays_on_table(
    s: MonitorView,
    k: KeyPress,
    m: MouseInput,
    visible: nat,
    area: Rect,
    offset: nat,
)
    requires
        s.selected < visible || (visible == 0 && s.selected == 0),
    ensures
        key_step(s, k, visible).0.selected < visible || (visible == 0 && key_step(
            s,
            k,
            visible,
        ).0.selected == 0),
        mouse_step(s, m, visible, area, offset).0.selected < visible || (visible == 0
            && mouse_step(s, m, visible, area, offset).0.selected == 0),
{
}

/// Law: pausing is a switch: Space twice leaves the state as it was.
pub proof fn lemma_space_toggles_pause(s: MonitorView, visible: nat)
    requires
        !s.filter.active,
    ensures
        ({
            let space = KeyPress { code: KeyInput::Char(' '), ctrl: false };
            let once = key_step(s, space, visible).0;
            &&& once.paused == !s.paused
            &&& key_step(once, space, visible).0 == s
        }),
{
}

/// Law: Esc always leaves an empty query, ends the search and selects the
/// first row, whether or not the search field was being edited.
pub proof fn lemma_escape_clears_search(s: MonitorView, ctrl: bool, visible: nat)
    ensures
        ({
            let next = key_step(s, KeyPress { code: KeyInput::Esc, ctrl }, visible);
            &&& next.0.filter.query.len() == 0
            &&& !next.0.filter.active
            &&& next.0.selected == 0
            &&& next.0.paused == s.paused
            &&& next.0.filter.sort_key == s.filter.sort_key
            &&& next.0.filter.sort_desc == s.filter.sort_desc
            &&& next.1 == ActionView::Continue
        }),
{
}

/// Law: a left click changes nothing unless it lands inside the table's body:
/// within its columns, below its border and header row, and above its bottom
/// border. A click there on a listed row selects the row the pointer is on,
/// counted from the first visible row.
pub proof fn lemma_click_only_inside_table(
    s: MonitorView,
    column: u16,
    row: u16,
    visible: nat,
    area: Rect,
    offset: nat,
)
    ensures
        ({
            let next = mouse_step(s, MouseInput::LeftClick { column, row }, visible, area, offset);
            &&& (column < area.x || column >= area.x + area.width || row < area.y + 2 || row + 1
                >= area.y + area.height) ==> next == (s, ActionView::Continue)
            &&& next.0.selected != s.selected ==> area.x <= column < area.x + area.width
                && area.y + 2 <= row && row + 1 < area.y + area.height && next.0.selected
                == offset + (row - area.y - 2) && next.0.selected < visible
        }),
{
}

/// What came of an attempt to kill a process.
#[derive(Clone, Copy, Debug, PartialEq, Eq, Structural)]
pub enum KillOutcome {
    Terminated,
    Refused,
    NotFound,
}

/// The row to kill: the selected one, when the table has it.
pub fn kill_target(rows: &Vec<ProcessRow>, selected: usize) -> (r: Option<usize>)
    ensures
        selected < rows@.len() ==> r == Some(selected),
        selected >= rows@.len() ==> r is None,
{
    if rows.len() == 0 || selected >= rows.len() {
        None
    } else {
        Some(selected)
    }
}

/// The status message after a kill attempt.
pub open spec fn kill_message_text(pid: nat, cmd: Seq<char>, outcome: KillOutcome) -> Seq<char> {
    match outcome {
        KillOutcome::Terminated => "Terminated PID "@ + decimal(pid) + " ("@ + cmd + ")"@,
        KillOutcome::Refused => "Failed to kill PID "@ + decimal(pid) + " (Permission denied)"@,
        KillOutcome::NotFound => "PID "@ + decimal(pid) + " not found"@,
    }
}

pub fn kill_message(row: &ProcessRow, outcome: KillOutcome) -> (s: String)
    ensures
        s@ == kill_message_text(row.pid as nat, row.cmd@, outcome),
{
    let mut s = String::new();
    match outcome {
        KillOutcome::Terminated => {
            s.append("Terminated PID ");
            push_decimal(&mut s, row.pid as u64);
            s.append(" (");
            s.append(row.cmd.as_str());
            s.append(")");
        },
        KillOutcome::Refused => {
            s.append("Failed to kill PID ");
            push_decimal(&mut s, row.pid as u64);
            s.append(" (Permission denied)");
        },
        KillOutcome::NotFound => {
            s.append("PID ");
            push_decimal(&mut s, row.pid as u64);
            s.append(" not found");
        },
    }
    s
}

} // verus!
