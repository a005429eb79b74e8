//! Clickable regions of the last frame and the translation of mouse events into actions.
use vstd::prelude::*;

use super::state::{PanelId, Workspace};
use crate::input::action::Action;
use crate::input::keymap::KeyModifiers;

verus! {

/// A screen rectangle in terminal cells.
#[derive(Clone, Copy, Debug, Default, PartialEq, Eq, Hash, Structural)]
pub struct Rect {
    pub x: u16,
    pub y: u16,
    pub width: u16,
    pub height: u16,
}

pub open spec fn sat_add(a: u16, b: u16) -> int {
    if a + b > u16::MAX { u16::MAX as int } else { a + b }
}

/// Whether the cell at `column`, `row` lies inside `r`; the right and bottom edges
/// saturate at the edge of the coordinate space.
pub open spec fn rect_contains(r: Rect, column: u16, row: u16) -> bool {
    &&& r.x <= column
    &&& column < sat_add(r.x, r.width)
    &&& r.y <= row
    &&& row < sat_add(r.y, r.height)
}

impl Rect {
    /// A rectangle at `x`, `y`, its size cut so that it stays within the coordinate space.
    pub fn new(x: u16, y: u16, width: u16, height: u16) -> (r: Self)
        ensures
            r.x == x,
            r.y == y,
            r.width == (if width > u16::MAX - x { (u16::MAX - x) as u16 } else { width }),
            r.height == (if height > u16::MAX - y { (u16::MAX - y) as u16 } else { height }),
    {
        let max_width = u16::MAX - x;
        let max_height = u16::MAX - y;
        Rect {
            x,
            y,
            width: if width > max_width { max_width } else { width },
            height: if height > max_height { max_height } else { height },
        }
    }

    pub fn right(&self) -> (r: u16)
        ensures
            r == sat_add(self.x, self.width),
    {
        self.x.saturating_add(self.width)
    }

    pub fn bottom(&self) -> (r: u16)
        ensures
            r == sat_add(self.y, self.height),
    {
        self.y.saturating_add(self.height)
    }

    pub fn contains(&self, column: u16, row: u16) -> (r: bool)
        ensures
            r == rect_contains(*self, column, row),
    {
        column >= self.x && column < self.right() && row >= self.y && row < self.bottom()
    }
}

#[derive(Clone, Copy, Debug, PartialEq, Eq, Structural)]
pub enum HitTarget {
    Tab(Workspace),
    Panel(PanelId),
    Row(PanelId, usize),
    Button(Action),
    Blocker,
}

/// Clickable regions of the last frame; later entries are on top.
#[derive(Clone, Debug, Default)]
pub struct HitMap {
    entries: Vec<(Rect, HitTarget)>,
}

impl View for HitMap {
    type V = Seq<(Rect, HitTarget)>;

    closed spec fn view(&self) -> Seq<(Rect, HitTarget)> {
        self.entries@
    }
}

/// The target of the topmost entry covering the cell.
pub open spec fn hit_at(entries: Seq<(Rect, HitTarget)>, column: u16, row: u16) -> Option<HitTarget>
    decreases entries.len(),
{
    if entries.len() == 0 {
        None
    } else if rect_contains(entries.last().0, column, row) {
        Some(entries.last().1)
    } else {
        hit_at(entries.drop_last(), column, row)
    }
}

/// The panel under the cell: the topmost panel or row covering it, unless a blocker
/// covering it lies above; tabs and buttons are passed over.
pub open spec fn panel_hit_at(entries: Seq<(Rect, HitTarget)>, column: u16, row: u16) -> Option<PanelId>
    decreases entries.len(),
{
    if entries.len() == 0 {
        None
    } else if rect_contains(entries.last().0, column, row) {
        match entries.last().1 {
            HitTarget::Panel(p) => Some(p),
            HitTarget::Row(p, _) => Some(p),
            HitTarget::Blocker => None,
            _ => panel_hit_at(entries.drop_last(), column, row),
        }
    } else {
        panel_hit_at(entries.drop_last(), column, row)
    }
}

pub open spec fn holds_blocker(entries: Seq<(Rect, HitTarget)>) -> bool {
    exists|i: int| 0 <= i < entries.len() && #[trigger] entries[i].1 == HitTarget::Blocker
}

impl HitMap {
    pub fn new() -> (r: Self)
        ensures
            r@ == Seq::<(Rect, HitTarget)>::empty(),
    {
        HitMap { entries: Vec::new() }
    }

    /// Register a region; regions without area are left out.
    pub fn push(&mut self, area: Rect, target: HitTarget)
        ensures
            final(self)@ == (if area.width > 0 && area.height > 0 {
                old(self)@.push((area, target))
            } else {
                old(self)@
            }),
    {
        if area.width > 0 && area.height > 0 {
            self.entries.push((area, target));
        }
    }

    pub fn at(&self, column: u16, row: u16) -> (r: Option<HitTarget>)
        ensures
            r == hit_at(self@, column, row),
    {
        let mut i: usize = self.entries.len();
        assert(self.entries@.take(i as int) == self.entries@);
        while i > 0
            invariant
                i <= self.entries@.len(),
                hit_at(self.entries@, column, row) == hit_at(self.entries@.take(i as int), column, row),
            decreases i,
        {
            let entry = self.entries[i - 1];
            assert(self.entries@.take(i as int).drop_last() == self.entries@.take(i - 1));
            if entry.0.contains(column, row) {
                return Some(entry.1);
            }
            i = i - 1;
        }
        None
    }

    pub fn panel_at(&self, column: u16, row: u16) -> (r: Option<PanelId>)
        ensures
            r == panel_hit_at(self@, column, row),
    {
        let mut i: usize = self.entries.len();
        assert(self.entries@.take(i as int) == self.entries@);
        while i > 0
            invariant
                i <= self.entries@.len(),
                panel_hit_at(self.entries@, column, row) == panel_hit_at(
                    self.entries@.take(i as int),
                    column,
                    row,
                ),
            decreases i,
        {
            let entry = self.entries[i - 1];
            assert(self.entries@.take(i as int).drop_last() == self.entries@.take(i - 1));
            if entry.0.contains(column, row) {
                match entry.1 {
                    HitTarget::Panel(panel) => {
                        return Some(panel);
                    },
                    HitTarget::Row(panel, _) => {
                        return Some(panel);
                    },
                    HitTarget::Blocker => {
                        return None;
                    },
                    _ => {},
                }
            }
            i = i - 1;
        }
        None
    }

    pub fn has_blocker(&self) -> (r: bool)
        ensures
            r == holds_blocker(self@),
    {
        let mut i: usize = 0;
        while i < self.entries.len()
            invariant
                i <= self.entries@.len(),
                forall|k: int| 0 <= k < i ==> self.entries@[k].1 != HitTarget::Blocker,
            decreases self.entries@.len() - i,
        {
            if self.entries[i].1 == HitTarget::Blocker {
                return true;
            }
            i = i + 1;
        }
        false
    }

    pub fn entries(&self) -> (r: &[(Rect, HitTarget)])
        ensures
            r@ == self@,
    {
        self.entries.as_slice()
    }
}

#[derive(Clone, Copy, Debug, PartialEq, Eq, Structural)]
pub enum MouseButton {
    Left,
    Right,
    Middle,
}

#[derive(Clone, Copy, Debug, PartialEq, Eq, Structural)]
pub enum MouseEventKind {
    Down(MouseButton),
    Up(MouseButton),
    Drag(MouseButton),
    Moved,
    ScrollDown,
    ScrollUp,
    ScrollLeft,
    ScrollRight,
}

/// A mouse event at a terminal cell.
#[derive(Clone, Copy, Debug, PartialEq, Eq, Structural)]
pub struct MouseEvent {
    pub kind: MouseEventKind,
    pub column: u16,
    pub row: u16,
    pub modifiers: KeyModifiers,
}

/// The longest gap between two clicks on a row that still counts as a double click.
pub const DOUBLE_CLICK_NANOS: u64 = 400_000_000;

/// The last row click: panel, row and time in nanoseconds on a monotonic clock.
#[derive(Clone, Copy, Debug, Default, PartialEq, Eq)]
pub struct ClickMemory {
    pub last: Option<(PanelId, usize, u64)>,
}

pub open spec fn is_double_click(memory: ClickMemory, panel: PanelId, index: usize, now: u64) -> bool {
    match memory.last {
        Some((p, i, at)) => p == panel && i == index && (if now >= at { now - at } else { 0 })
            <= DOUBLE_CLICK_NANOS,
        None => false,
    }
}

/// The action a mouse event asks for, and the click memory after it.
pub open spec fn mouse_action_spec(
    hits: Seq<(Rect, HitTarget)>,
    event: MouseEvent,
    focus: PanelId,
    memory: ClickMemory,
    now: u64,
) -> (Option<Action>, ClickMemory) {
    match event.kind {
        MouseEventKind::Down(MouseButton::Left) => match hit_at(hits, event.column, event.row) {
            None => (None, memory),
            Some(HitTarget::Tab(w)) => (Some(Action::GoWorkspace(w)), memory),
            Some(HitTarget::Panel(p)) => (Some(Action::Focus(p)), memory),
            Some(HitTarget::Button(a)) => (Some(a), memory),
            Some(HitTarget::Blocker) => (None, memory),
            Some(HitTarget::Row(p, i)) => if is_double_click(memory, p, i, now) {
                (Some(Action::Open), ClickMemory { last: None })
            } else {
                (Some(Action::Select(p, i)), ClickMemory { last: Some((p, i, now)) })
            },
        },
        MouseEventKind::ScrollUp | MouseEventKind::ScrollDown => if holds_blocker(hits) {
            (None, memory)
        } else {
            let panel = match panel_hit_at(hits, event.column, event.row) {
                Some(p) => p,
                None => focus,
            };
            (
                Some(
                    Action::Scroll(
                        panel,
                        if event.kind is ScrollUp {
                            -3i16
                        } else {
                            3i16
                        },
                    ),
                ),
                memory,
            )
        },
        _ => (None, memory),
    }
}

/// Translate a mouse event into an action; a second click on the same row within
/// `DOUBLE_CLICK_NANOS` opens it.
pub fn mouse_action(
    hits: &HitMap,
    event: &MouseEvent,
    focus: PanelId,
    memory: &mut ClickMemory,
    now: u64,
) -> (r: Option<Action>)
    ensures
        (r, *final(memory)) == mouse_action_spec(hits@, *event, focus, *old(memory), now),
{
    match event.kind {
        MouseEventKind::Down(MouseButton::Left) => match hits.at(event.column, event.row) {
            None => None,
            Some(HitTarget::Tab(workspace)) => Some(Action::GoWorkspace(workspace)),
            Some(HitTarget::Panel(panel)) => Some(Action::Focus(panel)),
            Some(HitTarget::Button(action)) => Some(action),
            Some(HitTarget::Blocker) => None,
            Some(HitTarget::Row(panel, index)) => {
                let double = match memory.last {
                    Some((last_panel, last_index, at)) => last_panel == panel && last_index == index
                        && now.saturating_sub(at) <= DOUBLE_CLICK_NANOS,
                    None => false,
                };
                memory.last = if double {
                    None
                } else {
                    Some((panel, index, now))
                };
                Some(
                    if double {
                        Action::Open
                    } else {
                        Action::Select(panel, index)
                    },
                )
            },
        },
        MouseEventKind::ScrollUp | MouseEventKind::ScrollDown => {
            if hits.has_blocker() {
                return None;
            }
            let delta: i16 = if event.kind == MouseEventKind::ScrollUp {
                -3
            } else {
                3
            };
            let panel = match hits.panel_at(event.column, event.row) {
                Some(p) => p,
                None => focus,
            };
            Some(Action::Scroll(panel, delta))
        },
        _ => None,
    }
}

/// The wheel scrolls the panel under the cursor, or the focused one when the cursor is
/// over none, three rows at a time: up moves back (a negative delta) and down moves on
/// (a positive one), by the same amount, and the click memory is untouched. While a
/// dialog blocks the screen the wheel does nothing.
pub proof fn lemma_wheel_directions(
    hits: Seq<(Rect, HitTarget)>,
    up: MouseEvent,
    down: MouseEvent,
    focus: PanelId,
    memory: ClickMemory,
    now: u64,
)
    requires
        up.kind == MouseEventKind::ScrollUp,
        down.kind == MouseEventKind::ScrollDown,
        up.column == down.column,
        up.row == down.row,
    ensures
        !holds_blocker(hits) ==> {
            let panel = match panel_hit_at(hits, up.column, up.row) {
                Some(p) => p,
                None => focus,
            };
            &&& mouse_action_spec(hits, up, focus, memory, now) == (Some(Action::Scroll(panel, -3i16)), memory)
            &&& mouse_action_spec(hits, down, focus, memory, now) == (Some(Action::Scroll(panel, 3i16)), memory)
        },
        holds_blocker(hits) ==> {
            &&& mouse_action_spec(hits, up, focus, memory, now) == (None::<Action>, memory)
            &&& mouse_action_spec(hits, down, focus, memory, now) == (None::<Action>, memory)
        },
{
}

/// Clicking a row selects it, and clicking the same row again within 400 ms opens it;
/// a second click later than that, or on another row, only selects. A click on a tab
/// goes to its workspace, on a panel focuses it, and on a dialog's backdrop does nothing.
pub proof fn lemma_clicks(
    hits: Seq<(Rect, HitTarget)>,
    first: MouseEvent,
    second: MouseEvent,
    focus: PanelId,
    t1: u64,
    t2: u64,
)
    requires
        first.kind == MouseEventKind::Down(MouseButton::Left),
        second.kind == MouseEventKind::Down(MouseButton::Left),
    ensures
        hit_at(hits, first.column, first.row) matches Some(HitTarget::Row(p, i)) ==> {
            let (a1, m1) = mouse_action_spec(hits, first, focus, ClickMemory { last: None }, t1);
            &&& a1 == Some(Action::Select(p, i))
            &&& (hit_at(hits, second.column, second.row) == Some(HitTarget::Row(p, i)) && t1 <= t2 && t2 - t1
                <= 400_000_000 ==> mouse_action_spec(hits, second, focus, m1, t2).0 == Some(Action::Open))
            &&& (hit_at(hits, second.column, second.row) == Some(HitTarget::Row(p, i)) && t1 <= t2 && t2 - t1
                > 400_000_000 ==> mouse_action_spec(hits, second, focus, m1, t2).0 == Some(Action::Select(p, i)))
            &&& (hit_at(hits, second.column, second.row) matches Some(HitTarget::Row(q, j)) ==> ((q != p || j
                != i) ==> mouse_action_spec(hits, second, focus, m1, t2).0 == Some(Action::Select(q, j))))
        },
        forall|memory: ClickMemory, now: u64|
            {
                &&& hit_at(hits, first.column, first.row) matches Some(HitTarget::Tab(w)) ==> #[trigger] mouse_action_spec(
                    hits,
                    first,
                    focus,
                    memory,
                    now,
                ) == (Some(Action::GoWorkspace(w)), memory)
                &&& hit_at(hits, first.column, first.row) matches Some(HitTarget::Panel(p)) ==> mouse_action_spec(
                    hits,
                    first,
                    focus,
                    memory,
                    now,
                ) == (Some(Action::Focus(p)), memory)
                &&& hit_at(hits, first.column, first.row) == Some(HitTarget::Blocker) ==> mouse_action_spec(
                    hits,
                    first,
                    focus,
                    memory,
                    now,
                ) == (None::<Action>, memory)
            },
{
}

} // verus!
