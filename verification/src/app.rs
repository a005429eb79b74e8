//! The application state machine: collector updates and user actions in, new state and
//! effects out.
use vstd::prelude::*;

use std::time::Duration;

use crate::history::{after_record, History, HistorySample, SeriesId};
use crate::input::action::{Action, Effect};
use crate::input::keymap::{resolve, resolve_spec, Context, KeyEvent};
use crate::input::list::{clamped, in_bounds, lemma_clamp_in_bounds, moved_selection, ListState};
use crate::model::{
    filter_processes, filtered, lemma_confirm_keeps_target, lemma_sorted_seq_len, sort_processes, sorted_seq, ActionKind,
    AppMode, PendingAction, ProcessIdentity, ProcessInfo, SortMode,
};
use crate::state::{state_applied, user_disks, CollectorUpdate, InterfaceStats, SystemState};
use crate::text::{chars_of, concat, string_of};
use crate::ui::hit::{mouse_action, mouse_action_spec, ClickMemory, MouseEvent};
use crate::ui::state::{
    focus_stepped, panel_label, panel_toggled, workspace_label, workspace_order, workspace_set,
    any_hidden, workspace_panels, LayoutDensity, PanelId, PanelToggle, UiState, Workspace,
};
use crate::ui::theme::{theme_cycle, theme_label};
use crate::ui::RenderOutput;

verus! {

/// How long a notice stays on screen, in nanoseconds.
pub const NOTICE_NANOS: u64 = 5_000_000_000;

/// How many samples each history series keeps.
pub const HISTORY_CAPACITY: usize = 60;

/// The rows of the list shown in a panel that a move or a click lands on.
pub open spec fn traffic_count(processes: Seq<ProcessInfo>) -> nat
    decreases processes.len(),
{
    if processes.len() == 0 {
        0
    } else {
        traffic_count(processes.drop_last()) + (if processes.last().traffic is Some {
            1nat
        } else {
            0nat
        })
    }
}

proof fn lemma_traffic_count_bound(processes: Seq<ProcessInfo>)
    ensures
        traffic_count(processes) <= processes.len(),
    decreases processes.len(),
{
    if processes.len() > 0 {
        lemma_traffic_count_bound(processes.drop_last());
    }
}

proof fn lemma_user_disks_bound(disks: Seq<crate::state::DiskStats>)
    ensures
        user_disks(disks).len() <= disks.len(),
    decreases disks.len(),
{
    if disks.len() > 0 {
        lemma_user_disks_bound(disks.drop_last());
    }
}

proof fn lemma_matching_bound(ps: Seq<ProcessInfo>, q: Seq<char>)
    ensures
        crate::model::matching(ps, q).len() <= ps.len(),
    decreases ps.len(),
{
    if ps.len() > 0 {
        lemma_matching_bound(ps.drop_last(), q);
    }
}

/// The processes shown: those matching the filter, sorted by the sort mode.
pub open spec fn visible_of(state: SystemState, filter: Seq<char>, sort: SortMode) -> Seq<ProcessInfo> {
    sorted_seq(filtered(state.processes@, filter), sort)
}

proof fn lemma_visible_bound(state: SystemState, filter: Seq<char>, sort: SortMode)
    ensures
        visible_of(state, filter, sort).len() <= state.processes@.len(),
{
    lemma_sorted_seq_len(filtered(state.processes@, filter), sort);
    lemma_matching_bound(state.processes@, crate::text::trimmed(filter));
}

/// The first position of a process with this identity, or the length.
pub open spec fn find_identity(ps: Seq<ProcessInfo>, id: ProcessIdentity, i: int) -> int
    decreases ps.len() - i,
{
    if i < 0 || i >= ps.len() {
        ps.len() as int
    } else if ps[i].identity == id {
        i
    } else {
        find_identity(ps, id, i + 1)
    }
}

/// The first position of a process whose PID differs from the previous selection's,
/// or of any process when nothing was selected; else the length.
pub open spec fn find_other_pid(ps: Seq<ProcessInfo>, previous: Option<ProcessIdentity>, i: int) -> int
    decreases ps.len() - i,
{
    if i < 0 || i >= ps.len() {
        ps.len() as int
    } else if previous is None || ps[i].identity.pid != previous->0.pid {
        i
    } else {
        find_other_pid(ps, previous, i + 1)
    }
}

proof fn lemma_find_identity(ps: Seq<ProcessInfo>, id: ProcessIdentity, i: int)
    requires
        0 <= i <= ps.len(),
    ensures
        i <= find_identity(ps, id, i) <= ps.len(),
        find_identity(ps, id, i) < ps.len() ==> ps[find_identity(ps, id, i)].identity == id,
        forall|k: int| i <= k < find_identity(ps, id, i) ==> (#[trigger] ps[k]).identity != id,
    decreases ps.len() - i,
{
    if i < ps.len() && ps[i].identity != id {
        lemma_find_identity(ps, id, i + 1);
    }
}

proof fn lemma_find_other_pid(ps: Seq<ProcessInfo>, previous: Option<ProcessIdentity>, i: int)
    requires
        0 <= i <= ps.len(),
    ensures
        i <= find_other_pid(ps, previous, i) <= ps.len(),
    decreases ps.len() - i,
{
    if i < ps.len() && !(previous is None || ps[i].identity.pid != previous->0.pid) {
        lemma_find_other_pid(ps, previous, i + 1);
    }
}

/// The row the selection moves to when the process list changes: the process with the
/// selected identity if it is still there, else the first process with another PID,
/// else the first row.
pub open spec fn reconciled_index(ps: Seq<ProcessInfo>, previous: Option<ProcessIdentity>) -> int {
    let same = match previous {
        Some(id) => find_identity(ps, id, 0),
        None => ps.len() as int,
    };
    if same < ps.len() {
        same
    } else if find_other_pid(ps, previous, 0) < ps.len() {
        find_other_pid(ps, previous, 0)
    } else {
        0
    }
}

/// The identity of the process at row `i`, if there is one.
pub open spec fn identity_at(ps: Seq<ProcessInfo>, i: int) -> Option<ProcessIdentity> {
    if 0 <= i < ps.len() {
        Some(ps[i].identity)
    } else {
        None
    }
}

/// Whether some process has this identity.
pub open spec fn has_identity(ps: Seq<ProcessInfo>, id: ProcessIdentity) -> bool {
    exists|i: int| 0 <= i < ps.len() && (#[trigger] ps[i]).identity == id
}

/// When a notice shown at `now` expires.
pub open spec fn notice_deadline(now: u64) -> u64 {
    if now <= u64::MAX - NOTICE_NANOS {
        (now + NOTICE_NANOS) as u64
    } else {
        u64::MAX
    }
}

/// The list state after moving `delta` rows in a list of `len` rows.
pub open spec fn moved_list(l: ListState, delta: isize, len: int, viewport: usize) -> ListState {
    if len > 0 {
        clamped(
            ListState { selected: moved_selection(l.selected, delta, len as usize) as usize, offset: l.offset },
            len as usize,
            viewport,
        )
    } else {
        clamped(l, len as usize, viewport)
    }
}

/// The name a layout density is shown by.
pub open spec fn density_name(d: LayoutDensity) -> Seq<char> {
    match d {
        LayoutDensity::Compact => "Compact"@,
        LayoutDensity::Balanced => "Balanced"@,
        LayoutDensity::Spacious => "Spacious"@,
    }
}

/// What `toggle_panel` reports for a given interface state.
pub open spec fn toggle_result(ui: UiState) -> PanelToggle {
    if any_hidden(workspace_panels(ui.workspace), ui.hidden_panels@) {
        PanelToggle::Restored
    } else if ui.visible_spec().len() <= 1 {
        PanelToggle::LastPanel
    } else {
        PanelToggle::Hidden(ui.focus)
    }
}

/// The notice that reports a panel toggle.
pub open spec fn toggle_message(t: PanelToggle) -> Seq<char> {
    match t {
        PanelToggle::Hidden(p) => panel_label(p) + " panel hidden. Press H to restore."@,
        PanelToggle::Restored => "All panels visible."@,
        PanelToggle::LastPanel => "The last visible panel cannot be hidden."@,
    }
}

/// The notice shown when the user asks to signal Filiz itself.
pub open spec fn self_signal_message() -> Seq<char> {
    "Filiz cannot send a signal to itself."@
}

/// The notice shown when the process awaiting confirmation is gone.
pub open spec fn vanished_message() -> Seq<char> {
    "Selected process is no longer available."@
}

/// The application: system state, history and everything the interface shows.
pub struct App {
    pub refresh: Duration,
    pub state: SystemState,
    pub history: History,
    pub mode: AppMode,
    pub sort: SortMode,
    pub filter: String,
    pub pending_action: Option<PendingAction>,
    pub notice: Option<String>,
    pub ui: UiState,
    pub last_render: RenderOutput,
    /// The identity of the selected process, which the selection follows.
    pub selected_identity: Option<ProcessIdentity>,
    /// When the notice expires, on the monotonic clock of `now`.
    pub notice_until: Option<u64>,
    pub clicks: ClickMemory,
    /// The PID of this process, which actions never target.
    pub own_pid: u32,
    /// The current time in nanoseconds on a monotonic clock, set by the event loop.
    pub now: u64,
}

/// `new` shows `message` as a notice that expires five seconds after `old.now`.
pub open spec fn notice_shown(old: App, new: App, message: Seq<char>) -> bool {
    &&& new.notice matches Some(n) && n@ == message
    &&& new.notice_until == Some(notice_deadline(old.now))
}

/// The fields no user action changes.
pub open spec fn keeps_data(old: App, new: App) -> bool {
    &&& new.refresh == old.refresh
    &&& new.state == old.state
    &&& new.history == old.history
    &&& new.last_render == old.last_render
    &&& new.clicks == old.clicks
    &&& new.own_pid == old.own_pid
    &&& new.now == old.now
}

/// Mode, sort, filter, pending action and selected identity are unchanged.
pub open spec fn keeps_choices(old: App, new: App) -> bool {
    &&& new.mode == old.mode
    &&& new.sort == old.sort
    &&& new.filter == old.filter
    &&& new.pending_action == old.pending_action
    &&& new.selected_identity == old.selected_identity
}

/// The notice and its deadline are unchanged.
pub open spec fn keeps_notice(old: App, new: App) -> bool {
    &&& new.notice == old.notice
    &&& new.notice_until == old.notice_until
}

/// Only the list of `panel` and the focus may differ between the two interface states.
pub open spec fn ui_with_list(old: UiState, new: UiState, panel: PanelId, list: ListState, focus: PanelId) -> bool {
    &&& new.lists@ == old.lists@.update(panel.slot(), list)
    &&& new.focus == focus
    &&& new.workspace == old.workspace
    &&& new.hidden_panels == old.hidden_panels
    &&& new.menu_open == old.menu_open
    &&& new.density == old.density
    &&& new.theme == old.theme
}

impl App {
    /// The interface is well formed, history series are bounded, and every list is short
    /// enough for list positions to be computed without overflow.
    pub open spec fn wf(&self) -> bool {
        &&& self.ui.wf()
        &&& self.history.wf()
        &&& self.state.processes@.len() <= isize::MAX
        &&& self.state.interfaces@.len() <= isize::MAX
        &&& self.state.disks@.len() <= isize::MAX
    }

    pub open spec fn visible_spec(&self) -> Seq<ProcessInfo> {
        visible_of(self.state, self.filter@, self.sort)
    }

    /// The rows a panel shows at once: its last rendered height, at least one.
    pub open spec fn viewport_spec(&self, panel: PanelId) -> usize {
        let h = self.last_render.viewports.height_of(panel);
        if h == 0 {
            1
        } else {
            h as usize
        }
    }

    /// The number of rows of the list a panel shows.
    pub open spec fn list_len_spec(&self, panel: PanelId) -> int {
        match panel {
            PanelId::Processes => self.visible_spec().len() as int,
            PanelId::Interfaces => self.state.interfaces@.len() as int,
            PanelId::Traffic => traffic_count(self.state.processes@) as int,
            PanelId::Disks => user_disks(self.state.disks@).len() as int,
            _ => 0,
        }
    }

    /// The selected process, if the selection points at one.
    pub open spec fn selected_spec(&self) -> Option<ProcessInfo> {
        let i = self.ui.list_spec(PanelId::Processes).selected;
        if i < self.visible_spec().len() {
            Some(self.visible_spec()[i as int])
        } else {
            None
        }
    }

    /// The key contexts in priority order.
    pub open spec fn contexts_spec(&self) -> Seq<Context> {
        match self.mode {
            AppMode::ConfirmingAction => seq![Context::Confirm],
            AppMode::Filtering => seq![Context::Filter],
            AppMode::ProcessDetail => seq![Context::Detail, Context::Global],
            AppMode::Dashboard => (if self.ui.menu_open {
                seq![Context::Menu]
            } else {
                Seq::empty()
            }) + seq![
                Context::Panel(self.ui.focus),
                Context::Workspace(self.ui.workspace),
                Context::Global,
            ],
        }
    }
}

/// The list state of the process list after reconciling the selection.
pub open spec fn reconciled_list(a: App) -> ListState {
    let ps = a.visible_spec();
    clamped(
        ListState {
            selected: reconciled_index(ps, a.selected_identity) as usize,
            offset: a.ui.list_spec(PanelId::Processes).offset,
        },
        ps.len() as usize,
        a.viewport_spec(PanelId::Processes),
    )
}

/// Everything reconciling the selection decides besides the list state: the selected
/// identity; a pending action whose process is gone is dropped with a notice; a detail
/// view whose process is gone closes.
pub open spec fn reconciled_choices(old: App, new: App) -> bool {
    let ps = old.visible_spec();
    let sel = identity_at(ps, reconciled_list(old).selected as int);
    let dropped = old.mode == AppMode::ConfirmingAction && old.pending_action is Some && !has_identity(
        ps,
        old.pending_action->0.identity_spec(),
    );
    let mode1 = if dropped {
        AppMode::Dashboard
    } else {
        old.mode
    };
    &&& new.selected_identity == sel
    &&& new.pending_action == (if dropped {
        None
    } else {
        old.pending_action
    })
    &&& if dropped {
        notice_shown(old, new, vanished_message())
    } else {
        keeps_notice(old, new)
    }
    &&& new.mode == (if mode1 == AppMode::ProcessDetail && sel != old.selected_identity {
        AppMode::Dashboard
    } else {
        mode1
    })
    &&& new.sort == old.sort
    &&& new.filter == old.filter
}

/// `reconcile_selection`: the selection follows the selected identity.
pub open spec fn reconciled(old: App, new: App) -> bool {
    &&& ui_with_list(old.ui, new.ui, PanelId::Processes, reconciled_list(old), old.ui.focus)
    &&& reconciled_choices(old, new)
    &&& keeps_data(old, new)
}

/// `select_first`: the process list goes back to its first row.
pub open spec fn first_selected(old: App, new: App) -> bool {
    &&& ui_with_list(old.ui, new.ui, PanelId::Processes, ListState { selected: 0, offset: 0 }, old.ui.focus)
    &&& new.selected_identity == identity_at(old.visible_spec(), 0)
    &&& new.mode == old.mode
    &&& new.sort == old.sort
    &&& new.filter == old.filter
    &&& new.pending_action == old.pending_action
    &&& keeps_notice(old, new)
    &&& keeps_data(old, new)
}

/// The list of `panel` becomes `list` and focus goes to `focus`; a move in the
/// process list selects the identity at the new row.
pub open spec fn list_moved(old: App, new: App, panel: PanelId, list: ListState, focus: PanelId) -> bool {
    &&& ui_with_list(old.ui, new.ui, panel, list, focus)
    &&& new.selected_identity == (if panel == PanelId::Processes {
        identity_at(old.visible_spec(), list.selected as int)
    } else {
        old.selected_identity
    })
    &&& new.mode == old.mode
    &&& new.sort == old.sort
    &&& new.filter == old.filter
    &&& new.pending_action == old.pending_action
    &&& keeps_notice(old, new)
    &&& keeps_data(old, new)
}

/// A move of `delta` rows in the list of `panel`.
pub open spec fn moved_by(old: App, new: App, panel: PanelId, delta: isize) -> bool {
    list_moved(
        old,
        new,
        panel,
        moved_list(old.ui.list_spec(panel), delta, old.list_len_spec(panel), old.viewport_spec(panel)),
        old.ui.focus,
    )
}

/// `go_workspace`: switch workspace and say so.
pub open spec fn went_to(old: App, new: App, w: Workspace) -> bool {
    &&& workspace_set(old.ui, new.ui, w)
    &&& notice_shown(old, new, "Workspace: "@ + workspace_label(w))
    &&& new.mode == old.mode
    &&& new.sort == old.sort
    &&& new.filter == old.filter
    &&& new.pending_action == old.pending_action
    &&& new.selected_identity == old.selected_identity
    &&& keeps_data(old, new)
}

/// Only the interface state changes, to `ui`.
pub open spec fn ui_changed(old: App, new: App, ui: UiState) -> bool {
    &&& new.ui == ui
    &&& keeps_choices(old, new)
    &&& keeps_notice(old, new)
    &&& keeps_data(old, new)
}

/// Only the mode changes, to `mode`.
pub open spec fn mode_changed(old: App, new: App, mode: AppMode) -> bool {
    &&& new.mode == mode
    &&& new.ui == old.ui
    &&& new.sort == old.sort
    &&& new.filter == old.filter
    &&& new.pending_action == old.pending_action
    &&& new.selected_identity == old.selected_identity
    &&& keeps_notice(old, new)
    &&& keeps_data(old, new)
}

/// Nothing changes.
pub open spec fn unchanged(old: App, new: App) -> bool {
    ui_changed(old, new, old.ui)
}

/// `begin_action`: ask to confirm a signal to the selected process, unless it is Filiz
/// itself, which is refused with a notice.
pub open spec fn began_action(old: App, new: App, kind: ActionKind) -> bool {
    match old.selected_spec() {
        None => unchanged(old, new),
        Some(p) => if p.identity.pid == old.own_pid {
            &&& notice_shown(old, new, self_signal_message())
            &&& new.ui == old.ui
            &&& keeps_choices(old, new)
            &&& keeps_data(old, new)
        } else {
            &&& new.pending_action matches Some(pa) && pa.identity_spec() == p.identity && pa.kind_spec()
                == kind
            &&& new.mode == AppMode::ConfirmingAction
            &&& new.ui == old.ui
            &&& new.sort == old.sort
            &&& new.filter == old.filter
            &&& new.selected_identity == old.selected_identity
            &&& keeps_notice(old, new)
            &&& keeps_data(old, new)
        },
    }
}

/// `back`: close the detail view, else the menu, else clear the filter.
pub open spec fn went_back(old: App, new: App) -> bool {
    if old.mode == AppMode::ProcessDetail {
        mode_changed(old, new, AppMode::Dashboard)
    } else if old.ui.menu_open {
        ui_changed(old, new, UiState { menu_open: false, ..old.ui })
    } else if old.filter@.len() > 0 {
        &&& new.filter@.len() == 0
        &&& first_selected(App { filter: new.filter, ..old }, new)
    } else {
        unchanged(old, new)
    }
}

/// What `update` does with one action, and the effects it returns.
pub open spec fn updated(old: App, new: App, action: Action, effects: Seq<Effect>) -> bool {
    &&& effects == (match action {
        Action::Quit => seq![Effect::Quit],
        Action::Refresh => seq![Effect::Refresh],
        Action::Confirm => match old.pending_action {
            Some(p) => seq![Effect::SendSignal(p.confirm_spec())],
            None => Seq::empty(),
        },
        _ => Seq::empty(),
    })
    &&& match action {
        Action::Quit => unchanged(old, new),
        Action::Refresh => unchanged(old, new),
        Action::GoWorkspace(w) => went_to(old, new, w),
        Action::NextWorkspace => went_to(old, new, workspace_order()[(old.ui.workspace.index() + 1) % 5]),
        Action::PrevWorkspace => went_to(old, new, workspace_order()[(old.ui.workspace.index() - 1) % 5]),
        Action::FocusNext => {
            &&& focus_stepped(old.ui, new.ui, 1)
            &&& keeps_choices(old, new)
            &&& keeps_notice(old, new)
            &&& keeps_data(old, new)
        },
        Action::FocusPrev => {
            &&& focus_stepped(old.ui, new.ui, -1)
            &&& keeps_choices(old, new)
            &&& keeps_notice(old, new)
            &&& keeps_data(old, new)
        },
        Action::Focus(p) => if old.ui.visible_spec().contains(p) {
            ui_changed(old, new, UiState { focus: p, ..old.ui })
        } else {
            unchanged(old, new)
        },
        Action::MoveUp => moved_by(old, new, old.ui.focus, -1isize),
        Action::MoveDown => moved_by(old, new, old.ui.focus, 1isize),
        Action::PageUp => moved_by(old, new, old.ui.focus, (-(old.viewport_spec(old.ui.focus) as int)) as isize),
        Action::PageDown => moved_by(old, new, old.ui.focus, old.viewport_spec(old.ui.focus) as isize),
        Action::Home => moved_by(old, new, old.ui.focus, (isize::MIN / 2) as isize),
        Action::End => moved_by(old, new, old.ui.focus, (isize::MAX / 2) as isize),
        Action::Scroll(p, d) => moved_by(old, new, p, d as isize),
        Action::Select(p, i) => list_moved(
            old,
            new,
            p,
            clamped(
                ListState { selected: i, offset: old.ui.list_spec(p).offset },
                old.list_len_spec(p) as usize,
                old.viewport_spec(p),
            ),
            p,
        ),
        Action::Open => if old.ui.focus == PanelId::Processes && old.selected_spec() is Some {
            mode_changed(old, new, AppMode::ProcessDetail)
        } else {
            unchanged(old, new)
        },
        Action::Back => went_back(old, new),
        Action::StartFilter => mode_changed(old, new, AppMode::Filtering),
        Action::FilterInput(c) => {
            &&& new.filter@ == old.filter@.push(c)
            &&& first_selected(App { filter: new.filter, ..old }, new)
        },
        Action::FilterBackspace => {
            &&& new.filter@ == (if old.filter@.len() > 0 {
                old.filter@.drop_last()
            } else {
                old.filter@
            })
            &&& first_selected(App { filter: new.filter, ..old }, new)
        },
        Action::FilterSubmit => mode_changed(old, new, AppMode::Dashboard),
        Action::CycleSort => {
            let sort = match old.sort {
                SortMode::Cpu => SortMode::Memory,
                SortMode::Memory => SortMode::Cpu,
            };
            reconciled(App { sort: sort, ..old }, new)
        },
        Action::Terminate => began_action(old, new, ActionKind::Terminate),
        Action::Kill => began_action(old, new, ActionKind::Kill),
        Action::Confirm => {
            &&& new.mode == AppMode::Dashboard
            &&& new.pending_action is None
            &&& new.ui == old.ui
            &&& new.sort == old.sort
            &&& new.filter == old.filter
            &&& new.selected_identity == old.selected_identity
            &&& keeps_notice(old, new)
            &&& keeps_data(old, new)
        },
        Action::Cancel => {
            &&& new.mode == AppMode::Dashboard
            &&& new.pending_action is None
            &&& new.ui == old.ui
            &&& new.sort == old.sort
            &&& new.filter == old.filter
            &&& new.selected_identity == old.selected_identity
            &&& keeps_notice(old, new)
            &&& keeps_data(old, new)
        },
        Action::ToggleMenu => ui_changed(old, new, UiState { menu_open: !old.ui.menu_open, ..old.ui }),
        Action::CycleTheme => {
            let theme = theme_cycle()[(old.ui.theme.index() + 1) % 4];
            &&& new.ui == UiState { theme: theme, ..old.ui }
            &&& notice_shown(old, new, "Theme: "@ + theme_label(theme))
            &&& keeps_choices(old, new)
            &&& keeps_data(old, new)
        },
        Action::CycleDensity => {
            let density = match old.ui.density {
                LayoutDensity::Compact => LayoutDensity::Balanced,
                LayoutDensity::Balanced => LayoutDensity::Spacious,
                LayoutDensity::Spacious => LayoutDensity::Compact,
            };
            &&& new.ui == UiState { density: density, ..old.ui }
            &&& notice_shown(old, new, "Layout: "@ + density_name(density))
            &&& keeps_choices(old, new)
            &&& keeps_data(old, new)
        },
        Action::TogglePanel => {
            &&& panel_toggled(old.ui, new.ui, toggle_result(old.ui))
            &&& notice_shown(old, new, toggle_message(toggle_result(old.ui)))
            &&& keeps_choices(old, new)
            &&& keeps_data(old, new)
        },
    }
}

/// The list lengths of every panel fit in `isize`.
proof fn lemma_list_len_bound(a: App, panel: PanelId)
    requires
        a.wf(),
    ensures
        0 <= a.list_len_spec(panel) <= isize::MAX,
{
    lemma_visible_bound(a.state, a.filter@, a.sort);
    lemma_traffic_count_bound(a.state.processes@);
    lemma_user_disks_bound(a.state.disks@);
}

/// Whether an update leaves every list short enough for the bounds of `App::wf`.
pub open spec fn update_fits(update: CollectorUpdate) -> bool {
    match update {
        CollectorUpdate::System(sample) => {
            &&& sample.processes@.len() <= isize::MAX
            &&& sample.interfaces@.len() <= isize::MAX
            &&& sample.disks@.len() <= isize::MAX
        },
        _ => true,
    }
}

/// What `apply_update` does: the state merges the update, the process selection is
/// reconciled, and the interface, traffic and disk lists are clamped to their new
/// lengths.
pub open spec fn update_applied(old: App, new: App, update: CollectorUpdate) -> bool {
    let mid = App { state: new.state, ..old };
    &&& state_applied(old.state, new.state, update)
    &&& reconciled_choices(mid, new)
    &&& new.ui.lists@ == old.ui.lists@.update(PanelId::Processes.slot(), reconciled_list(mid)).update(
        PanelId::Interfaces.slot(),
        clamped(
            old.ui.list_spec(PanelId::Interfaces),
            new.list_len_spec(PanelId::Interfaces) as usize,
            old.viewport_spec(PanelId::Interfaces),
        ),
    ).update(
        PanelId::Traffic.slot(),
        clamped(
            old.ui.list_spec(PanelId::Traffic),
            new.list_len_spec(PanelId::Traffic) as usize,
            old.viewport_spec(PanelId::Traffic),
        ),
    ).update(
        PanelId::Disks.slot(),
        clamped(
            old.ui.list_spec(PanelId::Disks),
            new.list_len_spec(PanelId::Disks) as usize,
            old.viewport_spec(PanelId::Disks),
        ),
    )
    &&& new.ui.focus == old.ui.focus
    &&& new.ui.workspace == old.ui.workspace
    &&& new.ui.hidden_panels == old.ui.hidden_panels
    &&& new.ui.menu_open == old.ui.menu_open
    &&& new.ui.density == old.ui.density
    &&& new.ui.theme == old.ui.theme
    &&& new.refresh == old.refresh
    &&& new.history == old.history
    &&& new.last_render == old.last_render
    &&& new.clicks == old.clicks
    &&& new.own_pid == old.own_pid
    &&& new.now == old.now
}

/// The actions that `update_view` carries out.
pub open spec fn is_view_action(a: Action) -> bool {
    matches!(a, Action::Quit | Action::Refresh | Action::GoWorkspace(..) | Action::NextWorkspace | Action::PrevWorkspace | Action::FocusNext | Action::FocusPrev | Action::Focus(..) | Action::ToggleMenu | Action::CycleTheme | Action::CycleDensity | Action::TogglePanel)
}

/// The actions that `update_list` carries out.
pub open spec fn is_list_action(a: Action) -> bool {
    matches!(a, Action::MoveUp | Action::MoveDown | Action::PageUp | Action::PageDown | Action::Home | Action::End | Action::Scroll(..) | Action::Select(..) | Action::Open | Action::Back)
}

/// The actions that `update_process` carries out.
pub open spec fn is_process_action(a: Action) -> bool {
    matches!(a, Action::StartFilter | Action::FilterInput(..) | Action::FilterBackspace | Action::FilterSubmit | Action::CycleSort | Action::Terminate | Action::Kill | Action::Confirm | Action::Cancel)
}

fn is_view(a: &Action) -> (r: bool)
    ensures
        r == is_view_action(*a),
{
    match a {
        Action::Quit => true,
        Action::Refresh => true,
        Action::GoWorkspace(..) => true,
        Action::NextWorkspace => true,
        Action::PrevWorkspace => true,
        Action::FocusNext => true,
        Action::FocusPrev => true,
        Action::Focus(..) => true,
        Action::ToggleMenu => true,
        Action::CycleTheme => true,
        Action::CycleDensity => true,
        Action::TogglePanel => true,
        _ => false,
    }
}

fn is_list(a: &Action) -> (r: bool)
    ensures
        r == is_list_action(*a),
{
    match a {
        Action::MoveUp => true,
        Action::MoveDown => true,
        Action::PageUp => true,
        Action::PageDown => true,
        Action::Home => true,
        Action::End => true,
        Action::Scroll(..) => true,
        Action::Select(..) => true,
        Action::Open => true,
        Action::Back => true,
        _ => false,
    }
}

/// The number of processes with measured traffic.
fn count_traffic(processes: &Vec<ProcessInfo>) -> (r: usize)
    ensures
        r == traffic_count(processes@),
{
    let mut n: usize = 0;
    let mut i: usize = 0;
    while i < processes.len()
        invariant
            i <= processes@.len(),
            n == traffic_count(processes@.take(i as int)),
            n <= i,
        decreases processes@.len() - i,
    {
        assert(processes@.take(i + 1).drop_last() =~= processes@.take(i as int));
        if processes[i].traffic.is_some() {
            n = n + 1;
        }
        i = i + 1;
    }
    assert(processes@.take(i as int) =~= processes@);
    n
}

/// The first row holding a process with this identity, or the length.
fn position_of_identity(ps: &Vec<ProcessInfo>, id: ProcessIdentity) -> (r: usize)
    ensures
        r == find_identity(ps@, id, 0),
{
    let mut i: usize = 0;
    while i < ps.len()
        invariant
            i <= ps@.len(),
            find_identity(ps@, id, 0) == find_identity(ps@, id, i as int),
        decreases ps@.len() - i,
    {
        if ps[i].identity == id {
            return i;
        }
        i = i + 1;
    }
    i
}

/// The first row whose PID differs from the previous selection's, or the length.
fn position_of_other_pid(ps: &Vec<ProcessInfo>, previous: Option<ProcessIdentity>) -> (r: usize)
    ensures
        r == find_other_pid(ps@, previous, 0),
{
    let mut i: usize = 0;
    while i < ps.len()
        invariant
            i <= ps@.len(),
            find_other_pid(ps@, previous, 0) == find_other_pid(ps@, previous, i as int),
        decreases ps@.len() - i,
    {
        let differs = match previous {
            Some(id) => ps[i].identity.pid != id.pid,
            None => true,
        };
        if differs {
            return i;
        }
        i = i + 1;
    }
    i
}

fn reconcile_index(ps: &Vec<ProcessInfo>, previous: Option<ProcessIdentity>) -> (r: usize)
    ensures
        r == reconciled_index(ps@, previous),
{
    proof {
        lemma_find_other_pid(ps@, previous, 0);
        match previous {
            Some(id) => lemma_find_identity(ps@, id, 0),
            None => {},
        }
    }
    let same = match previous {
        Some(id) => position_of_identity(ps, id),
        None => ps.len(),
    };
    if same < ps.len() {
        return same;
    }
    let other = position_of_other_pid(ps, previous);
    if other < ps.len() {
        other
    } else {
        0
    }
}

fn same_identity(a: Option<ProcessIdentity>, b: Option<ProcessIdentity>) -> (r: bool)
    ensures
        r == (a == b),
{
    match (a, b) {
        (Some(x), Some(y)) => x == y,
        (None, None) => true,
        _ => false,
    }
}

fn identity_at_row(ps: &Vec<ProcessInfo>, i: usize) -> (r: Option<ProcessIdentity>)
    ensures
        r == identity_at(ps@, i as int),
{
    if i < ps.len() {
        Some(ps[i].identity)
    } else {
        None
    }
}

fn contains_identity(ps: &Vec<ProcessInfo>, id: ProcessIdentity) -> (r: bool)
    ensures
        r == has_identity(ps@, id),
{
    proof {
        lemma_find_identity(ps@, id, 0);
    }
    let i = position_of_identity(ps, id);
    if i < ps.len() {
        assert(ps@[i as int].identity == id);
        true
    } else {
        false
    }
}

fn density_label(d: LayoutDensity) -> (r: &'static str)
    ensures
        r@ == density_name(d),
{
    match d {
        LayoutDensity::Compact => "Compact",
        LayoutDensity::Balanced => "Balanced",
        LayoutDensity::Spacious => "Spacious",
    }
}

fn toggle_notice(t: PanelToggle) -> (r: String)
    ensures
        r@ == toggle_message(t),
{
    match t {
        PanelToggle::Hidden(panel) => concat(panel.label(), " panel hidden. Press H to restore."),
        PanelToggle::Restored => "All panels visible.".to_owned(),
        PanelToggle::LastPanel => "The last visible panel cannot be hidden.".to_owned(),
    }
}

impl App {
    pub fn new(refresh: Duration, own_pid: u32) -> (r: Self)
        ensures
            r.wf(),
            r.refresh == refresh,
            r.own_pid == own_pid,
            r.mode == AppMode::Dashboard,
            r.sort == SortMode::Cpu,
            r.filter@.len() == 0,
            r.pending_action is None,
            r.notice is None,
            r.notice_until is None,
            r.selected_identity is None,
            r.clicks.last is None,
            r.now == 0,
            r.state.processes@.len() == 0,
            r.state.interfaces@.len() == 0,
            r.state.disks@.len() == 0,
            r.history.capacity_spec() == HISTORY_CAPACITY,
            forall|id: SeriesId| #[trigger] r.history.model()(id) == Seq::<u64>::empty(),
            r.ui.workspace == Workspace::Overview,
            r.ui.focus == PanelId::Processes,
            r.ui.hidden_panels@.len() == 0,
            !r.ui.menu_open,
            forall|p: PanelId| #[trigger] r.ui.list_spec(p) == (ListState { selected: 0, offset: 0 }),
            forall|p: PanelId| #[trigger] r.last_render.viewports.height_of(p) == 0,
    {
        let ui = UiState::new();
        assert forall|p: PanelId| #[trigger] ui.list_spec(p) == (ListState { selected: 0, offset: 0 }) by {
            assert(0 <= p.slot() < 7);
        }
        App {
            refresh,
            state: SystemState::new(),
            history: History::new(HISTORY_CAPACITY),
            mode: AppMode::Dashboard,
            sort: SortMode::Cpu,
            filter: String::new(),
            pending_action: None,
            notice: None,
            ui,
            last_render: RenderOutput::new(),
            selected_identity: None,
            notice_until: None,
            clicks: ClickMemory { last: None },
            own_pid,
            now: 0,
        }
    }

    /// The processes shown, filtered and sorted.
    pub fn visible_processes(&self) -> (r: Vec<ProcessInfo>)
        ensures
            r@ == self.visible_spec(),
    {
        let mut processes = filter_processes(self.state.processes.as_slice(), self.filter.as_str());
        sort_processes(&mut processes, self.sort);
        processes
    }

    pub fn selected_process(&self) -> (r: Option<ProcessInfo>)
        requires
            self.ui.wf(),
        ensures
            r == self.selected_spec(),
    {
        let processes = self.visible_processes();
        let i = self.ui.list(PanelId::Processes).selected;
        if i < processes.len() {
            Some(processes[i].duplicate())
        } else {
            None
        }
    }

    pub fn selected_interface(&self) -> (r: Option<&InterfaceStats>)
        requires
            self.ui.wf(),
        ensures
            match r {
                Some(x) => self.ui.list_spec(PanelId::Interfaces).selected < self.state.interfaces@.len()
                    && *x == self.state.interfaces@[self.ui.list_spec(PanelId::Interfaces).selected as int],
                None => self.ui.list_spec(PanelId::Interfaces).selected >= self.state.interfaces@.len(),
            },
    {
        let i = self.ui.list(PanelId::Interfaces).selected;
        if i < self.state.interfaces.len() {
            Some(&self.state.interfaces[i])
        } else {
            None
        }
    }

    pub fn list_len(&self, panel: PanelId) -> (r: usize)
        ensures
            r == self.list_len_spec(panel),
    {
        match panel {
            PanelId::Processes => self.visible_processes().len(),
            PanelId::Interfaces => self.state.interfaces.len(),
            PanelId::Traffic => count_traffic(&self.state.processes),
            PanelId::Disks => self.state.visible_disks().len(),
            _ => 0,
        }
    }

    pub fn viewport(&self, panel: PanelId) -> (r: usize)
        ensures
            r == self.viewport_spec(panel),
            1 <= r <= u16::MAX,
    {
        match self.last_render.viewports.get(panel) {
            Some(h) => h as usize,
            None => 1,
        }
    }

    /// The key contexts in priority order: a modal mode owns the keyboard, else the
    /// menu, the focused panel, the workspace and the global keys.
    pub fn contexts(&self) -> (r: Vec<Context>)
        ensures
            r@ == self.contexts_spec(),
    {
        let mut stack: Vec<Context> = Vec::new();
        match self.mode {
            AppMode::ConfirmingAction => {
                stack.push(Context::Confirm);
            },
            AppMode::Filtering => {
                stack.push(Context::Filter);
            },
            AppMode::ProcessDetail => {
                stack.push(Context::Detail);
                stack.push(Context::Global);
            },
            AppMode::Dashboard => {
                if self.ui.menu_open {
                    stack.push(Context::Menu);
                }
                stack.push(Context::Panel(self.ui.focus));
                stack.push(Context::Workspace(self.ui.workspace));
                stack.push(Context::Global);
            },
        }
        assert(stack@ =~= self.contexts_spec());
        stack
    }

    /// Show a notice for five seconds.
    pub fn show_notice(&mut self, message: String)
        ensures
            notice_shown(*old(self), *final(self), message@),
            final(self).ui == old(self).ui,
            keeps_choices(*old(self), *final(self)),
            keeps_data(*old(self), *final(self)),
    {
        self.notice = Some(message);
        self.notice_until = Some(
            if self.now <= u64::MAX - NOTICE_NANOS {
                self.now + NOTICE_NANOS
            } else {
                u64::MAX
            },
        );
    }

    /// Drop the notice once its time is up; says whether it did.
    pub fn clear_expired_notice(&mut self) -> (r: bool)
        ensures
            r == (old(self).notice_until matches Some(until) && old(self).now >= until),
            r ==> final(self).notice is None && final(self).notice_until is None,
            !r ==> keeps_notice(*old(self), *final(self)),
            final(self).ui == old(self).ui,
            keeps_choices(*old(self), *final(self)),
            keeps_data(*old(self), *final(self)),
    {
        let expired = match self.notice_until {
            Some(until) => self.now >= until,
            None => false,
        };
        if expired {
            self.notice = None;
            self.notice_until = None;
        }
        expired
    }
}

impl App {
    /// Move the list of `panel` by `delta` rows; in the process list the selection then
    /// follows the process at the new row.
    fn move_list(&mut self, panel: PanelId, delta: isize)
        requires
            old(self).wf(),
        ensures
            final(self).wf(),
            moved_by(*old(self), *final(self), panel, delta),
    {
        let len = self.list_len(panel);
        let viewport = self.viewport(panel);
        proof {
            lemma_list_len_bound(*self, panel);
        }
        let list = self.ui.list_mut(panel);
        list.move_by(delta, len, viewport);
        if panel == PanelId::Processes {
            let processes = self.visible_processes();
            let selected = self.ui.list(PanelId::Processes).selected;
            self.selected_identity = identity_at_row(&processes, selected);
        }
    }

    /// Focus `panel` and select row `index` of its list.
    fn select_row(&mut self, panel: PanelId, index: usize)
        requires
            old(self).wf(),
        ensures
            final(self).wf(),
            list_moved(
                *old(self),
                *final(self),
                panel,
                clamped(
                    ListState { selected: index, offset: old(self).ui.list_spec(panel).offset },
                    old(self).list_len_spec(panel) as usize,
                    old(self).viewport_spec(panel),
                ),
                panel,
            ),
    {
        let len = self.list_len(panel);
        let viewport = self.viewport(panel);
        proof {
            lemma_list_len_bound(*self, panel);
        }
        self.ui.focus = panel;
        let list = self.ui.list_mut(panel);
        list.selected = index;
        list.clamp(len, viewport);
        if panel == PanelId::Processes {
            let processes = self.visible_processes();
            let selected = self.ui.list(PanelId::Processes).selected;
            self.selected_identity = identity_at_row(&processes, selected);
        }
    }

    /// Put the selection on the process it followed, or the nearest sensible one, and
    /// drop what refers to a process that is gone.
    fn reconcile_selection(&mut self)
        requires
            old(self).wf(),
        ensures
            final(self).wf(),
            reconciled(*old(self), *final(self)),
    {
        let processes = self.visible_processes();
        proof {
            lemma_visible_bound(self.state, self.filter@, self.sort);
        }
        let previous = self.selected_identity;
        let index = reconcile_index(&processes, previous);
        let viewport = self.viewport(PanelId::Processes);
        let list = self.ui.list_mut(PanelId::Processes);
        list.selected = index;
        list.clamp(processes.len(), viewport);
        let selected = self.ui.list(PanelId::Processes).selected;
        self.selected_identity = identity_at_row(&processes, selected);
        let ghost before_drop = *self;
        if self.mode == AppMode::ConfirmingAction {
            match self.pending_action {
                Some(pending) => {
                    if !contains_identity(&processes, pending.identity()) {
                        self.pending_action = None;
                        self.mode = AppMode::Dashboard;
                        self.show_notice("Selected process is no longer available.".to_owned());
                    }
                },
                None => {},
            }
        }
        if self.mode == AppMode::ProcessDetail && !same_identity(self.selected_identity, previous) {
            self.mode = AppMode::Dashboard;
        }
    }

    /// Go back to the first row of the process list.
    fn select_first(&mut self)
        requires
            old(self).wf(),
        ensures
            final(self).wf(),
            first_selected(*old(self), *final(self)),
    {
        let list = self.ui.list_mut(PanelId::Processes);
        *list = ListState { selected: 0, offset: 0 };
        let processes = self.visible_processes();
        self.selected_identity = identity_at_row(&processes, 0);
    }

    fn go_workspace(&mut self, workspace: Workspace)
        requires
            old(self).wf(),
        ensures
            final(self).wf(),
            went_to(*old(self), *final(self), workspace),
    {
        self.ui.set_workspace(workspace);
        self.show_notice(concat("Workspace: ", workspace.label()));
    }

    fn back(&mut self)
        requires
            old(self).wf(),
        ensures
            final(self).wf(),
            went_back(*old(self), *final(self)),
    {
        if self.mode == AppMode::ProcessDetail {
            self.mode = AppMode::Dashboard;
        } else if self.ui.menu_open {
            self.ui.menu_open = false;
        } else if !self.filter.as_str().is_empty() {
            self.filter = String::new();
            self.select_first();
        }
    }

    fn begin_action(&mut self, kind: ActionKind)
        requires
            old(self).wf(),
        ensures
            final(self).wf(),
            began_action(*old(self), *final(self), kind),
    {
        let process = match self.selected_process() {
            Some(p) => p,
            None => {
                return ;
            },
        };
        if process.identity.pid == self.own_pid {
            self.show_notice("Filiz cannot send a signal to itself.".to_owned());
            return ;
        }
        self.pending_action = Some(PendingAction::new(process.identity, kind));
        self.mode = AppMode::ConfirmingAction;
    }
}

impl App {
    /// Quitting, refreshing, and changes of workspace, focus, menu, theme, density and panels.
    fn update_view(&mut self, action: Action) -> (r: Vec<Effect>)
        requires
            old(self).wf(),
            is_view_action(action),
        ensures
            final(self).wf(),
            updated(*old(self), *final(self), action, r@),
    {
        let focus = self.ui.focus;
        match action {
            Action::Quit => {
                let mut effects: Vec<Effect> = Vec::new();
                effects.push(Effect::Quit);
                assert(effects@ =~= seq![Effect::Quit]);
                return effects;
            },
            Action::Refresh => {
                let mut effects: Vec<Effect> = Vec::new();
                effects.push(Effect::Refresh);
                assert(effects@ =~= seq![Effect::Refresh]);
                return effects;
            },
            Action::GoWorkspace(workspace) => self.go_workspace(workspace),
            Action::NextWorkspace => {
                let next = self.ui.workspace.step(1);
                self.go_workspace(next);
            },
            Action::PrevWorkspace => {
                let previous = self.ui.workspace.step(-1);
                self.go_workspace(previous);
            },
            Action::FocusNext => {
                proof {
                    crate::ui::state::lemma_unhidden(workspace_panels(self.ui.workspace), self.ui.hidden_panels@);
                    crate::ui::state::lemma_index_in(self.ui.visible_spec(), self.ui.focus);
                }
                self.ui.focus_step(1);
            },
            Action::FocusPrev => {
                proof {
                    crate::ui::state::lemma_unhidden(workspace_panels(self.ui.workspace), self.ui.hidden_panels@);
                    crate::ui::state::lemma_index_in(self.ui.visible_spec(), self.ui.focus);
                }
                self.ui.focus_step(-1);
            },
            Action::Focus(panel) => {
                let visible = self.ui.visible_panels();
                if crate::ui::state::contains_panel(&visible, panel) {
                    self.ui.focus = panel;
                }
            },
            Action::ToggleMenu => self.ui.menu_open = !self.ui.menu_open,
            Action::CycleTheme => {
                self.ui.theme = self.ui.theme.next();
                let message = concat("Theme: ", self.ui.theme.label());
                self.show_notice(message);
            },
            Action::CycleDensity => {
                self.ui.density = self.ui.density.cycle();
                let message = concat("Layout: ", density_label(self.ui.density));
                self.show_notice(message);
            },
            Action::TogglePanel => {
                let result = self.ui.toggle_panel();
                self.show_notice(toggle_notice(result));
            },

            _ => {},
        }
        Vec::new()
    }

    /// Moves within lists, opening the selection and going back.
    fn update_list(&mut self, action: Action) -> (r: Vec<Effect>)
        requires
            old(self).wf(),
            is_list_action(action),
        ensures
            final(self).wf(),
            updated(*old(self), *final(self), action, r@),
    {
        let focus = self.ui.focus;
        match action {
            Action::MoveUp => self.move_list(focus, -1),
            Action::MoveDown => self.move_list(focus, 1),
            Action::PageUp => {
                let v = self.viewport(focus);
                self.move_list(focus, -(v as isize));
            },
            Action::PageDown => {
                let v = self.viewport(focus);
                self.move_list(focus, v as isize);
            },
            Action::Home => self.move_list(focus, isize::MIN / 2),
            Action::End => self.move_list(focus, isize::MAX / 2),
            Action::Scroll(panel, delta) => self.move_list(panel, delta as isize),
            Action::Select(panel, index) => self.select_row(panel, index),
            Action::Open => {
                if focus == PanelId::Processes && self.selected_process().is_some() {
                    self.mode = AppMode::ProcessDetail;
                }
            },
            Action::Back => self.back(),
            _ => {},
        }
        Vec::new()
    }

    /// Filtering, sorting and the two steps of a process action.
    fn update_process(&mut self, action: Action) -> (r: Vec<Effect>)
        requires
            old(self).wf(),
            is_process_action(action),
        ensures
            final(self).wf(),
            updated(*old(self), *final(self), action, r@),
    {
        let focus = self.ui.focus;
        match action {
            Action::StartFilter => self.mode = AppMode::Filtering,
            Action::FilterInput(character) => {
                crate::text::push_char(&mut self.filter, character);
                self.select_first();
            },
            Action::FilterBackspace => {
                let mut chars = chars_of(self.filter.as_str());
                if chars.len() > 0 {
                    chars.pop();
                }
                self.filter = string_of(&chars);
                self.select_first();
            },
            Action::FilterSubmit => self.mode = AppMode::Dashboard,
            Action::CycleSort => {
                self.sort = match self.sort {
                    SortMode::Cpu => SortMode::Memory,
                    SortMode::Memory => SortMode::Cpu,
                };
                self.reconcile_selection();
            },
            Action::Terminate => self.begin_action(ActionKind::Terminate),
            Action::Kill => self.begin_action(ActionKind::Kill),
            Action::Confirm => {
                self.mode = AppMode::Dashboard;
                let pending = self.pending_action;
                self.pending_action = None;
                match pending {
                    Some(p) => {
                        let mut effects: Vec<Effect> = Vec::new();
                        effects.push(Effect::SendSignal(p.confirm()));
                        assert(effects@ =~= seq![Effect::SendSignal(p.confirm_spec())]);
                        return effects;
                    },
                    None => {},
                }
            },
            Action::Cancel => {
                self.mode = AppMode::Dashboard;
                let pending = self.pending_action;
                self.pending_action = None;
                match pending {
                    Some(p) => {
                        let _ = p.cancel();
                    },
                    None => {},
                }
            },
            _ => {},
        }
        Vec::new()
    }

    /// Carry out one action; the effects are work for the event loop.
    pub fn update(&mut self, action: Action) -> (r: Vec<Effect>)
        requires
            old(self).wf(),
        ensures
            final(self).wf(),
            updated(*old(self), *final(self), action, r@),
    {
        if is_view(&action) {
            self.update_view(action)
        } else if is_list(&action) {
            self.update_list(action)
        } else {
            self.update_process(action)
        }
    }

    /// Resolve a key against the active contexts and carry out its action.
    pub fn handle_key(&mut self, key: KeyEvent) -> (r: Vec<Effect>)
        requires
            old(self).wf(),
        ensures
            final(self).wf(),
            match resolve_spec(old(self).contexts_spec(), key) {
                Some(a) => updated(*old(self), *final(self), a, r@),
                None => unchanged(*old(self), *final(self)) && r@.len() == 0,
            },
    {
        let contexts = self.contexts();
        match resolve(contexts.as_slice(), &key) {
            Some(action) => self.update(action),
            None => Vec::new(),
        }
    }

    /// Translate a mouse event through the last frame's click targets and carry out its
    /// action; the mouse is ignored while the filter is edited.
    pub fn handle_mouse(&mut self, mouse: MouseEvent) -> (r: Vec<Effect>)
        requires
            old(self).wf(),
        ensures
            final(self).wf(),
            old(self).mode == AppMode::Filtering ==> unchanged(*old(self), *final(self)) && r@.len() == 0,
            old(self).mode != AppMode::Filtering ==> {
                let (act, memory) = mouse_action_spec(
                    old(self).last_render.hits@,
                    mouse,
                    old(self).ui.focus,
                    old(self).clicks,
                    old(self).now,
                );
                let clicked = App { clicks: memory, ..*old(self) };
                match act {
                    Some(a) => updated(clicked, *final(self), a, r@),
                    None => unchanged(clicked, *final(self)) && r@.len() == 0,
                }
            },
    {
        if self.mode == AppMode::Filtering {
            return Vec::new();
        }
        let focus = self.ui.focus;
        let now = self.now;
        let action = mouse_action(&self.last_render.hits, &mouse, focus, &mut self.clicks, now);
        match action {
            Some(a) => self.update(a),
            None => Vec::new(),
        }
    }

    /// Merge a collector update into the state and keep every list selection valid.
    pub fn apply_update(&mut self, update: CollectorUpdate)
        requires
            old(self).wf(),
            update_fits(update),
        ensures
            final(self).wf(),
            update_applied(*old(self), *final(self), update),
    {
        self.state.apply(update);
        self.reconcile_selection();
        proof {
            lemma_list_len_bound(*self, PanelId::Interfaces);
            lemma_list_len_bound(*self, PanelId::Traffic);
            lemma_list_len_bound(*self, PanelId::Disks);
        }
        let len = self.list_len(PanelId::Interfaces);
        let viewport = self.viewport(PanelId::Interfaces);
        self.ui.list_mut(PanelId::Interfaces).clamp(len, viewport);
        let len = self.list_len(PanelId::Traffic);
        let viewport = self.viewport(PanelId::Traffic);
        self.ui.list_mut(PanelId::Traffic).clamp(len, viewport);
        let len = self.list_len(PanelId::Disks);
        let viewport = self.viewport(PanelId::Disks);
        self.ui.list_mut(PanelId::Disks).clamp(len, viewport);
    }

    /// Add one sample to the metric histories.
    pub fn record_history(&mut self, sample: &HistorySample)
        requires
            old(self).wf(),
        ensures
            final(self).wf(),
            final(self).history.capacity_spec() == old(self).history.capacity_spec(),
            final(self).history.model() == after_record(
                old(self).history.model(),
                *sample,
                old(self).history.capacity_spec(),
            ),
            final(self).ui == old(self).ui,
            final(self).state == old(self).state,
            keeps_choices(*old(self), *final(self)),
            keeps_notice(*old(self), *final(self)),
    {
        self.history.record(sample);
    }
}

/// The interface is in confirmation mode only while an action is pending.
pub open spec fn pending_consistent(a: App) -> bool {
    a.mode == AppMode::ConfirmingAction ==> a.pending_action is Some
}

/// A signal is only ever sent after an explicit confirmation: an action yields a
/// `SendSignal` effect only if it is `Confirm` and an action was pending, and the signal
/// is that action's, for its process; nothing is pending afterwards.
pub proof fn lemma_signal_needs_confirmation(old: App, new: App, action: Action, effects: Seq<Effect>)
    requires
        updated(old, new, action, effects),
    ensures
        forall|i: int|
            0 <= i < effects.len() && (#[trigger] effects[i]) is SendSignal ==> {
                &&& action == Action::Confirm
                &&& (old.pending_action matches Some(p) && effects[i] == Effect::SendSignal(p.confirm_spec()))
                &&& (old.pending_action matches Some(p) && effects[i] matches Effect::SendSignal(c)
                    && c.identity_spec() == p.identity_spec() && c.kind_spec() == p.kind_spec())
                &&& new.pending_action is None
                &&& effects.len() == 1
            },
{
    if let Some(p) = old.pending_action {
        lemma_confirm_keeps_target(p);
    }
}

/// Turning a confirmation down sends nothing and leaves nothing pending.
pub proof fn lemma_cancel_sends_nothing(old: App, new: App, effects: Seq<Effect>)
    requires
        updated(old, new, Action::Cancel, effects),
    ensures
        effects.len() == 0,
        new.pending_action is None,
        new.mode == AppMode::Dashboard,
{
}

/// Every action keeps confirmation mode tied to a pending action.
pub proof fn lemma_actions_keep_pending_consistent(old: App, new: App, action: Action, effects: Seq<Effect>)
    requires
        updated(old, new, action, effects),
        pending_consistent(old),
    ensures
        pending_consistent(new),
{
}

proof fn lemma_has_identity_found(ps: Seq<ProcessInfo>, id: ProcessIdentity)
    requires
        has_identity(ps, id),
    ensures
        0 <= find_identity(ps, id, 0) < ps.len(),
        ps[find_identity(ps, id, 0)].identity == id,
{
    lemma_find_identity(ps, id, 0);
    let k = choose|k: int| 0 <= k < ps.len() && (#[trigger] ps[k]).identity == id;
    assert(ps[k].identity == id);
}

/// After a collector update, confirmation mode is left unless the pending action's
/// process is still listed.
pub proof fn lemma_update_keeps_confirmation_valid(old: App, new: App, update: CollectorUpdate)
    requires
        update_applied(old, new, update),
        pending_consistent(old),
    ensures
        pending_consistent(new),
        new.mode == AppMode::ConfirmingAction ==> (new.pending_action matches Some(p) && has_identity(
            new.visible_spec(),
            p.identity_spec(),
        )),
{
    let mid = App { state: new.state, ..old };
    assert(mid.visible_spec() == new.visible_spec());
}

/// The selection follows the selected process across collector updates: if the process
/// with the selected identity is still listed, it is still the one selected.
pub proof fn lemma_selection_follows_identity(old: App, new: App, update: CollectorUpdate, id: ProcessIdentity)
    requires
        update_applied(old, new, update),
        old.ui.wf(),
        new.wf(),
        old.selected_identity == Some(id),
        has_identity(new.visible_spec(), id),
    ensures
        new.selected_identity == Some(id),
        new.ui.list_spec(PanelId::Processes).selected < new.visible_spec().len(),
        new.visible_spec()[new.ui.list_spec(PanelId::Processes).selected as int].identity == id,
{
    let mid = App { state: new.state, ..old };
    let ps = mid.visible_spec();
    assert(ps == new.visible_spec());
    lemma_visible_bound(new.state, new.filter@, new.sort);
    lemma_has_identity_found(ps, id);
    let list = reconciled_list(mid);
    assert(reconciled_index(ps, Some(id)) == find_identity(ps, id, 0));
    assert(list.selected == find_identity(ps, id, 0));
    assert(new.ui.lists@[PanelId::Processes.slot()] == list);
}

/// After a collector update every list's selection is a row of its list and lies in
/// the window the panel shows.
pub proof fn lemma_update_keeps_lists_in_bounds(old: App, new: App, update: CollectorUpdate)
    requires
        update_applied(old, new, update),
        old.ui.wf(),
        new.wf(),
    ensures
        in_bounds(
            new.ui.list_spec(PanelId::Processes),
            new.list_len_spec(PanelId::Processes) as usize,
            new.viewport_spec(PanelId::Processes),
        ),
        in_bounds(
            new.ui.list_spec(PanelId::Interfaces),
            new.list_len_spec(PanelId::Interfaces) as usize,
            new.viewport_spec(PanelId::Interfaces),
        ),
        in_bounds(
            new.ui.list_spec(PanelId::Traffic),
            new.list_len_spec(PanelId::Traffic) as usize,
            new.viewport_spec(PanelId::Traffic),
        ),
        in_bounds(
            new.ui.list_spec(PanelId::Disks),
            new.list_len_spec(PanelId::Disks) as usize,
            new.viewport_spec(PanelId::Disks),
        ),
{
    let mid = App { state: new.state, ..old };
    lemma_list_len_bound(new, PanelId::Processes);
    lemma_list_len_bound(new, PanelId::Interfaces);
    lemma_list_len_bound(new, PanelId::Traffic);
    lemma_list_len_bound(new, PanelId::Disks);
    let ps = mid.visible_spec();
    let prev = mid.selected_identity;
    lemma_find_other_pid(ps, prev, 0);
    match prev {
        Some(id) => lemma_find_identity(ps, id, 0),
        None => {},
    }
    lemma_clamp_in_bounds(
        ListState {
            selected: reconciled_index(ps, prev) as usize,
            offset: mid.ui.list_spec(PanelId::Processes).offset,
        },
        ps.len() as usize,
        mid.viewport_spec(PanelId::Processes),
    );
    lemma_clamp_in_bounds(
        old.ui.list_spec(PanelId::Interfaces),
        new.list_len_spec(PanelId::Interfaces) as usize,
        old.viewport_spec(PanelId::Interfaces),
    );
    lemma_clamp_in_bounds(
        old.ui.list_spec(PanelId::Traffic),
        new.list_len_spec(PanelId::Traffic) as usize,
        old.viewport_spec(PanelId::Traffic),
    );
    lemma_clamp_in_bounds(
        old.ui.list_spec(PanelId::Disks),
        new.list_len_spec(PanelId::Disks) as usize,
        old.viewport_spec(PanelId::Disks),
    );
}

/// Moving through a list never leaves it: after any move the moved list is in bounds.
pub proof fn lemma_moves_stay_in_bounds(old: App, new: App, panel: PanelId, delta: isize)
    requires
        moved_by(old, new, panel, delta),
        old.wf(),
    ensures
        in_bounds(new.ui.lists@[panel.slot()], old.list_len_spec(panel) as usize, old.viewport_spec(panel)),
{
    lemma_list_len_bound(old, panel);
    let l = old.ui.list_spec(panel);
    let len = old.list_len_spec(panel);
    if len > 0 {
        lemma_clamp_in_bounds(
            ListState { selected: moved_selection(l.selected, delta, len as usize) as usize, offset: l.offset },
            len as usize,
            old.viewport_spec(panel),
        );
    } else {
        lemma_clamp_in_bounds(l, len as usize, old.viewport_spec(panel));
    }
}

/// Page keys move the focused list's selection by one page, the rows the panel shows:
/// PageUp back by that many rows, stopping at the first row, and PageDown forward by
/// the same number, stopping at the last.
pub proof fn lemma_pages_move_by_the_viewport(old: App, new: App, action: Action, effects: Seq<Effect>)
    requires
        old.wf(),
        action == Action::PageUp || action == Action::PageDown,
        updated(old, new, action, effects),
        old.ui.list_spec(old.ui.focus).selected < old.list_len_spec(old.ui.focus),
    ensures
        ({
            let focus = old.ui.focus;
            let s = old.ui.list_spec(focus).selected as int;
            let v = old.viewport_spec(focus) as int;
            let len = old.list_len_spec(focus);
            &&& action == Action::PageUp ==> new.ui.list_spec(focus).selected == (if s >= v { s - v } else { 0 })
            &&& action == Action::PageDown ==> new.ui.list_spec(focus).selected == (if s + v < len {
                s + v
            } else {
                len - 1
            })
        }),
{
    let focus = old.ui.focus;
    lemma_list_len_bound(old, focus);
    let l = old.ui.list_spec(focus);
    let len = old.list_len_spec(focus);
    let v = old.viewport_spec(focus);
    assert(1 <= v <= 65535);
    let delta: isize = if action == Action::PageUp { (-(v as int)) as isize } else { v as isize };
    let moved = ListState { selected: moved_selection(l.selected, delta, len as usize) as usize, offset: l.offset };
    assert(new.ui.lists@[focus.slot()] == clamped(moved, len as usize, v));
}

/// The arrow keys move the focused list's selection by one row, stopping at either
/// end; Home goes to the first row and End to the last (they jump by half the range of
/// `isize`, so this holds of every list shorter than that).
pub proof fn lemma_line_keys_move_the_selection(old: App, new: App, action: Action, effects: Seq<Effect>)
    requires
        old.wf(),
        action == Action::MoveUp || action == Action::MoveDown || action == Action::Home || action
            == Action::End,
        updated(old, new, action, effects),
        old.ui.list_spec(old.ui.focus).selected < old.list_len_spec(old.ui.focus),
        old.list_len_spec(old.ui.focus) <= isize::MAX / 2,
    ensures
        ({
            let focus = old.ui.focus;
            let s = old.ui.list_spec(focus).selected as int;
            let len = old.list_len_spec(focus);
            &&& action == Action::MoveUp ==> new.ui.list_spec(focus).selected == (if s >= 1 { s - 1 } else { 0 })
            &&& action == Action::MoveDown ==> new.ui.list_spec(focus).selected == (if s + 1 < len {
                s + 1
            } else {
                len - 1
            })
            &&& action == Action::Home ==> new.ui.list_spec(focus).selected == 0
            &&& action == Action::End ==> new.ui.list_spec(focus).selected == len - 1
        }),
{
    let focus = old.ui.focus;
    lemma_list_len_bound(old, focus);
    let l = old.ui.list_spec(focus);
    let len = old.list_len_spec(focus);
    let v = old.viewport_spec(focus);
    let delta: isize = if action == Action::MoveUp {
        -1isize
    } else if action == Action::MoveDown {
        1isize
    } else if action == Action::Home {
        (isize::MIN / 2) as isize
    } else {
        (isize::MAX / 2) as isize
    };
    let moved = ListState { selected: moved_selection(l.selected, delta, len as usize) as usize, offset: l.offset };
    assert(new.ui.lists@[focus.slot()] == clamped(moved, len as usize, v));
}

/// Terminate and Kill on a selected process other than this program send nothing yet:
/// they ask for confirmation of that very process with the matching signal. On this
/// program's own process they ask nothing and leave the pending action as it was.
pub proof fn lemma_signals_are_asked_first(old: App, new: App, action: Action, effects: Seq<Effect>)
    requires
        action == Action::Terminate || action == Action::Kill,
        updated(old, new, action, effects),
    ensures
        effects.len() == 0,
        old.selected_spec() matches Some(p) ==> (p.identity.pid != old.own_pid ==> {
            &&& new.mode == AppMode::ConfirmingAction
            &&& new.pending_action matches Some(pa) && pa.identity_spec() == p.identity
            &&& (action == Action::Terminate ==> (new.pending_action matches Some(pa) && pa.kind_spec()
                == ActionKind::Terminate))
            &&& (action == Action::Kill ==> (new.pending_action matches Some(pa) && pa.kind_spec()
                == ActionKind::Kill))
        }),
        old.selected_spec() matches Some(p) ==> (p.identity.pid == old.own_pid ==> new.pending_action
            == old.pending_action && new.mode == old.mode),
        old.selected_spec() is None ==> new.pending_action == old.pending_action,
{
}

/// The cycling keys always change what they cycle, and come back after a full turn:
/// the sort after two presses, the density after three; the menu key flips the menu.
pub proof fn lemma_cycles_change_and_return(a: App, b: App, c: App, d: App, action: Action, e1: Seq<Effect>, e2: Seq<Effect>, e3: Seq<Effect>)
    requires
        action == Action::CycleSort || action == Action::CycleDensity || action == Action::ToggleMenu,
        updated(a, b, action, e1),
        updated(b, c, action, e2),
        updated(c, d, action, e3),
    ensures
        action == Action::CycleSort ==> b.sort != a.sort && c.sort == a.sort,
        action == Action::CycleDensity ==> b.ui.density != a.ui.density && c.ui.density != a.ui.density
            && c.ui.density != b.ui.density && d.ui.density == a.ui.density,
        action == Action::ToggleMenu ==> b.ui.menu_open == !a.ui.menu_open && c.ui.menu_open == a.ui.menu_open,
{
}

/// The workspace keys step through the tabs in order, Overview, Processes, Network,
/// Disks, More and round again: NextWorkspace goes one tab right and PrevWorkspace one
/// tab left.
pub proof fn lemma_workspace_steps(a: App, b: App, action: Action, effects: Seq<Effect>)
    requires
        action == Action::NextWorkspace || action == Action::PrevWorkspace,
        updated(a, b, action, effects),
    ensures
        effects.len() == 0,
        action == Action::NextWorkspace ==> b.ui.workspace == match a.ui.workspace {
            Workspace::Overview => Workspace::Processes,
            Workspace::Processes => Workspace::Network,
            Workspace::Network => Workspace::Disks,
            Workspace::Disks => Workspace::More,
            Workspace::More => Workspace::Overview,
        },
        action == Action::PrevWorkspace ==> b.ui.workspace == match a.ui.workspace {
            Workspace::Overview => Workspace::More,
            Workspace::Processes => Workspace::Overview,
            Workspace::Network => Workspace::Processes,
            Workspace::Disks => Workspace::Network,
            Workspace::More => Workspace::Disks,
        },
{
}

} // verus!
