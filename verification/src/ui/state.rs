use vstd::prelude::*;

use super::theme::Theme;
use crate::input::list::ListState;

verus! {

#[derive(Clone, Copy, Debug, PartialEq, Eq, Hash, Structural)]
pub enum Workspace {
    Overview,
    Processes,
    Network,
    Disks,
    More,
}

/// The workspaces in tab order.
pub open spec fn workspace_order() -> Seq<Workspace> {
    seq![
        Workspace::Overview,
        Workspace::Processes,
        Workspace::Network,
        Workspace::Disks,
        Workspace::More,
    ]
}

pub open spec fn workspace_label(w: Workspace) -> Seq<char> {
    match w {
        Workspace::Overview => "Overview"@,
        Workspace::Processes => "Processes"@,
        Workspace::Network => "Network"@,
        Workspace::Disks => "Disks"@,
        Workspace::More => "More…"@,
    }
}

/// The panels each workspace lays out, in focus order.
pub open spec fn workspace_panels(w: Workspace) -> Seq<PanelId> {
    match w {
        Workspace::Overview => seq![PanelId::Resources, PanelId::Processes, PanelId::Details],
        Workspace::Processes => seq![PanelId::Processes, PanelId::Details],
        Workspace::Network => seq![PanelId::Interfaces, PanelId::Traffic],
        Workspace::Disks => seq![PanelId::Disks],
        Workspace::More => seq![PanelId::Settings],
    }
}

impl Workspace {
    pub const ALL: [Self; 5] = [
        Self::Overview,
        Self::Processes,
        Self::Network,
        Self::Disks,
        Self::More,
    ];

    pub open spec fn index(self) -> int {
        match self {
            Workspace::Overview => 0,
            Workspace::Processes => 1,
            Workspace::Network => 2,
            Workspace::Disks => 3,
            Workspace::More => 4,
        }
    }

    pub fn label(self) -> (r: &'static str)
        ensures
            r@ == workspace_label(self),
    {
        match self {
            Workspace::Overview => "Overview",
            Workspace::Processes => "Processes",
            Workspace::Network => "Network",
            Workspace::Disks => "Disks",
            Workspace::More => "More…",
        }
    }

    /// The workspace `direction` tabs away, wrapping around at both ends.
    pub fn step(self, direction: i8) -> (r: Self)
        requires
            i8::MIN <= self.index() + direction <= i8::MAX,
        ensures
            r == workspace_order()[(self.index() + direction) % 5],
    {
        let current: i16 = match self {
            Workspace::Overview => 0,
            Workspace::Processes => 1,
            Workspace::Network => 2,
            Workspace::Disks => 3,
            Workspace::More => 4,
        };
        let shifted: i16 = current + direction as i16 + 130;
        let next: i16 = shifted % 5;
        assert(next == (self.index() + direction) % 5) by (nonlinear_arith)
            requires
                shifted == self.index() + direction + 130,
                shifted >= 0,
                next == shifted % 5,
        ;
        if next == 0 {
            Workspace::Overview
        } else if next == 1 {
            Workspace::Processes
        } else if next == 2 {
            Workspace::Network
        } else if next == 3 {
            Workspace::Disks
        } else {
            Workspace::More
        }
    }

    pub fn panels(self) -> (r: &'static [PanelId])
        ensures
            r@ == workspace_panels(self),
    {
        match self {
            Workspace::Overview => {
                let r: &'static [PanelId] = &[PanelId::Resources, PanelId::Processes, PanelId::Details];
                r
            },
            Workspace::Processes => {
                let r: &'static [PanelId] = &[PanelId::Processes, PanelId::Details];
                r
            },
            Workspace::Network => {
                let r: &'static [PanelId] = &[PanelId::Interfaces, PanelId::Traffic];
                r
            },
            Workspace::Disks => {
                let r: &'static [PanelId] = &[PanelId::Disks];
                r
            },
            Workspace::More => {
                let r: &'static [PanelId] = &[PanelId::Settings];
                r
            },
        }
    }
}

#[derive(Clone, Copy, Debug, PartialEq, Eq, Hash, Structural)]
pub enum PanelId {
    Resources,
    Processes,
    Details,
    Interfaces,
    Traffic,
    Disks,
    Settings,
}

pub open spec fn panel_label(p: PanelId) -> Seq<char> {
    match p {
        PanelId::Resources => "Resources"@,
        PanelId::Processes => "Processes"@,
        PanelId::Details => "Details"@,
        PanelId::Interfaces => "Interfaces"@,
        PanelId::Traffic => "Traffic"@,
        PanelId::Disks => "Disks"@,
        PanelId::Settings => "Settings"@,
    }
}

impl PanelId {
    /// The slot of this panel's list state.
    pub open spec fn slot(self) -> int {
        match self {
            PanelId::Resources => 0,
            PanelId::Processes => 1,
            PanelId::Details => 2,
            PanelId::Interfaces => 3,
            PanelId::Traffic => 4,
            PanelId::Disks => 5,
            PanelId::Settings => 6,
        }
    }

    pub fn slot_index(self) -> (r: usize)
        ensures
            r == self.slot(),
    {
        match self {
            PanelId::Resources => 0,
            PanelId::Processes => 1,
            PanelId::Details => 2,
            PanelId::Interfaces => 3,
            PanelId::Traffic => 4,
            PanelId::Disks => 5,
            PanelId::Settings => 6,
        }
    }

    pub fn label(self) -> (r: &'static str)
        ensures
            r@ == panel_label(self),
    {
        match self {
            PanelId::Resources => "Resources",
            PanelId::Processes => "Processes",
            PanelId::Details => "Details",
            PanelId::Interfaces => "Interfaces",
            PanelId::Traffic => "Traffic",
            PanelId::Disks => "Disks",
            PanelId::Settings => "Settings",
        }
    }
}

#[derive(Clone, Copy, Debug, PartialEq, Eq, Structural)]
pub enum LayoutDensity {
    Compact,
    Balanced,
    Spacious,
}

impl LayoutDensity {
    pub fn cycle(self) -> (r: Self)
        ensures
            r == match self {
                LayoutDensity::Compact => LayoutDensity::Balanced,
                LayoutDensity::Balanced => LayoutDensity::Spacious,
                LayoutDensity::Spacious => LayoutDensity::Compact,
            },
    {
        match self {
            LayoutDensity::Compact => LayoutDensity::Balanced,
            LayoutDensity::Balanced => LayoutDensity::Spacious,
            LayoutDensity::Spacious => LayoutDensity::Compact,
        }
    }
}

#[derive(Clone, Copy, Debug, PartialEq, Eq, Structural)]
pub enum PanelToggle {
    Hidden(PanelId),
    Restored,
    LastPanel,
}

/// The panels of `panels` that `hidden` does not hold, in order.
pub open spec fn unhidden(panels: Seq<PanelId>, hidden: Seq<PanelId>) -> Seq<PanelId>
    decreases panels.len(),
{
    if panels.len() == 0 {
        Seq::empty()
    } else {
        let rest = unhidden(panels.drop_last(), hidden);
        if hidden.contains(panels.last()) {
            rest
        } else {
            rest.push(panels.last())
        }
    }
}

/// The first position of `x` in `s`, or -1.
pub open spec fn index_in<T>(s: Seq<T>, x: T) -> int
    decreases s.len(),
{
    if s.len() == 0 {
        -1
    } else {
        let r = index_in(s.drop_last(), x);
        if r >= 0 {
            r
        } else if s.last() == x {
            s.len() - 1
        } else {
            -1
        }
    }
}

pub proof fn lemma_index_in<T>(s: Seq<T>, x: T)
    ensures
        -1 <= index_in(s, x) < s.len(),
        index_in(s, x) >= 0 <==> s.contains(x),
        index_in(s, x) >= 0 ==> s[index_in(s, x)] == x,
        index_in(s, x) >= 0 ==> forall|j: int| 0 <= j < index_in(s, x) ==> s[j] != x,
    decreases s.len(),
{
    if s.len() > 0 {
        let d = s.drop_last();
        lemma_index_in(d, x);
        let r = index_in(d, x);
        if r >= 0 {
            assert(s[r] == d[r]);
            assert forall|j: int| 0 <= j < r implies s[j] != x by {
                assert(s[j] == d[j]);
            }
        } else {
            assert forall|j: int| 0 <= j < s.len() - 1 implies s[j] != x by {
                assert(s[j] == d[j]);
                if s[j] == x {
                    assert(d.contains(x));
                }
            }
            if s.last() == x {
                assert(s[s.len() - 1] == x);
            } else if s.contains(x) {
                let k = choose|k: int| 0 <= k < s.len() && s[k] == x;
                assert(false);
            }
        }
    }
}

pub proof fn lemma_unhidden(panels: Seq<PanelId>, hidden: Seq<PanelId>)
    ensures
        unhidden(panels, hidden).len() <= panels.len(),
        forall|p: PanelId|
            #[trigger] unhidden(panels, hidden).contains(p) <==> panels.contains(p)
                && !hidden.contains(p),
    decreases panels.len(),
{
    if panels.len() > 0 {
        let d = panels.drop_last();
        let last = panels.last();
        lemma_unhidden(d, hidden);
        let rest = unhidden(d, hidden);
        let all = unhidden(panels, hidden);
        assert forall|p: PanelId| all.contains(p) implies panels.contains(p) && !hidden.contains(p) by {
            let j = choose|j: int| 0 <= j < all.len() && all[j] == p;
            if j < rest.len() {
                assert(rest[j] == p);
                assert(rest.contains(p));
                let k = choose|k: int| 0 <= k < d.len() && d[k] == p;
                assert(panels[k] == p);
            } else {
                assert(p == last);
                assert(panels[panels.len() - 1] == p);
            }
        }
        assert forall|p: PanelId| panels.contains(p) && !hidden.contains(p) implies all.contains(p) by {
            let k = choose|k: int| 0 <= k < panels.len() && panels[k] == p;
            if k < panels.len() - 1 {
                assert(d[k] == p);
                assert(d.contains(p));
                assert(rest.contains(p));
                let j = choose|j: int| 0 <= j < rest.len() && rest[j] == p;
                if !hidden.contains(last) {
                    assert(all[j] == p);
                }
            } else {
                assert(all[rest.len() as int] == p);
            }
        }
    }
}

/// Workspace, focus, layout and per-panel list positions of the interface.
#[derive(Clone, Debug, PartialEq, Eq)]
pub struct UiState {
    pub workspace: Workspace,
    pub focus: PanelId,
    pub density: LayoutDensity,
    /// Panels the user hid; no panel occurs twice.
    pub hidden_panels: Vec<PanelId>,
    /// One list state per panel, at the panel's slot.
    pub lists: Vec<ListState>,
    pub menu_open: bool,
    pub theme: Theme,
}

impl UiState {
    /// Every panel has a list slot and no panel is hidden twice.
    pub open spec fn wf(&self) -> bool {
        &&& self.lists@.len() == 7
        &&& self.hidden_panels@.no_duplicates()
    }

    pub open spec fn visible_spec(&self) -> Seq<PanelId> {
        unhidden(workspace_panels(self.workspace), self.hidden_panels@)
    }

    pub open spec fn list_spec(&self, panel: PanelId) -> ListState {
        self.lists@[panel.slot()]
    }

    pub fn new() -> (r: Self)
        ensures
            r.wf(),
            r.workspace == Workspace::Overview,
            r.focus == PanelId::Processes,
            r.density == LayoutDensity::Balanced,
            r.hidden_panels@.len() == 0,
            forall|i: int| 0 <= i < 7 ==> r.lists@[i] == (ListState { selected: 0, offset: 0 }),
            !r.menu_open,
            r.theme == Theme::Forest,
    {
        let mut lists: Vec<ListState> = Vec::new();
        let mut i: usize = 0;
        while i < 7
            invariant
                i <= 7,
                lists@.len() == i,
                forall|j: int| 0 <= j < i ==> lists@[j] == (ListState { selected: 0, offset: 0 }),
            decreases 7 - i,
        {
            lists.push(ListState { selected: 0, offset: 0 });
            i = i + 1;
        }
        UiState {
            workspace: Workspace::Overview,
            focus: PanelId::Processes,
            density: LayoutDensity::Balanced,
            hidden_panels: Vec::new(),
            lists,
            menu_open: false,
            theme: Theme::Forest,
        }
    }

    pub fn is_hidden(&self, panel: PanelId) -> (r: bool)
        ensures
            r == self.hidden_panels@.contains(panel),
    {
        let mut i: usize = 0;
        while i < self.hidden_panels.len()
            invariant
                i <= self.hidden_panels@.len(),
                forall|j: int| 0 <= j < i ==> self.hidden_panels@[j] != panel,
            decreases self.hidden_panels@.len() - i,
        {
            if self.hidden_panels[i] == panel {
                return true;
            }
            i = i + 1;
        }
        false
    }

    pub fn visible_panels(&self) -> (r: Vec<PanelId>)
        ensures
            r@ == self.visible_spec(),
    {
        let panels = self.workspace.panels();
        let mut result: Vec<PanelId> = Vec::new();
        let mut i: usize = 0;
        while i < panels.len()
            invariant
                i <= panels@.len(),
                panels@ == workspace_panels(self.workspace),
                result@ == unhidden(panels@.take(i as int), self.hidden_panels@),
            decreases panels@.len() - i,
        {
            assert(panels@.take(i + 1).drop_last() == panels@.take(i as int));
            if !self.is_hidden(panels[i]) {
                result.push(panels[i]);
            }
            i = i + 1;
        }
        assert(panels@.take(panels@.len() as int) == panels@);
        result
    }

    pub fn set_workspace(&mut self, workspace: Workspace)
        ensures
            workspace_set(*old(self), *final(self), workspace),
    {
        self.workspace = workspace;
        self.menu_open = false;
        let visible = self.visible_panels();
        if !contains_panel(&visible, self.focus) {
            if visible.len() > 0 {
                self.focus = visible[0];
            } else {
                self.focus = workspace.panels()[0];
            }
        }
    }

    /// Move focus `direction` places through the visible panels, wrapping around.
    pub fn focus_step(&mut self, direction: isize)
        requires
            isize::MIN <= focus_position(old(self).visible_spec(), old(self).focus) + direction <= isize::MAX,
        ensures
            focus_stepped(*old(self), *final(self), direction as int),
    {
        let visible = self.visible_panels();
        if visible.len() == 0 {
            return;
        }
        proof {
            lemma_unhidden(workspace_panels(self.workspace), self.hidden_panels@);
        }
        let current = position_of(&visible, self.focus);
        let len = visible.len();
        let sum: isize = current + direction;
        let next: usize = euclid_rem(sum, len);
        self.focus = visible[next as usize];
    }

    /// `H`: restore this workspace's hidden panels, or hide the focused one.
    pub fn toggle_panel(&mut self) -> (r: PanelToggle)
        requires
            old(self).wf(),
        ensures
            panel_toggled(*old(self), *final(self), r),
    {
        let panels = self.workspace.panels();
        let mut found = false;
        let mut i: usize = 0;
        while i < panels.len()
            invariant
                i <= panels@.len(),
                panels@ == workspace_panels(self.workspace),
                found == any_hidden(panels@.take(i as int), self.hidden_panels@),
            decreases panels@.len() - i,
        {
            assert(panels@.take(i + 1).drop_last() == panels@.take(i as int));
            if self.is_hidden(panels[i]) {
                found = true;
            }
            i = i + 1;
        }
        assert(panels@.take(panels@.len() as int) == panels@);
        if found {
            let mut kept: Vec<PanelId> = Vec::new();
            let mut j: usize = 0;
            while j < self.hidden_panels.len()
                invariant
                    j <= self.hidden_panels@.len(),
                    panels@ == workspace_panels(self.workspace),
                    self.hidden_panels@.no_duplicates(),
                    kept@.no_duplicates(),
                    forall|p: PanelId| #[trigger] kept@.contains(p) <==> (exists|k: int|
                        0 <= k < j && self.hidden_panels@[k] == p) && !panels@.contains(p),
                decreases self.hidden_panels@.len() - j,
            {
                let p = self.hidden_panels[j];
                let ghost old_kept = kept@;
                let outside = !slice_contains_panel(panels, p);
                if outside {
                    proof {
                        assert(!kept@.contains(p)) by {
                            if kept@.contains(p) {
                                let k = choose|k: int| 0 <= k < j && self.hidden_panels@[k] == p;
                                assert(self.hidden_panels@[k] == self.hidden_panels@[j as int]);
                            }
                        }
                    }
                    kept.push(p);
                    proof {
                        assert(kept@.no_duplicates()) by {
                            assert forall|a: int, b: int| 0 <= a < b < kept@.len() implies kept@[a] != kept@[b] by {
                                if b == old_kept.len() {
                                    assert(old_kept.contains(old_kept[a]));
                                }
                            }
                        }
                    }
                }
                proof {
                    assert forall|q: PanelId| #[trigger] kept@.contains(q) <==> old_kept.contains(q) || (outside && q == p) by {
                        if kept@.contains(q) && outside {
                            let k = choose|k: int| 0 <= k < kept@.len() && kept@[k] == q;
                            if k < old_kept.len() {
                                assert(old_kept[k] == q);
                            }
                        }
                        if old_kept.contains(q) && outside {
                            let k = choose|k: int| 0 <= k < old_kept.len() && old_kept[k] == q;
                            assert(kept@[k] == q);
                        }
                        if outside && q == p {
                            assert(kept@[old_kept.len() as int] == q);
                        }
                    }
                    assert forall|q: PanelId| #[trigger] kept@.contains(q) <==> (exists|k: int|
                        0 <= k < j + 1 && self.hidden_panels@[k] == q) && !panels@.contains(q) by {
                        if exists|k: int| 0 <= k < j + 1 && self.hidden_panels@[k] == q {
                            let k = choose|k: int| 0 <= k < j + 1 && self.hidden_panels@[k] == q;
                            if k < j {
                                assert(exists|k2: int| 0 <= k2 < j && self.hidden_panels@[k2] == q);
                            }
                        }
                        if (exists|k: int| 0 <= k < j && self.hidden_panels@[k] == q) {
                            let k = choose|k: int| 0 <= k < j && self.hidden_panels@[k] == q;
                            assert(0 <= k < j + 1 && self.hidden_panels@[k] == q);
                        }
                        assert(0 <= j < j + 1 && self.hidden_panels@[j as int] == p);
                    }
                }
                j = j + 1;
            }
            proof {
                assert forall|p: PanelId| #[trigger] kept@.contains(p) <==> self.hidden_panels@.contains(p)
                    && !panels@.contains(p) by {
                    if self.hidden_panels@.contains(p) {
                        let k = choose|k: int| 0 <= k < self.hidden_panels@.len() && self.hidden_panels@[k] == p;
                        assert(0 <= k < self.hidden_panels@.len() && self.hidden_panels@[k] == p);
                    }
                }
            }
            self.hidden_panels = kept;
            return PanelToggle::Restored;
        }
        let visible = self.visible_panels();
        if visible.len() <= 1 {
            return PanelToggle::LastPanel;
        }
        let hidden = self.focus;
        proof {
            lemma_unhidden_none_hidden(panels@, self.hidden_panels@);
            lemma_workspace_panels_distinct(self.workspace);
        }
        let ghost before = self.hidden_panels@;
        if !self.is_hidden(hidden) {
            self.hidden_panels.push(hidden);
            proof {
                assert forall|p: PanelId| #[trigger] self.hidden_panels@.contains(p) <==> before.contains(p) || p == hidden by {
                    if self.hidden_panels@.contains(p) {
                        let k = choose|k: int| 0 <= k < self.hidden_panels@.len() && self.hidden_panels@[k] == p;
                        if k < before.len() {
                            assert(before[k] == p);
                        }
                    }
                    if before.contains(p) {
                        let k = choose|k: int| 0 <= k < before.len() && before[k] == p;
                        assert(self.hidden_panels@[k] == p);
                    }
                    if p == hidden {
                        assert(self.hidden_panels@[before.len() as int] == p);
                    }
                }
                assert(self.hidden_panels@.no_duplicates()) by {
                    assert forall|a: int, b: int| 0 <= a < b < self.hidden_panels@.len() implies self.hidden_panels@[a] != self.hidden_panels@[b] by {
                        if b == before.len() {
                            assert(before[a] == self.hidden_panels@[a]);
                            assert(before.contains(before[a]));
                        }
                    }
                }
            }
        }
        proof {
            let w = workspace_panels(self.workspace);
            lemma_unhidden(w, self.hidden_panels@);
            let other = if w[0] == hidden { w[1] } else { w[0] };
            assert(w.contains(other));
            assert(!before.contains(other)) by {
                if before.contains(other) {
                    assert(any_hidden_at(w, before, if w[0] == hidden { 1int } else { 0int }));
                    lemma_any_hidden(w, before, if w[0] == hidden { 1int } else { 0int });
                }
            }
            assert(unhidden(w, self.hidden_panels@).contains(other));
        }
        let now_visible = self.visible_panels();
        self.focus = now_visible[0];
        PanelToggle::Hidden(hidden)
    }

    pub fn list(&self, panel: PanelId) -> (r: ListState)
        requires
            self.wf(),
        ensures
            r == self.list_spec(panel),
    {
        self.lists[panel.slot_index()]
    }

    pub fn list_mut(&mut self, panel: PanelId) -> (r: &mut ListState)
        requires
            old(self).wf(),
        ensures
            *r == old(self).list_spec(panel),
            final(self).lists@ == old(self).lists@.update(panel.slot(), *final(r)),
            final(self).workspace == old(self).workspace,
            final(self).focus == old(self).focus,
            final(self).hidden_panels == old(self).hidden_panels,
            final(self).menu_open == old(self).menu_open,
            final(self).density == old(self).density,
            final(self).theme == old(self).theme,
    {
        let i = panel.slot_index();
        &mut self.lists[i]
    }
}

/// What `set_workspace` does: the workspace changes, the menu closes, and focus stays
/// where it is if that panel is visible there, else moves to the first visible panel.
pub open spec fn workspace_set(old: UiState, new: UiState, workspace: Workspace) -> bool {
    &&& (new.workspace == workspace)
    &&& (!new.menu_open)
    &&& (new.focus == (if unhidden(workspace_panels(workspace), old.hidden_panels@).contains(old.focus) {
                old.focus
            } else if unhidden(workspace_panels(workspace), old.hidden_panels@).len() > 0 {
                unhidden(workspace_panels(workspace), old.hidden_panels@)[0]
            } else {
                workspace_panels(workspace)[0]
            }))
    &&& (new.hidden_panels == old.hidden_panels)
    &&& (new.lists == old.lists)
    &&& (new.density == old.density)
    &&& (new.theme == old.theme)
}

/// What `focus_step` does: focus moves `direction` places through the visible panels,
/// wrapping around; nothing else changes.
pub open spec fn focus_stepped(old: UiState, new: UiState, direction: int) -> bool {
    &&& (new.focus == (if old.visible_spec().len() == 0 {
                old.focus
            } else {
                old.visible_spec()[(focus_position(old.visible_spec(), old.focus) + direction)
                    % old.visible_spec().len() as int]
            }))
    &&& (new.workspace == old.workspace)
    &&& (new.hidden_panels == old.hidden_panels)
    &&& (new.lists == old.lists)
    &&& (new.menu_open == old.menu_open)
    &&& (new.density == old.density)
    &&& (new.theme == old.theme)
}

/// What `toggle_panel` does: restore the workspace's hidden panels if it has any, else
/// refuse to hide its last visible panel, else hide the focused panel and focus the
/// first one still visible.
pub open spec fn panel_toggled(old: UiState, new: UiState, r: PanelToggle) -> bool {
    &&& (new.wf())
    &&& (new.workspace == old.workspace)
    &&& (new.lists == old.lists)
    &&& (new.menu_open == old.menu_open)
    &&& (new.density == old.density)
    &&& (new.theme == old.theme)
    &&& (any_hidden(workspace_panels(old.workspace), old.hidden_panels@) ==> {
                &&& r == PanelToggle::Restored
                &&& new.focus == old.focus
                &&& forall|p: PanelId| #[trigger] new.hidden_panels@.contains(p) <==> old.hidden_panels@.contains(p) && !workspace_panels(old.workspace).contains(p)
            })
    &&& (!any_hidden(workspace_panels(old.workspace), old.hidden_panels@)
                && old.visible_spec().len() <= 1 ==> {
                &&& r == PanelToggle::LastPanel
                &&& new.focus == old.focus
                &&& new.hidden_panels == old.hidden_panels
            })
    &&& (!any_hidden(workspace_panels(old.workspace), old.hidden_panels@)
                && old.visible_spec().len() > 1 ==> {
                &&& r == PanelToggle::Hidden(old.focus)
                &&& forall|p: PanelId| #[trigger] new.hidden_panels@.contains(p) <==> old.hidden_panels@.contains(p) || p == old.focus
                &&& new.visible_spec().len() > 0
                &&& new.focus == new.visible_spec()[0]
            })
}

/// Whether some panel of `panels` is in `hidden`.
pub open spec fn any_hidden(panels: Seq<PanelId>, hidden: Seq<PanelId>) -> bool
    decreases panels.len(),
{
    if panels.len() == 0 {
        false
    } else {
        any_hidden(panels.drop_last(), hidden) || hidden.contains(panels.last())
    }
}

pub open spec fn any_hidden_at(panels: Seq<PanelId>, hidden: Seq<PanelId>, i: int) -> bool {
    0 <= i < panels.len() && hidden.contains(panels[i])
}

pub proof fn lemma_any_hidden(panels: Seq<PanelId>, hidden: Seq<PanelId>, i: int)
    requires
        any_hidden_at(panels, hidden, i),
    ensures
        any_hidden(panels, hidden),
    decreases panels.len(),
{
    if i < panels.len() - 1 {
        assert(panels.drop_last()[i] == panels[i]);
        lemma_any_hidden(panels.drop_last(), hidden, i);
    }
}

proof fn lemma_unhidden_none_hidden(panels: Seq<PanelId>, hidden: Seq<PanelId>)
    requires
        !any_hidden(panels, hidden),
    ensures
        unhidden(panels, hidden) == panels,
    decreases panels.len(),
{
    if panels.len() > 0 {
        lemma_unhidden_none_hidden(panels.drop_last(), hidden);
        assert(panels.drop_last().push(panels.last()) == panels);
    }
}

proof fn lemma_workspace_panels_distinct(w: Workspace)
    ensures
        workspace_panels(w).no_duplicates(),
        workspace_panels(w).len() >= 1,
{
}

fn slice_contains_panel(v: &[PanelId], p: PanelId) -> (r: bool)
    ensures
        r == v@.contains(p),
{
    let mut i: usize = 0;
    while i < v.len()
        invariant
            i <= v@.len(),
            forall|j: int| 0 <= j < i ==> v@[j] != p,
        decreases v@.len() - i,
    {
        if v[i] == p {
            return true;
        }
        i = i + 1;
    }
    false
}

/// The position `focus_step` starts from: the focused panel's place, or the first.
pub open spec fn focus_position(visible: Seq<PanelId>, focus: PanelId) -> int {
    if index_in(visible, focus) >= 0 { index_in(visible, focus) } else { 0 }
}

pub fn contains_panel(v: &Vec<PanelId>, p: PanelId) -> (r: bool)
    ensures
        r == v@.contains(p),
{
    let mut i: usize = 0;
    while i < v.len()
        invariant
            i <= v@.len(),
            forall|j: int| 0 <= j < i ==> v@[j] != p,
        decreases v@.len() - i,
    {
        if v[i] == p {
            return true;
        }
        i = i + 1;
    }
    false
}

pub fn position_of(v: &Vec<PanelId>, p: PanelId) -> (r: isize)
    requires
        v@.len() <= isize::MAX,
    ensures
        r == focus_position(v@, p),
{
    let mut i: usize = 0;
    while i < v.len()
        invariant
            i <= v@.len(),
            v@.len() <= isize::MAX,
            index_in(v@.take(i as int), p) == -1,
        decreases v@.len() - i,
    {
        assert(v@.take(i + 1).drop_last() == v@.take(i as int));
        if v[i] == p {
            proof {
                lemma_index_in_prefix(v@, p, i as int);
            }
            return i as isize;
        }
        i = i + 1;
    }
    assert(v@.take(v@.len() as int) == v@);
    0
}

proof fn lemma_index_in_prefix(s: Seq<PanelId>, x: PanelId, i: int)
    requires
        0 <= i < s.len(),
        index_in(s.take(i), x) == -1,
        s[i] == x,
    ensures
        index_in(s, x) == i,
{
    lemma_index_in(s, x);
    lemma_index_in(s.take(i), x);
    assert(s.contains(x));
    let k = index_in(s, x);
    if k < i {
        assert(s.take(i)[k] == x);
    }
}

/// The Euclidean remainder of `value` by `modulus`, which is never negative.
pub fn euclid_rem(value: isize, modulus: usize) -> (r: usize)
    requires
        0 < modulus <= isize::MAX,
    ensures
        r == (value as int) % (modulus as int),
        r < modulus,
{
    if value >= 0 {
        let v = value as usize;
        v % modulus
    } else {
        let below: isize = -(value + 1);
        let b = below as usize;
        let m = b % modulus;
        let r = modulus - 1 - m;
        proof {
            lemma_neg_rem(value as int, b as int, modulus as int, m as int);
        }
        r
    }
}

proof fn lemma_neg_rem(value: int, b: int, n: int, m: int)
    requires
        n > 0,
        b >= 0,
        value == -(b + 1),
        m == b % n,
    ensures
        n - 1 - m == value % n,
{
    vstd::arithmetic::div_mod::lemma_fundamental_div_mod(b, n);
    let q = b / n;
    assert(value == (-q - 1) * n + (n - 1 - m)) by (nonlinear_arith)
        requires
            b == n * q + m,
            value == -(b + 1),
    ;
    vstd::arithmetic::div_mod::lemma_mod_bound(b, n);
    vstd::arithmetic::div_mod::lemma_fundamental_div_mod_converse(value, n, -q - 1, n - 1 - m);
}

/// A step to the next workspace and one back return to the start, whichever the start.
pub proof fn lemma_workspace_step_back(w: Workspace)
    ensures
        workspace_order()[(workspace_order()[(w.index() + 1) % 5].index() - 1) % 5] == w,
        workspace_order()[w.index()] == w,
{
}

/// After a focus step the focused panel is one of the visible panels, whenever the
/// workspace shows any.
pub proof fn lemma_focus_stays_visible(old: UiState, new: UiState, direction: int)
    requires
        focus_stepped(old, new, direction),
        old.visible_spec().len() > 0,
    ensures
        new.visible_spec() == old.visible_spec(),
        new.visible_spec().contains(new.focus),
{
    let v = old.visible_spec();
    let k = (focus_position(v, old.focus) + direction) % (v.len() as int);
    vstd::arithmetic::div_mod::lemma_mod_bound(focus_position(v, old.focus) + direction, v.len() as int);
    assert(v[k] == new.focus);
}

/// Hiding the focused panel and toggling again restores it: the set of hidden panels is
/// what it was before, and the second toggle answers `Restored`.
pub proof fn lemma_toggle_twice_restores(
    start: UiState,
    mid: UiState,
    end: UiState,
    first: PanelToggle,
    second: PanelToggle,
)
    requires
        start.wf(),
        workspace_panels(start.workspace).contains(start.focus),
        first is Hidden,
        panel_toggled(start, mid, first),
        panel_toggled(mid, end, second),
    ensures
        second == PanelToggle::Restored,
        forall|p: PanelId| #[trigger] end.hidden_panels@.contains(p) <==> start.hidden_panels@.contains(p),
{
    let wp = workspace_panels(start.workspace);
    let i = choose|i: int| 0 <= i < wp.len() && wp[i] == start.focus;
    assert(mid.hidden_panels@.contains(start.focus));
    lemma_any_hidden(wp, mid.hidden_panels@, i);
    assert forall|p: PanelId| #[trigger] end.hidden_panels@.contains(p) <==> start.hidden_panels@.contains(p) by {
        if start.hidden_panels@.contains(p) && wp.contains(p) {
            let j = choose|j: int| 0 <= j < wp.len() && wp[j] == p;
            lemma_any_hidden(wp, start.hidden_panels@, j);
        }
    }
}

} // verus!
