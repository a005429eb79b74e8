//! Interface state the input logic reads: workspaces, panels, themes and the layout
//! facts of the last frame.
pub mod format;
pub mod hit;
pub mod layout;
pub mod splash;
pub mod state;
pub mod theme;

use vstd::prelude::*;

use hit::HitMap;
use state::PanelId;

verus! {

/// The number of rows each panel showed in the last frame; zero where a panel was not
/// drawn.
#[derive(Clone, Copy, Debug, Default, PartialEq, Eq)]
pub struct Viewports {
    pub heights: [u16; 7],
}

impl Viewports {
    pub fn new() -> (r: Self)
        ensures
            forall|p: PanelId| #[trigger] r.height_of(p) == 0,
    {
        Viewports { heights: [0u16; 7] }
    }

    /// The rows recorded for a panel.
    pub open spec fn height_of(&self, panel: PanelId) -> u16 {
        self.heights@[panel.slot()]
    }

    /// Record the rows a panel showed.
    pub fn insert(&mut self, panel: PanelId, height: u16)
        ensures
            forall|p: PanelId| #[trigger] final(self).height_of(p) == (if p == panel {
                height
            } else {
                old(self).height_of(p)
            }),
    {
        let i = panel.slot_index();
        self.heights[i] = height;
    }

    /// The rows recorded for a panel, if it was drawn.
    pub fn get(&self, panel: PanelId) -> (r: Option<u16>)
        ensures
            r == (if self.height_of(panel) == 0 {
                None
            } else {
                Some(self.height_of(panel))
            }),
    {
        let h = self.heights[panel.slot_index()];
        if h == 0 {
            None
        } else {
            Some(h)
        }
    }
}

/// Layout facts from the last frame that input handling needs.
#[derive(Clone, Debug, Default)]
pub struct RenderOutput {
    pub viewports: Viewports,
    pub hits: HitMap,
}

impl RenderOutput {
    pub fn new() -> (r: Self)
        ensures
            forall|p: PanelId| #[trigger] r.viewports.height_of(p) == 0,
            r.hits@ == Seq::<(hit::Rect, hit::HitTarget)>::empty(),
    {
        RenderOutput { viewports: Viewports::new(), hits: HitMap::new() }
    }
}

} // verus!
