use vstd::prelude::*;

verus! {

/// Selection and scroll position of a list, always kept within the list bounds.
#[derive(Clone, Copy, Debug, Default, PartialEq, Eq)]
pub struct ListState {
    pub selected: usize,
    pub offset: usize,
}

/// The viewport actually used: at least one row.
pub open spec fn effective_viewport(viewport: usize) -> int {
    if viewport == 0 { 1 } else { viewport as int }
}

/// The state `clamp` produces for a list of `len` rows shown `viewport` rows at a time.
pub open spec fn clamped(s: ListState, len: usize, viewport: usize) -> ListState {
    if len == 0 {
        ListState { selected: 0, offset: 0 }
    } else {
        let v = effective_viewport(viewport);
        let sel: int = if s.selected < len { s.selected as int } else { len - 1 };
        let o1: int = if s.offset <= sel { s.offset as int } else { sel };
        let o2: int = if sel >= o1 + v { sel + 1 - v } else { o1 };
        let limit: int = if len >= v { len - v } else { 0 };
        let o3: int = if o2 <= limit { o2 } else { limit };
        ListState { selected: sel as usize, offset: o3 as usize }
    }
}

/// The selected row after a move by `delta` rows: saturating, then kept in `0..len`.
pub open spec fn moved_selection(selected: usize, delta: isize, len: usize) -> int {
    let target: int = selected as isize + delta;
    if target < 0 { 0 } else if target > len - 1 { len - 1 } else { target }
}

/// No arithmetic in `clamp` leaves `usize`.
pub open spec fn clamp_fits(s: ListState, len: usize, viewport: usize) -> bool {
    len > 0 ==> {
        let sel: int = if s.selected < len { s.selected as int } else { len - 1 };
        let o1: int = if s.offset <= sel { s.offset as int } else { sel };
        o1 + effective_viewport(viewport) <= usize::MAX
    }
}

/// A state that a list of `len` rows shown `viewport` rows at a time can display: the
/// selection is a row of the list and lies within the visible window, and the window
/// does not run past the end of a list longer than it.
pub open spec fn in_bounds(s: ListState, len: usize, viewport: usize) -> bool {
    if len == 0 {
        s.selected == 0 && s.offset == 0
    } else {
        &&& s.selected < len
        &&& s.offset <= s.selected
        &&& s.selected < s.offset + effective_viewport(viewport)
        &&& s.offset + effective_viewport(viewport) <= len || s.offset == 0
    }
}

impl ListState {
    pub fn clamp(&mut self, len: usize, viewport: usize)
        requires
            clamp_fits(*old(self), len, viewport),
        ensures
            *final(self) == clamped(*old(self), len, viewport),
    {
        if len == 0 {
            *self = ListState { selected: 0, offset: 0 };
            return;
        }
        let viewport = if viewport < 1 { 1 } else { viewport };
        if self.selected > len - 1 {
            self.selected = len - 1;
        }
        if self.selected < self.offset {
            self.offset = self.selected;
        }
        if self.selected >= self.offset + viewport {
            self.offset = self.selected + 1 - viewport;
        }
        let limit = if len >= viewport { len - viewport } else { 0 };
        if self.offset > limit {
            self.offset = limit;
        }
    }

    pub fn move_by(&mut self, delta: isize, len: usize, viewport: usize)
        requires
            len <= isize::MAX,
            len > 0 ==> moved_selection(old(self).selected, delta, len) + effective_viewport(
                viewport,
            ) <= usize::MAX,
            len == 0 ==> clamp_fits(*old(self), len, viewport),
        ensures
            len > 0 ==> *final(self) == clamped(
                ListState {
                    selected: moved_selection(old(self).selected, delta, len) as usize,
                    offset: old(self).offset,
                },
                len,
                viewport,
            ),
            len == 0 ==> *final(self) == clamped(*old(self), len, viewport),
    {
        if len > 0 {
            let current = self.selected as isize;
            let target: isize = if delta > 0 && current > isize::MAX - delta {
                isize::MAX
            } else if delta < 0 && current < isize::MIN - delta {
                isize::MIN
            } else {
                current + delta
            };
            let last = len as isize - 1;
            let chosen: isize = if target < 0 {
                0
            } else if target > last {
                last
            } else {
                target
            };
            self.selected = chosen as usize;
        }
        self.clamp(len, viewport);
    }
}

/// Whatever state it starts from, `clamp` leaves a list in bounds.
pub proof fn lemma_clamp_in_bounds(s: ListState, len: usize, viewport: usize)
    requires
        clamp_fits(s, len, viewport),
    ensures
        in_bounds(clamped(s, len, viewport), len, viewport),
{
}

/// Clamping twice gives what clamping once gave.
pub proof fn lemma_clamp_idempotent(s: ListState, len: usize, viewport: usize)
    requires
        clamp_fits(s, len, viewport),
    ensures
        clamped(clamped(s, len, viewport), len, viewport) == clamped(s, len, viewport),
{
}

/// `clamp` leaves a list that is already in bounds exactly as it is.
pub proof fn lemma_clamp_keeps_in_bounds(s: ListState, len: usize, viewport: usize)
    requires
        in_bounds(s, len, viewport),
    ensures
        clamped(s, len, viewport) == s,
{
}

} // verus!
