//! Where the clickable parts of a frame go: table rows, workspace tabs, footer hints and
//! the buttons of the confirmation dialog. The renderer draws into these regions and
//! registers them, so clicks land on what the user sees.
use vstd::prelude::*;

use super::hit::Rect;
use crate::input::list::ListState;

verus! {

/// A rectangle that lies wholly within the coordinate space.
pub open spec fn fits(r: Rect) -> bool {
    r.x + r.width <= u16::MAX && r.y + r.height <= u16::MAX
}

/// The first row a table shows: its scroll offset, kept within the list.
pub open spec fn first_shown(offset: usize, len: usize) -> int {
    let last = if len > 0 {
        len - 1
    } else {
        0
    };
    if offset <= last {
        offset as int
    } else {
        last
    }
}

/// The rows of a bordered table with a header line: as many as fit below the border
/// and the header, from the first one shown.
pub open spec fn row_regions_spec(area: Rect, offset: usize, len: usize) -> Seq<(Rect, usize)> {
    let viewport: int = if area.height >= 3 {
        area.height - 3
    } else {
        0
    };
    let first = first_shown(offset, len);
    let count: int = if len - first < viewport {
        len - first
    } else {
        viewport
    };
    Seq::new(
        count as nat,
        |k: int|
            (
                Rect {
                    x: (area.x + 1) as u16,
                    y: (area.y + 2 + k) as u16,
                    width: if area.width >= 2 {
                        (area.width - 2) as u16
                    } else {
                        0
                    },
                    height: 1,
                },
                (first + k) as usize,
            ),
    )
}

/// The regions of the visible rows of a table and the list index each one shows.
pub fn row_regions(area: Rect, offset: usize, len: usize) -> (r: Vec<(Rect, usize)>)
    requires
        fits(area),
        area.x < u16::MAX,
    ensures
        r@ == row_regions_spec(area, offset, len),
{
    let viewport: usize = area.height.saturating_sub(3) as usize;
    let last = len.saturating_sub(1);
    let first = if offset <= last {
        offset
    } else {
        last
    };
    let count = if len - first < viewport {
        len - first
    } else {
        viewport
    };
    let width = area.width.saturating_sub(2);
    let mut r: Vec<(Rect, usize)> = Vec::new();
    let mut k: usize = 0;
    while k < count
        invariant
            k <= count,
            count <= viewport,
            viewport as int == (if area.height >= 3 {
                area.height - 3
            } else {
                0
            }),
            first as int == first_shown(offset, len),
            count as int == (if len - first < viewport {
                len - first
            } else {
                viewport as int
            }),
            width as int == (if area.width >= 2 {
                area.width - 2
            } else {
                0
            }),
            fits(area),
            area.x < u16::MAX,
            r@ == row_regions_spec(area, offset, len).take(k as int),
        decreases count - k,
    {
        let row = Rect { x: area.x + 1, y: area.y + 2 + k as u16, width, height: 1 };
        r.push((row, first + k));
        k = k + 1;
        assert(r@ =~= row_regions_spec(area, offset, len).take(k as int));
    }
    assert(row_regions_spec(area, offset, len).take(k as int) =~= row_regions_spec(area, offset, len));
    r
}

/// What a table widget shows of a list: the offset of its first row and the selected
/// row, both kept within the list; nothing is selected in an empty list.
pub fn table_window(list: ListState, len: usize) -> (r: (usize, Option<usize>))
    ensures
        r.0 == first_shown(list.offset, len),
        r.1 == (if len == 0 {
            None
        } else {
            Some(
                if list.selected < len {
                    list.selected
                } else {
                    (len - 1) as usize
                },
            )
        }),
{
    let last = len.saturating_sub(1);
    let offset = if list.offset <= last {
        list.offset
    } else {
        last
    };
    if len == 0 {
        (offset, None)
    } else {
        (offset, Some(if list.selected < len { list.selected } else { len - 1 }))
    }
}

/// The start of each of `widths` laid side by side from `x`, saturating at the edge.
pub open spec fn tab_start(x: u16, widths: Seq<u16>, i: int) -> int
    decreases i,
{
    if i <= 0 {
        x as int
    } else {
        let before = tab_start(x, widths, i - 1);
        if before + widths[i - 1] > u16::MAX {
            u16::MAX as int
        } else {
            before + widths[i - 1]
        }
    }
}

/// The workspace tabs on the third line of the status bar, each as wide as its label
/// but cut at the bar's right edge.
pub open spec fn tab_regions_spec(area: Rect, widths: Seq<u16>) -> Seq<Rect> {
    Seq::new(
        widths.len(),
        |i: int|
            {
                let x = tab_start(area.x, widths, i);
                let room: int = if area.x + area.width >= x {
                    area.x + area.width - x
                } else {
                    0
                };
                Rect {
                    x: x as u16,
                    y: (area.y + 2) as u16,
                    width: (if widths[i] <= room {
                        widths[i] as int
                    } else {
                        room
                    }) as u16,
                    height: 1,
                }
            },
    )
}

proof fn lemma_tab_start_bounds(x: u16, widths: Seq<u16>, i: int)
    ensures
        x <= tab_start(x, widths, i) <= u16::MAX,
    decreases i,
{
    if i > 0 {
        lemma_tab_start_bounds(x, widths, i - 1);
    }
}

/// The regions of the workspace tabs, given the width of each label.
pub fn tab_regions(area: Rect, widths: &Vec<u16>) -> (r: Vec<Rect>)
    requires
        fits(area),
        area.height >= 3,
    ensures
        r@ == tab_regions_spec(area, widths@),
{
    let right = area.x + area.width;
    let mut x = area.x;
    let mut r: Vec<Rect> = Vec::new();
    let mut i: usize = 0;
    while i < widths.len()
        invariant
            i <= widths@.len(),
            right as int == area.x + area.width,
            fits(area),
            area.height >= 3,
            x as int == tab_start(area.x, widths@, i as int),
            r@ == tab_regions_spec(area, widths@).take(i as int),
        decreases widths@.len() - i,
    {
        proof {
            lemma_tab_start_bounds(area.x, widths@, i as int);
        }
        let room = right.saturating_sub(x);
        let w = widths[i];
        r.push(Rect { x, y: area.y + 2, width: if w <= room { w } else { room }, height: 1 });
        x = x.saturating_add(w);
        i = i + 1;
        assert(r@ =~= tab_regions_spec(area, widths@).take(i as int));
    }
    assert(tab_regions_spec(area, widths@).take(i as int) =~= tab_regions_spec(area, widths@));
    r
}

/// Where the footer places each hint of the given widths, as line and column: hints
/// follow one another on a line, a hint that does not fit starts the next line, and
/// hints stop when the last line is full.
pub open spec fn hint_places(needs: Seq<u16>, line: int, width: int, max_width: int, height: int) -> Seq<
    (int, int),
>
    decreases needs.len(),
{
    if needs.len() == 0 {
        Seq::empty()
    } else if width + needs[0] > max_width {
        if line + 1 >= height {
            Seq::empty()
        } else {
            seq![(line + 1, 0int)] + hint_places(needs.skip(1), line + 1, needs[0] as int, max_width, height)
        }
    } else {
        seq![(line, width)] + hint_places(needs.skip(1), line, width + needs[0], max_width, height)
    }
}

/// Every hint the footer places lies on one of its lines, and no more hints are placed
/// than there are.
pub proof fn lemma_hints_stay_in_footer(needs: Seq<u16>, line: int, width: int, max_width: int, height: int)
    requires
        0 <= line < height,
    ensures
        forall|k: int|
            0 <= k < hint_places(needs, line, width, max_width, height).len() ==> {
                let p = #[trigger] hint_places(needs, line, width, max_width, height)[k];
                line <= p.0 < height
            },
        hint_places(needs, line, width, max_width, height).len() <= needs.len(),
    decreases needs.len(),
{
    if needs.len() > 0 {
        if width + needs[0] > max_width {
            if line + 1 < height {
                lemma_hints_stay_in_footer(needs.skip(1), line + 1, needs[0] as int, max_width, height);
            }
        } else {
            lemma_hints_stay_in_footer(needs.skip(1), line, width + needs[0], max_width, height);
        }
    }
}

/// The line and column of each footer hint that fits: `start` columns of the first
/// line are taken by the filter prompt, lines are `max_width` columns wide and there
/// are `height` of them.
pub fn place_hints(needs: &Vec<u16>, start: u16, max_width: u16, height: u16) -> (r: Vec<(u16, u32)>)
    requires
        height >= 1,
    ensures
        places_of(r@) == hint_places(needs@, 0, start as int, max_width as int, height as int),
{
    let ghost total = hint_places(needs@, 0, start as int, max_width as int, height as int);
    let mut r: Vec<(u16, u32)> = Vec::new();
    let mut line: u16 = 0;
    let mut width: u32 = start as u32;
    let mut i: usize = 0;
    assert(needs@.skip(0) =~= needs@);
    assert(places_of(r@) + total =~= total);
    while i < needs.len()
        invariant
            i <= needs@.len(),
            line < height,
            width <= u16::MAX,
            total == hint_places(needs@, 0, start as int, max_width as int, height as int),
            places_of(r@) + hint_places(needs@.skip(i as int), line as int, width as int, max_width as int, height as int)
                == total,
        decreases needs@.len() - i,
    {
        let ghost rest = needs@.skip(i as int);
        let ghost before = hint_places(rest, line as int, width as int, max_width as int, height as int);
        let ghost placed = places_of(r@);
        assert(rest.skip(1) =~= needs@.skip(i + 1));
        assert(rest[0] == needs@[i as int]);
        let need = needs[i];
        if width + need as u32 > max_width as u32 {
            if line as u32 + 1 >= height as u32 {
                assert(before =~= Seq::<(int, int)>::empty());
                assert(placed + before =~= placed);
                return r;
            }
            line = line + 1;
            width = need as u32;
            r.push((line, 0));
            assert(places_of(r@) =~= placed.push((line as int, 0int)));
            assert(placed + before =~= places_of(r@) + hint_places(
                needs@.skip(i + 1),
                line as int,
                width as int,
                max_width as int,
                height as int,
            ));
        } else {
            r.push((line, width));
            assert(places_of(r@) =~= placed.push((line as int, width as int)));
            assert(placed + before =~= places_of(r@) + hint_places(
                needs@.skip(i + 1),
                line as int,
                width + need,
                max_width as int,
                height as int,
            ));
            width = width + need as u32;
        }
        i = i + 1;
    }
    assert(needs@.skip(i as int) =~= Seq::<u16>::empty());
    assert(places_of(r@) + Seq::<(int, int)>::empty() =~= places_of(r@));
    r
}

/// Placed hints as pairs of integers.
pub open spec fn places_of(r: Seq<(u16, u32)>) -> Seq<(int, int)> {
    r.map_values(|p: (u16, u32)| (p.0 as int, p.1 as int))
}

/// `width` by `height` cells in the middle of `area`, cut to fit.
pub open spec fn centered_spec(area: Rect, width: u16, height: u16) -> Rect {
    let w = if width <= area.width {
        width
    } else {
        area.width
    };
    let h = if height <= area.height {
        height
    } else {
        area.height
    };
    Rect { x: (area.x + (area.width - w) / 2) as u16, y: (area.y + (area.height - h) / 2) as u16, width: w, height: h }
}

pub fn centered(area: Rect, width: u16, height: u16) -> (r: Rect)
    requires
        fits(area),
    ensures
        r == centered_spec(area, width, height),
        fits(r),
{
    let w = if width <= area.width {
        width
    } else {
        area.width
    };
    let h = if height <= area.height {
        height
    } else {
        area.height
    };
    Rect { x: area.x + (area.width - w) / 2, y: area.y + (area.height - h) / 2, width: w, height: h }
}

/// The confirm and cancel buttons of the confirmation dialog: the two halves of its
/// sixth line inside the border.
pub open spec fn dialog_buttons_spec(popup: Rect) -> (Rect, Rect) {
    let inner_width: int = if popup.width >= 2 {
        popup.width - 2
    } else {
        0
    };
    let half: int = inner_width / 2;
    (
        Rect { x: (popup.x + 1) as u16, y: (popup.y + 6) as u16, width: half as u16, height: 1 },
        Rect {
            x: (popup.x + 1 + half) as u16,
            y: (popup.y + 6) as u16,
            width: (inner_width - half) as u16,
            height: 1,
        },
    )
}

pub fn dialog_buttons(popup: Rect) -> (r: (Rect, Rect))
    requires
        fits(popup),
        popup.y + 6 <= u16::MAX,
        popup.x + 1 <= u16::MAX,
    ensures
        r == dialog_buttons_spec(popup),
{
    let line = Rect { x: popup.x + 1, y: popup.y + 6, width: popup.width.saturating_sub(2), height: 1 };
    let half = line.width / 2;
    (Rect { width: half, ..line }, Rect { x: line.x + half, width: line.width - half, ..line })
}

} // verus!
