use filiz::input::list::ListState;
use filiz::ui::hit::Rect;
use filiz::ui::layout::{
    centered, dialog_buttons, place_hints, row_regions, tab_regions, table_window,
};

#[test]
fn rows_start_below_the_border_and_header() {
    let regions = row_regions(Rect::new(2, 10, 40, 6), 5, 20);
    assert_eq!(
        regions,
        vec![
            (Rect::new(3, 12, 38, 1), 5),
            (Rect::new(3, 13, 38, 1), 6),
            (Rect::new(3, 14, 38, 1), 7)
        ]
    );
}

#[test]
fn rows_stop_at_the_end_of_the_list_and_clamp_the_offset() {
    let regions = row_regions(Rect::new(0, 0, 10, 20), 30, 2);
    assert_eq!(regions.len(), 1);
    assert_eq!(regions[0].1, 1);
    assert!(row_regions(Rect::new(0, 0, 10, 2), 0, 5).is_empty());
    assert!(row_regions(Rect::new(0, 0, 10, 9), 0, 0).is_empty());
}

#[test]
fn tabs_sit_side_by_side_and_are_cut_at_the_edge() {
    let tabs = tab_regions(Rect::new(0, 5, 20, 3), &vec![8, 8, 8]);
    assert_eq!(
        tabs,
        vec![
            Rect::new(0, 7, 8, 1),
            Rect::new(8, 7, 8, 1),
            Rect::new(16, 7, 4, 1)
        ]
    );
}

#[test]
fn hints_wrap_to_the_next_line_and_stop_when_the_footer_is_full() {
    assert_eq!(
        place_hints(&vec![5, 5, 5, 5], 0, 12, 2),
        vec![(0, 0), (0, 5), (1, 0), (1, 5)]
    );
    assert_eq!(place_hints(&vec![5, 5, 5], 0, 12, 1), vec![(0, 0), (0, 5)]);
    assert_eq!(place_hints(&vec![4], 10, 12, 2), vec![(1, 0)]);
}

#[test]
fn dialogs_are_centered_and_their_buttons_split_the_action_line() {
    let popup = centered(Rect::new(0, 0, 100, 30), 56, 9);
    assert_eq!(popup, Rect::new(22, 10, 56, 9));
    assert_eq!(centered(Rect::new(0, 0, 10, 4), 56, 9), Rect::new(0, 0, 10, 4));
    let (confirm, cancel) = dialog_buttons(popup);
    assert_eq!(confirm, Rect::new(23, 16, 27, 1));
    assert_eq!(cancel, Rect::new(50, 16, 27, 1));
}

#[test]
fn table_windows_stay_within_the_list() {
    assert_eq!(
        table_window(ListState { selected: 9, offset: 7 }, 5),
        (4, Some(4))
    );
    assert_eq!(table_window(ListState { selected: 2, offset: 1 }, 5), (1, Some(2)));
    assert_eq!(table_window(ListState { selected: 2, offset: 1 }, 0), (0, None));
}
