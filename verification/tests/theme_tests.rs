use filiz::ui::theme::{Rgb, Theme};

#[test]
fn theme_cycle_visits_all_four_themes() {
    let mut theme = Theme::Forest;
    let mut seen = vec![theme];
    for _ in 0..3 {
        theme = theme.next();
        seen.push(theme);
    }
    assert_eq!(seen, Theme::ALL.to_vec());
    assert_eq!(theme.next(), Theme::Forest);
}

#[test]
fn themes_have_labels() {
    assert_eq!(Theme::Forest.label(), "Forest");
    assert_eq!(Theme::Solarized.label(), "Solarized");
}

#[test]
fn forest_keeps_existing_colors() {
    let p = Theme::Forest.palette();
    assert_eq!(p.bg, Rgb(9, 13, 10));
    assert_eq!(p.surface, Rgb(19, 26, 20));
    assert_eq!(p.border, Rgb(66, 78, 56));
    assert_eq!(p.text, Rgb(232, 235, 216));
    assert_eq!(p.text_muted, Rgb(148, 158, 135));
    assert_eq!(p.accent, Rgb(164, 191, 101));
    assert_eq!(p.ok, Rgb(137, 207, 138));
    assert_eq!(p.warn, Rgb(235, 194, 91));
    assert_eq!(p.danger, Rgb(232, 117, 100));
}

#[test]
fn every_theme_distinguishes_danger_from_text() {
    for theme in Theme::ALL {
        let p = theme.palette();
        assert!(
            p.danger != p.text || p.danger_reversed,
            "{theme:?} danger is indistinguishable"
        );
    }
}

#[test]
fn mono_marks_danger_with_reverse_video() {
    let p = Theme::Mono.palette();
    assert!(p.danger_reversed && p.danger_bold);
}

#[test]
fn roles_take_their_base_colors() {
    let p = Theme::Solarized.palette();
    assert_eq!(p.surface_alt, p.surface);
    assert_eq!(p.selection_bg, Rgb(181, 137, 0));
    assert_eq!(p.selection_fg, Rgb(0, 43, 54));
    assert_eq!(p.chart_rx, Rgb(133, 153, 0));
    assert!(!p.danger_reversed);
}
