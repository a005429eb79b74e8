use filiz::ui::format::uptime;
use filiz::ui::splash::for_raw_mode;

#[test]
fn uptime_switches_to_days_after_24_hours() {
    assert_eq!(uptime(3_700), "1h 1m");
    assert_eq!(uptime(90_061), "1d 1h");
}

#[test]
fn uptime_of_zero_and_large_values() {
    assert_eq!(uptime(0), "0h 0m");
    assert_eq!(uptime(86_399), "23h 59m");
    assert_eq!(uptime(86_400), "1d 0h");
    assert_eq!(uptime(1_000 * 86_400 + 7_200), "1000d 2h");
}

#[test]
fn raw_mode_text_returns_the_cursor_on_every_line() {
    assert_eq!(for_raw_mode("a\nb\r\nc"), "a\r\nb\r\nc");
    assert_eq!(for_raw_mode("\r\r\n"), "\r\r\n");
    assert_eq!(for_raw_mode(""), "");
    let once = for_raw_mode("x\n\ny\r\n");
    assert_eq!(for_raw_mode(&once), once);
}

#[test]
fn raw_mode_changes_only_line_endings() {
    let text = "one\ntwo\r\n\nthree\r";
    let r = for_raw_mode(text);
    assert_eq!(r.matches('\n').count(), text.matches('\n').count());
    assert_eq!(r.replace("\r\n", "\n"), text.replace("\r\n", "\n"));
}
