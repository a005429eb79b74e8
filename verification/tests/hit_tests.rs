use std::time::Duration;

use filiz::app::App;
use filiz::input::action::{Action, Effect};
use filiz::input::keymap::KeyModifiers;
use filiz::model::{AppMode, Float32, ProcessIdentity, ProcessInfo, TrafficRate};
use filiz::state::{CollectorUpdate, ProcessTraffic, SystemSample};
use filiz::ui::hit::{
    mouse_action, ClickMemory, HitMap, HitTarget, MouseButton, MouseEvent, MouseEventKind, Rect,
};
use filiz::ui::state::{PanelId, Workspace};

const OWN_PID: u32 = 4_000_001;
const MILLI: u64 = 1_000_000;

fn mouse(kind: MouseEventKind, column: u16, row: u16) -> MouseEvent {
    MouseEvent {
        kind,
        column,
        row,
        modifiers: KeyModifiers::none(),
    }
}

fn click(column: u16, row: u16) -> MouseEvent {
    mouse(MouseEventKind::Down(MouseButton::Left), column, row)
}

/// `rx` bytes per second over one second.
fn rate(rx: u64) -> TrafficRate {
    TrafficRate {
        rx_bytes: rx,
        tx_bytes: 0,
        elapsed_nanos: 1_000_000_000,
    }
}

fn process(pid: u32, cpu: f32, traffic: Option<u64>) -> ProcessInfo {
    ProcessInfo {
        identity: ProcessIdentity { pid, start_time: 1 },
        name: format!("proc-{pid}"),
        command: String::new(),
        cpu_percent: Some(Float32(cpu.to_bits())),
        memory_bytes: Some(1),
        user: None,
        status: None,
        traffic: traffic.map(rate),
    }
}

fn app() -> App {
    let mut app = App::new(Duration::from_secs(2), OWN_PID);
    app.apply_update(CollectorUpdate::System(SystemSample {
        processes: (1..=30)
            .map(|pid| process(pid, 100.0 - pid as f32, Some(pid as u64)))
            .collect(),
        ..Default::default()
    }));
    app.apply_update(CollectorUpdate::Traffic(
        (1..=30)
            .map(|pid| ProcessTraffic {
                pid,
                rate: rate(pid as u64),
            })
            .collect(),
    ));
    app
}

#[test]
fn later_entries_win_and_blocker_stops_panel_lookup() {
    let mut hits = HitMap::default();
    hits.push(
        Rect::new(0, 0, 10, 10),
        HitTarget::Panel(PanelId::Processes),
    );
    hits.push(
        Rect::new(0, 2, 10, 1),
        HitTarget::Row(PanelId::Processes, 0),
    );
    assert_eq!(hits.at(3, 2), Some(HitTarget::Row(PanelId::Processes, 0)));
    assert_eq!(hits.panel_at(3, 5), Some(PanelId::Processes));
    assert_eq!(hits.at(20, 20), None);
    hits.push(Rect::new(0, 0, 10, 10), HitTarget::Blocker);
    assert_eq!(hits.panel_at(3, 5), None);
    assert!(hits.has_blocker());
}

#[test]
fn second_click_on_same_row_within_400ms_opens() {
    let mut hits = HitMap::default();
    hits.push(
        Rect::new(0, 0, 10, 1),
        HitTarget::Row(PanelId::Processes, 4),
    );
    let mut memory = ClickMemory::default();
    let now = 1_000 * MILLI;
    let first = mouse_action(&hits, &click(1, 0), PanelId::Resources, &mut memory, now);
    assert_eq!(first, Some(Action::Select(PanelId::Processes, 4)));
    let second = mouse_action(
        &hits,
        &click(1, 0),
        PanelId::Processes,
        &mut memory,
        now + 200 * MILLI,
    );
    assert_eq!(second, Some(Action::Open));
    let late = mouse_action(
        &hits,
        &click(1, 0),
        PanelId::Processes,
        &mut memory,
        now + 2_000 * MILLI,
    );
    assert_eq!(late, Some(Action::Select(PanelId::Processes, 4)));
}

#[test]
fn clicking_a_tab_switches_workspace() {
    let mut app = app();
    let tab = Rect::new(20, 0, 10, 1);
    app.last_render
        .hits
        .push(tab, HitTarget::Tab(Workspace::Network));
    app.handle_mouse(click(tab.x, tab.y));
    assert_eq!(app.ui.workspace, Workspace::Network);
}

#[test]
fn clicking_rows_selects_and_double_click_opens_detail() {
    let mut app = app();
    let row = Rect::new(0, 8, 60, 1);
    app.last_render
        .hits
        .push(Rect::new(0, 5, 60, 20), HitTarget::Panel(PanelId::Processes));
    app.last_render
        .hits
        .push(row, HitTarget::Row(PanelId::Processes, 2));
    app.handle_mouse(click(row.x + 1, row.y));
    assert_eq!(app.selected_process().unwrap().identity.pid, 3);
    app.handle_mouse(click(row.x + 1, row.y));
    assert_eq!(app.mode, AppMode::ProcessDetail);
}

#[test]
fn wheel_scrolls_the_panel_under_the_cursor() {
    let mut app = app();
    app.ui.set_workspace(Workspace::Network);
    assert_eq!(app.ui.focus, PanelId::Interfaces);
    let traffic = Rect::new(0, 20, 80, 10);
    app.last_render
        .hits
        .push(Rect::new(0, 5, 80, 10), HitTarget::Panel(PanelId::Interfaces));
    app.last_render
        .hits
        .push(traffic, HitTarget::Panel(PanelId::Traffic));
    app.handle_mouse(mouse(
        MouseEventKind::ScrollDown,
        traffic.x + 2,
        traffic.y + 3,
    ));
    assert_eq!(app.ui.list(PanelId::Traffic).selected, 3);
    assert_eq!(app.ui.list(PanelId::Interfaces).selected, 0);
}

#[test]
fn confirmation_modal_blocks_background_and_exposes_buttons() {
    let mut app = app();
    app.update(Action::Terminate);
    let tab = Rect::new(20, 0, 10, 1);
    let cancel = Rect::new(30, 16, 10, 1);
    let confirm = Rect::new(50, 16, 10, 1);
    app.last_render
        .hits
        .push(tab, HitTarget::Tab(Workspace::Disks));
    app.last_render
        .hits
        .push(Rect::new(0, 0, 110, 35), HitTarget::Blocker);
    app.last_render
        .hits
        .push(cancel, HitTarget::Button(Action::Cancel));
    app.last_render
        .hits
        .push(confirm, HitTarget::Button(Action::Confirm));
    assert!(app.handle_mouse(click(tab.x, tab.y)).is_empty());
    assert_eq!(app.ui.workspace, Workspace::Overview);
    app.handle_mouse(click(cancel.x, cancel.y));
    assert_eq!(app.mode, AppMode::Dashboard);

    app.update(Action::Terminate);
    let effects = app.handle_mouse(click(confirm.x, confirm.y));
    assert!(matches!(effects.as_slice(), [Effect::SendSignal(_)]));
}

#[test]
fn footer_hints_are_buttons() {
    let mut app = app();
    let quit = Rect::new(2, 34, 8, 1);
    app.last_render
        .hits
        .push(quit, HitTarget::Button(Action::Quit));
    assert_eq!(app.handle_mouse(click(quit.x, quit.y)), vec![Effect::Quit]);
}

#[test]
fn empty_regions_are_not_registered_and_the_mouse_is_ignored_while_filtering() {
    let mut hits = HitMap::new();
    hits.push(Rect::new(0, 0, 0, 5), HitTarget::Blocker);
    assert!(!hits.has_blocker());
    assert!(hits.entries().is_empty());

    let mut app = app();
    app.update(Action::StartFilter);
    app.last_render
        .hits
        .push(Rect::new(0, 0, 10, 1), HitTarget::Button(Action::Quit));
    assert!(app.handle_mouse(click(1, 0)).is_empty());
    assert_eq!(app.mode, AppMode::Filtering);
}
