use std::time::Duration;

use filiz::history::{History, HistorySample, InterfaceSample, SeriesKey};
use filiz::model::{Float32, Float64, ProcessIdentity, ProcessInfo, TrafficRate};
use filiz::state::{
    is_system_mount, Battery, CollectorUpdate, DiskStats, InterfaceStats, MemoryStats,
    PlatformSample, ProcessTraffic, Source, SystemSample, SystemState,
};

fn f64_bits(v: f64) -> Float64 {
    Float64(v.to_bits())
}

fn process(pid: u32) -> ProcessInfo {
    ProcessInfo {
        identity: ProcessIdentity { pid, start_time: 1 },
        name: format!("p{pid}"),
        command: String::new(),
        cpu_percent: Some(Float32(1.0f32.to_bits())),
        memory_bytes: Some(1),
        user: None,
        status: None,
        traffic: None,
    }
}

fn iface(name: &str, rx: Option<f64>, tx: Option<f64>) -> InterfaceStats {
    InterfaceStats {
        name: name.into(),
        rx_rate: rx.map(f64_bits),
        tx_rate: tx.map(f64_bits),
        rx_total: 0,
        tx_total: 0,
        peak_rx: f64_bits(0.0),
        peak_tx: f64_bits(0.0),
    }
}

fn disk(mount: &str, used: u64) -> DiskStats {
    DiskStats {
        mount: mount.into(),
        total: 100,
        used,
        free: 100 - used,
        is_system: is_system_mount(mount),
    }
}

fn system_sample() -> SystemSample {
    SystemSample {
        cpu_usage: Some(f64_bits(40.0)),
        cores: Some(8),
        load: Some([f64_bits(1.0), f64_bits(2.0), f64_bits(3.0)]),
        memory: MemoryStats {
            total: Some(100),
            used: Some(25),
            ..Default::default()
        },
        disks: vec![disk("/System/Volumes/VM", 10), disk("/", 70)],
        interfaces: vec![iface("en0", Some(100.0), Some(50.0))],
        processes: vec![process(1), process(2)],
        uptime: Some(Duration::from_secs(60)),
    }
}

fn platform_sample() -> PlatformSample {
    PlatformSample {
        cpu_user: Some(f64_bits(10.0)),
        cpu_system: Some(f64_bits(5.0)),
        battery: Some(Battery {
            percent: 80,
            charging: Some(true),
            power_source: Some("AC Power".into()),
        }),
        temperature: None,
    }
}

/// Ten bytes received and five sent over one second.
fn rate() -> TrafficRate {
    TrafficRate {
        rx_bytes: 10,
        tx_bytes: 5,
        elapsed_nanos: 1_000_000_000,
    }
}

#[test]
fn system_update_leaves_platform_fields_untouched() {
    let mut state = SystemState::default();
    state.apply(CollectorUpdate::Platform(platform_sample()));
    state.apply(CollectorUpdate::System(system_sample()));
    assert_eq!(state.cpu.usage, Some(f64_bits(40.0)));
    assert_eq!(state.cpu.user, Some(f64_bits(10.0)));
    assert_eq!(state.battery.as_ref().unwrap().percent, 80);
    // The dashboard's 60% idle and 25% memory use are computed from these figures.
    assert_eq!(state.memory.used, Some(25));
    assert_eq!(state.memory.total, Some(100));
}

#[test]
fn missing_sensor_is_not_a_failure() {
    let mut state = SystemState::default();
    state.apply(CollectorUpdate::Platform(platform_sample()));
    assert_eq!(state.cpu.temperature, None);
    assert!(!state.has_failures());
}

#[test]
fn failure_clears_only_that_source_and_recovers() {
    let mut state = SystemState::default();
    state.apply(CollectorUpdate::System(system_sample()));
    state.apply(CollectorUpdate::Platform(platform_sample()));
    state.apply(CollectorUpdate::Failed {
        source: Source::Platform,
        message: "top failed".into(),
    });
    assert_eq!(state.cpu.user, None);
    assert!(state.battery.is_none());
    assert_eq!(state.cpu.usage, Some(f64_bits(40.0)));
    assert_eq!(state.issue(Source::Platform), Some("top failed"));
    assert!(state.has_failures());

    state.apply(CollectorUpdate::Platform(platform_sample()));
    assert!(!state.has_failures());
}

#[test]
fn stopped_worker_is_reported_as_issue() {
    let mut state = SystemState::default();
    state.apply(CollectorUpdate::Stopped(Source::System));
    assert_eq!(state.issue(Source::System), Some("data stream stopped"));
}

#[test]
fn traffic_is_attached_to_matching_processes_across_system_updates() {
    let mut state = SystemState::default();
    state.apply(CollectorUpdate::System(system_sample()));
    state.apply(CollectorUpdate::Traffic(vec![ProcessTraffic {
        pid: 2,
        rate: rate(),
    }]));
    let find = |state: &SystemState, pid| {
        state
            .processes
            .iter()
            .find(|p| p.identity.pid == pid)
            .unwrap()
            .traffic
    };
    assert_eq!(find(&state, 2), Some(rate()));
    assert_eq!(find(&state, 1), None);

    state.apply(CollectorUpdate::System(system_sample()));
    assert_eq!(find(&state, 2), Some(rate()));
}

#[test]
fn system_volumes_are_hidden_and_root_is_primary() {
    let mut state = SystemState::default();
    state.apply(CollectorUpdate::System(system_sample()));
    assert_eq!(state.primary_disk().unwrap().mount, "/");
    let visible: Vec<_> = state
        .visible_disks()
        .iter()
        .map(|d| d.mount.clone())
        .collect();
    assert_eq!(visible, vec!["/".to_string()]);
    assert!(is_system_mount("/private/var/vm"));
    assert!(!is_system_mount("/Volumes/USB"));
}

/// The whole-number sample the dashboard records for `system_sample`-like states.
fn history_sample(interfaces: &[(&str, u64, u64)]) -> HistorySample {
    HistorySample {
        cpu: Some(40),
        memory: Some(25),
        disk: Some(70),
        interfaces: interfaces
            .iter()
            .map(|(name, rx, tx)| InterfaceSample {
                name: name.to_string(),
                rx: Some(*rx),
                tx: Some(*tx),
            })
            .collect(),
    }
}

#[test]
fn history_skips_missing_values_and_respects_capacity() {
    let mut history = History::new(3);
    for value in [Some(1), None, Some(2), Some(3), Some(4)] {
        history.push(SeriesKey::Cpu, value);
    }
    assert_eq!(history.series(&SeriesKey::Cpu), vec![2, 3, 4]);
}

#[test]
fn history_records_rx_and_tx_separately_per_interface() {
    let mut history = History::new(60);
    history.record(&history_sample(&[("en0", 100, 50)]));
    assert_eq!(history.series(&SeriesKey::NetRx("en0".into())), vec![100]);
    assert_eq!(history.series(&SeriesKey::NetTx("en0".into())), vec![50]);
    assert_eq!(history.series(&SeriesKey::Cpu), vec![40]);
    assert_eq!(history.series(&SeriesKey::Disk), vec![70]);
}

#[test]
fn history_drops_series_for_vanished_interfaces() {
    let mut history = History::new(60);
    history.record(&history_sample(&[("en0", 100, 50), ("utun3", 1, 1)]));
    assert_eq!(history.len(&SeriesKey::NetRx("utun3".into())), 1);

    history.record(&history_sample(&[("en0", 100, 50)]));
    assert_eq!(history.len(&SeriesKey::NetRx("utun3".into())), 0);
    assert_eq!(history.len(&SeriesKey::NetRx("en0".into())), 2);
}

#[test]
fn history_capacity_is_at_least_one() {
    let mut history = History::new(0);
    history.push(SeriesKey::Memory, Some(5));
    history.push(SeriesKey::Memory, Some(6));
    assert_eq!(history.series(&SeriesKey::Memory), vec![6]);
    assert_eq!(history.len(&SeriesKey::Disk), 0);
}

#[test]
fn issues_are_listed_in_source_order() {
    let mut state = SystemState::new();
    state.apply(CollectorUpdate::Failed {
        source: Source::Traffic,
        message: "nettop exited".into(),
    });
    state.apply(CollectorUpdate::Stopped(Source::System));
    assert_eq!(
        state.issues(),
        vec![
            (Source::System, "data stream stopped"),
            (Source::Traffic, "nettop exited")
        ]
    );
}

#[test]
fn failed_system_source_clears_its_fields() {
    let mut state = SystemState::new();
    state.apply(CollectorUpdate::System(system_sample()));
    state.apply(CollectorUpdate::Failed {
        source: Source::System,
        message: "sysinfo failed".into(),
    });
    assert!(state.processes.is_empty());
    assert!(state.disks.is_empty());
    assert_eq!(state.cpu.usage, None);
    assert_eq!(state.memory, MemoryStats::default());
    assert!(state.primary_disk().is_none());
}

#[test]
fn primary_disk_falls_back_to_first_user_volume() {
    let mut state = SystemState::new();
    let mut sample = system_sample();
    sample.disks = vec![disk("/System/Volumes/Data", 5), disk("/Volumes/USB", 7)];
    state.apply(CollectorUpdate::System(sample));
    assert_eq!(state.primary_disk().unwrap().mount, "/Volumes/USB");
}

#[test]
fn history_keeps_the_latest_values_after_many_pushes() {
    let mut history = History::new(3);
    for v in [Some(1), None, Some(2), Some(3), None, Some(4), Some(5)] {
        history.push(SeriesKey::Cpu, v);
    }
    assert_eq!(history.series(&SeriesKey::Cpu), vec![3, 4, 5]);
    assert_eq!(history.len(&SeriesKey::Cpu), 3);
    let mut single = History::new(0);
    single.push(SeriesKey::Memory, Some(7));
    single.push(SeriesKey::Memory, Some(8));
    assert_eq!(single.series(&SeriesKey::Memory), vec![8]);
}
