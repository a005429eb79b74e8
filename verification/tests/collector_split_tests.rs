use filiz::collectors::runtime::{drain_step, Control, ControlPoll};
use filiz::collectors::processes::{sort_by_pid, ProcessReading, ProcessTracker};
use filiz::collectors::system::{disk_stats, memory_stats, step_counters, InterfaceCounters};
use filiz::model::{Float32, ProcessIdentity, ProcessInfo};
use filiz::state::MemoryStats;

fn reading(pid: u32, start_time: u64) -> ProcessReading {
    ProcessReading {
        identity: ProcessIdentity { pid, start_time },
        name: format!("p{pid}"),
        command: String::new(),
        cpu_usage: Float32(3.5f32.to_bits()),
        memory_bytes: 10,
        user: None,
        status: Some("Run".into()),
    }
}

fn pids(processes: &[ProcessInfo]) -> Vec<u32> {
    processes.iter().map(|p| p.identity.pid).collect()
}

#[test]
fn process_sample_preserves_start_time_and_pid_order() {
    let mut tracker = ProcessTracker::new();
    let first = tracker.observe(&vec![reading(30, 1), reading(4, 2), reading(12, 3)]);
    assert_eq!(pids(&first), vec![4, 12, 30]);
    assert_eq!(first[0].identity.start_time, 2);
    assert!(first.iter().all(|p| p.cpu_percent.is_none()), "no baseline yet");
    let second = tracker.observe(&vec![reading(12, 3), reading(4, 9)]);
    assert_eq!(pids(&second), vec![4, 12]);
    assert_eq!(second[0].cpu_percent, None, "PID 4 was reused");
    assert_eq!(second[1].cpu_percent, Some(Float32(3.5f32.to_bits())));
}

#[test]
fn pid_sort_is_stable() {
    let mut tracker = ProcessTracker::new();
    let processes = tracker.observe(&vec![reading(5, 1), reading(2, 1), reading(5, 2)]);
    let sorted = sort_by_pid(processes);
    assert_eq!(pids(&sorted), vec![2, 5, 5]);
    assert_eq!(sorted[1].identity.start_time, 1);
    assert_eq!(sorted[2].identity.start_time, 2);
}

#[test]
fn memory_figures_fall_back_to_unused_memory() {
    assert_eq!(memory_stats(0, 1, 2, 3, 4, 5), MemoryStats::default());
    let memory = memory_stats(100, 30, 0, 20, 1, 2);
    assert_eq!(memory.available, Some(70));
    assert_eq!(memory.total, Some(100));
    assert_eq!(memory_stats(100, 130, 0, 0, 0, 0).available, Some(0));
    assert_eq!(memory_stats(100, 30, 55, 20, 1, 2).available, Some(55));
}

#[test]
fn disk_figures_mark_system_volumes() {
    let disk = disk_stats("/System/Volumes/Data".into(), 100, 40);
    assert!(disk.is_system);
    assert_eq!(disk.used, 60);
    let usb = disk_stats("/Volumes/USB".into(), 10, 40);
    assert!(!usb.is_system);
    assert_eq!(usb.used, 0);
}

#[test]
fn interface_totals_restart_when_counters_go_back() {
    let first = step_counters(None, 1_000, 500);
    assert_eq!((first.rx_total, first.tx_total), (0, 0));
    let second = step_counters(Some(first.counters), 1_600, 900);
    assert_eq!((second.rx_total, second.tx_total), (600, 400));
    assert!(!second.rx_reset);
    let reset = step_counters(Some(second.counters), 100, 1_000);
    assert!(reset.rx_reset);
    assert!(!reset.tx_reset);
    assert_eq!(reset.rx_total, 0);
    assert_eq!(reset.tx_total, 500);
    assert_eq!(
        reset.counters,
        InterfaceCounters {
            received: 100,
            transmitted: 1_000,
            baseline_received: 100,
            baseline_transmitted: 500
        }
    );
}

#[test]
fn draining_skips_refresh_and_stops_on_stop_or_disconnect() {
    assert_eq!(drain_step(ControlPoll::Message(Control::Refresh)), None);
    assert_eq!(drain_step(ControlPoll::Message(Control::Stop)), Some(true));
    assert_eq!(drain_step(ControlPoll::Disconnected), Some(true));
    assert_eq!(drain_step(ControlPoll::Empty), Some(false));
}
