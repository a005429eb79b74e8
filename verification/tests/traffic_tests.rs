use filiz::collectors::runtime::{ends_worker, Control, ControlPoll};
use filiz::collectors::traffic::{
    exit_message, NettopParser, NettopRow, Restarts, TrafficConfig, TrafficTracker,
};
use filiz::state::ProcessTraffic;

const HEADER: &str = "time,,interface,state,bytes_in,bytes_out,rx_dupe";

const SECOND: u64 = 1_000_000_000;

fn row(pid: u32, bytes_in: u64, bytes_out: u64) -> NettopRow {
    NettopRow {
        pid,
        bytes_in,
        bytes_out,
    }
}

/// The received and sent rates in bytes per second.
fn rates(traffic: &ProcessTraffic) -> (f64, f64) {
    let seconds = traffic.rate.elapsed_nanos as f64 / 1e9;
    (
        traffic.rate.rx_bytes as f64 / seconds,
        traffic.rate.tx_bytes as f64 / seconds,
    )
}

#[test]
fn parser_emits_a_block_when_the_next_header_arrives() {
    let mut parser = NettopParser::default();
    assert_eq!(
        parser.push_line("11:00:00.1,Safari.321,,,1000,500,0"),
        None,
        "row before header"
    );
    assert_eq!(parser.push_line(HEADER), None);
    assert_eq!(parser.push_line("11:00:00.1,Safari.321,,,1000,500,0"), None);
    assert_eq!(parser.push_line("11:00:00.1,broken line"), None);
    assert_eq!(parser.push_line(HEADER), Some(vec![row(321, 1000, 500)]));
    assert_eq!(parser.push_line(HEADER), Some(vec![]));
}

#[test]
fn parser_takes_pid_after_last_dot() {
    let mut parser = NettopParser::default();
    parser.push_line(HEADER);
    parser.push_line("11:00:00.1,com.apple.WebKit.Networking.812,,,10,20,0");
    parser.push_line("11:00:00.1,Google Chrome H.81373,,,30,40,0");
    assert_eq!(
        parser.push_line(HEADER),
        Some(vec![row(812, 10, 20), row(81373, 30, 40)])
    );
}

#[test]
fn tracker_reports_rates_from_deltas_and_skips_idle_and_reset_counters() {
    let mut tracker = TrafficTracker::default();
    let start = 5 * SECOND;
    assert!(tracker
        .update(
            &[row(1, 1000, 1000), row(2, 500, 500), row(3, 900, 900)],
            start
        )
        .is_empty());
    let traffic = tracker.update(
        &[row(1, 3000, 1500), row(2, 500, 500), row(3, 100, 100)],
        start + 2 * SECOND,
    );
    assert_eq!(traffic.len(), 1, "idle pid 2 and reset pid 3 are omitted");
    assert_eq!(traffic[0].pid, 1);
    assert_eq!(rates(&traffic[0]).0, 1000.0);
    assert_eq!(rates(&traffic[0]).1, 250.0);
    let after_reset = tracker.update(&[row(3, 300, 100)], start + 4 * SECOND);
    assert_eq!(rates(&after_reset[0]).0, 100.0);
}

#[test]
fn parser_trims_fields_and_accepts_a_plus_sign() {
    let mut parser = NettopParser::new();
    parser.push_line("time, ,iface, bytes_out , bytes_in ");
    parser.push_line("x, launchd. 1 ,en0, +7 ,8");
    assert_eq!(parser.push_line("time,bytes_in,bytes_out"), Some(vec![row(1, 8, 7)]));
}

#[test]
fn parser_ignores_rows_under_a_header_without_counters() {
    let mut parser = NettopParser::new();
    parser.push_line("time,,interface");
    parser.push_line("x,Safari.321,,,1000,500,0");
    assert_eq!(parser.push_line(HEADER), Some(vec![]));
}

#[test]
fn parser_rejects_pids_and_counters_out_of_range() {
    let mut parser = NettopParser::new();
    parser.push_line(HEADER);
    parser.push_line("x,big.4294967296,,,1,1,0");
    parser.push_line("x,neg.-3,,,1,1,0");
    parser.push_line("x,ok.4294967295,,,18446744073709551615,0,0");
    parser.push_line("x,over.5,,,18446744073709551616,0,0");
    parser.push_line("x,nodot,,,1,1,0");
    assert_eq!(
        parser.push_line(HEADER),
        Some(vec![row(u32::MAX, u64::MAX, 0)])
    );
}

#[test]
fn tracker_needs_elapsed_time_and_a_previous_sample() {
    let mut tracker = TrafficTracker::new();
    tracker.update(&[row(1, 10, 10)], 100);
    assert!(tracker.update(&[row(1, 20, 20)], 100).is_empty());
    let traffic = tracker.update(&[row(1, 30, 25), row(9, 5, 5)], 100 + SECOND);
    assert_eq!(traffic.len(), 1);
    assert_eq!(traffic[0].rate.rx_bytes, 10);
    assert_eq!(traffic[0].rate.tx_bytes, 5);
    assert_eq!(traffic[0].rate.elapsed_nanos, SECOND);
}

#[test]
fn control_stop_and_disconnect_end_the_worker() {
    assert!(ends_worker(ControlPoll::Message(Control::Stop)));
    assert!(ends_worker(ControlPoll::Disconnected));
    assert!(!ends_worker(ControlPoll::Message(Control::Refresh)));
    assert!(!ends_worker(ControlPoll::Empty));
}

#[test]
fn restarts_reset_on_delivery_and_give_up_past_the_limit() {
    let config = TrafficConfig::default();
    assert_eq!(config.program, "/usr/bin/nettop");
    assert_eq!(config.args, vec!["-P", "-x", "-L", "0", "-s", "2"]);
    assert_eq!(config.max_restarts, 3);
    assert_eq!(config.retry_delay.as_secs(), 10);
    let mut restarts = Restarts::default();
    assert!(!restarts.failed(config.max_restarts));
    assert!(!restarts.failed(config.max_restarts));
    restarts.run_ended(true);
    assert_eq!(restarts.failures, 0);
    for _ in 0..3 {
        assert!(!restarts.failed(config.max_restarts));
    }
    restarts.run_ended(false);
    assert!(restarts.failed(config.max_restarts));
}

#[test]
fn exit_messages_name_the_cause() {
    assert_eq!(exit_message(None), "nettop exited");
    assert_eq!(
        exit_message(Some("No such file or directory (os error 2)")),
        "nettop unavailable: No such file or directory (os error 2)"
    );
}

#[test]
fn default_config_retries_after_ten_seconds() {
    let config = TrafficConfig::default();
    assert_eq!(config.retry_delay, std::time::Duration::from_secs(10));
}
