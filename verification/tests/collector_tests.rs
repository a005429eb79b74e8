use filiz::collectors::macos::{choose_sensor, cpu_usage_texts, parse_battery};

#[test]
fn macos_battery_parser_extracts_typed_values() {
    let sample = "Now drawing from 'Battery Power'\n -InternalBattery-0 (id=1234567)\t78%; discharging; 3:20 remaining present: true";
    let battery = parse_battery(sample).expect("battery values");
    assert_eq!(battery.percent, 78);
    assert_eq!(battery.power_source.as_deref(), Some("Battery Power"));
    assert_eq!(battery.charging, Some(false));
}

#[test]
fn macos_battery_parser_rejects_unexposed_percentage() {
    assert!(parse_battery("Now drawing from 'AC Power'\n No batteries available").is_none());
}

#[test]
fn macos_battery_parser_keeps_percent_when_status_is_unavailable() {
    let sample = "Now drawing from 'Battery Power'\n -InternalBattery-0\t78%; unknown;";
    let battery = parse_battery(sample).expect("battery percent");
    assert_eq!(battery.percent, 78);
    assert_eq!(battery.charging, None);
}

#[test]
fn battery_parser_reads_charging_states() {
    let charging = "Now drawing from 'AC Power'\r\n -InternalBattery-0\t100%; finishing charge; 0:00\n";
    let battery = parse_battery(charging).unwrap();
    assert_eq!(battery.percent, 100);
    assert_eq!(battery.charging, Some(true));
    assert_eq!(battery.power_source.as_deref(), Some("AC Power"));
    let charged = parse_battery("x\n -InternalBattery-0\t5%; charged").unwrap();
    assert_eq!(charged.charging, Some(false));
    assert_eq!(charged.power_source, None);
}

#[test]
fn battery_parser_rejects_impossible_percentages() {
    assert!(parse_battery("'AC Power'\n 101%; charging").is_none());
    assert!(parse_battery("'AC Power'\n 300%; charging").is_none());
    assert!(parse_battery("'AC Power'\n nothing%; charging").is_none());
    assert!(parse_battery("").is_none());
}

#[test]
fn cpu_usage_texts_pick_the_share_fields() {
    assert_eq!(
        cpu_usage_texts("Processes: 3\nCPU usage: 12.50% user, 4.25% sys, 83.25% idle\n"),
        Some(vec!["12.50".to_string(), "4.25".to_string(), "83.25".to_string()])
    );
    assert_eq!(cpu_usage_texts("Load Avg: 1.0\n"), None);
    assert_eq!(cpu_usage_texts("CPU usage:"), Some(vec![String::new()]));
}

#[test]
fn sensor_choice_prefers_a_readable_cpu_sensor() {
    let labels = vec!["GPU".to_string(), "CPU Die".to_string(), "cpu proximity".to_string()];
    assert_eq!(choose_sensor(&labels, &vec![true, false, true]), Some(2));
    assert_eq!(choose_sensor(&labels, &vec![true, true, true]), Some(1));
    assert_eq!(choose_sensor(&labels, &vec![true, false, false]), Some(0));
    assert_eq!(choose_sensor(&labels, &vec![false, false, false]), None);
    assert_eq!(choose_sensor(&vec!["cPu".to_string()], &vec![true]), Some(0));
    assert_eq!(choose_sensor(&vec![], &vec![]), None);
}
