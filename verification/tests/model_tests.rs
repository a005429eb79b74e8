use filiz::model::{
    filter_processes, sort_processes, Float32, ProcessIdentity, ProcessInfo, SortMode,
};

fn process(
    pid: u32,
    name: &str,
    command: &str,
    cpu_percent: f32,
    memory_bytes: u64,
) -> ProcessInfo {
    ProcessInfo {
        identity: ProcessIdentity { pid, start_time: 1 },
        name: name.to_owned(),
        command: command.to_owned(),
        cpu_percent: Some(Float32(cpu_percent.to_bits())),
        memory_bytes: Some(memory_bytes),
        user: None,
        status: None,
        traffic: None,
    }
}

fn pids(processes: &[ProcessInfo]) -> Vec<u32> {
    processes.iter().map(|p| p.identity.pid).collect()
}

#[test]
fn model_tests_filter_matches_name_and_command_case_insensitively() {
    let processes = vec![
        process(1, "Terminal", "/Applications/Terminal.app", 1.0, 100),
        process(2, "worker", "/usr/local/bin/BUILD-WORKER", 2.0, 200),
        process(3, "Finder", "/System/Library/Finder", 3.0, 300),
    ];

    let results = filter_processes(&processes, "tErMiNaL");
    assert_eq!(pids(&results), vec![1]);

    let results = filter_processes(&processes, "build-worker");
    assert_eq!(pids(&results), vec![2]);
}

#[test]
fn model_tests_sort_orders_cpu_descending_with_pid_tie_breaker() {
    let mut processes = vec![
        process(8, "eight", "eight", 10.0, 100),
        process(3, "three", "three", 50.0, 100),
        process(2, "two", "two", 50.0, 100),
    ];

    sort_processes(&mut processes, SortMode::Cpu);
    assert_eq!(pids(&processes), vec![2, 3, 8]);
}

#[test]
fn model_tests_sort_orders_memory_descending_with_pid_tie_breaker() {
    let mut processes = vec![
        process(8, "eight", "eight", 100.0, 200),
        process(3, "three", "three", 100.0, 900),
        process(2, "two", "two", 100.0, 900),
    ];

    sort_processes(&mut processes, SortMode::Memory);
    assert_eq!(pids(&processes), vec![2, 3, 8]);
}

#[test]
fn blank_filter_keeps_every_process_in_order() {
    let processes = vec![
        process(5, "a", "a", 1.0, 1),
        process(4, "b", "b", 1.0, 1),
    ];
    assert_eq!(pids(&filter_processes(&processes, "   ")), vec![5, 4]);
    assert_eq!(pids(&filter_processes(&processes, "")), vec![5, 4]);
}

#[test]
fn filter_trims_the_query() {
    let processes = vec![
        process(1, "Terminal", "x", 1.0, 1),
        process(2, "Finder", "y", 1.0, 1),
    ];
    assert_eq!(pids(&filter_processes(&processes, "  finder \t")), vec![2]);
}

#[test]
fn missing_measurements_sort_last_and_negative_cpu_below_zero() {
    let mut processes = vec![
        process(1, "a", "a", -1.0, 1),
        process(2, "b", "b", 0.0, 1),
        process(3, "c", "c", 7.5, 1),
    ];
    processes[0].cpu_percent = None;
    processes.push(process(4, "d", "d", -2.0, 1));
    sort_processes(&mut processes, SortMode::Cpu);
    assert_eq!(pids(&processes), vec![3, 2, 4, 1]);
}

#[test]
fn sorting_is_stable_for_equal_keys() {
    let mut first = process(7, "a", "a", 3.0, 1);
    first.identity.start_time = 10;
    let mut second = process(7, "b", "b", 3.0, 1);
    second.identity.start_time = 20;
    let mut processes = vec![first, second];
    sort_processes(&mut processes, SortMode::Cpu);
    assert_eq!(processes[0].identity.start_time, 10);
    assert_eq!(processes[1].identity.start_time, 20);
}
