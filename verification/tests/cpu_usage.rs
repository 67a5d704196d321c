use perfdroid::profiler::cpu_usage::{
    clamp_percentage, cpu_stat_fits, parse_cpu_line, parse_cpu_stat, parse_policy_listing,
    parse_related_cpu_set, policy_load, CpuTick, CpuUsageProfiler, Load,
};

fn rounded(load: Option<Load>) -> i64 {
    match load {
        Some(load) => ((load.busy as f64 / load.total as f64) * 100.0).round() as i64,
        None => 0,
    }
}

#[test]
fn parses_per_core_cpu_stat_lines() {
    let input = "\
cpu  100 0 200 900 10 0 0 0 0 0
cpu0 50 0 100 450 5 0 0 0 0 0
cpu1 50 0 100 450 5 0 0 0 0 0";
    let rows = parse_cpu_stat(input);
    assert_eq!(rows.len(), 2);
    assert_eq!(rows[0].0, "cpu0");
    assert_eq!(rows[1].0, "cpu1");
    assert_eq!(rows[0].1, CpuTick { total: 605, idle: 455 });
}

#[test]
fn computes_usage_from_tick_deltas() {
    let previous = vec![("cpu0".to_string(), CpuTick { total: 1000, idle: 800 })];
    let current = vec![("cpu0".to_string(), CpuTick { total: 1100, idle: 850 })];
    let keys = vec!["cpu0".to_string()];

    // 100 total delta, 50 idle delta => 50% usage
    let load = policy_load(&keys, &current, &previous);
    assert_eq!(load, Some(Load { busy: 50, total: 100 }));
    assert_eq!(clamp_percentage(rounded(load)), 50);
}

#[test]
fn parses_policy_listing_with_related_cpus() {
    let input = "policy0:0 1 2 3\npolicy6:6 7\n";
    let policies = parse_policy_listing(input);
    assert_eq!(policies.len(), 2);
    assert_eq!(policies[0].name, "policy0");
    assert_eq!(policies[0].core_names, vec!["cpu0", "cpu1", "cpu2", "cpu3"]);
    assert_eq!(policies[1].name, "policy6");
    assert_eq!(policies[1].core_names, vec!["cpu6", "cpu7"]);
}

#[test]
fn parses_related_cpu_ranges_and_lists() {
    assert_eq!(parse_related_cpu_set("0-3"), vec!["cpu0", "cpu1", "cpu2", "cpu3"]);
    assert_eq!(
        parse_related_cpu_set("0-1,4,6-7"),
        vec!["cpu0", "cpu1", "cpu4", "cpu6", "cpu7"]
    );
    assert_eq!(
        parse_related_cpu_set("0-3 6 7"),
        vec!["cpu0", "cpu1", "cpu2", "cpu3", "cpu6", "cpu7"]
    );
}

#[test]
fn no_load_without_ticks_or_with_a_missing_core() {
    let keys = vec!["cpu0".to_string(), "cpu1".to_string()];
    let one = vec![("cpu0".to_string(), CpuTick { total: 10, idle: 5 })];
    let both = vec![
        ("cpu0".to_string(), CpuTick { total: 10, idle: 5 }),
        ("cpu1".to_string(), CpuTick { total: 20, idle: 5 }),
    ];
    assert_eq!(policy_load(&keys, &both, &one), None);
    assert_eq!(policy_load(&keys, &one, &both), None);
    assert_eq!(policy_load(&keys, &both, &both), None);
}

#[test]
fn percentages_stay_in_range() {
    assert_eq!(clamp_percentage(-3), 0);
    assert_eq!(clamp_percentage(42), 42);
    assert_eq!(clamp_percentage(101), 100);
}

#[test]
fn counters_must_add_up() {
    assert!(cpu_stat_fits("cpu0 1 2 3 4\n"));
    assert!(!cpu_stat_fits("cpu0 18446744073709551615 1 0 0\n"));
    assert_eq!(
        parse_cpu_line("cpu3 1 2 3 4 5"),
        Some(("cpu3".to_string(), CpuTick { total: 15, idle: 9 }))
    );
    assert_eq!(parse_cpu_line("intr 1 2 3 4 5"), None);
}

#[test]
fn the_second_sample_shows_the_utilisation() {
    let mut profiler = CpuUsageProfiler::new(None, 100).unwrap();
    assert_eq!(
        profiler.connect(Ok(String::new())).unwrap_err().message(),
        "no readable CPU usage policy was found on the target device"
    );
    profiler.connect(Ok("policy0:0 1\n".to_string())).unwrap();
    assert!(profiler.begin_start().unwrap());
    let first = Ok("cpu0 100 0 0 100 0\ncpu1 100 0 0 100 0\n".to_string());
    assert_eq!(profiler.measure(&first), vec![None]);
    profiler.sample_once(first, &[0]);
    assert_eq!(profiler.snapshot_values(), vec![-1]);
    profiler.finish_start();
    let second = Ok("cpu0 130 0 0 110 0\ncpu1 130 0 0 130 0\n".to_string());
    let loads = profiler.measure(&second);
    assert_eq!(loads, vec![Some(Load { busy: 60, total: 100 })]);
    profiler.sample_once(second, &[rounded(loads[0])]);
    assert_eq!(profiler.snapshot_values(), vec![60]);
    profiler.stop().unwrap();
    assert_eq!(profiler.snapshot_values(), vec![-1]);
}
