use perfdroid::constants::INVALID_METRIC_VALUE;
use perfdroid::errors::CoreError;
use perfdroid::profiler::cpu_clock::{
    build_sampling_command, parse_policy_listing, parse_sampling_output, CpuClockProfiler,
};
use perfdroid::profiler::sampler::{next_step, pace, LoopStep, Pace, SamplerState};

fn connected() -> CpuClockProfiler {
    let mut profiler = CpuClockProfiler::new(None, 100).unwrap();
    profiler.connect(Ok("policy0:0 1 2 3\npolicy6:6 7\n".to_string())).unwrap();
    profiler
}

#[test]
fn parses_policy_listing() {
    let policies = parse_policy_listing("policy0:0 1 2 3\npolicy6:6 7\n");
    assert_eq!(policies.len(), 2);
    assert_eq!(policies[0].policy_name, "policy0");
    assert_eq!(policies[1].related_cpus, "6 7");
}

#[test]
fn parses_sampling_output_to_mhz() {
    let values = parse_sampling_output("710400\n1305600\n-1\n");
    assert_eq!(values, vec![710, 1305, INVALID_METRIC_VALUE]);
}

#[test]
fn the_sampling_command_reads_every_policy() {
    let names = vec!["policy0".to_string(), "policy6".to_string()];
    let command = build_sampling_command(&names);
    assert!(command.contains("policy0"));
    assert!(command.contains("policy6"));
    assert_eq!(connected().sampling_command(), command);
}

#[test]
fn a_device_without_policies_cannot_be_connected() {
    let mut profiler = CpuClockProfiler::new(Some("ABC".to_string()), 100).unwrap();
    let error = profiler.connect(Ok("nothing here\n".to_string())).unwrap_err();
    assert_eq!(
        error.message(),
        "no readable CPU frequency policy was found on the target device"
    );
    let error = profiler.connect(Err(CoreError::runtime("gone"))).unwrap_err();
    assert_eq!(error.message(), "gone");
    assert_eq!(profiler.metadata_clone().collector.len(), 1);
}

#[test]
fn a_sample_gives_every_policy_a_value() {
    let mut profiler = connected();
    assert_eq!(profiler.collector_labels(), vec!["policy0 (0 1 2 3)", "policy6 (6 7)"]);
    assert_eq!(profiler.snapshot_values(), vec![-1, -1]);
    profiler.sample_once(Ok("1804800\n2400000\n".to_string())).unwrap();
    assert_eq!(profiler.snapshot_values(), vec![1804, 2400]);
    let error = profiler.sample_once(Ok("1804800\n".to_string())).unwrap_err();
    assert_eq!(error.message(), "CPU_CLOCK sample returned 1 values, expected 2");
    assert_eq!(profiler.snapshot_values(), vec![-1, -1]);
    profiler.tick(Ok("1804800\n2400000\n".to_string()));
    assert_eq!(profiler.snapshot_values(), vec![1804, 2400]);
    profiler.tick(Err(CoreError::runtime("gone")));
    assert_eq!(profiler.snapshot_values(), vec![-1, -1]);
}

#[test]
fn a_sampler_is_started_paused_resumed_and_stopped() {
    let mut profiler = CpuClockProfiler::new(None, 100).unwrap();
    assert_eq!(
        profiler.begin_start().unwrap_err().message(),
        "CPU_CLOCK profiler must be connected before `start`"
    );
    assert_eq!(
        profiler.pause().unwrap_err().message(),
        "CPU_CLOCK profiler must be connected before `pause`"
    );
    let mut profiler = connected();
    assert_eq!(profiler.pause().unwrap_err().message(), "CPU_CLOCK sampler is not running");
    assert_eq!(profiler.restart().unwrap_err().message(), "CPU_CLOCK sampler is not running");
    assert!(profiler.begin_start().unwrap());
    profiler.finish_start();
    assert!(!profiler.begin_start().unwrap());
    profiler.pause().unwrap();
    assert!(profiler.is_paused());
    profiler.restart().unwrap();
    assert_eq!(profiler.link().sampler, SamplerState::Sampling);
    profiler.stop().unwrap();
    assert_eq!(profiler.link().sampler, SamplerState::Absent);
    assert!(!profiler.link().connected);
}

#[test]
fn the_loop_keeps_its_pace() {
    assert_eq!(next_step(true, true), LoopStep::End);
    assert_eq!(next_step(false, true), LoopStep::Wait(20));
    assert_eq!(next_step(false, false), LoopStep::Sample);
    assert_eq!(pace(1_000, 400, 100), Pace { sleep_ns: 600, next_tick_ns: 1_100 });
    assert_eq!(pace(1_000, 1_500, 100), Pace { sleep_ns: 0, next_tick_ns: 1_600 });
}
