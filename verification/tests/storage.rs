use perfdroid::storage::{find_channel, Channel, SessionStore, TimestampedBatch};
use perfdroid::types::MetricBatch;

fn frame(timestamp_ms: u64, key: &str, unit: &str, values: Vec<i64>) -> TimestampedBatch {
    TimestampedBatch {
        timestamp_ms,
        batch: MetricBatch { metric_key: key.to_string(), unit: unit.to_string(), values },
    }
}

fn times(frames: &[TimestampedBatch]) -> Vec<u64> {
    frames.iter().map(|f| f.timestamp_ms).collect()
}

#[test]
fn stores_latest_battery_temperature_value() {
    let mut store = SessionStore::default();
    store.push(TimestampedBatch {
        timestamp_ms: 1234,
        batch: MetricBatch {
            metric_key: "BATTERY_TEMP".to_string(),
            unit: "0.1C".to_string(),
            values: vec![315],
        },
    });

    assert_eq!(store.latest_battery_temperature_value(), Some(315));
    assert_eq!(store.battery_temperature_frames().len(), 1);
}

#[test]
fn stores_latest_power_related_values() {
    let mut store = SessionStore::default();
    store.push(frame(1234, "VOLTAGE", "mV", vec![4321]));
    store.push(frame(1235, "CURRENT", "mA", vec![512]));
    store.push(frame(1236, "POWER", "mW", vec![2212]));

    assert_eq!(store.latest_battery_voltage_value(), Some(4321));
    assert_eq!(store.latest_battery_current_value(), Some(512));
    assert_eq!(store.latest_battery_power_value(), Some(2212));
}

#[test]
fn delete_range_compacts_timeline_for_all_metrics() {
    let mut store = SessionStore::default();
    for ts in [0_u64, 5_000, 10_000, 15_000, 20_000] {
        store.push(frame(ts, "CPU_CLOCK", "MHz", vec![1000]));
        store.push(frame(ts, "FPS", "FPS", vec![60]));
    }

    store.delete_range(5_000, 15_000);

    assert_eq!(times(store.cpu_clock_frames()), vec![0, 10_000]);
    assert_eq!(times(store.fps_frames()), vec![0, 10_000]);
}

#[test]
fn delete_range_also_compacts_future_incoming_frames() {
    let mut store = SessionStore::default();
    for ts in [0_u64, 5_000, 10_000, 15_000, 20_000] {
        store.push(frame(ts, "CPU_CLOCK", "MHz", vec![1000]));
    }

    store.delete_range(5_000, 15_000);
    store.push(frame(25_000, "CPU_CLOCK", "MHz", vec![1100]));

    assert_eq!(times(store.cpu_clock_frames()), vec![0, 10_000, 15_000]);
}

#[test]
fn delete_single_point_compacts_by_sampling_step() {
    let mut store = SessionStore::default();
    for ts in [0_u64, 1_000, 2_000, 3_000] {
        store.push(frame(ts, "CPU_CLOCK", "MHz", vec![1000]));
    }

    store.delete_range(0, 0);
    assert_eq!(times(store.cpu_clock_frames()), vec![0, 1_000, 2_000]);
}

#[test]
fn a_point_between_frames_closes_the_timeline_by_one_step() {
    let mut store = SessionStore::default();
    for ts in [0_u64, 250, 500] {
        store.push(frame(ts, "FPS", "FPS", vec![60]));
    }
    store.delete_range(300, 300);
    assert_eq!(times(store.fps_frames()), vec![0, 250, 250]);
}

#[test]
fn a_range_that_ends_before_it_starts_moves_nothing() {
    let mut store = SessionStore::default();
    for ts in [0_u64, 1_000, 2_000] {
        store.push(frame(ts, "FPS", "FPS", vec![60]));
    }
    store.delete_range(2_000, 1_000);
    assert_eq!(times(store.fps_frames()), vec![0, 1_000, 2_000]);
}

#[test]
fn frames_stay_in_time_order_after_a_cut() {
    let mut store = SessionStore::default();
    for ts in [0_u64, 100, 200, 300, 400, 500] {
        store.push(frame(ts, "CPU_USAGE", "%", vec![1]));
    }
    store.delete_range(150, 350);
    let left = times(store.cpu_usage_frames());
    assert_eq!(left, vec![0, 100, 200, 300]);
    assert!(left.windows(2).all(|w| w[0] <= w[1]));
}

#[test]
fn frames_of_unknown_metrics_are_dropped() {
    let mut store = SessionStore::default();
    store.push(frame(1, "GPU", "MHz", vec![1]));
    assert_eq!(store.global_start_timestamp_ms(), None);
    assert_eq!(find_channel("GPU"), None);
    assert_eq!(find_channel("POWER"), Some(Channel::BatteryPower));
}

#[test]
fn the_session_starts_with_its_earliest_first_frame() {
    let mut store = SessionStore::default();
    store.push(frame(900, "FPS", "FPS", vec![60]));
    store.push(frame(700, "POWER", "mW", vec![1]));
    store.push(frame(800, "CPU_CLOCK", "MHz", vec![1]));
    store.push(frame(100, "CPU_CLOCK", "MHz", vec![1]));
    assert_eq!(store.global_start_timestamp_ms(), Some(700));
}

#[test]
fn latest_values_leave_out_invalid_ones() {
    let mut store = SessionStore::default();
    assert_eq!(store.latest_values(), Vec::<Option<i64>>::new());
    store.push(frame(1, "CPU_CLOCK", "MHz", vec![1400, -1, 0]));
    store.push(frame(2, "CPU_USAGE", "%", vec![-1, 55]));
    store.push(frame(3, "FPS", "FPS", vec![-1]));
    assert_eq!(store.latest_values(), vec![Some(1400), None, Some(0)]);
    assert_eq!(store.latest_cpu_usage_values(), vec![None, Some(55)]);
    assert_eq!(store.latest_fps_value(), None);
    assert_eq!(store.latest_cpu_clock().map(|f| f.timestamp_ms), Some(1));
    assert_eq!(store.latest_cpu_usage().map(|f| f.timestamp_ms), Some(2));
    assert_eq!(store.latest_fps().map(|f| f.timestamp_ms), Some(3));
    assert!(store.latest_battery_power().is_none());
}

#[test]
fn a_copy_of_a_store_holds_the_same_frames() {
    let mut store = SessionStore::default();
    store.push(frame(5, "FPS", "FPS", vec![60]));
    store.delete_range(1, 3);
    let mut copy = store.clone();
    copy.push(frame(10, "FPS", "FPS", vec![61]));
    assert_eq!(times(store.fps_frames()), vec![3]);
    assert_eq!(times(copy.fps_frames()), vec![3, 8]);
}
