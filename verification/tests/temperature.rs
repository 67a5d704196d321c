use perfdroid::errors::CoreError;
use perfdroid::profiler::temperature::{parse_battery_temperature, BatteryTemperatureProfiler};

#[test]
fn parses_standard_dumpsys_battery_temperature() {
    let output = "\
Current Battery Service state:
  AC powered: false
  USB powered: true
  level: 79
  voltage: 4321
  temperature: 295
  technology: Li-ion";
    assert_eq!(parse_battery_temperature(output), Some(295));
}

#[test]
fn parses_temperature_with_extra_spacing() {
    let output = "  temperature:    321   ";
    assert_eq!(parse_battery_temperature(output), Some(321));
}

#[test]
fn missing_temperature_returns_none() {
    let output = "level: 80\nvoltage: 4300\ntechnology: Li-ion";
    assert_eq!(parse_battery_temperature(output), None);
}

#[test]
fn the_first_readable_temperature_counts() {
    assert_eq!(parse_battery_temperature("temperature: x\ntemperature: 301\n"), Some(301));
}

#[test]
fn the_profiler_needs_a_temperature_to_connect() {
    let mut profiler = BatteryTemperatureProfiler::new(None, 1).unwrap();
    assert_eq!(
        profiler.connect(Ok("level: 80".to_string())).unwrap_err().message(),
        "failed to read a usable battery temperature from `adb shell dumpsys battery`"
    );
    profiler.connect(Ok("temperature: 305".to_string())).unwrap();
    assert_eq!(profiler.snapshot_value(), 305);
    profiler.tick(Err(CoreError::runtime("closed")));
    assert_eq!(profiler.snapshot_value(), -1);
    profiler.tick(Ok("temperature: 306".to_string()));
    assert_eq!(profiler.snapshot_value(), 306);
    profiler.stop().unwrap();
    assert_eq!(profiler.snapshot_value(), -1);
    assert_eq!(profiler.metadata_clone().collector[0].unit, "0.1C");
}
