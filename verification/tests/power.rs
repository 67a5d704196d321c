use perfdroid::errors::CoreError;
use perfdroid::profiler::power::{
    detect_strategy_and_value, query_power_snapshot_with_strategy, BatteryPowerProfiler,
    CurrentReadStrategy,
    PowerMetricKind, PowerReadStrategy, SelectedPowerStrategy, VoltageReadStrategy,
};
use perfdroid::profiler::power_supply::{
    best_current_from_power_supply_entries, best_voltage_from_power_supply_entries,
    normalize_current_ma, normalize_voltage_mv, parse_dumpsys_voltage_mv, parse_first_line_value,
    parse_keyed_value, parse_micharge_line, parse_micharge_snapshot, parse_power_supply_scan,
    parse_scan_snapshot, power_from, power_mw, power_supply_entry_score, PowerSnapshot, Quantity,
};
use perfdroid::shell::Progress;

#[test]
fn normalizes_voltage_from_microvolts() {
    assert_eq!(normalize_voltage_mv(4_321_000), Some(4321));
    assert_eq!(normalize_voltage_mv(4321), Some(4321));
    assert_eq!(normalize_voltage_mv(0), None);
}

#[test]
fn normalizes_current_to_positive_milliamps() {
    assert_eq!(normalize_current_ma(-512_000), Some(512));
    assert_eq!(normalize_current_ma(875_000), Some(875));
    assert_eq!(normalize_current_ma(650), Some(650));
}

#[test]
fn parses_voltage_from_dumpsys_battery() {
    let output = "\
Current Battery Service state:
  level: 74
  voltage: 4312
  temperature: 298";
    assert_eq!(parse_dumpsys_voltage_mv(output), Some(4312));
}

#[test]
fn parses_current_from_power_supply_uevent() {
    let output = "\
POWER_SUPPLY_NAME=battery
POWER_SUPPLY_CURRENT_NOW=-623000
POWER_SUPPLY_VOLTAGE_NOW=4312000";
    assert_eq!(
        parse_keyed_value(output, &["POWER_SUPPLY_CURRENT_NOW"], Quantity::Current),
        Some(623)
    );
}

#[test]
fn parses_power_supply_scan_and_prefers_battery_entry() {
    let output = "\
== /sys/class/power_supply/usb ==
type=USB
current_now=1500000
status=Charging
== /sys/class/power_supply/battery ==
type=Battery
current_now=-623000
current_avg=-500000
voltage_now=4312000
status=Discharging";
    let entries = parse_power_supply_scan(output);
    assert_eq!(entries.len(), 2);
    assert_eq!(best_current_from_power_supply_entries(&entries), Some(623));
    assert_eq!(best_voltage_from_power_supply_entries(&entries), Some(4312));
    assert!(power_supply_entry_score(&entries[1]) > power_supply_entry_score(&entries[0]));
    assert_eq!(parse_scan_snapshot(output).power_mw, Some(2686));
}

#[test]
fn parses_micharge_voltage_and_current_from_latest_bundle() {
    let output = "\
04-16 17:01:24.412  3462  3663 E IMiCharge: MiCharge method 11 val = 3931000
04-16 17:01:24.413  3462  3663 E IMiCharge: MiCharge method 6 val = -540000
04-16 17:14:57.662  3462  3663 E IMiCharge: MiCharge method 11 val = 3884000
04-16 17:14:57.663  3462  3663 E IMiCharge: MiCharge method 6 val = -362000
04-16 17:14:57.663  3462  3663 E IMiCharge: MiCharge method 9 val = 445";
    let snapshot = parse_micharge_snapshot(output);
    assert_eq!(snapshot.voltage_mv, Some(3884));
    assert_eq!(snapshot.current_ma, Some(362));
    assert_eq!(snapshot.power_mw, Some(1406));
}

#[test]
fn ignores_micharge_lines_without_numeric_values() {
    assert_eq!(
        parse_micharge_line(
            "04-16 17:14:57.651  3462  3663 E IMiCharge: MiCharge method 4 val = CDP"
        ),
        None
    );
    assert_eq!(parse_micharge_line("E IMiCharge: MiCharge method 4 val = 7"), Some((4, 7)));
}

#[test]
fn computes_power_from_voltage_and_current() {
    let snapshot = PowerSnapshot {
        voltage_mv: Some(4312),
        current_ma: Some(512),
        power_mw: Some(4312 * 512 / 1000),
    };
    assert_eq!(snapshot.power_mw, Some(2207));
    assert_eq!(power_mw(4312, 512), 2207);
    assert_eq!(power_from(Some(4312), Some(512)), Some(2207));
    assert_eq!(power_from(Some(4312), None), None);
}

#[test]
fn a_value_stands_on_the_first_line() {
    assert_eq!(parse_first_line_value("4312000\n", Quantity::Voltage), Some(4312));
    assert_eq!(parse_first_line_value("none\n", Quantity::Voltage), None);
}

#[test]
fn probing_takes_the_first_way_that_works() {
    let mut replies: Vec<Result<String, CoreError>> = Vec::new();
    let found = loop {
        match detect_strategy_and_value(&replies, PowerMetricKind::Voltage) {
            Progress::Run(command) => {
                if command == "dumpsys battery" {
                    replies.push(Ok("voltage: 4312".to_string()));
                } else {
                    replies.push(Err(CoreError::runtime("no such file")));
                }
            }
            Progress::Done(found, used) => {
                assert_eq!(used, replies.len());
                break found;
            }
        }
    };
    assert_eq!(
        found,
        Some((SelectedPowerStrategy::Voltage(VoltageReadStrategy::DumpsysBattery), 4312))
    );
}

#[test]
fn probing_gives_up_when_no_way_works() {
    for metric in [PowerMetricKind::Voltage, PowerMetricKind::Current, PowerMetricKind::Power] {
        let mut replies: Vec<Result<String, CoreError>> = Vec::new();
        loop {
            match detect_strategy_and_value(&replies, metric) {
                Progress::Run(_) => replies.push(Err(CoreError::runtime("no such file"))),
                Progress::Done(found, _) => {
                    assert_eq!(found, None);
                    break;
                }
            }
            assert!(replies.len() <= 25);
        }
    }
}

#[test]
fn the_profiler_reports_how_it_reads() {
    let mut profiler = BatteryPowerProfiler::voltage(None, 1).unwrap();
    assert_eq!(
        profiler.connect(Ok(None)).unwrap_err().message(),
        "failed to find a usable voltage read strategy"
    );
    let strategy = SelectedPowerStrategy::Voltage(VoltageReadStrategy::DumpsysBattery);
    assert_eq!(
        profiler.connect(Ok(Some((strategy, -1)))).unwrap_err().message(),
        "failed to read a usable VOLTAGE sample from the target device"
    );
    profiler.connect(Ok(Some((strategy, 4312)))).unwrap();
    assert_eq!(profiler.snapshot_value(), 4312);
    assert_eq!(profiler.selected_strategy_label(), Some(strategy.label()));
    assert_eq!(profiler.begin_start().unwrap(), Some(strategy));
    let replies = [Ok("voltage: 4300".to_string())];
    match query_power_snapshot_with_strategy(&replies, strategy) {
        Progress::Done(snapshot, _) => profiler.sample_once_with_strategy(snapshot),
        Progress::Run(command) => panic!("{command}"),
    }
    assert_eq!(profiler.snapshot_value(), 4300);
    profiler.finish_start();
    assert_eq!(profiler.begin_start().unwrap(), None);
    let nothing = PowerSnapshot { voltage_mv: None, current_ma: None, power_mw: None };
    profiler.sample_once_with_strategy(nothing);
    assert_eq!(profiler.snapshot_value(), -1);
}

#[test]
fn metrics_have_their_keys_and_units() {
    assert_eq!(PowerMetricKind::Voltage.profiler_key(), "VOLTAGE");
    assert_eq!(PowerMetricKind::Current.unit(), "mA");
    assert_eq!(PowerMetricKind::Power.collector_key(), "battery");
    assert_eq!(BatteryPowerProfiler::current(None, 1).unwrap().metric(), PowerMetricKind::Current);
    assert_eq!(
        BatteryPowerProfiler::power(None, 1).unwrap().metadata_clone().profiler_key,
        "POWER"
    );
    let files = SelectedPowerStrategy::Power(PowerReadStrategy::FixedSysfs);
    assert_eq!(files.label(), PowerReadStrategy::FixedSysfs.label());
    let mixed = PowerReadStrategy::Hybrid {
        voltage: VoltageReadStrategy::Uevent,
        current: CurrentReadStrategy::FixedSysfs,
    };
    assert!(mixed.label().contains(VoltageReadStrategy::Uevent.label()));
}
