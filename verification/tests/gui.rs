use perfdroid::aggregation::AggregatorEvent;
use perfdroid::device::{AdbDetectedDevice, ConnectionKind, DeviceDescriptor};
use perfdroid::gui::charts::{
    build_single_metric_rows, describe_point, describe_range, point_values, range_values,
    tick_margin, time_of_row, Overlay, RangeStats,
};
use perfdroid::gui::labels::{
    detected_lines, detected_title, ensure_extension, format_current_value, format_power_value,
    format_voltage_value, read_hz, ExportKind,
};
use perfdroid::gui::selection::{ChartKey, SelectionRange};
use perfdroid::gui::Dashboard;
use perfdroid::session::SessionState;
use perfdroid::storage::{all_channels, find_channel, Channel, TimestampedBatch};
use perfdroid::types::{ControlCommand, MetricBatch};

fn frame(timestamp_ms: u64, key: &str, values: Vec<i64>) -> TimestampedBatch {
    TimestampedBatch {
        timestamp_ms,
        batch: MetricBatch { metric_key: key.to_string(), unit: "x".to_string(), values },
    }
}

fn shown(state: SessionState) -> Dashboard {
    let mut window = Dashboard::new("com.demo.game".to_string());
    for ts in [1000_u64, 1500, 2000] {
        window.apply_event(AggregatorEvent::MetricBatch(frame(ts, "CPU_CLOCK", vec![1, -1, 3])));
        window.apply_event(AggregatorEvent::MetricBatch(frame(ts, "FPS", vec![60, 7])));
    }
    window.apply_event(AggregatorEvent::StateChanged(state));
    window
}

fn stats() -> Vec<RangeStats> {
    (0..10)
        .map(|i| RangeStats { avg: format!("a{i}"), min: format!("m{i}"), max: format!("x{i}") })
        .collect()
}

#[test]
fn events_change_what_is_shown() {
    let mut window = Dashboard::new(String::new());
    assert_eq!(window.status_line, "Waiting for Connect.");
    window.apply_event(AggregatorEvent::BusyStateChanged(true, "Working".to_string()));
    assert!(window.is_busy);
    assert_eq!(window.busy_note(), "Working");
    window.apply_event(AggregatorEvent::BusyStateChanged(false, String::new()));
    assert_eq!(
        window.busy_note(),
        "Please wait while PerfDroid finishes the current device operation."
    );
    window.apply_event(AggregatorEvent::SamplingRateChanged(7));
    assert_eq!(window.start_label(), "Start 7Hz");
    assert_eq!(window.hz_note(), "Selected sampling rate: 7 Hz");
    assert_eq!(window.package_note(), "Current package: --");
    window.apply_event(AggregatorEvent::PackageNameChanged("com.demo".to_string()));
    assert_eq!(window.package_note(), "Current package: com.demo");
    window.apply_event(AggregatorEvent::MetadataRegistered("x".to_string()));
    window.apply_event(AggregatorEvent::Status("hello".to_string()));
    assert_eq!(window.status_line, "hello");
    window.apply_event(AggregatorEvent::StateChanged(SessionState::Paused));
    assert_eq!(window.status_line, "Session state => Paused");
}

#[test]
fn a_new_connection_clears_the_session() {
    let mut window = shown(SessionState::Stopped);
    window.left_button_down(1500);
    window.right_button_down();
    assert_eq!(window.session.fps_frames().len(), 3);
    window.apply_event(AggregatorEvent::StateChanged(SessionState::Connected));
    assert_eq!(window.session.fps_frames().len(), 0);
    assert_eq!(window.selection, None);
    assert_eq!(window.drag_selection, None);
    assert!(!window.ignore_next_left_click);
}

#[test]
fn buttons_follow_the_state_of_the_session() {
    let mut window = shown(SessionState::Running);
    assert!(window.is_enabled(ControlCommand::Pause));
    assert!(!window.is_enabled(ControlCommand::Start));
    assert!(!window.can_export());
    window.apply_event(AggregatorEvent::StateChanged(SessionState::Paused));
    assert!(window.is_export_enabled());
    window.apply_event(AggregatorEvent::BusyStateChanged(true, String::new()));
    assert!(!window.is_enabled(ControlCommand::Restart));
    assert!(window.can_export());
    assert!(!window.is_export_enabled());
}

#[test]
fn the_mouse_selects_points_and_ranges() {
    let mut window = shown(SessionState::Paused);
    window.left_button_down(1500);
    assert_eq!(window.selection, Some(SelectionRange::Point(1500)));
    assert_eq!(window.drawn_bounds_ms(1500), Some((1500, 1500)));
    window.left_button_up(ChartKey::Fps, 1500, "1.500", "1.500");
    assert_eq!(window.selection_bounds_ms(), Some((1500, 1500)));
    window.left_button_down(2000);
    window.mouse_dragged(1000);
    assert_eq!(window.drawn_bounds_ms(1500), Some((1000, 2000)));
    window.left_button_up(ChartKey::CpuClock, 1500, "1.000", "2.000");
    assert_eq!(window.selection, Some(SelectionRange::Span { start_ms: 1000, end_ms: 2000 }));
    assert_eq!(window.status_line, "Selection updated on CpuClock: [1.000s, 2.000s]");
    assert_eq!(window.drawn_bounds_ms(0), None);
    window.mouse_dragged(0);
    window.left_button_up(ChartKey::CpuClock, 0, "0.000", "0.000");
    assert_eq!(window.selection_bounds_ms(), Some((1000, 2000)));
}

#[test]
fn the_click_after_the_menu_selects_nothing() {
    let mut window = shown(SessionState::Paused);
    window.right_button_down();
    assert_eq!(window.status_line, "Right-click menu opened. Choose Delete Selected Range.");
    window.left_button_down(1500);
    assert_eq!(window.selection, None);
    window.left_button_down(1500);
    assert_eq!(window.selection, Some(SelectionRange::Point(1500)));
}

#[test]
fn selections_are_deleted_only_while_nothing_changes() {
    let mut window = shown(SessionState::Running);
    window.left_button_down(1500);
    assert!(!window.can_delete());
    assert!(!window.delete_current_selection("0.500", "0.500"));
    assert_eq!(window.status_line, "Delete is only allowed in Paused or Stopped state.");
    window.apply_event(AggregatorEvent::StateChanged(SessionState::Paused));
    assert!(window.can_delete());
    assert!(window.delete_current_selection("0.500", "0.500"));
    assert_eq!(
        window.status_line,
        "Deleted selected range [0.500s, 0.500s] across all profilers."
    );
    let times: Vec<u64> =
        window.session.fps_frames().iter().map(|f| f.timestamp_ms).collect();
    assert_eq!(times, vec![1000, 1500]);
    assert_eq!(window.selection, None);
    window.press_delete("", "");
    assert_eq!(window.status_line, "No active selection to delete.");
}

#[test]
fn rows_count_time_from_the_start_of_the_session() {
    let mut window = shown(SessionState::Paused);
    window.apply_event(AggregatorEvent::MetricBatch(frame(1250, "VOLTAGE", vec![4300])));
    window.apply_event(AggregatorEvent::MetricBatch(frame(1260, "POWER", vec![-1])));
    window.apply_event(AggregatorEvent::MetricBatch(frame(1300, "POWER", vec![900])));
    window.apply_event(AggregatorEvent::MetricBatch(frame(1400, "BATTERY_TEMP", vec![301])));
    let rows = window.build_plot_rows();
    assert_eq!(rows[2].elapsed_ms, 1000);
    assert_eq!(rows[2].values, vec![1, 0, 3, 0, 0, 0, 0, 0, 0, 0]);
    let rows = window.build_fps_rows();
    assert_eq!(rows[1].timestamp_ms, 1500);
    assert_eq!(rows[1].values, vec![60, 0, 0, 0, 0, 0, 0, 0, 0, 0]);
    let rows = window.build_battery_power_metric_rows();
    assert_eq!(rows.len(), 2);
    assert_eq!(rows[0].elapsed_ms, 250);
    assert_eq!(rows[0].values[..3], [4300, 0, 0]);
    assert_eq!(rows[1].timestamp_ms, 1300);
    assert_eq!(rows[1].values[..3], [0, 0, 900]);
    assert_eq!(window.build_battery_temperature_rows()[0].values[0], 301);
    assert!(window.build_cpu_usage_rows().is_empty());
    assert!(build_single_metric_rows(window.session.fps_frames(), None).is_empty());
    assert_eq!(tick_margin(5), 1);
    assert_eq!(tick_margin(36), 3);
}

#[test]
fn a_selection_is_drawn_over_the_chart() {
    let mut window = shown(SessionState::Paused);
    let rows = window.build_fps_rows();
    assert_eq!(window.selection_overlay_position(&rows), None);
    assert_eq!(time_of_row(&rows, 1), Some(1500));
    assert_eq!(time_of_row(&rows, 3), None);
    window.left_button_down(1740);
    assert_eq!(
        window.selection_overlay_position(&rows),
        Some(Overlay::Line { place: 1, steps: 2 })
    );
    window.left_button_down(1750);
    assert_eq!(
        window.selection_overlay_position(&rows),
        Some(Overlay::Line { place: 1, steps: 2 })
    );
    assert_eq!(
        window.selection_overlay_position(&Vec::new()),
        Some(Overlay::Line { place: 0, steps: 1 })
    );
    window.mouse_dragged(1800);
    window.left_button_up(ChartKey::Fps, 1800, "", "");
    assert_eq!(
        window.selection_overlay_position(&rows),
        Some(Overlay::Band { from_ms: 750, to_ms: 800, length_ms: 1000 })
    );
    assert_eq!(window.selection_overlay_position(&Vec::new()), None);
}

#[test]
fn a_selection_is_described_channel_by_channel() {
    let window = shown(SessionState::Paused);
    let frames = window.session.cpu_clock_frames();
    assert_eq!(point_values(frames, 1400), vec![(0, 1), (2, 3)]);
    let texts = vec!["1.00".to_string(), "3.00".to_string()];
    assert_eq!(describe_point("CPU_CLOCK", frames, 1400, &texts), "CPU_CLOCK: v0=1.00, v2=3.00");
    assert_eq!(describe_point("POWER", &[], 1400, &Vec::new()), "POWER: --");
    assert_eq!(range_values(frames, 1500, 2000, 2), vec![3, 3]);
    assert_eq!(
        describe_range("CPU_CLOCK", frames, 1500, 2000, &stats()),
        vec![
            "CPU_CLOCK[v0] avg=a0 min=m0 max=x0",
            "CPU_CLOCK[v2] avg=a2 min=m2 max=x2",
        ]
    );
    assert_eq!(describe_range("FPS", frames, 1, 2, &stats()), vec!["FPS: --"]);
}

#[test]
fn the_selection_is_summed_up() {
    let mut window = shown(SessionState::Paused);
    assert!(window.selection_summary("", "").starts_with("No selection. Left click"));
    assert_eq!(
        window.selection_details("", "", &Vec::new(), &Vec::new()),
        vec!["Selection details will appear here."]
    );
    window.left_button_down(1400);
    assert!(window
        .selection_summary("0.400", "0.400")
        .starts_with("Selected range: [0.400s, 0.400s] (inclusive)."));
    let texts: Vec<Vec<String>> = all_channels()
        .into_iter()
        .map(|channel| {
            point_values(window.session.frames_of(channel), 1400)
                .into_iter()
                .map(|(_, value)| format!("{}/{}", value, channel.divisor()))
                .collect()
        })
        .collect();
    assert_eq!(
        window.selection_details("0.400", "0.400", &texts, &Vec::new()),
        vec![
            "Point @ 0.400s",
            "CPU_CLOCK: v0=1/1, v2=3/1",
            "CPU_USAGE: --",
            "FPS: v0=60/1, v1=7/1",
            "BATTERY_TEMP: --",
            "VOLTAGE: --",
            "CURRENT: --",
            "POWER: --",
        ]
    );
    window.mouse_dragged(1600);
    window.left_button_up(ChartKey::Fps, 1600, "", "");
    let all = (0..7).map(|_| stats()).collect();
    assert_eq!(
        window.selection_details("0.400", "0.600", &Vec::new(), &all),
        vec![
            "Range [0.400s, 0.600s] avg/min/max",
            "CPU_CLOCK[v0] avg=a0 min=m0 max=x0",
            "CPU_CLOCK[v2] avg=a2 min=m2 max=x2",
            "CPU_USAGE: --",
            "FPS[v0] avg=a0 min=m0 max=x0",
            "FPS[v1] avg=a1 min=m1 max=x1",
            "BATTERY_TEMP: --",
            "VOLTAGE: --",
            "CURRENT: --",
            "POWER: --",
        ]
    );
}

#[test]
fn battery_lines_are_those_with_frames() {
    let mut window = shown(SessionState::Paused);
    assert!(window.battery_lines().is_empty());
    window.apply_event(AggregatorEvent::MetricBatch(frame(1250, "POWER", vec![900])));
    window.apply_event(AggregatorEvent::MetricBatch(frame(1250, "VOLTAGE", vec![4300])));
    assert_eq!(
        window.battery_lines(),
        vec![(0, "voltage (mV)", 0x2563EB), (2, "power (mW)", 0xDB2777)]
    );
}

#[test]
fn channels_are_named_by_their_keys() {
    for channel in all_channels() {
        assert_eq!(find_channel(channel.as_str()), Some(channel));
    }
    assert_eq!(Channel::BatteryTemperature.as_str(), "BATTERY_TEMP");
    assert_eq!(Channel::BatteryTemperature.divisor(), 10);
}

#[test]
fn the_device_part_lists_what_is_known() {
    let mut window = shown(SessionState::Paused);
    let lines = window.device_part(SessionState::Paused);
    assert_eq!(lines[0], "Model: --");
    assert_eq!(lines[5], "Frames cached: 6");
    assert_eq!(lines[6], "Runtime snapshot: Paused");
    window.apply_event(AggregatorEvent::DeviceUpdated(DeviceDescriptor {
        serial: "ABC".to_string(),
        connection: ConnectionKind::Wifi,
        model: "Pixel".to_string(),
        android_version: "14".to_string(),
        soc_model: "gs201".to_string(),
    }));
    let lines = window.device_part(SessionState::Paused);
    assert_eq!(
        lines[..5],
        ["Model: Pixel", "Serial: ABC", "Connection: WiFi", "Android: 14", "SoC: gs201"]
    );
    let detected = AdbDetectedDevice {
        serial: "ABC".to_string(),
        connection: ConnectionKind::Usb,
        adb_state: "device".to_string(),
        model: "Pixel".to_string(),
    };
    assert_eq!(detected_title(&detected), "Pixel (ABC)");
    assert_eq!(detected_lines(&detected), vec!["ADB state: device", "Detected transport: USB"]);
    window.apply_event(AggregatorEvent::DeviceDiscoveryUpdated(vec![detected]));
    assert_eq!(window.detected_devices.len(), 1);
}

#[test]
fn cards_show_the_latest_values() {
    let window = shown(SessionState::Paused);
    let cards: Vec<(String, String)> =
        window.current_value_cards().into_iter().map(|c| (c.name, c.value)).collect();
    assert_eq!(
        cards,
        vec![
            ("policy0".to_string(), "1 MHz".to_string()),
            ("policy2".to_string(), "3 MHz".to_string()),
        ]
    );
    let cards = window.current_cpu_usage_cards();
    assert_eq!(cards[0].name, "CPU policy");
    assert_eq!(cards[0].value, "--");
    assert_eq!(format_voltage_value(4321), "4321 mV");
    assert_eq!(format_current_value(512), "512 mA");
    assert_eq!(format_power_value(2212), "2212 mW");
}

#[test]
fn typed_rates_are_read() {
    assert_eq!(read_hz(" 7 "), Some(7));
    assert_eq!(read_hz("+7"), Some(7));
    assert_eq!(read_hz("7.5"), None);
    assert_eq!(read_hz(""), None);
}

#[test]
fn file_names_get_their_extension() {
    assert_eq!(ensure_extension("a.csv", "csv"), "a.csv");
    assert_eq!(ensure_extension("a.CSV", "csv"), "a.CSV");
    assert_eq!(ensure_extension("a.txt", "csv"), "a.csv");
    assert_eq!(ensure_extension("a", "csv"), "a.csv");
    assert_eq!(ensure_extension("a.", "csv"), "a.csv");
    assert_eq!(ensure_extension(".csv", "csv"), ".csv.csv");
    assert_eq!(ensure_extension("a.b.c", "json"), "a.b.json");
    for name in ["", ".", ".."] {
        assert_eq!(ensure_extension(name, "csv"), name);
    }
    assert_eq!(ensure_extension("...", "csv"), "...csv");
    assert_eq!(ensure_extension("a.txt", ""), "a");
}

#[test]
fn exports_tell_what_they_came_to() {
    assert_eq!(ExportKind::Csv.button_label(), "Export CSV");
    assert_eq!(ExportKind::Json.extension(), "json");
    assert_eq!(ExportKind::Html.proposed_name(), "perfdroid_report.html");
    assert_eq!(
        ExportKind::Json.unavailable(),
        "JSON export is only available in Paused or Stopped state."
    );
    assert_eq!(ExportKind::Png.canceled(), "PNG export canceled.");
    assert_eq!(
        ExportKind::Csv.no_dialog("x"),
        "failed to open save dialog for CSV export: x"
    );
    assert_eq!(
        ExportKind::Csv.no_answer("x"),
        "failed while waiting for CSV save dialog result: x"
    );
    assert_eq!(ExportKind::Csv.outcome(Ok(3), "a.csv"), "CSV exported: 3 row(s) -> a.csv");
    assert_eq!(
        ExportKind::Html.outcome(Ok(3), "a.html"),
        "HTML report exported: 3 row(s) -> a.html"
    );
    assert_eq!(
        ExportKind::Png.outcome(Err("full".to_string()), "a.png"),
        "PNG export failed: full"
    );
}
