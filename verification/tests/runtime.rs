use perfdroid::aggregation::{AggregatorEvent, CpuClockDataPlane};
use perfdroid::device::{AdbDetectedDevice, ConnectionKind, DeviceDescriptor};
use perfdroid::errors::CoreError;
use perfdroid::profiler::cpu_clock::CpuClockProfiler;
use perfdroid::profiler::power::{
    CurrentReadStrategy, PowerMetricKind, SelectedPowerStrategy, VoltageReadStrategy,
};
use perfdroid::profiler::power_supply::PowerSnapshot;
use perfdroid::profiler::sampler::SamplerState;
use perfdroid::runtime::connect::{ConnectAnswer, ConnectNext, ConnectStage};
use perfdroid::runtime::PerfDroidRuntime;
use perfdroid::session::SessionState;
use perfdroid::storage::{all_channels, Channel};

fn status(event: &AggregatorEvent) -> &str {
    match event {
        AggregatorEvent::Status(message) => message,
        _ => panic!("no message: {event:?}"),
    }
}

fn describe(event: &AggregatorEvent) -> String {
    match event {
        AggregatorEvent::BusyStateChanged(busy, message) => format!("busy {busy} {message}"),
        AggregatorEvent::StateChanged(state) => format!("state {}", state.as_str()),
        AggregatorEvent::DeviceUpdated(device) => format!("device {}", device.serial),
        AggregatorEvent::DeviceDiscoveryUpdated(devices) => format!("listed {}", devices.len()),
        AggregatorEvent::MetadataRegistered(text) => format!("registered {text}"),
        AggregatorEvent::MetricBatch(frame) => {
            format!("{} {} {:?}", frame.timestamp_ms, frame.batch.metric_key, frame.batch.values)
        }
        AggregatorEvent::PackageNameChanged(name) => format!("package {name}"),
        AggregatorEvent::SamplingRateChanged(hz) => format!("rate {hz}"),
        AggregatorEvent::Status(message) => format!("status {message}"),
    }
}

fn device() -> DeviceDescriptor {
    DeviceDescriptor {
        serial: "ABC".to_string(),
        connection: ConnectionKind::Usb,
        model: "Pixel".to_string(),
        android_version: "14".to_string(),
        soc_model: "gs201".to_string(),
    }
}

fn answer(stage: ConnectStage) -> ConnectAnswer {
    match stage {
        ConnectStage::Device => ConnectAnswer::Device(Ok(device())),
        ConnectStage::Profiler(Channel::CpuClock) => {
            ConnectAnswer::CpuClock(Ok("policy0:0 1\npolicy6:6\n".to_string()))
        }
        ConnectStage::Profiler(Channel::CpuUsage) => {
            ConnectAnswer::CpuUsage(Ok("policy0:0 1\npolicy6:6\n".to_string()))
        }
        ConnectStage::Profiler(Channel::Fps) => ConnectAnswer::Fps(Ok(String::new())),
        ConnectStage::Profiler(Channel::BatteryTemperature) => {
            ConnectAnswer::BatteryTemperature(Ok("temperature: 301".to_string()))
        }
        ConnectStage::Profiler(Channel::BatteryVoltage) => ConnectAnswer::Battery(
            PowerMetricKind::Voltage,
            Ok(Some((SelectedPowerStrategy::Voltage(VoltageReadStrategy::Uevent), 4300))),
        ),
        ConnectStage::Profiler(Channel::BatteryCurrent) => ConnectAnswer::Battery(
            PowerMetricKind::Current,
            Ok(Some((SelectedPowerStrategy::Current(CurrentReadStrategy::FixedSysfs), 500))),
        ),
        ConnectStage::Profiler(Channel::BatteryPower) => {
            ConnectAnswer::Battery(PowerMetricKind::Power, Ok(None))
        }
    }
}

fn connect(runtime: &mut PerfDroidRuntime) -> Vec<String> {
    let serial = runtime.begin_connect("ABC".to_string()).unwrap();
    let mut told = Vec::new();
    let mut stage = ConnectStage::Device;
    loop {
        let (events, next) = runtime.connect_step(serial.clone(), answer(stage));
        told.extend(events.iter().map(describe));
        match next {
            ConnectNext::Ask(asked) => stage = asked,
            ConnectNext::Done(result) => {
                result.unwrap();
                return told;
            }
        }
    }
}

fn start(runtime: &mut PerfDroidRuntime) -> Vec<String> {
    runtime.begin_start(5).unwrap();
    let mut started = Vec::new();
    while let Some(channel) = runtime.next_to_start() {
        match channel {
            Channel::CpuClock => runtime.cpu_clock_profiler().unwrap().finish_start(),
            Channel::CpuUsage => runtime.cpu_usage_profiler().unwrap().finish_start(),
            Channel::Fps => runtime.fps_profiler().unwrap().finish_start(),
            Channel::BatteryTemperature => {
                runtime.battery_temperature_profiler().unwrap().finish_start()
            }
            Channel::BatteryVoltage => {
                runtime.battery_power_profiler(PowerMetricKind::Voltage).unwrap().finish_start()
            }
            Channel::BatteryCurrent => {
                runtime.battery_power_profiler(PowerMetricKind::Current).unwrap().finish_start()
            }
            Channel::BatteryPower => {
                runtime.battery_power_profiler(PowerMetricKind::Power).unwrap().finish_start()
            }
        }
        started.push(format!("{channel:?}"));
    }
    started.extend(runtime.finish_start().iter().map(describe));
    started
}

#[test]
fn a_new_session_has_its_settings() {
    let runtime = PerfDroidRuntime::new();
    assert_eq!(runtime.state(), SessionState::Disconnected);
    assert_eq!(runtime.selected_hz(), 4);
    assert_eq!(runtime.package_name(), "");
    assert!(runtime.device().is_none());
    assert!(runtime.registered_profilers().is_empty());
}

#[test]
fn the_sampling_rate_stays_in_range() {
    let mut runtime = PerfDroidRuntime::new();
    for (asked, chosen) in [(0, 1), (1, 1), (7, 7), (10, 10), (11, 10)] {
        let event = runtime.request_set_hz(asked);
        assert_eq!(describe(&event), format!("rate {chosen}"));
        assert_eq!(runtime.selected_hz(), chosen);
    }
}

#[test]
fn connecting_attaches_and_registers_the_profilers() {
    let mut runtime = PerfDroidRuntime::new();
    runtime.request_set_package_name("com.demo.game".to_string());
    let told = connect(&mut runtime);
    assert_eq!(
        told,
        vec![
            "status Battery voltage profiler using power_supply uevent strategy.".to_string(),
            "status Battery current profiler using sysfs fixed path strategy.".to_string(),
            "status Battery power profiler disabled: failed to find a usable power read strategy"
                .to_string(),
            "device ABC".to_string(),
            "registered CPU_CLOCK [policy0, policy6]".to_string(),
            "registered CPU_USAGE [policy0, policy6]".to_string(),
            "registered FPS [main]".to_string(),
            "registered BATTERY_TEMP [battery]".to_string(),
            "registered VOLTAGE [battery]".to_string(),
            "registered CURRENT [battery]".to_string(),
            "rate 4".to_string(),
            "package com.demo.game".to_string(),
            "state Connected".to_string(),
        ]
    );
    assert_eq!(runtime.state(), SessionState::Connected);
    let keys: Vec<&str> =
        runtime.registered_profilers().iter().map(|p| p.profiler_key.as_str()).collect();
    assert_eq!(keys, vec!["CPU_CLOCK", "CPU_USAGE", "FPS", "BATTERY_TEMP", "VOLTAGE", "CURRENT"]);
    assert_eq!(runtime.fps_profiler().unwrap().package_name(), "com.demo.game");
    assert!(runtime.link_of(Channel::BatteryPower).is_none());
    assert!(runtime.description_of(Channel::BatteryPower).is_none());
}

#[test]
fn a_connection_can_fail_at_the_device_or_the_cpu() {
    let mut runtime = PerfDroidRuntime::new();
    let (events, next) =
        runtime.connect_step(None, ConnectAnswer::Device(Err("offline".to_string())));
    assert!(events.is_empty());
    match next {
        ConnectNext::Done(Err(e)) => assert_eq!(e.message(), "offline"),
        _ => panic!("went on"),
    }
    runtime.connect_step(None, ConnectAnswer::Device(Ok(device())));
    let (_, next) = runtime.connect_step(None, ConnectAnswer::CpuClock(Ok(String::new())));
    match next {
        ConnectNext::Done(Err(e)) => assert_eq!(
            e.message(),
            "no readable CPU frequency policy was found on the target device"
        ),
        _ => panic!("went on"),
    }
    assert_eq!(runtime.state(), SessionState::Disconnected);
}

#[test]
fn profilers_that_do_not_work_are_left_out() {
    let mut runtime = PerfDroidRuntime::new();
    runtime.connect_step(None, answer(ConnectStage::Device));
    runtime.connect_step(None, answer(ConnectStage::Profiler(Channel::CpuClock)));
    runtime.connect_step(None, answer(ConnectStage::Profiler(Channel::CpuUsage)));
    let (events, _) =
        runtime.connect_step(None, ConnectAnswer::Fps(Err(CoreError::runtime("closed"))));
    assert_eq!(status(&events[0]), "FPS profiler disabled: closed");
    let (events, _) =
        runtime.connect_step(None, ConnectAnswer::BatteryTemperature(Ok("level: 3".to_string())));
    assert_eq!(
        status(&events[0]),
        "Battery temperature profiler disabled: failed to read a usable battery temperature from `adb shell dumpsys battery`"
    );
    let (events, next) = runtime.connect_step(
        None,
        ConnectAnswer::Battery(PowerMetricKind::Voltage, Err(CoreError::runtime("closed"))),
    );
    assert_eq!(status(&events[0]), "Battery voltage profiler disabled: closed");
    assert!(matches!(
        next,
        ConnectNext::Ask(ConnectStage::Profiler(Channel::BatteryCurrent))
    ));
    assert!(runtime.fps_profiler().is_none());
    assert_eq!(runtime.registered_profilers().len(), 2);
}

#[test]
fn the_default_serial_number_means_any_device() {
    let runtime = PerfDroidRuntime::new();
    assert_eq!(runtime.begin_connect("default".to_string()).unwrap(), None);
    assert!(matches!(runtime.request_connect(None), Ok(None)));
    assert!(
        matches!(runtime.request_connect(Some("X".to_string())), Ok(Some(serial)) if serial == "X")
    );
}

#[test]
fn a_session_starts_its_profilers_in_order() {
    let mut runtime = PerfDroidRuntime::new();
    connect(&mut runtime);
    assert_eq!(
        start(&mut runtime),
        vec![
            "CpuClock",
            "CpuUsage",
            "Fps",
            "BatteryTemperature",
            "BatteryVoltage",
            "BatteryCurrent",
            "rate 5",
            "state Running",
        ]
    );
    assert_eq!(runtime.state(), SessionState::Running);
    assert_eq!(runtime.selected_hz(), 5);
}

#[test]
fn pausing_resuming_and_stopping_move_all_samplers() {
    let mut runtime = PerfDroidRuntime::new();
    connect(&mut runtime);
    start(&mut runtime);
    assert_eq!(describe(&runtime.request_pause()), "state Paused");
    for channel in all_channels() {
        if let Some(link) = runtime.link_of(channel) {
            assert_eq!(link.sampler, SamplerState::Paused);
        }
    }
    assert_eq!(status(&runtime.request_pause()), "cannot Pause while Paused");
    assert_eq!(describe(&runtime.request_restart()), "state Running");
    for channel in all_channels() {
        if let Some(link) = runtime.link_of(channel) {
            assert_eq!(link.sampler, SamplerState::Sampling);
        }
    }
    assert_eq!(status(&runtime.request_restart()), "cannot Restart while Running");
    assert_eq!(describe(&runtime.request_stop()), "state Stopped");
    assert!(all_channels().iter().all(|c| runtime.link_of(*c).is_none()));
    assert_eq!(status(&runtime.request_stop()), "cannot Stop while Stopped");
    match runtime.request_start(4) {
        Err(event) => assert_eq!(status(&event), "cannot Start while Stopped"),
        Ok(()) => panic!("started"),
    }
    connect(&mut runtime);
    assert_eq!(runtime.state(), SessionState::Connected);
}

#[test]
fn a_second_connection_is_refused() {
    let mut runtime = PerfDroidRuntime::new();
    connect(&mut runtime);
    let error = runtime.begin_connect("ABC".to_string()).unwrap_err();
    assert!(matches!(&error, CoreError::InvalidStateTransition { state, operation }
        if state == "Connected" && operation == "Connect"));
    match runtime.request_connect(None) {
        Err(event) => assert_eq!(status(&event), "cannot Connect while Connected"),
        Ok(_) => panic!("connected"),
    }
}

#[test]
fn one_device_operation_at_a_time() {
    let mut runtime = PerfDroidRuntime::new();
    match runtime.request_refresh_devices() {
        Ok(event) => assert_eq!(describe(&event), "busy true Detecting USB-connected devices..."),
        Err(event) => panic!("{event:?}"),
    }
    for refused in [
        runtime.request_refresh_devices(),
        runtime.request_connect_usb("ABC"),
        runtime.request_connect_wireless("ABC"),
    ] {
        match refused {
            Err(event) => {
                assert_eq!(status(&event), "A device operation is already in progress.")
            }
            Ok(event) => panic!("{event:?}"),
        }
    }
    let found = AdbDetectedDevice {
        serial: "ABC".to_string(),
        connection: ConnectionKind::Usb,
        adb_state: "device".to_string(),
        model: "Pixel".to_string(),
    };
    let told: Vec<String> =
        runtime.finish_refresh_devices(Ok(vec![found])).iter().map(describe).collect();
    assert_eq!(
        told,
        vec![
            "listed 1",
            "status USB detection complete: 1 USB-connected device(s) found.",
            "busy false ",
        ]
    );
    let told: Vec<String> =
        runtime.finish_refresh_devices(Err("no adb".to_string())).iter().map(describe).collect();
    assert_eq!(told, vec!["status no adb", "busy false "]);
}

#[test]
fn connections_tell_what_they_came_to() {
    let mut runtime = PerfDroidRuntime::new();
    assert_eq!(
        describe(&runtime.request_connect_usb("ABC").unwrap()),
        "busy true Connecting to `ABC` via USB..."
    );
    assert_eq!(
        status(&runtime.finish_connect_usb("ABC", Ok(()))[0]),
        "Connected to `ABC` through USB."
    );
    assert_eq!(
        status(&runtime.finish_connect_usb("ABC", Err(CoreError::runtime("gone")))[0]),
        "gone"
    );
    assert_eq!(
        describe(&runtime.request_connect_wireless("ABC").unwrap()),
        "busy true Connecting to `ABC` via WiFi..."
    );
    let reached = Ok(("1.2.3.4:5555".to_string(), "Ready.".to_string(), Ok(())));
    assert_eq!(
        status(&runtime.finish_connect_wireless(reached)[0]),
        "Ready. Connected through WiFi as `1.2.3.4:5555`."
    );
    let failed = Err(CoreError::runtime("gone"));
    let reached = Ok(("1.2.3.4:5555".to_string(), "Ready.".to_string(), failed));
    assert_eq!(
        status(&runtime.finish_connect_wireless(reached)[0]),
        "Ready. Failed to finish wireless session setup for `1.2.3.4:5555`: gone"
    );
    assert_eq!(
        status(&runtime.finish_connect_wireless(Err("no address".to_string()))[0]),
        "no address"
    );
    assert_eq!(status(&runtime.request_status("hello".to_string())), "hello");
}

#[test]
fn the_latest_values_are_collected_by_channel() {
    let mut runtime = PerfDroidRuntime::new();
    connect(&mut runtime);
    start(&mut runtime);
    runtime.cpu_clock_profiler().unwrap().tick(Ok("1800000\n2400000\n".to_string()));
    let snapshot = PowerSnapshot { voltage_mv: Some(4321), current_ma: None, power_mw: None };
    runtime
        .battery_power_profiler(PowerMetricKind::Voltage)
        .unwrap()
        .sample_once_with_strategy(snapshot);
    let told: Vec<Option<String>> = all_channels()
        .iter()
        .map(|c| runtime.collect(*c, 7).map(|event| describe(&event)))
        .collect();
    assert_eq!(
        told,
        vec![
            Some("7 CPU_CLOCK [1800, 2400, -1, -1, -1, -1, -1, -1, -1, -1]".to_string()),
            Some("7 CPU_USAGE [-1, -1, -1, -1, -1, -1, -1, -1, -1, -1]".to_string()),
            Some("7 FPS [-1, -1, -1, -1, -1, -1, -1, -1, -1, -1]".to_string()),
            Some("7 BATTERY_TEMP [301, -1, -1, -1, -1, -1, -1, -1, -1, -1]".to_string()),
            Some("7 VOLTAGE [4321, -1, -1, -1, -1, -1, -1, -1, -1, -1]".to_string()),
            Some("7 CURRENT [500, -1, -1, -1, -1, -1, -1, -1, -1, -1]".to_string()),
            None,
        ]
    );
}

#[test]
fn policies_of_the_same_name_share_the_last_value() {
    let mut profiler = CpuClockProfiler::new(None, 1).unwrap();
    profiler.connect(Ok("policy0:0\npolicy4:4\npolicy0:1\n".to_string())).unwrap();
    profiler.sample_once(Ok("1000000\n2000000\n3000000\n".to_string())).unwrap();
    let batch = CpuClockDataPlane::build_metric_batch(&profiler).unwrap();
    assert_eq!(batch.values[..3], [3000, 2000, 3000]);
}

#[test]
fn more_policies_than_a_batch_holds_are_not_collected() {
    let mut profiler = CpuClockProfiler::new(None, 1).unwrap();
    let listing: String = (0..11).map(|i| format!("policy{i}:{i}\n")).collect();
    profiler.connect(Ok(listing)).unwrap();
    assert!(matches!(
        CpuClockDataPlane::build_metric_batch(&profiler),
        Err(CoreError::TooManyValues(11))
    ));
}

#[test]
fn the_package_reaches_an_attached_profiler() {
    let mut runtime = PerfDroidRuntime::new();
    connect(&mut runtime);
    let event = runtime.request_set_package_name("com.other".to_string());
    assert_eq!(describe(&event), "package com.other");
    assert_eq!(runtime.fps_profiler().unwrap().package_name(), "com.other");
}
