use perfdroid::device::address::{
    extract_first_ipv4, extract_inet_ip, extract_preferred_wireless_inet_ip, extract_route_src_ip,
    extract_wireless_route_src_ip, is_ipv4_address, is_wireless_interface, parse_ipv4_address,
};
use perfdroid::device::wireless::{
    connect_wireless, is_adb_connect_success, query_wireless_ip, Action, Step,
};
use perfdroid::device::{
    device_listing_args, infer_connection_kind, list_adb_devices, parse_device_listing,
    query_device_descriptor, read_prop, run_adb, AdbReply, ConnectionKind, DeviceDescriptor,
};
use perfdroid::shell::{open_target_device, run_shell, run_shell_trimmed, Progress, RawReply};

fn ended(stdout: &str) -> RawReply {
    RawReply::Ended { status: Some(0), stdout: stdout.to_string(), stderr: String::new() }
}

#[test]
fn route_parser_uses_src_ip_instead_of_network_prefix() {
    let route = "10.0.0.0/24 dev wlan0 proto kernel scope link src 10.0.0.21\n";
    assert_eq!(extract_route_src_ip(route).as_deref(), Some("10.0.0.21"));
}

#[test]
fn wireless_route_parser_ignores_cellular_and_prefers_wifi() {
    let route = "\
default via 10.0.252.217 dev rmnet_data0 proto static src 10.0.252.219
192.168.1.0/24 dev wlan0 proto kernel scope link src 192.168.1.48";
    assert_eq!(extract_wireless_route_src_ip(route).as_deref(), Some("192.168.1.48"));
}

#[test]
fn inet_parser_extracts_host_address() {
    let addr = "3: wlan0    inet 192.168.1.48/24 brd 192.168.1.255 scope global wlan0";
    assert_eq!(extract_inet_ip(addr).as_deref(), Some("192.168.1.48"));
}

#[test]
fn preferred_inet_parser_ignores_non_wifi_interfaces() {
    let addr = "\
4: rmnet_data0    inet 10.0.252.219/29 brd 10.0.252.223 scope global rmnet_data0
5: wlan0    inet 192.168.1.48/24 brd 192.168.1.255 scope global wlan0";
    assert_eq!(extract_preferred_wireless_inet_ip(addr).as_deref(), Some("192.168.1.48"));
}

#[test]
fn first_ipv4_parser_handles_property_and_ifconfig_output() {
    assert_eq!(extract_first_ipv4("192.168.1.48").as_deref(), Some("192.168.1.48"));
    assert_eq!(
        extract_first_ipv4("inet addr:192.168.1.48  Bcast:192.168.1.255  Mask:255.255.255.0")
            .as_deref(),
        Some("192.168.1.48")
    );
}

#[test]
fn usb_only_device_listing_filters_out_wifi_entries() {
    let devices = "List of devices attached\n192.168.1.48:5555 device product:demo model:Demo_Phone\nFA79X1A00000 device product:demo model:Demo_Phone\n";
    let parsed = parse_device_listing(devices);
    assert_eq!(parsed.len(), 1);
    assert_eq!(parsed[0].serial, "FA79X1A00000");
    assert_eq!(parsed[0].model, "Demo Phone");
    assert_eq!(parsed[0].adb_state, "device");
    assert_eq!(parsed[0].connection, ConnectionKind::Usb);
}

#[test]
fn connect_success_recognizes_adb_connect_messages() {
    assert!(is_adb_connect_success("connected to 192.168.1.48:5555"));
    assert!(is_adb_connect_success("already connected to 192.168.1.48:5555"));
    assert!(!is_adb_connect_success("failed to connect to 192.168.1.48:5555"));
}

#[test]
fn addresses_are_read_number_by_number() {
    assert_eq!(parse_ipv4_address("192.168.1.48"), Some([192, 168, 1, 48]));
    assert!(is_ipv4_address("0.0.0.0"));
    assert!(!is_ipv4_address("1.2.3"));
    assert!(!is_ipv4_address("1.2.3.256"));
    assert!(!is_ipv4_address("1.2.3.4.5"));
    assert!(!is_ipv4_address(""));
}

#[test]
fn wireless_interfaces_are_known_by_their_names() {
    assert!(is_wireless_interface("wlan0"));
    assert!(!is_wireless_interface("rmnet_data0"));
}

#[test]
fn serial_numbers_with_a_port_are_reached_over_the_network() {
    assert_eq!(infer_connection_kind("192.168.1.48:5555"), ConnectionKind::Wifi);
    assert_eq!(infer_connection_kind("FA79X1A00000"), ConnectionKind::Usb);
    assert_eq!(ConnectionKind::Wifi.as_str(), "WiFi");
    assert_eq!(ConnectionKind::Usb.as_str(), "USB");
    assert_eq!(ConnectionKind::Unknown.as_str(), "Unknown");
}

#[test]
fn a_failed_listing_is_passed_on() {
    assert_eq!(device_listing_args(), vec!["devices", "-l"]);
    assert_eq!(list_adb_devices(Err("no server".to_string())), Err("no server".to_string()));
    let listed = list_adb_devices(Ok("List of devices attached\nABC\n".to_string())).unwrap();
    assert_eq!(listed.len(), 1);
    assert_eq!(listed[0].adb_state, "unknown");
    assert_eq!(listed[0].model, "Unknown");
}

#[test]
fn the_tool_reports_its_output_or_its_complaint() {
    let args = vec!["tcpip".to_string(), "5555".to_string()];
    let reply = AdbReply::Ended {
        success: true,
        stdout: "  ok \n".to_string(),
        stderr: "noise".to_string(),
    };
    assert_eq!(run_adb(&args, reply), Ok("ok".to_string()));
    let reply = AdbReply::Ended {
        success: true,
        stdout: "\n".to_string(),
        stderr: " note ".to_string(),
    };
    assert_eq!(run_adb(&args, reply), Ok("note".to_string()));
    let reply = AdbReply::Ended {
        success: false,
        stdout: "out".to_string(),
        stderr: String::new(),
    };
    assert_eq!(run_adb(&args, reply), Err("`adb tcpip 5555` failed: out".to_string()));
    let reply = AdbReply::NotLaunched { path: "/x/adb".to_string(), reason: "gone".to_string() };
    assert_eq!(
        run_adb(&args, reply),
        Err("failed to launch `/x/adb` for `adb tcpip 5555`: gone".to_string())
    );
}

#[test]
fn properties_are_trimmed_and_must_not_be_empty() {
    assert_eq!(read_prop(&ended(" Pixel \n")), Some("Pixel".to_string()));
    assert_eq!(read_prop(&ended(" \n")), None);
    assert_eq!(read_prop(&RawReply::Broken("x".to_string())), None);
    let reply = RawReply::Ended {
        status: Some(1),
        stdout: "Pixel".to_string(),
        stderr: String::new(),
    };
    assert_eq!(read_prop(&reply), None);
}

#[test]
fn a_device_is_described_property_by_property() {
    let mut replies: Vec<RawReply> = Vec::new();
    let answers = ["XYZ123", "Pixel 8", "14", "", "gs201"];
    let mut commands: Vec<String> = Vec::new();
    let device: DeviceDescriptor = loop {
        match query_device_descriptor(None, Ok(()), &replies).unwrap() {
            Progress::Run(command) => {
                replies.push(ended(answers[commands.len()]));
                commands.push(command);
            }
            Progress::Done(device, used) => {
                assert_eq!(used, 5);
                break device;
            }
        }
    };
    assert_eq!(
        commands,
        vec![
            "getprop ro.serialno",
            "getprop ro.product.model",
            "getprop ro.build.version.release",
            "getprop ro.soc.model",
            "getprop ro.board.platform",
        ]
    );
    assert_eq!(device.serial, "XYZ123");
    assert_eq!(device.model, "Pixel 8");
    assert_eq!(device.android_version, "14");
    assert_eq!(device.soc_model, "gs201");
    assert_eq!(device.connection, ConnectionKind::Usb);
}

#[test]
fn a_device_that_cannot_be_opened_is_not_described() {
    match query_device_descriptor(Some("ABC"), Err("offline".to_string()), &[]) {
        Err(message) => assert_eq!(message, "failed to get adb device `ABC`: offline"),
        Ok(_) => panic!("described"),
    }
    assert_eq!(
        open_target_device(&None, "offline").message(),
        "failed to get adb device: offline"
    );
}

#[test]
fn shell_replies_are_judged_by_their_status() {
    assert_eq!(run_shell("ls", ended(" a \n")).unwrap(), " a \n");
    assert_eq!(run_shell_trimmed("ls", ended(" a \n")).unwrap(), "a");
    let reply = RawReply::Ended {
        status: Some(2),
        stdout: String::new(),
        stderr: " bad \n".to_string(),
    };
    assert_eq!(
        run_shell("ls", reply).unwrap_err().message(),
        "adb shell returned non-zero for `ls`: bad"
    );
    assert_eq!(
        run_shell("ls", RawReply::Broken("closed".to_string())).unwrap_err().message(),
        "adb shell failed for `ls`: closed"
    );
    let reply =
        RawReply::Ended { status: None, stdout: "x".to_string(), stderr: "y".to_string() };
    assert_eq!(run_shell("ls", reply).unwrap(), "x");
}

#[test]
fn the_address_is_looked_up_until_it_is_found() {
    let mut replies: Vec<Result<String, String>> = Vec::new();
    match query_wireless_ip("ABC", &replies) {
        Step::Do(Action::Adb(args)) => {
            assert_eq!(args[0], "-s");
            assert_eq!(args[1], "ABC");
            assert_eq!(args[2], "shell");
        }
        _ => panic!("no command"),
    }
    replies.push(Err("no route".to_string()));
    replies.push(Ok("3: wlan0    inet 192.168.1.48/24 brd 192.168.1.255".to_string()));
    match query_wireless_ip("ABC", &replies) {
        Step::Done(Ok(ip), used) => {
            assert_eq!(ip, "192.168.1.48");
            assert_eq!(used, 2);
        }
        _ => panic!("not found"),
    }
}

#[test]
fn a_device_is_reached_over_the_network() {
    let mut replies: Vec<Result<String, String>> = Vec::new();
    let mut actions: Vec<String> = Vec::new();
    let (serial, detail) = loop {
        match connect_wireless("ABC", &replies) {
            Step::Done(Ok(reached), used) => {
                assert_eq!(used, replies.len());
                break reached;
            }
            Step::Done(Err(message), _) => panic!("{message}"),
            Step::Do(Action::Sleep(ms)) => {
                actions.push(format!("sleep {ms}"));
                replies.push(Ok(String::new()));
            }
            Step::Do(Action::Open(serial)) => {
                actions.push(format!("open {serial}"));
                replies.push(Ok(String::new()));
            }
            Step::Do(Action::Adb(args)) => {
                let line = args.join(" ");
                let reply = if line.contains("addr show up") {
                    "5: wlan0    inet 192.168.1.48/24 brd 192.168.1.255 scope global wlan0"
                } else if line.contains("tcpip") {
                    "restarting in TCP mode port: 5555"
                } else if line.contains("connect") {
                    "connected to 192.168.1.48:5555"
                } else {
                    "device"
                };
                actions.push(line);
                replies.push(Ok(reply.to_string()));
            }
        }
    };
    assert_eq!(serial, "192.168.1.48:5555");
    assert!(detail.starts_with("Wireless ADB enabled for `ABC` at `192.168.1.48:5555`."));
    assert_eq!(actions.last().map(String::as_str), Some("open 192.168.1.48:5555"));
    assert!(actions.iter().any(|a| a == "-s ABC tcpip 5555"));
}
