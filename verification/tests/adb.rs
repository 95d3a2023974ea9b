use soc_analyzer::adb::{
    discovered_device, forward_args, get_property_args, list_devices_args, parse_device_list,
    property_value, pull_args, push_args, remove_forward_args,
};
use soc_analyzer::device::{ConnectedDevice, ConnectionType, DeviceStatus};

fn std_parse(output: &str) -> Vec<String> {
    let mut ids = Vec::new();
    for line in output.lines().skip(1) {
        if line.trim().is_empty() {
            continue;
        }
        let parts: Vec<&str> = line.split_whitespace().collect();
        if parts.len() >= 2 && parts[1] == "device" {
            ids.push(parts[0].to_string());
        }
    }
    ids
}

#[test]
fn command_arguments_are_exact() {
    assert_eq!(list_devices_args(), vec!["devices", "-l"]);
    assert_eq!(
        get_property_args("SER123", "ro.product.model"),
        vec!["-s", "SER123", "shell", "getprop", "ro.product.model"]
    );
    assert_eq!(
        forward_args("SER123", 8080, 8765),
        vec!["-s", "SER123", "forward", "tcp:8080", "tcp:8765"]
    );
    assert_eq!(
        forward_args("emulator-5554", 0, 65535),
        vec!["-s", "emulator-5554", "forward", "tcp:0", "tcp:65535"]
    );
    assert_eq!(
        remove_forward_args("SER123", 8080),
        vec!["-s", "SER123", "forward", "--remove", "tcp:8080"]
    );
    assert_eq!(
        push_args("SER123", "/tmp/a.bin", "/sdcard/a.bin"),
        vec!["-s", "SER123", "push", "/tmp/a.bin", "/sdcard/a.bin"]
    );
    assert_eq!(
        pull_args("SER123", "/sdcard/log.txt", "./log.txt"),
        vec!["-s", "SER123", "pull", "/sdcard/log.txt", "./log.txt"]
    );
}

#[test]
fn device_list_is_read() {
    let output = "List of devices attached\n\
        0A1B2C3D               device usb:1-2 product:raven model:Pixel_6_Pro device:raven transport_id:3\n\
        emulator-5554          offline\n\
        192.168.1.35:5555      device product:oriole model:Pixel_6 device:oriole transport_id:5\n\
        FFEE0011               unauthorized usb:1-4 transport_id:7\n\
        \n";
    assert_eq!(parse_device_list(output), vec!["0A1B2C3D", "192.168.1.35:5555"]);
}

#[test]
fn heading_line_is_never_a_device() {
    assert_eq!(parse_device_list("abc device\n"), Vec::<String>::new());
    assert_eq!(parse_device_list("abc device"), Vec::<String>::new());
    assert_eq!(parse_device_list("abc device\nabc device"), vec!["abc"]);
    assert_eq!(parse_device_list("\nabc device\n"), vec!["abc"]);
}

#[test]
fn empty_and_blank_output_names_no_device() {
    assert_eq!(parse_device_list(""), Vec::<String>::new());
    assert_eq!(parse_device_list("\n"), Vec::<String>::new());
    assert_eq!(parse_device_list("List of devices attached\n\n\n"), Vec::<String>::new());
    assert_eq!(parse_device_list("List of devices attached\n   \t \n"), Vec::<String>::new());
}

#[test]
fn second_word_must_be_device_exactly() {
    let output = "head\n\
        a devices\n\
        b Device\n\
        c device\n\
        d\n\
        device\n\
        e x device\n\
        f device device\n";
    assert_eq!(parse_device_list(output), vec!["c", "f"]);
}

#[test]
fn any_white_space_separates_words() {
    let output = "head\r\n  a\t\tdevice\r\nb\u{a0}device\nc\u{3000}device x\n\u{2003}d\u{2009}device\u{85}\n";
    assert_eq!(parse_device_list(output), vec!["a", "b", "c", "d"]);
    assert_eq!(parse_device_list(output), std_parse(output));
}

#[test]
fn parser_agrees_with_the_standard_library() {
    let samples = [
        "",
        "x",
        "\n\n",
        "h\na device\n\nb device",
        "h\r\na device\r\nb offline\r\n",
        "h\n a  device  \n\tb\tdevice\t\n",
        "h\n\u{feff}a device\n",
        "h\na\u{200b}b device\n",
        "h\nna\u{ef}ve device\n\u{1F600} device\n",
        "h\na device\u{b}b device\n",
        "h\na\u{1680}device\u{2028}b\u{2029}c\n",
        "h\nx\u{202f}device\ny\u{205f}device\n",
        "h\nq\u{1c}device\n",
    ];
    for sample in samples {
        assert_eq!(parse_device_list(sample), std_parse(sample));
    }
}

#[test]
fn property_values_are_trimmed() {
    assert_eq!(property_value("Pixel 6 Pro\n"), "Pixel 6 Pro");
    assert_eq!(property_value("  google\r\n"), "google");
    assert_eq!(property_value("\t\u{a0} a b \u{3000}\n"), "a b");
    assert_eq!(property_value(""), "");
    assert_eq!(property_value(" \n\t "), "");
    assert_eq!(property_value("x"), "x");
    for raw in ["", " ", "a", " a", "a ", " a b ", "\u{2003}x\u{2003}", "\u{feff}x ", "\u{1F600} "] {
        assert_eq!(property_value(raw), raw.trim());
    }
}

#[test]
fn discovered_device_is_assembled() {
    let d = discovered_device(
        "0A1B2C3D".to_string(),
        Some("google".to_string()),
        Some("Pixel 6 Pro".to_string()),
        Some("gs101".to_string()),
        1234,
    );
    assert_eq!(
        d,
        ConnectedDevice {
            id: "0A1B2C3D".to_string(),
            name: "google Pixel 6 Pro".to_string(),
            model: "Pixel 6 Pro".to_string(),
            soc_name: "gs101".to_string(),
            connection_type: ConnectionType::Usb,
            status: DeviceStatus::Pairing,
            ip_address: None,
            port: None,
            last_seen: 1234,
        }
    );
}

#[test]
fn unread_properties_are_unknown() {
    let d = discovered_device("id".to_string(), None, None, None, 0);
    assert_eq!(d.name, "Unknown Unknown");
    assert_eq!(d.model, "Unknown");
    assert_eq!(d.soc_name, "Unknown");
    let d = discovered_device("id".to_string(), None, Some(String::new()), None, 0);
    assert_eq!(d.name, "Unknown ");
    assert_eq!(d.model, "");
    let d = discovered_device("id".to_string(), Some("acme".to_string()), None, None, 0);
    assert_eq!(d.name, "acme Unknown");
}

#[test]
fn discovered_device_is_stamped_by_the_clock() {
    let d = soc_analyzer::adb::discovered_device_now(
        "id".to_string(),
        Some("acme".to_string()),
        None,
        Some("chip".to_string()),
    );
    assert_eq!(d.name, "acme Unknown");
    assert_eq!(d.soc_name, "chip");
    assert_eq!(d.status, DeviceStatus::Pairing);
    assert_eq!(d.connection_type, ConnectionType::Usb);
    assert!(d.last_seen > 1_600_000_000);
}
