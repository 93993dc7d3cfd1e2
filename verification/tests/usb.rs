use devinspect::collectors::usb::{
    bus_marks, classify_device, device_kind_of, is_hub_description, kind_summary,
    lsusb_line_in_order, lsusb_selector, parse_lsusb_line, usb_display_order,
    usb_speed_from_verbose, DeviceKind, UsbDevice,
};

#[test]
fn test_classify_device() {
    assert_eq!(classify_device("Standard USB Hub"), "🔌 Hub");
    assert_eq!(classify_device("Apple Keyboard"), "⌨️  Keyboard");
    assert_eq!(classify_device("Logitech USB Optical Mouse"), "🖱️  Mouse/Touchpad");
    assert_eq!(classify_device("HD Web Camera"), "📷 Camera");
    assert_eq!(classify_device("Intel Wireless Bluetooth Adapter"), "📶 Bluetooth");
    assert_eq!(classify_device("USB Audio Device"), "🎧 Audio");
    assert_eq!(classify_device("Sandisk Flash Drive"), "💾 Storage");
    assert_eq!(classify_device("Realtek USB Ethernet"), "🌐 Network");
    assert_eq!(classify_device("HP LaserJet Printer"), "🖨️  Printer");
    assert_eq!(classify_device("FTDI USB Serial Port"), "🔗 Serial/UART");
    assert_eq!(classify_device("Intel Corporation Integrated Rate Matching Hub"), "🔧 Internal Hub");
    assert_eq!(classify_device("Random gadget"), "📦 Device");
}

#[test]
fn test_parse_lsusb_line() {
    let line = "Bus 001 Device 002: ID 8087:0024 Intel Corp. Integrated Rate Matching Hub";
    let dev = parse_lsusb_line(line).unwrap();
    assert_eq!(dev.bus, "001");
    assert_eq!(dev.device, "002");
    assert_eq!(dev.vendor_id, "8087");
    assert_eq!(dev.product_id, "0024");
    assert_eq!(dev.description, "Intel Corp. Integrated Rate Matching Hub");
    assert_eq!(dev.id, "8087:0024");

    let invalid_line = "Random line with no matching pattern";
    assert!(parse_lsusb_line(invalid_line).is_none());
}

#[test]
fn lsusb_line_without_description() {
    assert!(lsusb_line_in_order("Bus 002 Device 001: ID 1d6b:0003"));
    let dev = parse_lsusb_line("Bus 002 Device 001: ID 1d6b:0003").unwrap();
    assert_eq!(dev.description, "Unknown");
    assert_eq!(dev.vendor_id, "1d6b");
    assert_eq!(dev.product_id, "0003");
    assert_eq!(dev.speed, None);
}

#[test]
fn lsusb_line_with_id_without_colon() {
    let dev = parse_lsusb_line("Bus 003 Device 004: ID abcd Gadget").unwrap();
    assert_eq!(dev.vendor_id, "abcd");
    assert_eq!(dev.product_id, "????");
    assert_eq!(dev.description, "Gadget");
}

#[test]
fn lsusb_markers_out_of_order_are_detected() {
    assert!(!lsusb_line_in_order("Device 1: ID x Bus 2"));
    assert!(lsusb_line_in_order("no markers at all"));
}

#[test]
fn device_kinds_are_case_insensitive() {
    assert_eq!(device_kind_of("USB KEYBOARD"), DeviceKind::Keyboard);
    assert_eq!(device_kind_of("cp2102 bridge"), DeviceKind::Serial);
    assert_eq!(device_kind_of("WebCam"), DeviceKind::Camera);
}

#[test]
fn hub_descriptions() {
    assert!(is_hub_description("Linux Foundation 3.0 root HUB"));
    assert!(!is_hub_description("Mass Storage"));
}

#[test]
fn speed_from_verbose_output() {
    let out = "Device Descriptor:\n  bLength                18\n  bcdUSB               3.20\n";
    assert_eq!(usb_speed_from_verbose(out), Some("USB 3.20 — SuperSpeed+ (20 Gbps)".to_string()));
    let out = "  bcdUSB               2.00\n";
    assert_eq!(usb_speed_from_verbose(out), Some("USB 2.00 — Hi-Speed (480 Mbps)".to_string()));
    let out = "  bcdUSB               9.99\n";
    assert_eq!(usb_speed_from_verbose(out), Some("USB 9.99 — Unknown".to_string()));
    assert_eq!(usb_speed_from_verbose("nothing here"), None);
}

#[test]
fn lsusb_selectors() {
    assert_eq!(lsusb_selector("001", "012"), Some("1:12".to_string()));
    assert_eq!(lsusb_selector("x", "012"), None);
}

fn dev(bus: &str, device: &str, description: &str) -> UsbDevice {
    UsbDevice {
        bus: bus.to_string(),
        device: device.to_string(),
        id: "0000:0000".to_string(),
        vendor_id: "0000".to_string(),
        product_id: "0000".to_string(),
        description: description.to_string(),
        speed: None,
    }
}

#[test]
fn devices_are_listed_by_bus_then_device() {
    let devs = vec![
        dev("002", "003", "a"),
        dev("001", "004", "b"),
        dev("002", "001", "c"),
        dev("001", "004", "d"),
        dev("001", "002", "e"),
    ];
    assert_eq!(usb_display_order(&devs), vec![4, 1, 3, 2, 0]);
    assert_eq!(usb_display_order(&Vec::new()), Vec::<usize>::new());
}

#[test]
fn bus_tree_marks() {
    let buses: Vec<String> = ["001", "001", "002", "003", "003"].iter().map(|s| s.to_string()).collect();
    assert_eq!(
        bus_marks(&buses),
        vec![(true, false), (false, true), (true, true), (true, false), (false, true)]
    );
    let buses: Vec<String> = vec![String::new(), "004".to_string()];
    assert_eq!(bus_marks(&buses), vec![(false, true), (true, true)]);
}

#[test]
fn kind_summary_counts_and_orders() {
    let kinds = vec![
        DeviceKind::Other,
        DeviceKind::Hub,
        DeviceKind::Keyboard,
        DeviceKind::Hub,
        DeviceKind::Other,
        DeviceKind::Hub,
        DeviceKind::Mouse,
    ];
    assert_eq!(
        kind_summary(&kinds),
        vec![
            (DeviceKind::Hub, 3),
            (DeviceKind::Other, 2),
            (DeviceKind::Keyboard, 1),
            (DeviceKind::Mouse, 1),
        ]
    );
    assert_eq!(kind_summary(&Vec::new()), Vec::new());
}

#[test]
fn usb_id_is_vendor_and_product() {
    for line in [
        "Bus 001 Device 002: ID 8087:0024 Intel Corp. Integrated Rate Matching Hub",
        "Bus 002 Device 003: ID 046d:c52b:extra Logitech Receiver",
    ] {
        let dev = parse_lsusb_line(line).unwrap();
        assert_eq!(dev.id, format!("{}:{}", dev.vendor_id, dev.product_id));
    }
}

#[test]
fn well_formed_lines_round_trip() {
    for (b, d, v, p, desc) in [
        ("001", "002", "8087", "0024", "Intel Corp. Integrated Rate Matching Hub"),
        ("12", "7", "1D6B", "3", "Linux Foundation 3.0 root hub"),
        ("003", "010", "abcd", "ef01", ""),
    ] {
        let line = format!("Bus {} Device {}: ID {}:{} {}", b, d, v, p, desc);
        let dev = parse_lsusb_line(&line).unwrap();
        assert_eq!(dev.bus, b);
        assert_eq!(dev.device, d);
        assert_eq!(dev.id, format!("{}:{}", v, p));
        assert_eq!(dev.vendor_id, v);
        assert_eq!(dev.product_id, p);
        assert_eq!(dev.description, desc);
        assert_eq!(dev.speed, None);
    }
}
