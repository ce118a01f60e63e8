//! Tests of the command-line tool.

use upc::class::Class;
use upc::cli::device::{exit_code, interface_id, interface_id_with};
use upc::cli::filter::{keep_probed, select, DeviceFilter, DeviceInfo, InterfaceInfo, SelectError};
use upc::cli::forward::{
    is_broken_pipe, line_packets, raw_packet, send_step, Framing, RecvAction, RecvEvent, RecvSide, SendAction,
    SendEvent,
};
use upc::cli::hex::{parse_hex, parse_hex_u16, parse_hex_u8, HexError};
use upc::cli::listing::{
    channel_line, channel_report, connecting_text, device_id, device_line, device_location, final_report,
    info_text, interface_line, scan_outcome, scan_plan,
};
use upc::error::{Error, ErrorKind};

#[test]
fn hexadecimal_numbers() {
    assert_eq!(parse_hex_u16("1209"), Ok(0x1209));
    assert_eq!(parse_hex_u16("0x1209"), Ok(0x1209));
    assert_eq!(parse_hex_u16("0XfF"), Ok(0xff));
    assert_eq!(parse_hex_u16("0x0x0X12"), Ok(0x12));
    assert_eq!(parse_hex_u16("+12"), Ok(0x12));
    assert_eq!(parse_hex_u16("ffff"), Ok(0xffff));
    assert_eq!(parse_hex_u8("84"), Ok(0x84));
    assert_eq!(parse_hex_u8("0000ff"), Ok(0xff));
}

#[test]
fn invalid_hexadecimal_numbers() {
    let invalid = Err("invalid hex u16: invalid digit found in string".to_string());
    assert_eq!(parse_hex_u16("12g"), invalid);
    assert_eq!(parse_hex_u16("-1"), invalid);
    assert_eq!(parse_hex_u16("+"), invalid);
    assert_eq!(parse_hex_u16("0X0x1"), invalid);
    assert_eq!(parse_hex_u16(" 1"), invalid);
    let large = Err("invalid hex u16: number too large to fit in target type".to_string());
    assert_eq!(parse_hex_u16("10000"), large);
    let empty = Err("invalid hex u8: cannot parse integer from empty string".to_string());
    assert_eq!(parse_hex_u8(""), empty);
    assert_eq!(parse_hex_u8("0x"), empty);
    assert_eq!(parse_hex_u8("100"), Err("invalid hex u8: number too large to fit in target type".to_string()));
    assert_eq!(parse_hex("z", 0xff), Err(HexError::InvalidDigit));
}

#[test]
fn hexadecimal_numbers_like_std() {
    for text in ["", "0", "7f", "FF", "+a", "-a", "+", "-", "100", "1g0000", "10000g", "1 ", "é", "ffff", "fffff"] {
        let expected = u16::from_str_radix(text, 16).map_err(|err| format!("invalid hex u16: {err}"));
        assert_eq!(parse_hex_u16(text), expected, "{text}");
        let expected = u8::from_str_radix(text, 16).map_err(|err| format!("invalid hex u8: {err}"));
        assert_eq!(parse_hex_u8(text), expected, "{text}");
    }
}

fn filter() -> DeviceFilter {
    DeviceFilter {
        vid: None,
        pid: None,
        serial: None,
        bus: None,
        address: None,
        interface: None,
        subclass: None,
        protocol: None,
    }
}

fn interface(number: u8, class: Class, name: Option<&str>) -> InterfaceInfo {
    InterfaceInfo { number, class, name: name.map(|name| name.to_string()) }
}

fn device() -> DeviceInfo {
    DeviceInfo {
        vendor_id: 0x1209,
        product_id: 1,
        bus: "001".to_string(),
        address: 5,
        manufacturer: Some("UPC".to_string()),
        product: None,
        serial: Some("my-device".to_string()),
        interfaces: vec![
            interface(0, Class::vendor_specific(1, 0), None),
            interface(1, Class::new(8, 6, 0x50), Some("disk")),
            interface(2, Class::vendor_specific(2, 0x84), None),
        ],
    }
}

fn plain_device() -> DeviceInfo {
    DeviceInfo {
        vendor_id: 0xabcd,
        product_id: 0xef01,
        bus: "usb2".to_string(),
        address: 123,
        manufacturer: None,
        product: Some("Hub".to_string()),
        serial: None,
        interfaces: vec![interface(0, Class::new(9, 0, 0), None)],
    }
}

#[test]
fn device_filters() {
    assert!(filter().matches_device(&device()));
    assert!(DeviceFilter { vid: Some(0x1209), ..filter() }.matches_device(&device()));
    assert!(!DeviceFilter { vid: Some(0x1208), ..filter() }.matches_device(&device()));
    assert!(DeviceFilter { pid: Some(1), ..filter() }.matches_device(&device()));
    assert!(!DeviceFilter { pid: Some(2), ..filter() }.matches_device(&device()));
    assert!(DeviceFilter { serial: Some("my-device".to_string()), ..filter() }.matches_device(&device()));
    assert!(!DeviceFilter { serial: Some("my".to_string()), ..filter() }.matches_device(&device()));
    assert!(!DeviceFilter { serial: Some("my".to_string()), ..filter() }.matches_device(&plain_device()));
    assert!(DeviceFilter { bus: Some("001".to_string()), ..filter() }.matches_device(&device()));
    assert!(!DeviceFilter { bus: Some("1".to_string()), ..filter() }.matches_device(&device()));
    assert!(DeviceFilter { address: Some(5), ..filter() }.matches_device(&device()));
    assert!(!DeviceFilter { address: Some(6), ..filter() }.matches_device(&device()));
}

#[test]
fn interface_filters() {
    let interfaces = device().interfaces;
    assert!(filter().matches_interface(&interfaces[1]));
    assert!(DeviceFilter { interface: Some(1), ..filter() }.matches_interface(&interfaces[1]));
    assert!(!DeviceFilter { interface: Some(0), ..filter() }.matches_interface(&interfaces[1]));
    assert!(DeviceFilter { subclass: Some(6), ..filter() }.matches_interface(&interfaces[1]));
    assert!(!DeviceFilter { subclass: Some(7), ..filter() }.matches_interface(&interfaces[1]));
    assert!(DeviceFilter { protocol: Some(0x50), ..filter() }.matches_interface(&interfaces[1]));
    assert!(!DeviceFilter { protocol: Some(0x84), ..filter() }.matches_interface(&interfaces[1]));
    assert!(!filter().selects_interface());
    assert!(DeviceFilter { subclass: Some(1), ..filter() }.selects_interface());
}

#[test]
fn candidates_of_devices() {
    let devices = vec![plain_device(), device()];
    assert_eq!(filter().candidates(&device()), [0, 2]);
    assert_eq!(filter().find_candidates(&devices), [(1, 0), (1, 2)]);
    let by_number = DeviceFilter { interface: Some(0), ..filter() };
    assert_eq!(by_number.find_candidates(&devices), [(0, 0), (1, 0)]);
    let by_protocol = DeviceFilter { protocol: Some(0x84), ..filter() };
    assert_eq!(by_protocol.find_candidates(&devices), [(1, 2)]);
    let by_vid = DeviceFilter { vid: Some(0xabcd), ..filter() };
    assert_eq!(by_vid.find_candidates(&devices), []);
}

#[test]
fn selection_of_interface() {
    assert_eq!(select(&vec![(1, 2)]), Ok((1, 2)));
    assert_eq!(select(&Vec::new()), Err(SelectError::NotFound));
    assert_eq!(select(&vec![(1, 2), (1, 3)]), Err(SelectError::Ambiguous));
    assert_eq!(SelectError::NotFound.text(), "No matching UPC device found.");
    assert_eq!(
        SelectError::Ambiguous.text(),
        "Multiple matching UPC interfaces found. Use --serial, --vid, --pid, or -i to narrow down."
    );
    assert_eq!(keep_probed(&vec![(0, 1), (0, 2), (3, 1)], &vec![true, false, true]), [(0, 1), (3, 1)]);
}

#[test]
fn texts_of_devices() {
    assert_eq!(device_id(&device()), "1209:0001");
    assert_eq!(device_location(&device()), "001:005");
    assert_eq!(device_line(&device()), "Device 1209:0001 on 001:005 - UPC ? (serial: my-device)");
    assert_eq!(device_line(&plain_device()), "Device abcd:ef01 on usb2:123 - ? Hub");
    assert_eq!(
        interface_line(&device().interfaces[1]),
        "  Interface 1: class=08 subclass=06 protocol=50 \"disk\""
    );
    assert_eq!(
        interface_line(&device().interfaces[2]),
        "  Interface 2: class=ff subclass=02 protocol=84"
    );
    assert_eq!(connecting_text(&device(), 2), "Connecting to 1209:0001 on 001:005 interface 2...");
}

#[test]
fn texts_of_channels() {
    assert_eq!(channel_line(&device(), 0, "sensor v1"), "1209:0001\t001:005\tmy-device\t0\t01\tsensor v1");
    assert_eq!(channel_line(&plain_device(), 7, ""), "abcd:ef01\tusb2:123\t\t7\t00\t");
    assert_eq!(
        channel_report(&device(), 0, b"sensor v1", false),
        "1209:0001\t001:005\tmy-device\t0\t01\tsensor v1"
    );
    assert_eq!(channel_report(&device(), 0, b"sensor v1", true), "    UPC info: sensor v1");
    assert!(scan_outcome(None::<Result<bool, Error>>, true));
    assert!(!scan_outcome(None::<Result<bool, Error>>, false));
    assert!(scan_outcome(Some(Ok::<bool, Error>(true)), true));
    assert!(!scan_outcome(Some(Ok::<bool, Error>(true)), false));
    assert!(!scan_outcome(Some(Ok::<bool, Error>(false)), true));
    assert!(!scan_outcome(Some(Err(Error::InterfaceInUse)), true));
    assert_eq!(final_report(false, true), Some("No UPC interfaces found."));
    assert_eq!(final_report(true, true), None);
    assert_eq!(final_report(false, false), None);
}

#[test]
fn info_as_text() {
    assert_eq!(info_text("sensor é".as_bytes()), "sensor é");
    assert_eq!(info_text(&[0x61, 0xff]), "");
    assert_eq!(info_text(&[]), "");
}

#[test]
fn scan_of_devices() {
    let devices = vec![plain_device(), device()];
    let plan = scan_plan(&filter(), &devices, false);
    assert_eq!(plan.len(), 1);
    assert_eq!((plan[0].device, plan[0].lines.len(), &plan[0].interfaces[..]), (1, 0, &[0u8, 2][..]));

    let plan = scan_plan(&filter(), &devices, true);
    assert_eq!(plan.len(), 2);
    assert_eq!(plan[0].interfaces, []);
    assert_eq!(
        plan[0].lines,
        ["Device abcd:ef01 on usb2:123 - ? Hub", "  Interface 0: class=09 subclass=00 protocol=00"]
    );
    assert_eq!(plan[1].lines.len(), 4);

    let by_subclass = DeviceFilter { vid: Some(0x1209), subclass: Some(2), ..filter() };
    let plan = scan_plan(&by_subclass, &devices, true);
    assert_eq!(plan.len(), 1);
    assert_eq!(plan[0].lines[1], "  Interface 2: class=ff subclass=02 protocol=84");
    assert_eq!(plan[0].interfaces, [2]);
}

#[test]
fn framing_of_input() {
    assert!(Framing::Auto.is_by_line(true));
    assert!(!Framing::Auto.is_by_line(false));
    assert!(Framing::Line.is_by_line(false));
    assert!(!Framing::Raw.is_by_line(true));
}

#[test]
fn lines_become_packets() {
    let parts = |line: &str, max_send: usize| -> Vec<Vec<u8>> {
        line_packets(line.as_bytes().to_vec(), max_send).iter().map(|packet| packet.to_vec()).collect()
    };
    assert_eq!(parts("hello", 100), [b"hello\n".to_vec()]);
    assert_eq!(parts("hello", 6), [b"hello\n".to_vec()]);
    assert_eq!(parts("hello", 4), [b"hell".to_vec(), b"o\n".to_vec()]);
    assert_eq!(parts("hello", 3), [b"hel".to_vec(), b"lo\n".to_vec()]);
    assert_eq!(parts("", 1), [b"\n".to_vec()]);
    assert_eq!(&raw_packet(&[1, 2, 3], 2)[..], &[1, 2]);
}

#[test]
fn sending_side() {
    assert!(is_broken_pipe(&ErrorKind::BrokenPipe));
    assert!(!is_broken_pipe(&ErrorKind::TimedOut));
    assert_eq!(send_step(SendEvent::Sent, true, true), SendAction::Continue);
    assert_eq!(
        send_step(SendEvent::SendFailed(ErrorKind::BrokenPipe), true, false),
        SendAction::End { failed: false, close_stdin: false, start_idle: false }
    );
    assert_eq!(
        send_step(SendEvent::SendFailed(ErrorKind::TimedOut), true, false),
        SendAction::End { failed: true, close_stdin: false, start_idle: false }
    );
    assert_eq!(
        send_step(SendEvent::InputEnded, true, false),
        SendAction::End { failed: false, close_stdin: true, start_idle: true }
    );
    assert_eq!(
        send_step(SendEvent::ChannelClosed, false, true),
        SendAction::End { failed: false, close_stdin: false, start_idle: false }
    );
    assert_eq!(
        send_step(SendEvent::InputFailed, false, false),
        SendAction::End { failed: true, close_stdin: true, start_idle: false }
    );
}

#[test]
fn receiving_side() {
    let mut side = RecvSide::new();
    assert_eq!(side.step(RecvEvent::Packet), RecvAction::Write { restart_idle: false });
    assert_eq!(side.step(RecvEvent::Written), RecvAction::Continue);
    assert_eq!(side.step(RecvEvent::InputEnded), RecvAction::StartIdle);
    assert_eq!(side.step(RecvEvent::InputEnded), RecvAction::Continue);
    assert_eq!(side.step(RecvEvent::Packet), RecvAction::Write { restart_idle: true });
    assert_eq!(side.step(RecvEvent::WriteFailed(ErrorKind::BrokenPipe)), RecvAction::End { failed: false });
    assert_eq!(side.step(RecvEvent::WriteFailed(ErrorKind::Other)), RecvAction::End { failed: true });
    assert_eq!(side.step(RecvEvent::Failed(ErrorKind::BrokenPipe)), RecvAction::End { failed: false });
    assert_eq!(side.step(RecvEvent::Failed(ErrorKind::TimedOut)), RecvAction::End { failed: true });
    assert_eq!(side.step(RecvEvent::Ended), RecvAction::End { failed: false });
    assert_eq!(side.step(RecvEvent::Idle), RecvAction::End { failed: false });
}

#[test]
fn interface_id_of_arguments() {
    let id = interface_id(1, 0x84, None, Some("19840902-89fc-40d8-bc10-f71079b789b5")).unwrap();
    assert_eq!(id.class, Class::vendor_specific(1, 0x84));
    assert_eq!(id.name, "USB packet channel (UPC)");
    assert_eq!(id.guid.unwrap().as_u128(), 0x19840902_89fc_40d8_bc10_f71079b789b5);
    let id = interface_id(1, 2, Some("name"), None).unwrap();
    assert_eq!((id.name.as_str(), id.guid), ("name", None));
    assert!(interface_id(1, 2, None, Some("19840902")).is_err());
    assert_eq!(
        interface_id_with(1, 2, None, Some(Err("bad".to_string()))).err(),
        Some("bad".to_string())
    );
}

#[test]
fn exit_codes() {
    assert_eq!(exit_code(false, false), Some(0));
    assert_eq!(exit_code(true, false), Some(1));
    assert_eq!(exit_code(false, true), None);
    assert_eq!(exit_code(true, true), None);
}

#[test]
fn listed_numbers_are_accepted() {
    for value in [0u16, 1, 0x1209, 0xabcd, 0xffff] {
        let dev = DeviceInfo { vendor_id: value, ..device() };
        assert_eq!(parse_hex_u16(&device_id(&dev)[..4]), Ok(value));
    }
}
