//! Tests of the decisions of the device.

use std::time::Duration;

use upc::capabilities::{DeviceCapabilities, HostCapabilities};
use upc::class::Class;
use upc::device::{accept_error, Action, Ended, Event, InterfaceId, UpcFunction};
use upc::error::{Error, ErrorKind};

fn new_function() -> UpcFunction {
    let mut function = UpcFunction::new(InterfaceId::new(Class::vendor_specific(1, 2)));
    assert!(function.handle(Event::Enable { max_packet_size: 64 }).is_empty());
    function
}

fn names(actions: Vec<Action>) -> Vec<String> {
    actions
        .into_iter()
        .map(|action| match action {
            Action::StopReceiving => "stop receiving".to_string(),
            Action::StopSending => "stop sending".to_string(),
            Action::ClearHalts => "clear halts".to_string(),
            Action::PrimeReceive { size } => format!("prime {size}"),
            Action::ReadData => "read".to_string(),
            Action::Establish { sender, receiver } => {
                format!("establish {:?} {} {}", receiver.topic(), sender.max_size(), receiver.max_size())
            }
            Action::CancelReceive => "cancel receive".to_string(),
            Action::HaltIn => "halt in".to_string(),
            Action::HaltOut => "halt out".to_string(),
            Action::Reply(data) => format!("reply {data:?}"),
            Action::Stall => "stall".to_string(),
            Action::SendEcho(data) => format!("echo {data:?}"),
            Action::Fail(kind) => format!("fail {kind:?}"),
            Action::RestartPingTimer => "restart".to_string(),
        })
        .collect()
}

fn request(function: &mut UpcFunction, code: u8, data: Option<&[u8]>) -> Vec<String> {
    let mut actions = names(function.handle(Event::SetupOut { request: code }));
    let data = data.map(|data| data.to_vec());
    actions.extend(names(function.handle(Event::DataOut { request: code, data })));
    actions
}

#[test]
fn interface_ids() {
    let class = Class::vendor_specific(1, 2);
    let id = InterfaceId::from(class);
    assert_eq!(id.name, "USB packet channel (UPC)");
    assert_eq!(id.class, class);
    assert_eq!(id.guid, None);
    let guid = uuid::Uuid::from_u128(5);
    let id = id.with_name("name").with_guid(guid).clone();
    assert_eq!((id.name.as_str(), id.guid, id.class), ("name", Some(guid), class));
}

#[test]
fn default_settings() {
    let mut function = new_function();
    assert_eq!(function.ping_timeout(), Some(Duration::from_secs(10)));
    assert_eq!(function.max_size(), 16_777_216);
    assert_eq!(function.info(), b"");
    assert_eq!(function.name(), "USB packet channel (UPC)");
    function.set_info(vec![1, 2]);
    assert_eq!(function.info(), &[1, 2]);
    function.set_ping_timeout(None);
    assert_eq!(function.ping_timeout(), None);
    assert_eq!(function.ping_timer(), None);
}

#[test]
fn opening() {
    let mut function = new_function();
    assert_eq!(
        request(&mut function, 1, Some(&[65])),
        ["clear halts", "prime 8192", "read", "establish [65] 16777216 16777216", "restart"]
    );
    assert_eq!(
        request(&mut function, 1, Some(&[])),
        [
            "stop receiving",
            "stop sending",
            "clear halts",
            "prime 8192",
            "read",
            "establish [] 16777216 16777216",
            "restart"
        ]
    );
    assert_eq!(
        request(&mut function, 1, None),
        ["stop receiving", "stop sending", "clear halts", "prime 8192", "read", "cancel receive"]
    );
    assert_eq!(function.ping_timer(), None);
}

#[test]
fn closing() {
    let mut function = new_function();
    request(&mut function, 1, Some(&[]));
    assert_eq!(request(&mut function, 2, Some(&[])), ["stop receiving", "stop sending", "read"]);
    assert_eq!(request(&mut function, 2, None), ["stop receiving", "stop sending", "read"]);
    assert_eq!(names(function.handle(Event::SetupIn { request: 6 })), ["restart", "reply [1]"]);
}

#[test]
fn host_done_sending() {
    let mut function = new_function();
    request(&mut function, 1, Some(&[]));
    assert_eq!(request(&mut function, 4, Some(&[3, 0, 0, 0, 0, 0, 0, 0])), ["read"]);
    assert_eq!(names(function.handle(Event::SetupIn { request: 6 })), ["restart", "reply []"]);
    assert!(names(function.handle(Event::Received { len: 2 })).is_empty());
    assert_eq!(names(function.handle(Event::Received { len: 1 })), ["stop receiving"]);
    assert_eq!(names(function.handle(Event::SetupIn { request: 6 })), ["restart", "reply [1]"]);
    assert!(names(function.handle(Event::Received { len: 1 })).is_empty());
    assert_eq!(request(&mut function, 4, Some(&[0; 8])), ["read"]);

    request(&mut function, 1, Some(&[]));
    assert_eq!(request(&mut function, 4, Some(&[0; 8])), ["read", "stop receiving"]);
    request(&mut function, 1, Some(&[]));
    assert_eq!(request(&mut function, 4, Some(&[])), ["read", "stop receiving"]);
    request(&mut function, 1, Some(&[]));
    assert_eq!(request(&mut function, 4, None), ["read", "stop receiving"]);
}

#[test]
fn host_done_receiving() {
    let mut function = new_function();
    assert_eq!(request(&mut function, 5, Some(&[])), ["read"]);
    request(&mut function, 1, Some(&[]));
    assert_eq!(request(&mut function, 5, Some(&[])), ["read", "stop sending", "halt in"]);
    assert_eq!(request(&mut function, 5, None), ["read"]);
    assert_eq!(names(function.handle(Event::SetupIn { request: 6 })), ["restart", "reply []"]);
}

#[test]
fn device_closes_directions() {
    let mut function = new_function();
    assert!(function.handle(Event::ReceiverDropped).is_empty());
    assert!(function.handle(Event::SenderDropped).is_empty());
    request(&mut function, 1, Some(&[]));
    assert_eq!(names(function.handle(Event::ReceiverDropped)), ["stop receiving", "halt out"]);
    assert!(function.ping_timer().is_some());
    assert_eq!(names(function.handle(Event::SenderDropped)), ["halt in"]);
    assert!(function.ping_timer().is_none());
}

#[test]
fn queries() {
    let mut function = new_function();
    function.set_info(b"info".to_vec());
    function.set_max_size(300);
    let caps = DeviceCapabilities {
        ping_timeout: Some(Duration::from_secs(10)),
        status_supported: true,
        max_size: 300,
        echo_supported: true,
    };
    for _ in 0..2 {
        assert_eq!(names(function.handle(Event::SetupIn { request: 0 })), ["reply [85, 80, 67]"]);
        assert_eq!(names(function.handle(Event::SetupIn { request: 3 })), ["reply [105, 110, 102, 111]"]);
        assert_eq!(names(function.handle(Event::SetupIn { request: 7 })), [format!("reply {:?}", caps.encode())]);
        request(&mut function, 1, Some(&[]));
    }
}

#[test]
fn unknown_requests() {
    let mut function = new_function();
    for code in [0, 3, 6, 9, 0xf1] {
        assert_eq!(names(function.handle(Event::SetupOut { request: code })), ["stall"]);
    }
    for code in [1, 2, 4, 5, 8, 0xf0] {
        assert_eq!(names(function.handle(Event::SetupIn { request: code })), ["stall"]);
    }
}

#[test]
fn echo_without_connection() {
    let mut function = new_function();
    assert_eq!(request(&mut function, 8, Some(&[1, 2])), ["read", "echo [1, 2]"]);
    assert_eq!(request(&mut function, 8, None), ["read"]);
    request(&mut function, 1, Some(&[]));
    assert_eq!(request(&mut function, 8, Some(&[1, 2])), ["read"]);
}

#[test]
fn host_capabilities() {
    let mut function = new_function();
    let caps = HostCapabilities { max_size: 500 }.encode();
    assert_eq!(request(&mut function, 7, Some(&caps)), ["read"]);
    assert_eq!(request(&mut function, 1, Some(&[]))[3], "establish [] 500 16777216");
    assert_eq!(request(&mut function, 1, Some(&[]))[5], "establish [] 16777216 16777216");

    request(&mut function, 7, Some(&caps));
    request(&mut function, 2, Some(&[]));
    assert_eq!(request(&mut function, 1, Some(&[]))[3], "establish [] 16777216 16777216");

    request(&mut function, 7, Some(&caps));
    request(&mut function, 7, Some(&[1]));
    assert_eq!(request(&mut function, 1, Some(&[]))[5], "establish [] 16777216 16777216");

    request(&mut function, 7, Some(&caps));
    request(&mut function, 7, None);
    assert_eq!(request(&mut function, 1, Some(&[]))[5], "establish [] 16777216 16777216");
}

#[test]
fn ping_timeout() {
    let mut function = new_function();
    assert!(function.handle(Event::PingTimeout).is_empty());
    request(&mut function, 1, Some(&[]));
    assert_eq!(
        names(function.handle(Event::PingTimeout)),
        ["fail TimedOut", "stop receiving", "stop sending", "restart"]
    );
    assert!(function.handle(Event::PingTimeout).is_empty());
}

#[test]
fn disabling() {
    let mut function = new_function();
    request(&mut function, 1, Some(&[]));
    assert_eq!(names(function.handle(Event::Disable)), ["stop receiving", "stop sending"]);
    assert!(function.ping_timer().is_none());
}

#[test]
fn accepting_after_the_end() {
    assert_eq!(accept_error(Ended::Unbound), Some(Error::DeviceUnbound));
    assert_eq!(accept_error(Ended::Failed), None);
    assert_eq!(accept_error(Ended::Gone).unwrap().kind(), ErrorKind::BrokenPipe);
}

#[test]
fn closed_directions_stay_closed() {
    let mut function = new_function();
    request(&mut function, 1, Some(&[]));
    request(&mut function, 2, Some(&[]));
    for code in [2, 4, 5, 7, 8] {
        request(&mut function, code, Some(&[0; 8]));
        request(&mut function, code, None);
    }
    request(&mut function, 1, None);
    function.handle(Event::Received { len: 1 });
    function.handle(Event::SetupIn { request: 6 });
    function.handle(Event::Enable { max_packet_size: 512 });
    assert_eq!(function.ping_timer(), None);
    assert_eq!(names(function.handle(Event::SetupIn { request: 6 })), ["restart", "reply [1]"]);
}
