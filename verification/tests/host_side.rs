//! Tests of the decisions of the host.

use std::time::Duration;

use upc::capabilities::{DeviceCapabilities, HostCapabilities};
use upc::class::Class;
use upc::error::{Error, ErrorKind, TaskError, TransferError, UsbError, WebError};
use upc::host::blocking;
use upc::host::blocking::{BlockingError, InterfaceEndpoints, NamedInterface, ThreadAction};
use upc::host::connect::{Action, Event, Stage};
use upc::host::discovery::{
    find_interface, find_interface_opened, find_web_interface, info, probe, probe_result, select_endpoints,
    select_web_endpoints, Direction, EndpointDescriptor, Endpoints, InterfaceDescriptor, TransferType,
};
use upc::host::options::status_interval;
use upc::host::tasks::{
    completion, in_task, is_halted, record_error, Completion, DeviceStatus, InAction, InEvent, OutAction, OutEvent,
    OutTask,
};
use upc::host::web::{retry_guard, sleep_millis};
use upc::host::{Connect, HalfCloseHandle, InUse, InUseGuard, UpcOptions};

fn endpoint(address: u8, direction: Direction, transfer_type: TransferType, max_packet_size: u16) -> EndpointDescriptor {
    EndpointDescriptor { address, direction, transfer_type, max_packet_size }
}

fn interfaces() -> Vec<InterfaceDescriptor> {
    vec![
        InterfaceDescriptor { number: 0, class: Class::new(3, 0, 0), endpoints: Vec::new() },
        InterfaceDescriptor {
            number: 2,
            class: Class::vendor_specific(22, 3),
            endpoints: vec![
                endpoint(0x81, Direction::In, TransferType::Bulk, 512),
                endpoint(0x83, Direction::In, TransferType::Interrupt, 8),
                endpoint(0x01, Direction::Out, TransferType::Bulk, 1024),
                endpoint(0x02, Direction::Out, TransferType::Bulk, 64),
            ],
        },
        InterfaceDescriptor { number: 3, class: Class::vendor_specific(22, 3), endpoints: Vec::new() },
    ]
}

#[test]
fn interface_by_class() {
    let class = Class::vendor_specific(22, 3);
    let missing = Class::vendor_specific(22, 4);
    assert_eq!(find_interface(&interfaces(), class), Ok(2));
    assert_eq!(find_interface_opened(&interfaces(), class), Ok(2));
    assert_eq!(find_web_interface(Some(&interfaces()), class), Ok(2));
    assert_eq!(find_interface(&interfaces(), missing), Err(Error::ClassNotFound(missing)));
    assert_eq!(find_interface_opened(&interfaces(), missing), Err(Error::ClassNotFound(missing)));
    assert_eq!(find_web_interface(Some(&interfaces()), missing), Err(Error::UpcNotFound));
    assert_eq!(find_web_interface(None, class), Err(Error::NoConfiguration));
}

#[test]
fn endpoints_of_interface() {
    let endpoints = Endpoints { ep_in: 0x81, ep_out: 0x02, max_packet_size: 64 };
    assert_eq!(select_endpoints(&interfaces(), 2), Ok(endpoints));
    assert_eq!(endpoints.transfer_size(), 64 * 128);
    assert_eq!(select_web_endpoints(Some(&interfaces()), 2), Ok(endpoints));
    assert_eq!(select_endpoints(&interfaces(), 3), Err(Error::TransferEndpointsNotFound));
    assert_eq!(select_endpoints(&interfaces(), 4), Err(Error::InterfaceNotFound(4)));
    assert_eq!(select_web_endpoints(Some(&interfaces()), 0), Err(Error::EndpointsNotFound));
    assert_eq!(select_web_endpoints(Some(&interfaces()), 4), Err(Error::SpecifiedInterfaceNotFound));
    assert_eq!(select_web_endpoints(None, 2), Err(Error::NoConfiguration));
}

#[test]
fn requests_without_connection() {
    assert_eq!((info().request, info().length), (3, 4096));
    assert_eq!((probe().request, probe().length), (0, 3));
}

#[test]
fn probe_responses() {
    assert_eq!(probe_result(Ok(b"UPC".to_vec())), Ok(true));
    assert_eq!(probe_result(Ok(b"UPD".to_vec())), Ok(false));
    assert_eq!(probe_result(Ok(Vec::new())), Ok(false));
    assert_eq!(probe_result(Err(Error::Task(TransferError::Stall.into()))), Ok(false));
    assert_eq!(probe_result(Err(Error::Web(WebError::Stall))), Ok(false));
    let fault = Error::Task(TransferError::Fault.into());
    assert_eq!(probe_result(Err(fault)), Err(fault));
}

#[test]
fn default_options() {
    let options = UpcOptions::new();
    assert_eq!(options.topic(), b"");
    assert_eq!(options.ping_interval(), Some(Duration::from_secs(5)));
    assert_eq!(options.max_size(), 16_777_216);
    let options = UpcOptions::default()
        .with_topic(b"topic".to_vec())
        .with_ping_interval(Some(Duration::from_millis(7)))
        .with_max_size(9)
        .clone();
    assert_eq!(options.topic(), b"topic");
    assert_eq!(options.ping_interval(), Some(Duration::from_millis(7)));
    assert_eq!(options.max_size(), 9);
}

#[test]
fn polling_intervals() {
    let second = Duration::from_secs(1);
    let caps = |status_supported: bool, ping_timeout: Option<Duration>| DeviceCapabilities {
        ping_timeout,
        status_supported,
        ..DeviceCapabilities::default()
    };
    let default = status_interval(Some(5 * second), &caps(true, Some(10 * second)));
    assert_eq!(default, Some(5 * second));
    assert_eq!(status_interval(Some(5 * second), &caps(true, Some(3 * second))), Some(3 * second / 2));
    assert_eq!(status_interval(Some(second), &caps(true, Some(10 * second))), Some(second));
    assert_eq!(status_interval(None, &caps(true, Some(3 * second))), Some(3 * second / 2));
    assert_eq!(status_interval(Some(second), &caps(true, None)), Some(second));
    assert_eq!(status_interval(None, &caps(true, None)), None);
    assert_eq!(status_interval(Some(second), &caps(false, Some(second))), None);
}

fn new_connect() -> Connect {
    let endpoints = Endpoints { ep_in: 0x81, ep_out: 0x02, max_packet_size: 64 };
    let options = UpcOptions::new().with_topic(b"topic".to_vec()).with_max_size(1000);
    Connect::new(options, endpoints, vec![7, 7])
}

fn advance(connect: &mut Connect, stage: Stage) {
    while connect.stage() != stage {
        let event = match connect.action() {
            Action::Claim => Event::Claimed { result: Ok(()), expired: false },
            Action::ClearIn | Action::ClearOut => Event::Cleared(Ok(())),
            Action::Send(_) => Event::Sent(Ok(())),
            Action::Query(_) => Event::Queried(Ok(vec![4, 1, 0, 1])),
            Action::Receive { .. } => Event::Received(vec![7, 7]),
            Action::Start(_) | Action::Fail(_) => panic!("stage not reached"),
        };
        connect.handle(event);
    }
}

#[test]
fn connecting_in_order() {
    let mut connect = new_connect();
    let mut requests = Vec::new();
    loop {
        let event = match connect.action() {
            Action::Claim => Event::Claimed { result: Ok(()), expired: false },
            Action::ClearIn | Action::ClearOut => Event::Cleared(Ok(())),
            Action::Send(request) => {
                requests.push((request.request, request.data));
                Event::Sent(Ok(()))
            }
            Action::Query(request) => {
                assert_eq!(request.length, 256);
                requests.push((request.request, Vec::new()));
                let caps = DeviceCapabilities {
                    ping_timeout: Some(Duration::from_secs(2)),
                    status_supported: true,
                    max_size: 77,
                    echo_supported: true,
                };
                Event::Queried(Ok(caps.encode()))
            }
            Action::Receive { size } => {
                assert_eq!(size, 64);
                Event::Received(vec![7, 7])
            }
            Action::Start(connection) => {
                assert_eq!(connection.sender.max_size(), 77);
                assert_eq!(connection.receiver.max_size(), 1000);
                assert_eq!(connection.status_interval, Some(Duration::from_secs(1)));
                break;
            }
            Action::Fail(err) => panic!("{err:?}"),
        };
        connect.handle(event);
    }
    let host_caps = HostCapabilities { max_size: 1000 }.encode();
    assert_eq!(
        requests,
        [
            (2, Vec::new()),
            (7, Vec::new()),
            (7, host_caps),
            (8, vec![7, 7]),
            (1, b"topic".to_vec()),
        ]
    );
}

#[test]
fn busy_interface_is_claimed_again() {
    let busy = Error::Usb(UsbError::Busy);
    let mut connect = new_connect();
    connect.handle(Event::Claimed { result: Err(busy), expired: false });
    assert_eq!(connect.stage(), Stage::Claim);
    connect.handle(Event::Claimed { result: Err(busy), expired: true });
    assert_eq!(connect.stage(), Stage::Failed(busy));
    assert!(matches!(connect.action(), Action::Fail(err) if err == busy));

    let denied = Error::Usb(UsbError::PermissionDenied);
    let mut connect = new_connect();
    connect.handle(Event::Claimed { result: Err(denied), expired: false });
    assert_eq!(connect.stage(), Stage::Failed(denied));
}

#[test]
fn failed_steps_end_connecting() {
    let fault = Error::Task(TransferError::Fault.into());
    for stage in [Stage::ClearIn, Stage::ClearOut] {
        let mut connect = new_connect();
        advance(&mut connect, stage);
        connect.handle(Event::Cleared(Err(fault)));
        assert_eq!(connect.stage(), Stage::Failed(fault));
    }
    for stage in [Stage::Close, Stage::Open] {
        let mut connect = new_connect();
        advance(&mut connect, stage);
        connect.handle(Event::Sent(Err(fault)));
        assert_eq!(connect.stage(), Stage::Failed(fault));
    }
    let mut connect = new_connect();
    advance(&mut connect, Stage::Announce);
    connect.handle(Event::Sent(Err(fault)));
    assert_eq!(connect.stage(), Stage::Echo);
    connect.handle(Event::Sent(Err(fault)));
    assert_eq!(connect.stage(), Stage::Flush);
}

#[test]
fn unknown_capabilities_use_defaults() {
    let mut connect = new_connect();
    advance(&mut connect, Stage::Query);
    connect.handle(Event::Queried(Err(Error::Task(TransferError::Stall.into()))));
    connect.handle(Event::Sent(Ok(())));
    assert_eq!(connect.stage(), Stage::Flush);
    connect.handle(Event::Received(vec![1]));
    assert_eq!(connect.stage(), Stage::Flush);
    connect.handle(Event::ReceiveTimedOut { marker: Vec::new() });
    connect.handle(Event::Sent(Ok(())));
    match connect.action() {
        Action::Start(connection) => {
            assert_eq!(connection.sender.max_size(), 16_777_216);
            assert_eq!(connection.status_interval, None);
        }
        _ => panic!("not connected"),
    }
}

#[test]
fn truncated_capabilities_fail() {
    let mut connect = new_connect();
    advance(&mut connect, Stage::Query);
    connect.handle(Event::Queried(Ok(vec![1, 2])));
    assert_eq!(connect.stage(), Stage::Failed(Error::CapabilitiesTruncated));
}

#[test]
fn echo_is_repeated() {
    let mut connect = new_connect();
    advance(&mut connect, Stage::EchoWait);
    connect.handle(Event::Received(vec![7]));
    assert_eq!(connect.stage(), Stage::EchoWait);
    connect.handle(Event::ReceiveTimedOut { marker: vec![8] });
    match connect.action() {
        Action::Send(request) => assert_eq!((request.request, request.data), (8, vec![8])),
        _ => panic!("no echo"),
    }
    connect.handle(Event::Sent(Ok(())));
    connect.handle(Event::Received(vec![7, 7]));
    assert_eq!(connect.stage(), Stage::EchoWait);
    connect.handle(Event::Received(vec![8]));
    assert_eq!(connect.stage(), Stage::Open);

    let mut connect = new_connect();
    advance(&mut connect, Stage::EchoWait);
    connect.handle(Event::ReceiveFailed);
    assert_eq!(connect.stage(), Stage::Open);
}

fn codes(requests: Vec<upc::ctrl::ControlOut>) -> Vec<(u8, Vec<u8>)> {
    requests.into_iter().map(|request| (request.request, request.data)).collect()
}

#[test]
fn directions_close_once() {
    let mut handle = HalfCloseHandle::new();
    assert_eq!(codes(handle.close_send(true, 0x0102)), [(4, vec![2, 1, 0, 0, 0, 0, 0, 0])]);
    assert_eq!(codes(handle.close_send(true, 5)), []);
    assert!(!handle.is_closed());
    assert_eq!(codes(handle.close_recv(true)), [(5, vec![]), (2, vec![])]);
    assert!(handle.is_closed());
    assert_eq!(codes(handle.close_recv(true)), []);
    assert_eq!(codes(handle.close_send(true, 5)), []);

    let mut handle = HalfCloseHandle::new();
    assert_eq!(codes(handle.close_recv(false)), []);
    assert_eq!(codes(handle.close_send(false, 9)), [(2, vec![])]);
}

#[test]
fn receiving_task() {
    let mut error = None;
    assert_eq!(in_task(InEvent::Completed(Ok(0)), &mut error), InAction::Deliver);
    assert_eq!(in_task(InEvent::QueueClosed, &mut error), InAction::Stop { host_initiated: true });
    assert_eq!(in_task(InEvent::DeviceDead, &mut error), InAction::Stop { host_initiated: false });
    let stall = TaskError::Transfer(TransferError::Stall);
    assert!(is_halted(&stall));
    assert!(is_halted(&TaskError::WebUsb(WebError::Stall)));
    assert_eq!(in_task(InEvent::Completed(Err(stall)), &mut error), InAction::Stop { host_initiated: false });
    assert_eq!(error, None);
    let fault = TaskError::Transfer(TransferError::Fault);
    let babble = TaskError::WebUsb(WebError::Babble);
    in_task(InEvent::Completed(Err(fault)), &mut error);
    in_task(InEvent::Completed(Err(babble)), &mut error);
    record_error(&mut error, babble);
    assert_eq!(error, Some(fault));
}

#[test]
fn sending_task() {
    let mut error = None;
    let mut task = OutTask::new(512, false);
    assert_eq!(task.next(OutEvent::Data(512)), OutAction::Send { terminator: true });
    assert_eq!(task.next(OutEvent::Data(100)), OutAction::Send { terminator: false });
    assert_eq!(task.next(OutEvent::Data(0)), OutAction::Send { terminator: false });
    assert_eq!(task.total_bytes_sent(), 612);
    task.completed(&mut error, 512, Ok(512));
    assert_eq!(error, None);
    task.completed(&mut error, 100, Ok(40));
    assert_eq!(error, Some(TaskError::PartialSend { size: 100, sent: 40 }));
    assert_eq!(task.stopping(), None);
    assert_eq!(task.next(OutEvent::QueueClosed), OutAction::Stop);
    assert_eq!(task.stopping(), Some(true));
    task.completed(&mut error, 1, Err(TransferError::Fault.into()));
    assert_eq!(task.stopping(), Some(false));
    assert_eq!(error, Some(TaskError::PartialSend { size: 100, sent: 40 }));
}

#[test]
fn sending_task_stops() {
    let mut error = None;
    let mut task = OutTask::new(64, true);
    task.completed(&mut error, 10, Ok(9));
    assert_eq!(task.stopping(), Some(false));
    assert_eq!(error, Some(TaskError::PartialSend { size: 10, sent: 9 }));

    let mut error = None;
    let mut task = OutTask::new(64, false);
    task.completed(&mut error, 10, Err(TransferError::Stall.into()));
    assert_eq!((task.stopping(), error), (Some(false), None));

    let mut task = OutTask::new(64, false);
    assert_eq!(task.next(OutEvent::DeviceClosed), OutAction::Stop);
    assert_eq!(task.stopping(), Some(false));
}

#[test]
fn pending_transfers() {
    assert_eq!(completion(0), Completion::Nothing);
    assert_eq!(completion(1), Completion::Poll);
    assert_eq!(completion(7), Completion::Poll);
    assert_eq!(completion(8), Completion::Wait);
}

#[test]
fn device_status() {
    let mut status = DeviceStatus::default();
    assert_eq!((DeviceStatus::request().request, DeviceStatus::request().length), (6, 8));
    status.update(&[]);
    status.update(&[2, 0xff]);
    assert_eq!(status, DeviceStatus { recv_closed: false, dead: false });
    assert!(!status.stops_sending() && !status.stops_receiving());
    status.update(&[9, 1]);
    assert!(status.stops_sending() && !status.stops_receiving());
    status.update(&[]);
    assert!(status.recv_closed);
    let mut error = None;
    status.fail(&mut error, TransferError::Stall.into());
    assert_eq!(error, Some(TaskError::Transfer(TransferError::Stall)));
    assert!(status.stops_sending() && status.stops_receiving());
}

#[test]
fn interface_is_used_once() {
    let mut in_use = InUse::new();
    let guard = InUseGuard::new(&mut in_use, 7, 1).ok().unwrap();
    let other = InUseGuard::new(&mut in_use, 7, 2).ok().unwrap();
    let err = InUseGuard::new(&mut in_use, 7, 1).err().unwrap();
    assert_eq!(err, Error::InterfaceInUse);
    assert_eq!(err.kind(), ErrorKind::ResourceBusy);
    guard.release(&mut in_use);
    assert!(InUseGuard::new(&mut in_use, 7, 2).is_err());
    assert!(InUseGuard::new(&mut in_use, 7, 1).is_ok());
    other.release(&mut in_use);
    assert!(InUseGuard::new(&mut in_use, 7, 2).is_ok());
}

#[test]
fn web_retries() {
    assert_eq!(retry_guard(&Error::InterfaceInUse, 100), Some(99));
    assert_eq!(retry_guard(&Error::InterfaceInUse, 0), None);
    assert_eq!(retry_guard(&Error::UpcNotFound, 100), None);
}

#[test]
fn web_timers() {
    assert_eq!(sleep_millis(Duration::from_micros(50_999)), 50);
    assert_eq!(sleep_millis(Duration::from_millis(i32::MAX as u64)), i32::MAX);
    assert_eq!(sleep_millis(Duration::MAX), i32::MAX);
}

#[test]
fn host() {
    let named = |number: u8, class: Class, name: Option<&str>| NamedInterface {
        number,
        class,
        name: name.map(|name| name.to_string()),
    };
    let class = Class::vendor_specific(22, 3);
    let name = "USB-PACKET-TEST".to_string();
    let interfaces = vec![
        named(0, Class::new(8, 6, 80), Some("USB-PACKET-TEST")),
        named(1, class, None),
        named(2, class, Some("other")),
        named(3, class, Some("USB-PACKET-TEST")),
    ];
    assert_eq!(blocking::find_interface(&interfaces, class, Some(&name)), Ok(3));
    assert_eq!(blocking::find_interface(&interfaces, class, None), Ok(1));
    let missing = Class::vendor_specific(1, 1);
    assert_eq!(blocking::find_interface(&interfaces, missing, None), Err(BlockingError::NotFound));

    let endpoints = vec![
        InterfaceEndpoints { number: 2, endpoints: vec![(Direction::In, 0x81)] },
        InterfaceEndpoints {
            number: 3,
            endpoints: vec![(Direction::In, 0x81), (Direction::Out, 0x01), (Direction::In, 0x82)],
        },
    ];
    assert_eq!(blocking::select_endpoints(&endpoints, 3), Ok((0x82, 0x01)));
    assert_eq!(blocking::select_endpoints(&endpoints, 2), Err(BlockingError::NotFound));
    assert_eq!(blocking::select_endpoints(&endpoints, 1), Err(BlockingError::NotFound));

    assert_eq!(blocking::choose_language(&vec![0x0407, 0x0409]), Ok(1));
    assert_eq!(blocking::choose_language(&vec![0x0809]), Err(BlockingError::NotFound));
    assert_eq!(blocking::channel_name(&vec![1, 4, 12], 3), "1-4-12:3");
    assert_eq!(blocking::channel_name(&Vec::new(), 0), ":0");
    assert_eq!(blocking::request_type(Direction::In), 0xc1);
    assert_eq!(blocking::request_type(Direction::Out), 0x41);
}

#[test]
fn blocking_threads() {
    let mut error = BlockingError::Pipe;
    assert_eq!(blocking::in_thread(Ok(5), &mut error), ThreadAction::Next);
    assert_eq!(blocking::in_thread(Err(BlockingError::Timeout), &mut error), ThreadAction::Again);
    assert_eq!(error, BlockingError::Pipe);
    assert_eq!(blocking::in_thread(Err(BlockingError::NoDevice), &mut error), ThreadAction::Stop);
    assert_eq!(error, BlockingError::NoDevice);
    assert_eq!(blocking::out_thread(5, Ok(5), &mut error), ThreadAction::Next);
    assert_eq!(blocking::out_thread(5, Err(BlockingError::Timeout), &mut error), ThreadAction::Again);
    assert_eq!(blocking::out_thread(5, Err(BlockingError::Io), &mut error), ThreadAction::Stop);
    assert_eq!(error, BlockingError::Io);
}
