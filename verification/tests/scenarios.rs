//! A host and a device over a simulated USB cable.

use std::collections::VecDeque;
use std::time::Duration;

use bytes::{Bytes, BytesMut};

use upc::cli::device::interface_id;
use upc::ctrl::{ControlIn, ControlOut};
use upc::device;
use upc::device::{InterfaceId, UpcFunction};
use upc::error::{Error, ErrorKind, TaskError, TransferError};
use upc::framing;
use upc::host;
use upc::host::connect::{Action, Event, Stage};
use upc::host::discovery::{
    find_interface, info, probe, probe_result, select_endpoints, Direction, EndpointDescriptor, Endpoints,
    InterfaceDescriptor, TransferType,
};
use upc::host::tasks::{in_task, DeviceStatus, InAction, InEvent, OutAction, OutEvent, OutTask};
use upc::host::{Connect, HalfCloseHandle, UpcOptions};
use upc::{Class, TRANSFER_PACKETS};

const MPS: usize = 512;
const BIG: usize = MPS * TRANSFER_PACKETS;
const ROUNDS: usize = 3;
const STALL: Error = Error::Task(TaskError::Transfer(TransferError::Stall));
const TIMED_OUT: Error = Error::Task(TaskError::Transfer(TransferError::Cancelled));

fn class() -> Class {
    Class::vendor_specific(22, 3)
}

/// The device and its end of the cable.
struct Device {
    function: UpcFunction,
    hung: bool,
    sender: Option<device::UpcSender>,
    receiver: Option<device::UpcReceiver>,
    recv_queue: VecDeque<BytesMut>,
    receiving: bool,
    sending: bool,
    in_halted: bool,
    out_halted: bool,
    failure: Option<ErrorKind>,
    filling: Vec<u8>,
    in_packets: VecDeque<Vec<u8>>,
    ping_restarts: usize,
}

impl Device {
    fn new(interface_id: InterfaceId) -> Self {
        let mut device = Device {
            function: UpcFunction::new(interface_id),
            hung: false,
            sender: None,
            receiver: None,
            recv_queue: VecDeque::new(),
            receiving: false,
            sending: false,
            in_halted: false,
            out_halted: false,
            failure: None,
            filling: Vec::new(),
            in_packets: VecDeque::new(),
            ping_restarts: 0,
        };
        device.handle(device::Event::Enable { max_packet_size: MPS });
        device
    }

    fn handle(&mut self, event: device::Event) -> (bool, Option<Vec<u8>>, bool) {
        let (mut read, mut reply, mut stall) = (false, None, false);
        for action in self.function.handle(event) {
            match action {
                device::Action::StopReceiving => self.receiving = false,
                device::Action::StopSending => {
                    self.sending = false;
                    self.in_packets.clear();
                }
                device::Action::ClearHalts => {
                    self.in_halted = false;
                    self.out_halted = false;
                }
                device::Action::PrimeReceive { size } => assert_eq!(size, BIG),
                device::Action::ReadData => read = true,
                device::Action::Establish { sender, receiver } => {
                    self.sender = Some(sender);
                    self.receiver = Some(receiver);
                    self.recv_queue.clear();
                    self.filling.clear();
                    self.receiving = true;
                    self.sending = true;
                    self.failure = None;
                }
                device::Action::CancelReceive => self.filling.clear(),
                device::Action::HaltIn => self.in_halted = true,
                device::Action::HaltOut => self.out_halted = true,
                device::Action::Reply(data) => reply = Some(data),
                device::Action::Stall => stall = true,
                device::Action::SendEcho(data) => self.put(Bytes::from(data)),
                device::Action::Fail(kind) => self.failure = Some(kind),
                device::Action::RestartPingTimer => self.ping_restarts += 1,
            }
        }
        (read, reply, stall)
    }

    fn control_out(&mut self, request: &ControlOut) -> Result<(), Error> {
        if self.hung {
            return Err(TIMED_OUT);
        }
        let (read, _, stall) = self.handle(device::Event::SetupOut { request: request.request });
        if stall {
            return Err(STALL);
        }
        assert!(read);
        self.handle(device::Event::DataOut { request: request.request, data: Some(request.data.clone()) });
        Ok(())
    }

    fn control_in(&mut self, request: ControlIn) -> Result<Vec<u8>, Error> {
        if self.hung {
            return Err(TIMED_OUT);
        }
        let (_, reply, stall) = self.handle(device::Event::SetupIn { request: request.request });
        if stall {
            return Err(STALL);
        }
        let mut data = reply.unwrap();
        data.truncate(request.length as usize);
        Ok(data)
    }

    /// Puts a packet on the wire.
    fn put(&mut self, data: Bytes) {
        for packet in framing::split_packets(data, MPS) {
            self.in_packets.push_back(packet.to_vec());
        }
    }

    fn send(&mut self, data: &[u8]) -> Result<(), Error> {
        let data = self.sender.as_ref().unwrap().send(Bytes::copy_from_slice(data))?;
        if !self.sending {
            return Err(device::UpcSender::closed_error(self.failure));
        }
        self.put(data);
        Ok(())
    }

    fn drop_sender(&mut self) {
        self.handle(device::Event::SenderDropped);
    }

    fn drop_receiver(&mut self) {
        self.handle(device::Event::ReceiverDropped);
    }

    /// Takes an OUT transfer from the wire, one USB packet after the other.
    fn transfer_out(&mut self, data: &[u8]) -> Result<usize, TaskError> {
        if self.out_halted {
            return Err(TransferError::Stall.into());
        }
        let mut packets: Vec<&[u8]> = data.chunks(MPS).collect();
        if packets.is_empty() {
            packets.push(&[]);
        }
        for packet in packets {
            self.filling.extend_from_slice(packet);
            if packet.len() < MPS || self.filling.len() == BIG {
                let transfer = BytesMut::from(&self.filling[..]);
                self.filling.clear();
                if self.receiving {
                    let len = transfer.len();
                    self.recv_queue.push_back(transfer);
                    self.handle(device::Event::Received { len });
                }
            }
        }
        Ok(data.len())
    }

    fn recv(&mut self) -> Result<Option<BytesMut>, Error> {
        let receiver = self.receiver.as_mut().unwrap();
        match receiver.recv(&mut self.recv_queue, self.receiving, self.failure) {
            device::Received::More => panic!("nothing to receive"),
            device::Received::Packet(packet) => Ok(Some(packet)),
            device::Received::End => Ok(None),
            device::Received::Failed(err) => Err(err),
        }
    }
}

/// A connection of the host.
struct Host {
    sender: host::UpcSender,
    receiver: host::UpcReceiver,
    status_interval: Option<Duration>,
    half_close: HalfCloseHandle,
    out_task: OutTask,
    out_open: bool,
    in_open: bool,
    recv_queue: VecDeque<Bytes>,
    status: DeviceStatus,
    error: Option<TaskError>,
}

fn endpoints() -> Endpoints {
    let endpoint = |address: u8, direction: Direction| EndpointDescriptor {
        address,
        direction,
        transfer_type: TransferType::Bulk,
        max_packet_size: MPS as u16,
    };
    let interfaces = vec![InterfaceDescriptor {
        number: 0,
        class: class(),
        endpoints: vec![endpoint(0x81, Direction::In), endpoint(0x02, Direction::Out)],
    }];
    let number = find_interface(&interfaces, class()).unwrap();
    select_endpoints(&interfaces, number).unwrap()
}

fn connect(device: &mut Device, options: UpcOptions) -> Host {
    let mut connect = Connect::new(options, endpoints(), b"marker".to_vec());
    loop {
        let event = match connect.action() {
            Action::Claim => Event::Claimed { result: Ok(()), expired: false },
            Action::ClearIn => {
                device.in_halted = false;
                Event::Cleared(Ok(()))
            }
            Action::ClearOut => {
                device.out_halted = false;
                Event::Cleared(Ok(()))
            }
            Action::Send(request) => Event::Sent(device.control_out(&request)),
            Action::Query(request) => Event::Queried(device.control_in(request)),
            Action::Receive { size } => {
                assert_eq!(size, MPS);
                match device.in_packets.pop_front() {
                    Some(packet) => Event::Received(packet),
                    None => Event::ReceiveTimedOut { marker: b"again".to_vec() },
                }
            }
            Action::Start(connection) => {
                assert_eq!(connect.stage(), Stage::Connected);
                return Host {
                    sender: connection.sender,
                    receiver: connection.receiver,
                    status_interval: connection.status_interval,
                    half_close: HalfCloseHandle::new(),
                    out_task: OutTask::new(MPS, false),
                    out_open: true,
                    in_open: true,
                    recv_queue: VecDeque::new(),
                    status: DeviceStatus::default(),
                    error: None,
                };
            }
            Action::Fail(err) => panic!("{err:?}"),
        };
        connect.handle(event);
    }
}

fn connect_topic(device: &mut Device, topic: &[u8]) -> Host {
    connect(device, UpcOptions::new().with_topic(topic.to_vec()))
}

impl Host {
    fn requests(&mut self, device: &mut Device, requests: Vec<ControlOut>) {
        for request in requests {
            let _ = device.control_out(&request);
        }
    }

    fn close_out(&mut self, device: &mut Device) {
        self.out_open = false;
        let notify = self.out_task.stopping().unwrap();
        let requests = self.half_close.close_send(notify, self.out_task.total_bytes_sent());
        self.requests(device, requests);
    }

    fn send(&mut self, device: &mut Device, data: &[u8]) -> Result<(), Error> {
        let data = self.sender.send(Bytes::copy_from_slice(data))?;
        if !self.out_open {
            return Err(host::UpcSender::closed_error(self.error));
        }
        let OutAction::Send { terminator } = self.out_task.next(OutEvent::Data(data.len())) else { unreachable!() };
        let result = device.transfer_out(&data);
        self.out_task.completed(&mut self.error, data.len(), result);
        if terminator {
            let result = device.transfer_out(&[]);
            self.out_task.completed(&mut self.error, 0, result);
        }
        if self.out_task.stopping().is_some() {
            self.close_out(device);
        }
        Ok(())
    }

    fn drop_sender(&mut self, device: &mut Device) {
        if self.out_open {
            assert_eq!(self.out_task.next(OutEvent::QueueClosed), OutAction::Stop);
            self.close_out(device);
        }
    }

    fn close_in(&mut self, device: &mut Device, event: InEvent) {
        let InAction::Stop { host_initiated } = in_task(event, &mut self.error) else { unreachable!() };
        self.in_open = false;
        let requests = self.half_close.close_recv(host_initiated);
        self.requests(device, requests);
    }

    fn drop_receiver(&mut self, device: &mut Device) {
        if self.in_open {
            self.close_in(device, InEvent::QueueClosed);
        }
    }

    /// Polls the status of the device.
    fn poll_status(&mut self, device: &mut Device) {
        match device.control_in(DeviceStatus::request()) {
            Ok(data) => self.status.update(&data),
            Err(Error::Task(err)) => self.status.fail(&mut self.error, err),
            Err(err) => panic!("{err:?}"),
        }
        if self.status.stops_receiving() && self.in_open {
            self.close_in(device, InEvent::DeviceDead);
        }
        if self.status.stops_sending() && self.out_open {
            assert_eq!(self.out_task.next(OutEvent::DeviceClosed), OutAction::Stop);
            self.close_out(device);
        }
    }

    /// Receives what is on the wire.
    fn transfer_in(&mut self, device: &mut Device) {
        let mut filling = Vec::new();
        while self.in_open {
            match device.in_packets.pop_front() {
                Some(packet) => {
                    filling.extend_from_slice(&packet);
                    if packet.len() < MPS || filling.len() == BIG {
                        let len = filling.len();
                        let action = in_task(InEvent::Completed(Ok(len)), &mut self.error);
                        assert_eq!(action, InAction::Deliver);
                        filling.resize(BIG, 0xaa);
                        let packet = host::RecvPacket::new(filling, len, false);
                        self.recv_queue.push_back(packet.into_bytes());
                        filling = Vec::new();
                    }
                }
                None => {
                    assert!(filling.is_empty());
                    if device.in_halted {
                        self.close_in(device, InEvent::Completed(Err(TransferError::Stall.into())));
                    }
                    break;
                }
            }
        }
    }

    fn recv(&mut self, device: &mut Device) -> Result<Option<Bytes>, Error> {
        self.transfer_in(device);
        match self.receiver.recv(&mut self.recv_queue, self.in_open, self.error) {
            host::Received::More => panic!("nothing to receive"),
            host::Received::Packet(packet) => Ok(Some(packet)),
            host::Received::End => Ok(None),
            host::Received::Failed(err) => Err(err),
        }
    }
}

#[test]
fn host_close_send() {
    let mut device = Device::new(InterfaceId::new(class()).with_name("HALF-CLOSE TEST"));
    for _ in 0..ROUNDS {
        let mut host = connect_topic(&mut device, b"halfclose");
        assert_eq!(device.receiver.as_ref().unwrap().topic(), b"halfclose");

        host.drop_sender(&mut device);
        assert_eq!(device.recv().unwrap(), None);

        for i in 0u32..10 {
            device.send(&i.to_le_bytes()).unwrap();
        }
        device.drop_sender();

        for i in 0u32..10 {
            assert_eq!(&host.recv(&mut device).unwrap().unwrap()[..], &i.to_le_bytes()[..]);
        }
        assert_eq!(host.recv(&mut device).unwrap(), None);
        assert!(host.half_close.is_closed());
    }
}

#[test]
fn host_close_recv() {
    let mut device = Device::new(InterfaceId::new(class()).with_name("HALF-CLOSE TEST"));
    for _ in 0..ROUNDS {
        let mut host = connect_topic(&mut device, b"halfclose");

        host.drop_receiver(&mut device);
        for i in 0u32..10 {
            host.send(&mut device, &i.to_le_bytes()).unwrap();
        }
        for i in 0u32..10 {
            assert_eq!(&device.recv().unwrap().unwrap()[..], &i.to_le_bytes()[..]);
        }
        host.drop_sender(&mut device);
        assert_eq!(device.recv().unwrap(), None);
        assert!(device.send(b"should fail").is_err());
    }
}

#[test]
fn device_close_send() {
    let mut device = Device::new(InterfaceId::new(class()).with_name("HALF-CLOSE TEST"));
    for _ in 0..ROUNDS {
        let mut host = connect_topic(&mut device, b"halfclose");

        for i in 0u32..10 {
            device.send(&i.to_le_bytes()).unwrap();
        }
        device.drop_sender();

        for i in 0u32..10 {
            assert_eq!(&host.recv(&mut device).unwrap().unwrap()[..], &i.to_le_bytes()[..]);
        }
        assert_eq!(host.recv(&mut device).unwrap(), None);

        for i in 0u32..10 {
            host.send(&mut device, &i.to_le_bytes()).unwrap();
        }
        for i in 0u32..10 {
            assert_eq!(&device.recv().unwrap().unwrap()[..], &i.to_le_bytes()[..]);
        }
    }
}

#[test]
fn device_close_recv() {
    let mut device = Device::new(InterfaceId::new(class()).with_name("HALF-CLOSE TEST"));
    for _ in 0..ROUNDS {
        let mut host = connect_topic(&mut device, b"halfclose");

        device.drop_receiver();
        for i in 0u32..10 {
            device.send(&i.to_le_bytes()).unwrap();
        }
        device.drop_sender();

        let mut send_failed = false;
        for i in 0u32..100 {
            if host.send(&mut device, &i.to_le_bytes()).is_err() {
                send_failed = true;
                break;
            }
        }
        assert!(send_failed);

        for i in 0u32..10 {
            assert_eq!(&host.recv(&mut device).unwrap().unwrap()[..], &i.to_le_bytes()[..]);
        }
        assert_eq!(host.recv(&mut device).unwrap(), None);
    }
}

#[test]
fn device_close_recv_notify() {
    let mut device = Device::new(InterfaceId::new(class()).with_name("HALF-CLOSE TEST"));
    for _ in 0..ROUNDS {
        let mut host = connect_topic(&mut device, b"halfclose");
        host.poll_status(&mut device);
        assert!(host.out_open);

        device.drop_receiver();
        for i in 0u32..10 {
            device.send(&i.to_le_bytes()).unwrap();
        }
        device.drop_sender();

        host.poll_status(&mut device);
        assert!(!host.out_open);

        for i in 0u32..10 {
            assert_eq!(&host.recv(&mut device).unwrap().unwrap()[..], &i.to_le_bytes()[..]);
        }
        assert_eq!(host.recv(&mut device).unwrap(), None);
    }
}

#[test]
fn host_hung() {
    let mut device = Device::new(InterfaceId::new(class()).with_name("FAILURE TEST"));
    device.function.set_ping_timeout(Some(Duration::from_secs(1)));
    assert_eq!(device.function.ping_timer(), None);

    let _host = connect_topic(&mut device, b"failure");
    assert_eq!(device.function.ping_timer(), Some(Duration::from_secs(1)));

    device.handle(device::Event::PingTimeout);
    let res = device.recv();
    assert!(res.is_err());
    assert_eq!(res.unwrap_err().kind(), ErrorKind::TimedOut);
    let res = device.send(b"should fail");
    assert!(res.is_err());
    assert_eq!(res.unwrap_err().kind(), ErrorKind::TimedOut);
    assert_eq!(device.function.ping_timer(), None);
}

#[test]
fn device_hung() {
    let mut device = Device::new(InterfaceId::new(class()).with_name("FAILURE TEST"));
    device.function.set_ping_timeout(Some(Duration::from_secs(1)));

    let mut host = connect_topic(&mut device, b"failure");
    assert_eq!(host.status_interval, Some(Duration::from_millis(500)));

    device.hung = true;
    host.poll_status(&mut device);
    assert!(host.recv(&mut device).is_err());
    let res = host.send(&mut device, b"should fail");
    assert!(res.is_err());
    assert_eq!(res.unwrap_err().kind(), ErrorKind::TimedOut);
}

#[test]
fn invalid_control_requests() {
    let mut device = Device::new(InterfaceId::new(class()).with_name("INVALID-CTRL TEST"));
    for _ in 0..ROUNDS {
        assert_eq!(device.control_in(ControlIn { request: 0xf0, length: 64 }), Err(STALL));
        assert_eq!(device.control_out(&ControlOut { request: 0xf1, data: b"bogus".to_vec() }), Err(STALL));
        assert_eq!(device.control_in(ControlIn { request: 0xfe, length: 64 }), Err(STALL));

        assert_eq!(probe_result(device.control_in(probe())), Ok(true));
        assert_eq!(device.control_in(info()), Ok(Vec::new()));

        let mut host = connect_topic(&mut device, b"invalid-ctrl-test");
        for i in 0u32..5 {
            host.send(&mut device, &i.to_le_bytes()).unwrap();
        }
        for i in 0u32..5 {
            assert_eq!(&device.recv().unwrap().unwrap()[..], &i.to_le_bytes()[..]);
        }
        for i in 100u32..105 {
            device.send(&i.to_le_bytes()).unwrap();
        }
        for i in 100u32..105 {
            assert_eq!(&host.recv(&mut device).unwrap().unwrap()[..], &i.to_le_bytes()[..]);
        }
        host.drop_sender(&mut device);
        host.drop_receiver(&mut device);
    }
}

/// Pseudo-random packets that start with given lengths.
struct TestData {
    state: u64,
    lengths: VecDeque<usize>,
}

impl TestData {
    fn new(seed: u64, lengths: &[usize]) -> Self {
        TestData { state: seed, lengths: lengths.iter().copied().collect() }
    }

    fn next(&mut self) -> u64 {
        self.state = self.state.wrapping_mul(6364136223846793005).wrapping_add(1442695040888963407);
        self.state >> 33
    }

    fn generate(&mut self) -> Vec<u8> {
        let len = match self.lengths.pop_front() {
            Some(len) => len,
            None => (self.next() % 200_000) as usize,
        };
        (0..len).map(|_| self.next() as u8).collect()
    }
}

const LENGTHS: [usize; 31] = [
    0,
    1,
    2,
    3,
    511,
    512,
    513,
    1023,
    1024,
    1025,
    0,
    2000,
    2048,
    0,
    4096,
    5000,
    8191,
    8192,
    8193,
    0,
    8193,
    BIG - MPS - 1,
    BIG - MPS,
    BIG - MPS + 1,
    BIG - 1,
    BIG,
    BIG + 1,
    BIG + MPS - 1,
    BIG + MPS,
    BIG + MPS + 1,
    0,
];

#[test]
fn loopback() {
    let id = interface_id(22, 3, Some("USB LOOPBACK TEST"), Some("3bf77270-42d2-42c6-a475-490227a9cc89"))
        .unwrap();
    assert_eq!(id.guid.unwrap().to_string(), "3bf77270-42d2-42c6-a475-490227a9cc89");
    let mut device = Device::new(id);
    assert_eq!(device.function.name(), "USB LOOPBACK TEST");
    assert_eq!(device.function.class(), class());
    device.function.set_info(b"LOOPBACK TEST INFO".to_vec());
    assert_eq!(device.control_in(info()).unwrap(), b"LOOPBACK TEST INFO");

    let mut host = connect_topic(&mut device, b"LOOPBACK TEST TOPIC");
    assert_eq!(device.receiver.as_ref().unwrap().topic(), b"LOOPBACK TEST TOPIC");

    let mut tx_data = TestData::new(77701, &LENGTHS);
    let mut rx_data = TestData::new(77701, &LENGTHS);
    for _ in 0..60 {
        host.send(&mut device, &tx_data.generate()).unwrap();
        assert_eq!(&device.recv().unwrap().unwrap()[..], &rx_data.generate()[..]);
    }

    let mut tx_data = TestData::new(88802, &LENGTHS);
    let mut rx_data = TestData::new(88802, &LENGTHS);
    for _ in 0..60 {
        device.send(&tx_data.generate()).unwrap();
    }
    for _ in 0..60 {
        assert_eq!(&host.recv(&mut device).unwrap().unwrap()[..], &rx_data.generate()[..]);
    }

    host.drop_sender(&mut device);
    assert_eq!(device.recv().unwrap(), None);
    device.drop_sender();
    assert_eq!(host.recv(&mut device).unwrap(), None);
}

#[test]
fn max_packet_size_exchange() {
    const DEVICE_MAX_SIZE: u64 = 1_000_000;
    const HOST_MAX_SIZE: usize = 2_000_000;

    let mut device = Device::new(InterfaceId::new(class()).with_name("USB MAX SIZE TEST"));
    device.function.set_max_size(DEVICE_MAX_SIZE);
    assert_eq!(device.function.max_size(), DEVICE_MAX_SIZE);

    let options = UpcOptions::new().with_topic(b"maxsize".to_vec()).with_max_size(HOST_MAX_SIZE);
    let mut host = connect(&mut device, options);

    assert_eq!(device.sender.as_ref().unwrap().max_size(), HOST_MAX_SIZE);
    assert_eq!(device.receiver.as_ref().unwrap().max_size(), DEVICE_MAX_SIZE as usize);
    assert!(device.send(&vec![0u8; HOST_MAX_SIZE + 1]).is_err());
    device.send(b"hello from device").unwrap();

    assert_eq!(host.sender.max_size(), DEVICE_MAX_SIZE as usize);
    assert_eq!(host.receiver.max_size(), HOST_MAX_SIZE);
    let res = host.send(&mut device, &vec![0u8; DEVICE_MAX_SIZE as usize + 1]);
    assert_eq!(res, Err(Error::SendTooLarge { size: 1_000_001, max_size: 1_000_000 }));
    assert_eq!(&host.recv(&mut device).unwrap().unwrap()[..], b"hello from device");
}

#[test]
fn device() {
    let id = interface_id(22, 3, Some("USB-PACKET-TEST"), Some("3bf77270-42d2-42c6-a475-490227a9cc89")).unwrap();
    let mut device = Device::new(id);
    device.function.set_info(b"TEST INFO".to_vec());

    let mut host = connect_topic(&mut device, b"TEST TOPIC");
    assert_eq!(device.receiver.as_ref().unwrap().topic(), b"TEST TOPIC");

    let lengths = [
        0, 1, 2, 3, 511, 512, 513, 1023, 1024, 1025, 0, 2000, 2048, 0, 4096, 5000, 8191, 8192, 8193, 0, 8193, 1_000_000,
    ];
    let mut tx_data = TestData::new(12523, &lengths);
    let mut rx_data = TestData::new(12523, &lengths);
    for _ in 0..lengths.len() {
        host.send(&mut device, &tx_data.generate()).unwrap();
    }
    host.drop_sender(&mut device);
    for _ in 0..lengths.len() {
        assert_eq!(&device.recv().unwrap().unwrap()[..], &rx_data.generate()[..]);
    }
    assert_eq!(device.recv().unwrap(), None);

    let mut tx_data = TestData::new(23152, &lengths);
    let mut rx_data = TestData::new(23152, &lengths);
    for _ in 0..lengths.len() {
        device.send(&tx_data.generate()).unwrap();
    }
    device.drop_sender();
    for _ in 0..lengths.len() {
        assert_eq!(&host.recv(&mut device).unwrap().unwrap()[..], &rx_data.generate()[..]);
    }
    assert_eq!(host.recv(&mut device).unwrap(), None);
}

#[test]
fn stale_data_is_discarded() {
    let mut device = Device::new(InterfaceId::new(class()));
    device.put(Bytes::from(vec![1u8; 700]));
    device.put(Bytes::from_static(b"stale"));

    let mut host = connect_topic(&mut device, b"");
    device.send(b"fresh").unwrap();
    assert_eq!(&host.recv(&mut device).unwrap().unwrap()[..], b"fresh");
}

#[test]
fn open_replaces_connection() {
    let mut device = Device::new(InterfaceId::new(class()));
    let _first = connect_topic(&mut device, b"first");
    assert_eq!(device.receiver.as_ref().unwrap().topic(), b"first");
    device.control_out(&ControlOut { request: 1, data: b"second".to_vec() }).unwrap();
    assert_eq!(device.receiver.as_ref().unwrap().topic(), b"second");
    assert!(device.send(b"data").is_ok());
}

#[test]
fn half_close_waits_for_data() {
    let mut device = Device::new(InterfaceId::new(class()));
    let _host = connect_topic(&mut device, b"");

    device.transfer_out(&[1, 2, 3]).unwrap();
    device.control_out(&ControlOut { request: 4, data: vec![5, 0, 0, 0, 0, 0, 0, 0] }).unwrap();
    assert!(device.receiving);
    device.transfer_out(&[4, 5]).unwrap();
    assert!(!device.receiving);
    assert_eq!(&device.recv().unwrap().unwrap()[..], &[1, 2, 3]);
    assert_eq!(&device.recv().unwrap().unwrap()[..], &[4, 5]);
    assert_eq!(device.recv().unwrap(), None);
}

#[test]
fn last_byte_ends_receiving() {
    let mut device = Device::new(InterfaceId::new(class()));
    let _host = connect_topic(&mut device, b"");

    device.transfer_out(&[7]).unwrap();
    let count = BIG as u64 + 1;
    device.control_out(&ControlOut { request: 4, data: count.to_le_bytes().to_vec() }).unwrap();
    assert!(device.receiving);
    device.transfer_out(&vec![8; BIG]).unwrap();
    assert!(!device.receiving);
    assert_eq!(&device.recv().unwrap().unwrap()[..], &[7]);
    assert_eq!(device.recv().unwrap(), None);
}

#[test]
fn status_restarts_ping_timer() {
    let mut device = Device::new(InterfaceId::new(class()));
    let mut host = connect_topic(&mut device, b"");
    assert_eq!(host.status_interval, Some(Duration::from_secs(5)));
    let before = device.ping_restarts;
    host.poll_status(&mut device);
    assert_eq!(device.ping_restarts, before + 1);
}
