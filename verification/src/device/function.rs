//! The device-side function: what the device does in reaction to control requests and
//! to what happens on its endpoints.

use std::time::Duration;
use vstd::prelude::*;

use crate::capabilities::{
    DeviceCapabilities, DeviceCapabilitiesView, HostCapabilities, DEFAULT_MAX_SIZE,
};
use crate::class::Class;
use crate::ctrl;
use crate::device::channel::{connection, ReceiverView, UpcReceiver, UpcSender};
use crate::device::interface::InterfaceId;
use crate::error::{Error, ErrorKind};
use crate::limits::{cap_size, capped, INFO_SIZE, TRANSFER_PACKETS};
use crate::time::optional_nanos;
use crate::tlv::{le_value, read_le};

verus! {

/// Something that happened on the USB device controller or in a connection.
pub enum Event {
    /// The host has enabled the function.
    Enable {
        /// Maximum packet size of the bulk endpoints.
        max_packet_size: usize,
    },
    /// The host has disabled the function.
    Disable,
    /// The host sends a control request with data for the device.
    SetupOut {
        /// Request code.
        request: u8,
    },
    /// The data of a control request was read, or reading it failed.
    DataOut {
        /// Request code.
        request: u8,
        /// The data, if it could be read.
        data: Option<Vec<u8>>,
    },
    /// The host sends a control request that asks for data.
    SetupIn {
        /// Request code.
        request: u8,
    },
    /// No status request arrived during the ping timeout.
    PingTimeout,
    /// A transfer from the host was received and handed to the receiver.
    Received {
        /// Length in bytes.
        len: usize,
    },
    /// The receiver of the connection was dropped or receiving has failed.
    ReceiverDropped,
    /// The sender of the connection was dropped and all its data was sent, or sending has
    /// failed.
    SenderDropped,
}

/// An event with its data.
pub enum EventView {
    Enable { max_packet_size: usize },
    Disable,
    SetupOut { request: u8 },
    DataOut { request: u8, data: Option<Seq<u8>> },
    SetupIn { request: u8 },
    PingTimeout,
    Received { len: usize },
    ReceiverDropped,
    SenderDropped,
}

/// The data that was read, if any.
pub open spec fn data_view(data: Option<Vec<u8>>) -> Option<Seq<u8>> {
    match data {
        Some(data) => Some(data@),
        None => None,
    }
}

impl View for Event {
    type V = EventView;

    open spec fn view(&self) -> EventView {
        match self {
            Event::Enable { max_packet_size } => EventView::Enable {
                max_packet_size: *max_packet_size,
            },
            Event::Disable => EventView::Disable,
            Event::SetupOut { request } => EventView::SetupOut { request: *request },
            Event::DataOut { request, data } => EventView::DataOut {
                request: *request,
                data: data_view(*data),
            },
            Event::SetupIn { request } => EventView::SetupIn { request: *request },
            Event::PingTimeout => EventView::PingTimeout,
            Event::Received { len } => EventView::Received { len: *len },
            Event::ReceiverDropped => EventView::ReceiverDropped,
            Event::SenderDropped => EventView::SenderDropped,
        }
    }
}

/// Something that the device has to do.
pub enum Action {
    /// Stop receiving from the OUT endpoint and close the receive queue.
    StopReceiving,
    /// Stop sending to the IN endpoint and close the send queue.
    StopSending,
    /// Clear the halt condition of both endpoints.
    ClearHalts,
    /// Enqueue as many receive buffers of this size as the OUT endpoint takes.
    PrimeReceive {
        /// Size of a buffer.
        size: usize,
    },
    /// Read the data of the control request and report it.
    ReadData,
    /// Hand a new connection to the application and start its transfers.
    Establish {
        /// The sending direction.
        sender: UpcSender,
        /// The receiving direction.
        receiver: UpcReceiver,
    },
    /// Cancel the enqueued receive buffers.
    CancelReceive,
    /// Halt the IN endpoint.
    HaltIn,
    /// Halt the OUT endpoint.
    HaltOut,
    /// Answer the control request.
    Reply(Vec<u8>),
    /// Stall the control request.
    Stall,
    /// Send this packet to the IN endpoint.
    SendEcho(Vec<u8>),
    /// Record the reason why the connection has failed.
    Fail(ErrorKind),
    /// Start the ping timeout anew.
    RestartPingTimer,
}

/// An action with its data.
pub enum ActionView {
    StopReceiving,
    StopSending,
    ClearHalts,
    PrimeReceive { size: usize },
    ReadData,
    Establish { send_size: usize, receiver: ReceiverView },
    CancelReceive,
    HaltIn,
    HaltOut,
    Reply(Seq<u8>),
    Stall,
    SendEcho(Seq<u8>),
    Fail(ErrorKind),
    RestartPingTimer,
}

impl View for Action {
    type V = ActionView;

    open spec fn view(&self) -> ActionView {
        match self {
            Action::StopReceiving => ActionView::StopReceiving,
            Action::StopSending => ActionView::StopSending,
            Action::ClearHalts => ActionView::ClearHalts,
            Action::PrimeReceive { size } => ActionView::PrimeReceive { size: *size },
            Action::ReadData => ActionView::ReadData,
            Action::Establish { sender, receiver } => ActionView::Establish {
                send_size: sender.limit(),
                receiver: receiver@,
            },
            Action::CancelReceive => ActionView::CancelReceive,
            Action::HaltIn => ActionView::HaltIn,
            Action::HaltOut => ActionView::HaltOut,
            Action::Reply(data) => ActionView::Reply(data@),
            Action::Stall => ActionView::Stall,
            Action::SendEcho(data) => ActionView::SendEcho(data@),
            Action::Fail(kind) => ActionView::Fail(*kind),
            Action::RestartPingTimer => ActionView::RestartPingTimer,
        }
    }
}

/// The actions with their data.
pub open spec fn action_views(actions: Seq<Action>) -> Seq<ActionView> {
    actions.map_values(|action: Action| action@)
}

/// Settings and connection state of the device.
pub struct FunctionView {
    /// Interface class.
    pub class: Class,
    /// Interface name.
    pub name: Seq<char>,
    /// Info data readable by the host.
    pub info: Seq<u8>,
    /// Ping timeout in nanoseconds.
    pub ping_timeout: Option<nat>,
    /// Maximum size of a packet from the host.
    pub max_size: u64,
    /// Maximum packet size of the endpoints while the function is enabled.
    pub max_packet_size: Option<usize>,
    /// Whether the device can send.
    pub send_open: bool,
    /// Whether the device can receive.
    pub recv_open: bool,
    /// Number of bytes received in this connection, modulo 2^64.
    pub received: u64,
    /// The number of received bytes at which the receive direction closes.
    pub drain: Option<u64>,
    /// Maximum packet size that the host has announced for the next connection.
    pub host_max_size: u64,
}

impl FunctionView {
    /// The state is consistent.
    pub open spec fn wf(self) -> bool {
        &&& self.info.len() <= INFO_SIZE
        &&& self.connected() ==> self.max_packet_size is Some
        &&& self.drain is Some ==> self.recv_open
        &&& self.max_packet_size is Some ==> {
            &&& 0 < self.max_packet_size->0
            &&& self.max_packet_size->0 * TRANSFER_PACKETS <= usize::MAX
        }
    }

    /// Whether a direction is open.
    pub open spec fn connected(self) -> bool {
        self.send_open || self.recv_open
    }

    /// The state after both directions were closed.
    pub open spec fn closed(self) -> Self {
        FunctionView { send_open: false, recv_open: false, drain: None, ..self }
    }

    /// The state after receiving was closed.
    pub open spec fn recv_closed(self) -> Self {
        FunctionView { recv_open: false, drain: None, ..self }
    }

    /// The state after sending was closed.
    pub open spec fn send_closed(self) -> Self {
        FunctionView { send_open: false, ..self }
    }

    /// The size of a receive buffer.
    pub open spec fn transfer_size(self) -> usize {
        (self.max_packet_size->0 * TRANSFER_PACKETS) as usize
    }

    /// Whether the event can happen in this state.
    ///
    /// A connection cannot be opened before the function is enabled.
    pub open spec fn accepts(self, event: EventView) -> bool {
        match event {
            EventView::Enable { max_packet_size } => {
                &&& 0 < max_packet_size
                &&& max_packet_size * TRANSFER_PACKETS <= usize::MAX
            },
            EventView::SetupOut { request } => request == ctrl::OPEN
                ==> self.max_packet_size is Some,
            EventView::DataOut { request, data } => request == ctrl::OPEN && data is Some
                ==> self.max_packet_size is Some,
            _ => true,
        }
    }

    /// The capabilities that the device announces.
    pub open spec fn capabilities(self) -> DeviceCapabilitiesView {
        DeviceCapabilitiesView {
            ping_timeout: self.ping_timeout,
            status_supported: true,
            max_size: self.max_size,
            echo_supported: true,
        }
    }

    /// The status that the device reports.
    pub open spec fn status(self) -> Seq<u8> {
        if self.recv_open {
            Seq::empty()
        } else {
            seq![ctrl::RECV_CLOSED]
        }
    }

    /// The state and actions after the setup of a request with data for the device.
    pub open spec fn setup_out(self, request: u8) -> (Self, Seq<ActionView>) {
        if request == ctrl::OPEN {
            let stop = if self.connected() {
                seq![ActionView::StopReceiving, ActionView::StopSending]
            } else {
                Seq::empty()
            };
            (
                self.closed(),
                stop + seq![
                    ActionView::ClearHalts,
                    ActionView::PrimeReceive { size: self.transfer_size() },
                    ActionView::ReadData,
                ],
            )
        } else if request == ctrl::CLOSE {
            (
                FunctionView { host_max_size: DEFAULT_MAX_SIZE, ..self.closed() },
                seq![
                    ActionView::StopReceiving,
                    ActionView::StopSending,
                    ActionView::ReadData,
                ],
            )
        } else if request == ctrl::CLOSE_SEND || request == ctrl::CLOSE_RECV || request
            == ctrl::CAPABILITIES || request == ctrl::ECHO {
            (self, seq![ActionView::ReadData])
        } else {
            (self, seq![ActionView::Stall])
        }
    }

    /// The state after a connection with the host was opened.
    pub open spec fn opened(self) -> Self {
        FunctionView {
            send_open: true,
            recv_open: true,
            received: 0,
            drain: None,
            host_max_size: DEFAULT_MAX_SIZE,
            ..self
        }
    }

    /// The new connection.
    pub open spec fn established(self, topic: Seq<u8>) -> ActionView {
        ActionView::Establish {
            send_size: capped(self.host_max_size),
            receiver: ReceiverView {
                topic,
                pending: Seq::empty(),
                max_size: capped(self.max_size),
                transfer_size: self.transfer_size(),
            },
        }
    }

    /// The state and actions after the data of a request was read.
    pub open spec fn data_out(self, request: u8, data: Option<Seq<u8>>) -> (
        Self,
        Seq<ActionView>,
    ) {
        if request == ctrl::OPEN {
            match data {
                Some(topic) => (
                    self.opened(),
                    seq![self.established(topic), ActionView::RestartPingTimer],
                ),
                None => (self, seq![ActionView::CancelReceive]),
            }
        } else if request == ctrl::CLOSE_SEND && self.recv_open {
            match data {
                Some(data) if data.len() == 8 && le_value(data) != self.received => (
                    FunctionView { drain: Some(le_value(data) as u64), ..self },
                    Seq::empty(),
                ),
                _ => (self.recv_closed(), seq![ActionView::StopReceiving]),
            }
        } else if request == ctrl::CLOSE_RECV && self.send_open {
            (self.send_closed(), seq![ActionView::StopSending, ActionView::HaltIn])
        } else if request == ctrl::CAPABILITIES {
            let max_size = match data {
                Some(data) => match HostCapabilities::decoded(data) {
                    Some(caps) => caps.max_size,
                    None => DEFAULT_MAX_SIZE,
                },
                None => DEFAULT_MAX_SIZE,
            };
            (FunctionView { host_max_size: max_size, ..self }, Seq::empty())
        } else if request == ctrl::ECHO && !self.connected() && data is Some {
            (self, seq![ActionView::SendEcho(data->0)])
        } else {
            (self, Seq::empty())
        }
    }

    /// The actions after a request that asks for data.
    pub open spec fn setup_in(self, request: u8) -> Seq<ActionView> {
        if request == ctrl::PROBE {
            seq![ActionView::Reply(ctrl::probe_response())]
        } else if request == ctrl::INFO {
            seq![ActionView::Reply(self.info)]
        } else if request == ctrl::CAPABILITIES {
            seq![ActionView::Reply(self.capabilities().encoded())]
        } else if request == ctrl::STATUS {
            seq![ActionView::RestartPingTimer, ActionView::Reply(self.status())]
        } else {
            seq![ActionView::Stall]
        }
    }

    /// The state and actions after a transfer of `len` bytes was received.
    pub open spec fn after_receive(self, len: usize) -> (Self, Seq<ActionView>) {
        let received = ((self.received + len) % 0x1_0000_0000_0000_0000) as u64;
        let next = FunctionView { received, ..self };
        if !self.recv_open {
            (self, Seq::empty())
        } else if self.drain == Some(received) {
            (next.recv_closed(), seq![ActionView::StopReceiving])
        } else {
            (next, Seq::empty())
        }
    }

    /// The state and actions after an event.
    pub open spec fn step(self, event: EventView) -> (Self, Seq<ActionView>) {
        match event {
            EventView::Enable { max_packet_size } => (
                FunctionView { max_packet_size: Some(max_packet_size), ..self },
                Seq::empty(),
            ),
            EventView::Disable => (
                FunctionView {
                    max_packet_size: None,
                    host_max_size: DEFAULT_MAX_SIZE,
                    ..self.closed()
                },
                seq![ActionView::StopReceiving, ActionView::StopSending],
            ),
            EventView::SetupOut { request } => self.setup_out(request),
            EventView::DataOut { request, data } => self.data_out(request, data),
            EventView::SetupIn { request } => (self, self.setup_in(request)),
            EventView::PingTimeout => if self.connected() {
                (
                    self.closed(),
                    seq![
                        ActionView::Fail(ErrorKind::TimedOut),
                        ActionView::StopReceiving,
                        ActionView::StopSending,
                        ActionView::RestartPingTimer,
                    ],
                )
            } else {
                (self, Seq::empty())
            },
            EventView::Received { len } => self.after_receive(len),
            EventView::ReceiverDropped => if self.recv_open {
                (self.recv_closed(), seq![ActionView::StopReceiving, ActionView::HaltOut])
            } else {
                (self, Seq::empty())
            },
            EventView::SenderDropped => if self.send_open {
                (self.send_closed(), seq![ActionView::HaltIn])
            } else {
                (self, Seq::empty())
            },
        }
    }
}

/// USB packet device-side function.
pub struct UpcFunction {
    class: Class,
    name: String,
    info: Vec<u8>,
    ping_timeout: Option<Duration>,
    max_size: u64,
    max_packet_size: Option<usize>,
    send_open: bool,
    recv_open: bool,
    received: u64,
    drain: Option<u64>,
    host_max_size: u64,
}

impl View for UpcFunction {
    type V = FunctionView;

    closed spec fn view(&self) -> FunctionView {
        FunctionView {
            class: self.class,
            name: self.name@,
            info: self.info@,
            ping_timeout: optional_nanos(self.ping_timeout),
            max_size: self.max_size,
            max_packet_size: self.max_packet_size,
            send_open: self.send_open,
            recv_open: self.recv_open,
            received: self.received,
            drain: self.drain,
            host_max_size: self.host_max_size,
        }
    }
}

impl UpcFunction {
    /// Creates a new USB packet device-side function with the specified interface
    /// identification.
    ///
    /// The default ping timeout is 10 seconds and the default maximum packet size is 16 MiB.
    pub fn new(interface_id: InterfaceId) -> (function: Self)
        ensures
            function@.wf(),
            function@ == (FunctionView {
                class: interface_id.class,
                name: interface_id.name@,
                info: Seq::empty(),
                ping_timeout: Some(10_000_000_000),
                max_size: DEFAULT_MAX_SIZE,
                max_packet_size: None,
                send_open: false,
                recv_open: false,
                received: 0,
                drain: None,
                host_max_size: DEFAULT_MAX_SIZE,
            }),
    {
        UpcFunction {
            class: interface_id.class,
            name: interface_id.name,
            info: Vec::new(),
            ping_timeout: Some(Duration::from_secs(10)),
            max_size: DEFAULT_MAX_SIZE,
            max_packet_size: None,
            send_open: false,
            recv_open: false,
            received: 0,
            drain: None,
            host_max_size: DEFAULT_MAX_SIZE,
        }
    }

    /// Returns the interface class.
    pub fn class(&self) -> (class: Class)
        ensures
            class == self@.class,
    {
        self.class
    }

    /// Returns the interface name.
    pub fn name(&self) -> (name: &str)
        ensures
            name@ == self@.name,
    {
        self.name.as_str()
    }

    /// Returns the info data readable by host.
    pub fn info(&self) -> (info: &[u8])
        ensures
            info@ == self@.info,
    {
        self.info.as_slice()
    }

    /// Sets the info data readable by host.
    ///
    /// It must not be larger than [`INFO_SIZE`].
    pub fn set_info(&mut self, info: Vec<u8>)
        requires
            info@.len() <= INFO_SIZE,
        ensures
            final(self)@ == (FunctionView { info: info@, ..old(self)@ }),
    {
        self.info = info;
    }

    /// Returns the ping timeout duration.
    pub fn ping_timeout(&self) -> (timeout: Option<Duration>)
        ensures
            optional_nanos(timeout) == self@.ping_timeout,
    {
        self.ping_timeout
    }

    /// Sets the ping timeout duration.
    ///
    /// If the device does not hear from the host within this duration, it considers the
    /// host process dead and fails the connection.
    ///
    /// Set to `None` to disable ping timeout detection.
    pub fn set_ping_timeout(&mut self, timeout: Option<Duration>)
        ensures
            final(self)@ == (FunctionView { ping_timeout: optional_nanos(timeout), ..old(self)@ }),
    {
        self.ping_timeout = timeout;
    }

    /// Returns the maximum size of a packet from the host.
    pub fn max_size(&self) -> (max_size: u64)
        ensures
            max_size == self@.max_size,
    {
        self.max_size
    }

    /// Sets the maximum size of a packet from the host.
    pub fn set_max_size(&mut self, max_size: u64)
        ensures
            final(self)@ == (FunctionView { max_size, ..old(self)@ }),
    {
        self.max_size = max_size;
    }

    /// The time without a status request after which the connection fails, if it can.
    pub fn ping_timer(&self) -> (timer: Option<Duration>)
        ensures
            optional_nanos(timer) == (if self@.connected() {
                self@.ping_timeout
            } else {
                None
            }),
    {
        if self.send_open || self.recv_open {
            self.ping_timeout
        } else {
            None
        }
    }

    /// The capabilities that the device announces.
    fn capabilities(&self) -> (caps: DeviceCapabilities)
        ensures
            caps@ == self@.capabilities(),
    {
        DeviceCapabilities {
            ping_timeout: self.ping_timeout,
            status_supported: true,
            max_size: self.max_size,
            echo_supported: true,
        }
    }

    fn close_both(&mut self)
        ensures
            final(self)@ == old(self)@.closed(),
    {
        self.send_open = false;
        self.recv_open = false;
        self.drain = None;
    }

    fn close_recv(&mut self)
        ensures
            final(self)@ == old(self)@.recv_closed(),
    {
        self.recv_open = false;
        self.drain = None;
    }

    /// The size of a receive buffer.
    fn transfer_size(&self) -> (size: usize)
        requires
            self@.wf(),
            self@.max_packet_size is Some,
        ensures
            size == self@.transfer_size(),
    {
        match self.max_packet_size {
            Some(max_packet_size) => max_packet_size * TRANSFER_PACKETS,
            None => 0,
        }
    }

    fn handle_setup_out(&mut self, request: u8) -> (actions: Vec<Action>)
        requires
            old(self)@.wf(),
            request == ctrl::OPEN ==> old(self)@.max_packet_size is Some,
        ensures
            (final(self)@, action_views(actions@)) == old(self)@.setup_out(request),
    {
        let mut actions: Vec<Action> = Vec::new();
        match request {
            ctrl::OPEN => {
                if self.send_open || self.recv_open {
                    actions.push(Action::StopReceiving);
                    actions.push(Action::StopSending);
                }
                self.close_both();
                actions.push(Action::ClearHalts);
                let size: usize = self.transfer_size();
                actions.push(Action::PrimeReceive { size });
                actions.push(Action::ReadData);
            },
            ctrl::CLOSE => {
                self.close_both();
                self.host_max_size = DEFAULT_MAX_SIZE;
                actions.push(Action::StopReceiving);
                actions.push(Action::StopSending);
                actions.push(Action::ReadData);
            },
            ctrl::CLOSE_SEND | ctrl::CLOSE_RECV | ctrl::CAPABILITIES | ctrl::ECHO => {
                actions.push(Action::ReadData);
            },
            _ => {
                actions.push(Action::Stall);
            },
        }
        assert(action_views(actions@) =~= old(self)@.setup_out(request).1);
        actions
    }

    fn handle_data_out(&mut self, request: u8, data: Option<Vec<u8>>) -> (actions: Vec<Action>)
        requires
            old(self)@.wf(),
            request == ctrl::OPEN && data is Some ==> old(self)@.max_packet_size is Some,
        ensures
            (final(self)@, action_views(actions@)) == old(self)@.data_out(
                request,
                data_view(data),
            ),
    {
        let mut actions: Vec<Action> = Vec::new();
        let ghost read = data_view(data);
        match request {
            ctrl::OPEN => match data {
                Some(topic) => {
                    let (sender, receiver) = connection(
                        topic,
                        cap_size(self.host_max_size),
                        cap_size(self.max_size),
                        self.transfer_size(),
                    );
                    self.send_open = true;
                    self.recv_open = true;
                    self.received = 0;
                    self.drain = None;
                    self.host_max_size = DEFAULT_MAX_SIZE;
                    actions.push(Action::Establish { sender, receiver });
                    actions.push(Action::RestartPingTimer);
                },
                None => {
                    actions.push(Action::CancelReceive);
                },
            },
            ctrl::CLOSE_SEND => {
                if self.recv_open {
                    let mut drain: Option<u64> = None;
                    if let Some(data) = &data {
                        if data.len() == 8 {
                            let count: u64 = read_le(data.as_slice(), 0, 8);
                            assert(data@.subrange(0, 8) =~= data@);
                            if count != self.received {
                                drain = Some(count);
                            }
                        }
                    }
                    if drain.is_some() {
                        self.drain = drain;
                    } else {
                        self.close_recv();
                        actions.push(Action::StopReceiving);
                    }
                }
            },
            ctrl::CLOSE_RECV => {
                if self.send_open {
                    self.send_open = false;
                    actions.push(Action::StopSending);
                    actions.push(Action::HaltIn);
                }
            },
            ctrl::CAPABILITIES => {
                self.host_max_size = match &data {
                    Some(data) => match HostCapabilities::decode(data.as_slice()) {
                        Ok(caps) => caps.max_size,
                        Err(_) => DEFAULT_MAX_SIZE,
                    },
                    None => DEFAULT_MAX_SIZE,
                };
            },
            ctrl::ECHO => {
                if !self.send_open && !self.recv_open {
                    if let Some(data) = data {
                        actions.push(Action::SendEcho(data));
                    }
                }
            },
            _ => {},
        }
        assert(action_views(actions@) =~= old(self)@.data_out(request, read).1);
        actions
    }

    fn handle_setup_in(&self, request: u8) -> (actions: Vec<Action>)
        ensures
            action_views(actions@) == self@.setup_in(request),
    {
        let mut actions: Vec<Action> = Vec::new();
        match request {
            ctrl::PROBE => {
                actions.push(Action::Reply(ctrl::probe_response_data()));
            },
            ctrl::INFO => {
                let info = self.info.clone();
                assert(info@ =~= self.info@);
                actions.push(Action::Reply(info));
            },
            ctrl::CAPABILITIES => {
                actions.push(Action::Reply(self.capabilities().encode()));
            },
            ctrl::STATUS => {
                let mut status: Vec<u8> = Vec::new();
                if !self.recv_open {
                    status.push(ctrl::RECV_CLOSED);
                }
                assert(status@ =~= self@.status());
                actions.push(Action::RestartPingTimer);
                actions.push(Action::Reply(status));
            },
            _ => {
                actions.push(Action::Stall);
            },
        }
        assert(action_views(actions@) =~= self@.setup_in(request));
        actions
    }

    /// Handles an event and returns what has to be done, in this order.
    pub fn handle(&mut self, event: Event) -> (actions: Vec<Action>)
        requires
            old(self)@.wf(),
            old(self)@.accepts(event@),
        ensures
            (final(self)@, action_views(actions@)) == old(self)@.step(event@),
            final(self)@.wf(),
    {
        let ghost event_view = event@;
        let mut actions: Vec<Action> = Vec::new();
        match event {
            Event::Enable { max_packet_size } => {
                self.max_packet_size = Some(max_packet_size);
            },
            Event::Disable => {
                self.close_both();
                self.max_packet_size = None;
                self.host_max_size = DEFAULT_MAX_SIZE;
                actions.push(Action::StopReceiving);
                actions.push(Action::StopSending);
            },
            Event::SetupOut { request } => {
                return self.handle_setup_out(request);
            },
            Event::DataOut { request, data } => {
                return self.handle_data_out(request, data);
            },
            Event::SetupIn { request } => {
                return self.handle_setup_in(request);
            },
            Event::PingTimeout => {
                if self.send_open || self.recv_open {
                    self.close_both();
                    actions.push(Action::Fail(ErrorKind::TimedOut));
                    actions.push(Action::StopReceiving);
                    actions.push(Action::StopSending);
                    actions.push(Action::RestartPingTimer);
                }
            },
            Event::Received { len } => {
                if self.recv_open {
                    self.received = self.received.wrapping_add(len as u64);
                    if self.drain == Some(self.received) {
                        self.close_recv();
                        actions.push(Action::StopReceiving);
                    }
                }
            },
            Event::ReceiverDropped => {
                if self.recv_open {
                    self.close_recv();
                    actions.push(Action::StopReceiving);
                    actions.push(Action::HaltOut);
                }
            },
            Event::SenderDropped => {
                if self.send_open {
                    self.send_open = false;
                    actions.push(Action::HaltIn);
                }
            },
        }
        assert(action_views(actions@) =~= old(self)@.step(event_view).1);
        actions
    }
}

/// How the function has ended.
#[derive(Debug, Clone, Copy, PartialEq, Eq, Structural)]
pub enum Ended {
    /// The device was unbound.
    Unbound,
    /// The function has failed with an error of its own.
    Failed,
    /// The end was already reported.
    Gone,
}

/// The error for accepting a connection after the function has ended.
///
/// There is none if the function has failed with an error of its own.
pub fn accept_error(ended: Ended) -> (error: Option<Error>)
    ensures
        error == (match ended {
            Ended::Unbound => Some(Error::DeviceUnbound),
            Ended::Failed => None,
            Ended::Gone => Some(Error::DeviceFailed),
        }),
{
    match ended {
        Ended::Unbound => Some(Error::DeviceUnbound),
        Ended::Failed => None,
        Ended::Gone => Some(Error::DeviceFailed),
    }
}

} // verus!
