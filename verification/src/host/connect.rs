//! Establishing a connection.
//!
//! The host claims the interface, clears the halt condition of both endpoints, closes a
//! previous connection, exchanges capabilities, discards stale data of the IN endpoint and
//! opens the connection.

use std::time::Duration;
use vstd::prelude::*;

use crate::capabilities::{
    law_device_capabilities_round_trip, law_host_capabilities_round_trip, DeviceCapabilities, DeviceCapabilitiesView,
    HostCapabilities, CAPABILITIES_SIZE, DEFAULT_MAX_SIZE,
};
use crate::capabilities::announced_timeout;
use crate::ctrl;
use crate::ctrl::{ControlIn, ControlOut, ControlOutView};
use crate::error::{Error, ErrorKind};
use crate::framing::{
    completed_transfers, delivered, law_each_packet_taken, law_transfers_arrive,
    lemma_stream_transfers, outcomes, receive_times, wire_stream, Outcome,
};
use crate::host::channel::{ReceiverView, UpcReceiver, UpcSender};
use crate::host::discovery::Endpoints;
use crate::host::options::{law_polling_exact, polling_interval, status_interval, UpcOptions};
use crate::limits::{cap_size, capped, INFO_SIZE};
use crate::time::optional_nanos;

verus! {

/// Timeout of a control request in milliseconds.
pub const CONTROL_TIMEOUT_MILLIS: u64 = 1000;

/// Time in milliseconds during which a busy interface is claimed again.
pub const CLAIM_TIMEOUT_MILLIS: u64 = 5000;

/// Time in milliseconds after which a busy interface is claimed again.
pub const CLAIM_RETRY_MILLIS: u64 = 50;

/// Time in milliseconds without data after which the IN endpoint is considered empty.
pub const FLUSH_TIMEOUT_MILLIS: u64 = 100;

/// What the host is doing.
#[derive(Debug, Clone, Copy, PartialEq, Eq, Structural)]
pub enum Stage {
    /// Claiming the interface.
    Claim,
    /// Clearing the halt condition of the IN endpoint.
    ClearIn,
    /// Clearing the halt condition of the OUT endpoint.
    ClearOut,
    /// Closing a previous connection.
    Close,
    /// Querying the capabilities of the device.
    Query,
    /// Sending the capabilities of the host.
    Announce,
    /// Requesting an echo of the marker.
    Echo,
    /// Receiving until the marker arrives.
    EchoWait,
    /// Receiving until no more data arrives.
    Flush,
    /// Opening the connection.
    Open,
    /// The connection is open.
    Connected,
    /// The connection could not be established.
    Failed(Error),
}

/// Result of what the host was doing.
pub enum Event {
    /// The interface was claimed or is not available.
    Claimed {
        /// The result.
        result: Result<(), Error>,
        /// The time for trying again is over.
        expired: bool,
    },
    /// The halt condition of an endpoint was cleared.
    Cleared(Result<(), Error>),
    /// A control request was sent.
    Sent(Result<(), Error>),
    /// A control request was answered.
    Queried(Result<Vec<u8>, Error>),
    /// A transfer was received from the IN endpoint.
    Received(Vec<u8>),
    /// Receiving from the IN endpoint has failed.
    ReceiveFailed,
    /// Nothing was received from the IN endpoint in time.
    ReceiveTimedOut {
        /// Random data for a new marker.
        marker: Vec<u8>,
    },
}

/// A result with its data.
pub enum EventView {
    Claimed { result: Result<(), Error>, expired: bool },
    Cleared(Result<(), Error>),
    Sent(Result<(), Error>),
    Queried(Result<Seq<u8>, Error>),
    Received(Seq<u8>),
    ReceiveFailed,
    ReceiveTimedOut { marker: Seq<u8> },
}

impl View for Event {
    type V = EventView;

    open spec fn view(&self) -> EventView {
        match self {
            Event::Claimed { result, expired } => EventView::Claimed {
                result: *result,
                expired: *expired,
            },
            Event::Cleared(result) => EventView::Cleared(*result),
            Event::Sent(result) => EventView::Sent(*result),
            Event::Queried(Ok(data)) => EventView::Queried(Ok(data@)),
            Event::Queried(Err(err)) => EventView::Queried(Err(*err)),
            Event::Received(data) => EventView::Received(data@),
            Event::ReceiveFailed => EventView::ReceiveFailed,
            Event::ReceiveTimedOut { marker } => EventView::ReceiveTimedOut { marker: marker@ },
        }
    }
}

/// A connection.
pub struct Connection {
    /// The sending direction.
    pub sender: UpcSender,
    /// The receiving direction.
    pub receiver: UpcReceiver,
    /// Interval for polling the status of the device.
    pub status_interval: Option<Duration>,
}

/// What is known of a connection.
pub struct ConnectionView {
    pub send_size: usize,
    pub receiver: ReceiverView,
    pub status_interval: Option<nat>,
}

impl View for Connection {
    type V = ConnectionView;

    open spec fn view(&self) -> ConnectionView {
        ConnectionView {
            send_size: self.sender.limit(),
            receiver: self.receiver@,
            status_interval: optional_nanos(self.status_interval),
        }
    }
}

/// What the host has to do next.
pub enum Action {
    /// Claim the interface, after a while if it was busy.
    Claim,
    /// Clear the halt condition of the IN endpoint.
    ClearIn,
    /// Clear the halt condition of the OUT endpoint.
    ClearOut,
    /// Send a control request.
    Send(ControlOut),
    /// Send a control request that asks for data.
    Query(ControlIn),
    /// Receive a transfer of up to this size from the IN endpoint.
    Receive {
        /// Size of the buffer.
        size: usize,
    },
    /// Start the tasks of the connection.
    Start(Connection),
    /// Report the error.
    Fail(Error),
}

/// What the host has to do next, with its data.
pub enum ActionView {
    Claim,
    ClearIn,
    ClearOut,
    Send(ControlOutView),
    Query(ControlIn),
    Receive { size: usize },
    Start(ConnectionView),
    Fail(Error),
}

impl View for Action {
    type V = ActionView;

    open spec fn view(&self) -> ActionView {
        match self {
            Action::Claim => ActionView::Claim,
            Action::ClearIn => ActionView::ClearIn,
            Action::ClearOut => ActionView::ClearOut,
            Action::Send(request) => ActionView::Send(request@),
            Action::Query(request) => ActionView::Query(*request),
            Action::Receive { size } => ActionView::Receive { size: *size },
            Action::Start(connection) => ActionView::Start(connection@),
            Action::Fail(err) => ActionView::Fail(*err),
        }
    }
}

/// State of establishing a connection.
pub struct ConnectView {
    /// What the host is doing.
    pub stage: Stage,
    /// Topic for the device.
    pub topic: Seq<u8>,
    /// Requested ping interval in nanoseconds.
    pub ping_interval: Option<nat>,
    /// Maximum size of a packet from the device.
    pub max_size: usize,
    /// The endpoints.
    pub endpoints: Endpoints,
    /// The capabilities of the device.
    pub caps: DeviceCapabilitiesView,
    /// Marker to be echoed.
    pub marker: Seq<u8>,
}

impl ConnectView {
    /// The state is consistent.
    pub open spec fn wf(self) -> bool {
        &&& self.topic.len() <= INFO_SIZE
        &&& self.marker.len() < self.endpoints.max_packet_size
        &&& self.stage is Echo || self.stage is EchoWait ==> self.caps.echo_supported
    }

    /// Whether the event is a result of what the host is doing.
    pub open spec fn expects(self, event: EventView) -> bool {
        match self.stage {
            Stage::Claim => event is Claimed,
            Stage::ClearIn | Stage::ClearOut => event is Cleared,
            Stage::Close | Stage::Announce | Stage::Echo | Stage::Open => event is Sent,
            Stage::Query => event is Queried,
            Stage::EchoWait | Stage::Flush => match event {
                EventView::Received(_) | EventView::ReceiveFailed => true,
                EventView::ReceiveTimedOut { marker } => marker.len()
                    < self.endpoints.max_packet_size,
                _ => false,
            },
            Stage::Connected | Stage::Failed(_) => false,
        }
    }

    /// The state with another stage.
    pub open spec fn to(self, stage: Stage) -> Self {
        ConnectView { stage, ..self }
    }

    /// The next state if a step that must succeed leads to `stage`.
    pub open spec fn must(self, result: Result<(), Error>, stage: Stage) -> Self {
        match result {
            Ok(()) => self.to(stage),
            Err(err) => self.to(Stage::Failed(err)),
        }
    }

    /// The state after an event.
    pub open spec fn next(self, event: EventView) -> Self {
        match (self.stage, event) {
            (Stage::Claim, EventView::Claimed { result, expired }) => match result {
                Err(err) if err.spec_kind() == ErrorKind::ResourceBusy && !expired => self,
                _ => self.must(result, Stage::ClearIn),
            },
            (Stage::ClearIn, EventView::Cleared(result)) => self.must(result, Stage::ClearOut),
            (Stage::ClearOut, EventView::Cleared(result)) => self.must(result, Stage::Close),
            (Stage::Close, EventView::Sent(result)) => self.must(result, Stage::Query),
            (Stage::Query, EventView::Queried(Ok(data))) => match DeviceCapabilitiesView::decoded(
                data,
            ) {
                Some(caps) => ConnectView { caps, ..self.to(Stage::Announce) },
                None => self.to(Stage::Failed(Error::CapabilitiesTruncated)),
            },
            (Stage::Query, EventView::Queried(Err(_))) => ConnectView {
                caps: DeviceCapabilitiesView::default_view(),
                ..self.to(Stage::Announce)
            },
            (Stage::Announce, EventView::Sent(_)) => if self.caps.echo_supported {
                self.to(Stage::Echo)
            } else {
                self.to(Stage::Flush)
            },
            (Stage::Echo, EventView::Sent(Ok(()))) => self.to(Stage::EchoWait),
            (Stage::Echo, EventView::Sent(Err(_))) => self.to(Stage::Flush),
            (Stage::EchoWait, EventView::Received(data)) => if data == self.marker {
                self.to(Stage::Open)
            } else {
                self
            },
            (Stage::EchoWait, EventView::ReceiveFailed) => self.to(Stage::Open),
            (Stage::EchoWait, EventView::ReceiveTimedOut { marker }) => ConnectView {
                marker,
                ..self.to(Stage::Echo)
            },
            (Stage::Flush, EventView::Received(_)) => self,
            (Stage::Flush, EventView::ReceiveFailed) => self.to(Stage::Open),
            (Stage::Flush, EventView::ReceiveTimedOut { .. }) => self.to(Stage::Open),
            (Stage::Open, EventView::Sent(result)) => self.must(result, Stage::Connected),
            _ => self,
        }
    }

    /// The connection that is established.
    pub open spec fn connection(self) -> ConnectionView {
        ConnectionView {
            send_size: capped(self.caps.max_size),
            receiver: ReceiverView {
                pending: Seq::empty(),
                max_size: self.max_size,
                transfer_size: self.endpoints.spec_transfer_size(),
            },
            status_interval: polling_interval(self.ping_interval, self.caps),
        }
    }

    /// What the host does in this state.
    pub open spec fn action(self) -> ActionView {
        match self.stage {
            Stage::Claim => ActionView::Claim,
            Stage::ClearIn => ActionView::ClearIn,
            Stage::ClearOut => ActionView::ClearOut,
            Stage::Close => ActionView::Send(
                ControlOutView { request: ctrl::CLOSE, data: Seq::empty() },
            ),
            Stage::Query => ActionView::Query(
                ControlIn { request: ctrl::CAPABILITIES, length: CAPABILITIES_SIZE as u16 },
            ),
            Stage::Announce => ActionView::Send(
                ControlOutView {
                    request: ctrl::CAPABILITIES,
                    data: (HostCapabilities { max_size: self.max_size as u64 }).encoded(),
                },
            ),
            Stage::Echo => ActionView::Send(
                ControlOutView { request: ctrl::ECHO, data: self.marker },
            ),
            Stage::EchoWait | Stage::Flush => ActionView::Receive {
                size: self.endpoints.max_packet_size as usize,
            },
            Stage::Open => ActionView::Send(
                ControlOutView { request: ctrl::OPEN, data: self.topic },
            ),
            Stage::Connected => ActionView::Start(self.connection()),
            Stage::Failed(err) => ActionView::Fail(err),
        }
    }
}

/// Establishes a connection.
pub struct Connect {
    stage: Stage,
    options: UpcOptions,
    endpoints: Endpoints,
    caps: DeviceCapabilities,
    marker: Vec<u8>,
}

impl View for Connect {
    type V = ConnectView;

    closed spec fn view(&self) -> ConnectView {
        ConnectView {
            stage: self.stage,
            topic: self.options@.topic,
            ping_interval: self.options@.ping_interval,
            max_size: self.options@.max_size,
            endpoints: self.endpoints,
            caps: self.caps@,
            marker: self.marker@,
        }
    }
}

impl Connect {
    /// Starts to establish a connection with options over the endpoints.
    ///
    /// The topic must not be larger than [`INFO_SIZE`]. The marker is random data that is
    /// shorter than the maximum packet size.
    pub fn new(options: UpcOptions, endpoints: Endpoints, marker: Vec<u8>) -> (connect: Self)
        requires
            options@.topic.len() <= INFO_SIZE,
            marker@.len() < endpoints.max_packet_size,
        ensures
            connect@.wf(),
            connect@ == (ConnectView {
                stage: Stage::Claim,
                topic: options@.topic,
                ping_interval: options@.ping_interval,
                max_size: options@.max_size,
                endpoints,
                caps: DeviceCapabilitiesView::default_view(),
                marker: marker@,
            }),
    {
        Connect {
            stage: Stage::Claim,
            options,
            endpoints,
            caps: DeviceCapabilities::default(),
            marker,
        }
    }

    /// What the host is doing.
    pub fn stage(&self) -> (stage: Stage)
        ensures
            stage == self@.stage,
    {
        self.stage
    }

    /// Takes notice of the result of what the host was doing.
    pub fn handle(&mut self, event: Event)
        requires
            old(self)@.wf(),
            old(self)@.expects(event@),
        ensures
            final(self)@ == old(self)@.next(event@),
            final(self)@.wf(),
    {
        match (self.stage, event) {
            (Stage::Claim, Event::Claimed { result, expired }) => match result {
                Ok(()) => {
                    self.stage = Stage::ClearIn;
                },
                Err(err) => {
                    if err.kind() != ErrorKind::ResourceBusy || expired {
                        self.stage = Stage::Failed(err);
                    }
                },
            },
            (Stage::ClearIn, Event::Cleared(result)) => {
                self.must(result, Stage::ClearOut);
            },
            (Stage::ClearOut, Event::Cleared(result)) => {
                self.must(result, Stage::Close);
            },
            (Stage::Close, Event::Sent(result)) => {
                self.must(result, Stage::Query);
            },
            (Stage::Query, Event::Queried(result)) => {
                self.handle_capabilities(result);
            },
            (Stage::Announce, Event::Sent(_)) => {
                self.stage = if self.caps.echo_supported {
                    Stage::Echo
                } else {
                    Stage::Flush
                };
            },
            (Stage::Echo, Event::Sent(result)) => {
                self.stage = match result {
                    Ok(()) => Stage::EchoWait,
                    Err(_) => Stage::Flush,
                };
            },
            (Stage::EchoWait, Event::Received(data)) => {
                if ctrl::same_bytes(data.as_slice(), self.marker.as_slice()) {
                    self.stage = Stage::Open;
                }
            },
            (Stage::EchoWait, Event::ReceiveTimedOut { marker }) => {
                self.marker = marker;
                self.stage = Stage::Echo;
            },
            (Stage::EchoWait, Event::ReceiveFailed) => {
                self.stage = Stage::Open;
            },
            (Stage::Flush, Event::Received(_)) => {},
            (Stage::Flush, _) => {
                self.stage = Stage::Open;
            },
            (Stage::Open, Event::Sent(result)) => {
                self.must(result, Stage::Connected);
            },
            _ => {},
        }
    }

    fn must(&mut self, result: Result<(), Error>, stage: Stage)
        ensures
            final(self)@ == old(self)@.must(result, stage),
    {
        self.stage = match result {
            Ok(()) => stage,
            Err(err) => Stage::Failed(err),
        };
    }

    fn handle_capabilities(&mut self, result: Result<Vec<u8>, Error>)
        requires
            old(self)@.stage is Query,
        ensures
            final(self)@ == old(self)@.next(Event::Queried(result)@),
    {
        match result {
            Ok(data) => match DeviceCapabilities::decode(data.as_slice()) {
                Ok(caps) => {
                    self.caps = caps;
                    self.stage = Stage::Announce;
                },
                Err(err) => {
                    self.stage = Stage::Failed(err);
                },
            },
            Err(_) => {
                self.caps = DeviceCapabilities::default();
                self.stage = Stage::Announce;
            },
        }
    }

    /// What the host has to do next.
    pub fn action(&self) -> (action: Action)
        requires
            self@.wf(),
        ensures
            action@ == self@.action(),
    {
        match self.stage {
            Stage::Claim => Action::Claim,
            Stage::ClearIn => Action::ClearIn,
            Stage::ClearOut => Action::ClearOut,
            Stage::Close => {
                let data: Vec<u8> = Vec::new();
                assert(data@ =~= Seq::<u8>::empty());
                Action::Send(ControlOut { request: ctrl::CLOSE, data })
            },
            Stage::Query => Action::Query(
                ControlIn { request: ctrl::CAPABILITIES, length: CAPABILITIES_SIZE as u16 },
            ),
            Stage::Announce => {
                let caps = HostCapabilities { max_size: self.options.max_size() as u64 };
                Action::Send(ControlOut { request: ctrl::CAPABILITIES, data: caps.encode() })
            },
            Stage::Echo => {
                let data = self.marker.clone();
                assert(data@ =~= self.marker@);
                Action::Send(ControlOut { request: ctrl::ECHO, data })
            },
            Stage::EchoWait | Stage::Flush => Action::Receive {
                size: self.endpoints.max_packet_size as usize,
            },
            Stage::Open => {
                let data = vstd::slice::slice_to_vec(self.options.topic());
                assert(data@ =~= self@.topic);
                Action::Send(ControlOut { request: ctrl::OPEN, data })
            },
            Stage::Connected => Action::Start(
                Connection {
                    sender: UpcSender::new(cap_size(self.caps.max_size)),
                    receiver: UpcReceiver::new(
                        self.endpoints.transfer_size(),
                        self.options.max_size(),
                    ),
                    status_interval: status_interval(self.options.ping_interval(), &self.caps),
                },
            ),
            Stage::Failed(err) => Action::Fail(err),
        }
    }
}

/// The position of a stage in the order in which a connection is established.
pub open spec fn rank(stage: Stage) -> nat {
    match stage {
        Stage::Claim => 0,
        Stage::ClearIn => 1,
        Stage::ClearOut => 2,
        Stage::Close => 3,
        Stage::Query => 4,
        Stage::Announce => 5,
        Stage::Echo => 6,
        Stage::EchoWait => 6,
        Stage::Flush => 7,
        Stage::Open => 8,
        Stage::Connected => 9,
        Stage::Failed(_) => 9,
    }
}

/// The stages are gone through in order, none is skipped except for discarding stale data
/// in one of two ways, and the options do not change on the way.
pub proof fn law_stages_in_order(state: ConnectView, event: EventView)
    requires
        state.wf(),
        state.expects(event),
    ensures
        ({
            let next = state.next(event);
            &&& next.wf()
            &&& rank(state.stage) <= rank(next.stage)
            &&& next.stage is Failed || rank(next.stage) <= rank(state.stage) + 1
                || next.stage is Flush && state.stage is Announce || next.stage is Open
                && state.stage is EchoWait
            &&& next.topic == state.topic
            &&& next.ping_interval == state.ping_interval
            &&& next.max_size == state.max_size
            &&& next.endpoints == state.endpoints
        }),
{
}

/// An echo is requested only of a device that supports it.
pub proof fn law_echo_only_if_supported(state: ConnectView)
    requires
        state.wf(),
    ensures
        state.action() matches ActionView::Send(request) ==> (request.request == ctrl::ECHO
            ==> state.caps.echo_supported),
{
}

/// The interface is claimed again as long as it is busy and there is time left.
pub proof fn law_busy_interface_retried(state: ConnectView, err: Error, expired: bool)
    requires
        state.stage is Claim,
        err.spec_kind() == ErrorKind::ResourceBusy,
    ensures
        state.next(EventView::Claimed { result: Err(err), expired }) == (if expired {
            state.to(Stage::Failed(err))
        } else {
            state
        }),
{
}

/// While waiting for the echo, only the marker ends the wait successfully; all other data
/// is discarded.
pub proof fn law_marker_ends_flush(state: ConnectView, data: Seq<u8>)
    requires
        state.stage is EchoWait,
    ensures
        state.next(EventView::Received(data)).stage is Open <==> data == state.marker,
        data != state.marker ==> state.next(EventView::Received(data)) == state,
{
}

/// The state after several transfers were received.
pub open spec fn receive_each(state: ConnectView, transfers: Seq<Seq<u8>>) -> ConnectView
    decreases transfers.len(),
{
    if transfers.len() == 0 {
        state
    } else {
        receive_each(state.next(EventView::Received(transfers[0])), transfers.drop_first())
    }
}

/// Stale data of a previous connection is discarded until the marker arrives, however much
/// it is, and then the connection is opened.
pub proof fn law_stale_data_discarded(state: ConnectView, stale: Seq<Seq<u8>>)
    requires
        state.stage is EchoWait,
        forall|i: int| 0 <= i < stale.len() ==> #[trigger] stale[i] != state.marker,
    ensures
        receive_each(state, stale) == state,
        receive_each(state, stale.push(state.marker)) == state.to(Stage::Open),
    decreases stale.len(),
{
    reveal_with_fuel(receive_each, 2);
    let all = stale.push(state.marker);
    if stale.len() == 0 {
        assert(all.drop_first() =~= Seq::<Seq<u8>>::empty());
    } else {
        let rest = stale.drop_first();
        assert forall|i: int| 0 <= i < rest.len() implies #[trigger] rest[i] != state.marker by {
            assert(rest[i] == stale[i + 1]);
        }
        law_stale_data_discarded(state, rest);
        assert(all.drop_first() =~= rest.push(state.marker));
    }
}

/// The states that are gone through if everything succeeds at the first try and the
/// device answers the query for its capabilities with `data`.
pub open spec fn smooth_states(start: ConnectView, data: Seq<u8>) -> Seq<ConnectView> {
    let claimed = start.next(EventView::Claimed { result: Ok(()), expired: false });
    let cleared_in = claimed.next(EventView::Cleared(Ok(())));
    let cleared_out = cleared_in.next(EventView::Cleared(Ok(())));
    let closed = cleared_out.next(EventView::Sent(Ok(())));
    let queried = closed.next(EventView::Queried(Ok(data)));
    let announced = queried.next(EventView::Sent(Ok(())));
    let flushed = if announced.stage is Echo {
        announced.next(EventView::Sent(Ok(()))).next(EventView::Received(start.marker))
    } else {
        announced.next(EventView::ReceiveTimedOut { marker: start.marker })
    };
    let opened = flushed.next(EventView::Sent(Ok(())));
    seq![start, claimed, cleared_in, cleared_out, closed, queried, announced, flushed, opened]
}

/// If everything succeeds, the host sends the requests to close, to exchange capabilities,
/// to echo if the device supports it, and to open with its topic, in this order. The
/// connection sends packets of up to the size that the device has announced, receives
/// packets of up to the size of the options and polls the status in time for the device.
pub proof fn law_connect_sequence(start: ConnectView, device: DeviceCapabilitiesView)
    requires
        start.wf(),
        start.stage is Claim,
    ensures
        ({
            let states = smooth_states(start, device.encoded());
            let end = states[8];
            &&& states[0].action() == ActionView::Claim
            &&& states[1].action() == ActionView::ClearIn
            &&& states[2].action() == ActionView::ClearOut
            &&& states[3].action() == ActionView::Send(
                ControlOutView { request: ctrl::CLOSE, data: Seq::empty() },
            )
            &&& states[4].action() == ActionView::Query(
                ControlIn { request: ctrl::CAPABILITIES, length: 256 },
            )
            &&& states[5].action() == ActionView::Send(
                ControlOutView {
                    request: ctrl::CAPABILITIES,
                    data: (HostCapabilities { max_size: start.max_size as u64 }).encoded(),
                },
            )
            &&& states[6].action() == (if device.echo_supported {
                ActionView::Send(ControlOutView { request: ctrl::ECHO, data: start.marker })
            } else {
                ActionView::Receive { size: start.endpoints.max_packet_size as usize }
            })
            &&& states[7].action() == ActionView::Send(
                ControlOutView { request: ctrl::OPEN, data: start.topic },
            )
            &&& end.action() == ActionView::Start(end.connection())
            &&& end.connection().send_size == capped(device.max_size)
            &&& end.connection().receiver.max_size == start.max_size
            &&& end.connection().status_interval == polling_interval(
                start.ping_interval,
                DeviceCapabilitiesView {
                    ping_timeout: announced_timeout(device.ping_timeout),
                    ..device
                },
            )
        }),
{
    law_device_capabilities_round_trip(device);
}

/// If the query for the capabilities fails, those of a device that announces none are used:
/// the host neither requests an echo nor polls the status.
pub proof fn law_failed_query_uses_defaults(state: ConnectView, err: Error)
    requires
        state.stage is Query,
    ensures
        ({
            let queried = state.next(EventView::Queried(Err(err)));
            &&& queried.next(EventView::Sent(Ok(()))).stage is Flush
            &&& queried.connection().send_size == capped(DEFAULT_MAX_SIZE)
            &&& queried.connection().status_interval is None
        }),
{
}

/// The connection that is started fits the endpoints and what both sides have announced:
/// its receiver takes a transfer for full that fills a receive buffer of 128 USB packets of
/// the endpoint, has nothing pending and the limit of the options, and its sender has the
/// limit of the device. It is started in the last stage only.
pub proof fn law_started_connection(state: ConnectView)
    ensures
        state.action() is Start <==> state.stage is Connected,
        state.action() matches ActionView::Start(connection) ==> {
            &&& connection.receiver.transfer_size == 128 * state.endpoints.max_packet_size
            &&& connection.receiver.transfer_size == state.endpoints.spec_transfer_size()
            &&& connection.receiver.pending.len() == 0
            &&& connection.receiver.max_size == state.max_size
            &&& connection.send_size == capped(state.caps.max_size)
            &&& connection.status_interval is Some <==> state.caps.status_supported && (
            state.ping_interval is Some || state.caps.ping_timeout is Some)
            &&& connection.status_interval matches Some(interval) ==> {
                &&& state.ping_interval is Some ==> interval <= state.ping_interval->0
                &&& state.caps.ping_timeout is Some ==> 2 * interval <= state.caps.ping_timeout->0
                &&& state.ping_interval == Some(interval) || (state.caps.ping_timeout is Some
                    && state.caps.ping_timeout->0 < 2 * interval + 2)
            }
        },
{
    law_polling_exact(state.ping_interval, state.caps);
}

/// Whatever the size of its USB packets, the receiver of a started connection gives exactly
/// the packets of the device, in order, when they arrive in receive buffers of the size of
/// the endpoints.
pub proof fn law_started_receiver(state: ConnectView, messages: Seq<Seq<u8>>)
    requires
        state.stage is Connected,
        0 < state.endpoints.max_packet_size,
        forall|i: int|
            0 <= i < messages.len() ==> (#[trigger] messages[i]).len() <= state.max_size,
    ensures
        ({
            let mps = state.endpoints.max_packet_size as nat;
            let transfers = completed_transfers(
                wire_stream(messages, mps),
                Seq::empty(),
                mps,
                128 * mps,
            );
            state.action() matches ActionView::Start(connection) && {
                let receiver = connection.receiver;
                &&& outcomes(
                    transfers,
                    receiver.pending,
                    receiver.transfer_size as nat,
                    receiver.max_size as nat,
                ) == delivered(messages)
                &&& receive_times(
                    messages.len(),
                    transfers,
                    receiver.pending,
                    receiver.transfer_size as nat,
                    receiver.max_size as nat,
                ) == (
                    Seq::<u8>::empty(),
                    Seq::<Seq<u8>>::empty(),
                    messages.map_values(|message: Seq<u8>| Some(Outcome::Packet(message))),
                )
            }
        }),
{
    let mps = state.endpoints.max_packet_size as nat;
    let unit = 128 * mps;
    let max = state.max_size as nat;
    law_started_connection(state);
    law_transfers_arrive(messages, mps, 128, max);
    lemma_stream_transfers(messages, mps, 128);
    law_each_packet_taken(messages, Seq::empty(), unit, max);
    let stream = wire_stream(messages, unit);
    assert(stream + Seq::<Seq<u8>>::empty() =~= stream);
    if let ActionView::Start(connection) = state.action() {
        assert(connection.receiver.pending =~= Seq::<u8>::empty());
    }
}

/// What is sent and asked for in each stage. The old connection is closed without data, the
/// capabilities are exchanged by the limit of the options and a query of 256 bytes, the
/// marker is sent whole, single USB packets are received, and the connection is opened with
/// the whole topic.
pub proof fn law_requests_of_stages(state: ConnectView)
    ensures
        state.action() == ActionView::Claim <==> state.stage is Claim,
        state.action() == ActionView::ClearIn <==> state.stage is ClearIn,
        state.action() == ActionView::ClearOut <==> state.stage is ClearOut,
        state.action() is Query <==> state.stage is Query,
        state.action() matches ActionView::Query(request) ==> request.request == 7
            && request.length == 256,
        state.action() is Receive <==> state.stage is EchoWait || state.stage is Flush,
        state.action() matches ActionView::Receive { size } ==> size
            == state.endpoints.max_packet_size,
        state.action() matches ActionView::Send(request) ==> {
            &&& state.stage is Close <==> request.request == 2
            &&& state.stage is Announce <==> request.request == 7
            &&& state.stage is Echo <==> request.request == 8
            &&& state.stage is Open <==> request.request == 1
            &&& request.request == 2 ==> request.data.len() == 0
            &&& request.request == 7 ==> HostCapabilities::decoded(request.data) == Some(
                HostCapabilities { max_size: state.max_size as u64 },
            )
            &&& request.request == 8 ==> request.data == state.marker
            &&& request.request == 1 ==> request.data == state.topic
        },
        state.action() is Send <==> state.stage is Close || state.stage is Announce
            || state.stage is Echo || state.stage is Open,
        state.action() is Fail <==> state.stage is Failed,
        state.action() matches ActionView::Fail(err) ==> state.stage == Stage::Failed(err),
{
    law_host_capabilities_round_trip(HostCapabilities { max_size: state.max_size as u64 });
}

/// The stages that must succeed lead to the next one or to the failure, with its error. Only
/// a busy interface is tried again while there is time.
pub proof fn law_stages_must_succeed(state: ConnectView, err: Error, expired: bool)
    ensures
        state.stage is Claim ==> {
            let failed = state.next(EventView::Claimed { result: Err(err), expired });
            &&& state.next(EventView::Claimed { result: Ok(()), expired }).stage is ClearIn
            &&& err.spec_kind() != ErrorKind::ResourceBusy || expired ==> failed.stage
                == Stage::Failed(err)
            &&& err.spec_kind() == ErrorKind::ResourceBusy && !expired ==> failed == state
        },
        state.stage is ClearIn ==> {
            &&& state.next(EventView::Cleared(Ok(()))).stage is ClearOut
            &&& state.next(EventView::Cleared(Err(err))).stage == Stage::Failed(err)
        },
        state.stage is ClearOut ==> {
            &&& state.next(EventView::Cleared(Ok(()))).stage is Close
            &&& state.next(EventView::Cleared(Err(err))).stage == Stage::Failed(err)
        },
        state.stage is Close ==> {
            &&& state.next(EventView::Sent(Ok(()))).stage is Query
            &&& state.next(EventView::Sent(Err(err))).stage == Stage::Failed(err)
        },
        state.stage is Open ==> {
            &&& state.next(EventView::Sent(Ok(()))).stage is Connected
            &&& state.next(EventView::Sent(Err(err))).stage == Stage::Failed(err)
        },
{
}

/// The capabilities of the device are those that it has answered with. If it has not
/// answered, it is a device without any, and an answer that ends in the middle of an entry
/// is an error. Announcing those of the host may fail. An echo is requested exactly if the
/// device supports it.
pub proof fn law_capabilities_exchanged(
    state: ConnectView,
    data: Seq<u8>,
    err: Error,
    result: Result<(), Error>,
)
    ensures
        state.stage is Query ==> {
            let answered = state.next(EventView::Queried(Ok(data)));
            let failed = state.next(EventView::Queried(Err(err)));
            &&& DeviceCapabilitiesView::decoded(data) matches Some(caps) ==> answered.caps == caps
                && answered.stage is Announce
            &&& DeviceCapabilitiesView::decoded(data) is None ==> answered.stage
                == Stage::Failed(Error::CapabilitiesTruncated)
            &&& failed.stage is Announce
            &&& !failed.caps.echo_supported && !failed.caps.status_supported
            &&& failed.caps.ping_timeout is None && failed.caps.max_size == 16_777_216
        },
        state.stage is Announce ==> {
            let next = state.next(EventView::Sent(result));
            &&& state.caps.echo_supported ==> next.stage is Echo
            &&& !state.caps.echo_supported ==> next.stage is Flush
        },
{
}

/// Stale data is discarded until the marker comes back, with a new marker after a timeout,
/// or else until no data comes. Then, or when receiving fails, the connection is opened.
pub proof fn law_flush_ends(state: ConnectView, data: Seq<u8>, marker: Seq<u8>, err: Error)
    ensures
        state.stage is Echo ==> {
            &&& state.next(EventView::Sent(Ok(()))).stage is EchoWait
            &&& state.next(EventView::Sent(Err(err))).stage is Flush
        },
        state.stage is EchoWait ==> {
            let timed_out = state.next(EventView::ReceiveTimedOut { marker });
            &&& state.next(EventView::Received(data)).stage == (if data == state.marker {
                Stage::Open
            } else {
                Stage::EchoWait
            })
            &&& state.next(EventView::ReceiveFailed).stage is Open
            &&& timed_out.stage is Echo && timed_out.marker == marker
        },
        state.stage is Flush ==> {
            &&& state.next(EventView::Received(data)) == state
            &&& state.next(EventView::ReceiveFailed).stage is Open
            &&& state.next(EventView::ReceiveTimedOut { marker }).stage is Open
        },
{
}

/// Nothing but the stage changes on the way, except for the capabilities when they are
/// queried and the marker when the echo is late. Neither a connection nor a failure is left
/// again.
pub proof fn law_options_kept(state: ConnectView, event: EventView)
    ensures
        ({
            let next = state.next(event);
            &&& next.topic == state.topic
            &&& next.ping_interval == state.ping_interval
            &&& next.max_size == state.max_size
            &&& next.endpoints == state.endpoints
            &&& next.caps == state.caps || state.stage is Query
            &&& next.marker == state.marker || state.stage is EchoWait
            &&& state.stage is Connected || state.stage is Failed ==> next == state
        }),
{
}

/// The state is consistent exactly if its topic fits into a control request, its marker is
/// shorter than a USB packet, and it waits for an echo only of a device that supports it.
pub proof fn law_consistent_stages(state: ConnectView)
    ensures
        state.wf() <==> {
            &&& state.topic.len() <= 4096
            &&& state.marker.len() < state.endpoints.max_packet_size
            &&& (state.stage is Echo || state.stage is EchoWait) ==> state.caps.echo_supported
        },
{
}

/// An event is known by all of its data.
pub proof fn law_event_views(event: Event)
    ensures
        event matches Event::Claimed { result, expired } ==> event@ == (EventView::Claimed {
            result,
            expired,
        }),
        event matches Event::Cleared(result) ==> event@ == EventView::Cleared(result),
        event matches Event::Sent(result) ==> event@ == EventView::Sent(result),
        event matches Event::Queried(Ok(data)) ==> event@ == EventView::Queried(Ok(data@)),
        event matches Event::Queried(Err(err)) ==> event@ == EventView::Queried(Err(err)),
        event matches Event::Received(data) ==> event@ == EventView::Received(data@),
        event matches Event::ReceiveTimedOut { marker } ==> event@ == (
        EventView::ReceiveTimedOut { marker: marker@ }),
        event is ReceiveFailed <==> event@ is ReceiveFailed,
{
}

/// An action is known by all of its data, and a connection by its limits, the state of its
/// receiver and its polling interval.
pub proof fn law_action_views(action: Action, connection: Connection)
    ensures
        action matches Action::Send(request) ==> action@ == ActionView::Send(request@),
        action matches Action::Query(request) ==> action@ == ActionView::Query(request),
        action matches Action::Receive { size } ==> action@ == (ActionView::Receive { size }),
        action matches Action::Start(connection) ==> action@ == ActionView::Start(connection@),
        action matches Action::Fail(err) ==> action@ == ActionView::Fail(err),
        action is Claim <==> action@ is Claim,
        action is ClearIn <==> action@ is ClearIn,
        action is ClearOut <==> action@ is ClearOut,
        connection@.send_size == connection.sender.limit(),
        connection@.receiver == connection.receiver@,
        connection@.status_interval == optional_nanos(connection.status_interval),
{
}

/// The times that the host waits, in milliseconds.
pub proof fn law_connect_times()
    ensures
        CONTROL_TIMEOUT_MILLIS == 1000,
        CLAIM_TIMEOUT_MILLIS == 5000,
        CLAIM_RETRY_MILLIS == 50,
        FLUSH_TIMEOUT_MILLIS == 100,
{
}

/// The state after several events.
pub open spec fn advance(state: ConnectView, events: Seq<EventView>) -> ConnectView
    decreases events.len(),
{
    if events.len() == 0 {
        state
    } else {
        advance(state.next(events[0]), events.drop_first())
    }
}

/// Whatever happens on the way, a connection is opened with the topic that it was to be
/// established with, announces the limit of the options, and is started for the endpoints
/// and with the limit of the options.
pub proof fn law_options_used(start: ConnectView, events: Seq<EventView>)
    ensures
        match advance(start, events).action() {
            ActionView::Send(request) => {
                &&& request.request == 1 ==> request.data == start.topic
                &&& request.request == 7 ==> HostCapabilities::decoded(request.data) == Some(
                    HostCapabilities { max_size: start.max_size as u64 },
                )
            },
            ActionView::Receive { size } => size == start.endpoints.max_packet_size,
            ActionView::Start(connection) => {
                &&& connection.receiver.transfer_size == 128 * start.endpoints.max_packet_size
                &&& connection.receiver.max_size == start.max_size
                &&& connection.receiver.pending.len() == 0
            },
            _ => true,
        },
    decreases events.len(),
{
    law_requests_of_stages(start);
    law_started_connection(start);
    if events.len() > 0 {
        law_options_kept(start, events[0]);
        law_options_used(start.next(events[0]), events.drop_first());
    }
}

} // verus!
