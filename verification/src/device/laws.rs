//! What holds of the device-side function in every state.

use vstd::prelude::*;

use crate::capabilities::{
    announced_timeout, law_device_capabilities_round_trip, law_encoded_size,
    law_host_capabilities_round_trip,
};
use crate::capabilities::{
    DeviceCapabilitiesView, HostCapabilities, CAPABILITIES_SIZE, DEFAULT_MAX_SIZE,
};
use crate::ctrl;
use crate::device::function::{
    action_views, Action, ActionView, Event, EventView, FunctionView,
};
use crate::error::ErrorKind;
use crate::limits::{capped, INFO_SIZE};
use crate::tlv::{law_le_round_trip, le_bytes, lemma_radix};

verus! {

/// Whether the device knows a request with data for the device.
pub open spec fn known_out(request: u8) -> bool {
    request == ctrl::OPEN || request == ctrl::CLOSE || request == ctrl::CLOSE_SEND || request
        == ctrl::CLOSE_RECV || request == ctrl::CAPABILITIES || request == ctrl::ECHO
}

/// Whether the device knows a request that asks for data.
pub open spec fn known_in(request: u8) -> bool {
    request == ctrl::PROBE || request == ctrl::INFO || request == ctrl::STATUS || request
        == ctrl::CAPABILITIES
}

/// Unknown requests are stalled, known ones are not, and an unknown request changes
/// nothing.
pub proof fn law_unknown_requests_stall(state: FunctionView, request: u8)
    ensures
        !known_out(request) ==> state.step(EventView::SetupOut { request }) == (
            state,
            seq![ActionView::Stall],
        ),
        known_out(request) ==> !state.step(EventView::SetupOut { request }).1.contains(
            ActionView::Stall,
        ),
        !known_in(request) ==> state.step(EventView::SetupIn { request }) == (
            state,
            seq![ActionView::Stall],
        ),
        known_in(request) ==> !state.step(EventView::SetupIn { request }).1.contains(
            ActionView::Stall,
        ),
{
}

/// Every event keeps the state consistent and leaves the settings alone.
pub proof fn law_state_consistent(state: FunctionView, event: EventView)
    requires
        state.wf(),
        state.accepts(event),
    ensures
        ({
            let next = state.step(event).0;
            &&& next.wf()
            &&& next.class == state.class && next.name == state.name
            &&& next.info == state.info
            &&& next.ping_timeout == state.ping_timeout
            &&& next.max_size == state.max_size
        }),
{
}

/// Whether the event is an open request whose topic was read.
pub open spec fn is_open(event: EventView) -> bool {
    event matches EventView::DataOut { request, data } && request == ctrl::OPEN && data is Some
}

/// The state after several events.
pub open spec fn run(state: FunctionView, events: Seq<EventView>) -> FunctionView
    decreases events.len(),
{
    if events.len() == 0 {
        state
    } else {
        run(state.step(events[0]).0, events.drop_first())
    }
}

/// A closed direction stays closed, whatever happens, until a connection is opened.
pub proof fn law_closed_until_opened(state: FunctionView, events: Seq<EventView>)
    requires
        forall|i: int| 0 <= i < events.len() ==> !is_open(#[trigger] events[i]),
    ensures
        !state.send_open ==> !run(state, events).send_open,
        !state.recv_open ==> !run(state, events).recv_open,
    decreases events.len(),
{
    if events.len() > 0 {
        let next = state.step(events[0]).0;
        assert(!is_open(events[0]));
        let rest = events.drop_first();
        assert forall|i: int| 0 <= i < rest.len() implies !is_open(#[trigger] rest[i]) by {
            assert(rest[i] == events[i + 1]);
        }
        law_closed_until_opened(next, rest);
    }
}

/// The events of a whole request with data for the device.
pub open spec fn request(state: FunctionView, code: u8, data: Option<Seq<u8>>) -> (
    FunctionView,
    Seq<ActionView>,
) {
    let (middle, first) = state.step(EventView::SetupOut { request: code });
    let (end, second) = middle.step(EventView::DataOut { request: code, data });
    (end, first + second)
}

/// A close request stops both directions and resets the connection state, whatever the
/// state was.
pub proof fn law_close_resets(state: FunctionView, data: Option<Seq<u8>>)
    ensures
        ({
            let (end, actions) = request(state, ctrl::CLOSE, data);
            &&& !end.send_open && !end.recv_open && end.drain is None
            &&& end.host_max_size == DEFAULT_MAX_SIZE
            &&& actions == seq![
                ActionView::StopReceiving,
                ActionView::StopSending,
                ActionView::ReadData,
            ]
        }),
{
    let (end, actions) = request(state, ctrl::CLOSE, data);
    assert(actions =~= seq![
        ActionView::StopReceiving,
        ActionView::StopSending,
        ActionView::ReadData,
    ]);
}

/// An open request whose topic can be read always establishes a connection with that
/// topic in which both directions are open. A previous connection is stopped first.
pub proof fn law_open_establishes(state: FunctionView, topic: Seq<u8>)
    requires
        state.wf(),
        state.max_packet_size is Some,
    ensures
        ({
            let (end, actions) = request(state, ctrl::OPEN, Some(topic));
            &&& end.send_open && end.recv_open
            &&& end.received == 0 && end.drain is None
            &&& actions.len() >= 5
            &&& actions[actions.len() - 2] == state.established(topic)
            &&& actions[actions.len() - 1] == ActionView::RestartPingTimer
            &&& state.connected() ==> actions[0] == ActionView::StopReceiving && actions[1]
                == ActionView::StopSending
        }),
{
}

/// Closing one direction leaves the other one as it was, whoever closes it.
pub proof fn law_directions_independent(state: FunctionView, data: Option<Seq<u8>>)
    ensures
        request(state, ctrl::CLOSE_SEND, data).0.send_open == state.send_open,
        !request(state, ctrl::CLOSE_SEND, data).1.contains(ActionView::StopSending),
        request(state, ctrl::CLOSE_RECV, data).0.recv_open == state.recv_open,
        !request(state, ctrl::CLOSE_RECV, data).1.contains(ActionView::StopReceiving),
        !request(state, ctrl::CLOSE_RECV, data).0.send_open,
        state.step(EventView::ReceiverDropped).0.send_open == state.send_open,
        !state.step(EventView::ReceiverDropped).0.recv_open,
        state.step(EventView::SenderDropped).0.recv_open == state.recv_open,
        !state.step(EventView::SenderDropped).0.send_open,
{
}

/// A direction that the application closes is halted, as is the sending direction when
/// the host is done receiving.
pub proof fn law_closed_directions_halt(state: FunctionView, data: Option<Seq<u8>>)
    ensures
        state.recv_open ==> state.step(EventView::ReceiverDropped).1.contains(
            ActionView::HaltOut,
        ),
        state.send_open ==> state.step(EventView::SenderDropped).1.contains(ActionView::HaltIn),
        state.send_open ==> request(state, ctrl::CLOSE_RECV, data).1.contains(
            ActionView::HaltIn,
        ),
{
    if state.recv_open {
        assert(state.step(EventView::ReceiverDropped).1[1] == ActionView::HaltOut);
    }
    if state.send_open {
        assert(state.step(EventView::SenderDropped).1[0] == ActionView::HaltIn);
        assert(request(state, ctrl::CLOSE_RECV, data).1[2] == ActionView::HaltIn);
    }
}

/// A status request is answered by the closed flag exactly if the device does not
/// receive. It starts the ping timeout anew and changes nothing else.
pub proof fn law_status_reports(state: FunctionView)
    ensures
        state.step(EventView::SetupIn { request: ctrl::STATUS }) == (
            state,
            seq![ActionView::RestartPingTimer, ActionView::Reply(state.status())],
        ),
        state.status().contains(ctrl::RECV_CLOSED) <==> !state.recv_open,
        state.status().len() <= ctrl::STATUS_SIZE,
{
    if !state.recv_open {
        assert(state.status()[0] == ctrl::RECV_CLOSED);
    }
}

/// An echo request is answered only while no connection is open; otherwise its data is
/// read and discarded.
pub proof fn law_echo_needs_closed(state: FunctionView, marker: Seq<u8>)
    ensures
        request(state, ctrl::ECHO, Some(marker)) == (
            state,
            if state.connected() {
                seq![ActionView::ReadData]
            } else {
                seq![ActionView::ReadData, ActionView::SendEcho(marker)]
            },
        ),
{
    let actions = request(state, ctrl::ECHO, Some(marker)).1;
    if state.connected() {
        assert(actions =~= seq![ActionView::ReadData]);
    } else {
        assert(actions =~= seq![ActionView::ReadData, ActionView::SendEcho(marker)]);
    }
}

/// Probe, info and capabilities are answered alike at any time and change nothing, and
/// the answers fit into a control request.
pub proof fn law_queries_any_time(state: FunctionView, code: u8)
    requires
        state.wf(),
        code == ctrl::PROBE || code == ctrl::INFO || code == ctrl::CAPABILITIES,
    ensures
        state.step(EventView::SetupIn { request: code }) == (
            state,
            state.closed().setup_in(code),
        ),
        state.setup_in(code).len() == 1,
        state.setup_in(code)[0] matches ActionView::Reply(data) && data.len() <= INFO_SIZE
            && (code == ctrl::CAPABILITIES ==> data.len() <= CAPABILITIES_SIZE),
{
    law_encoded_size(state.capabilities(), HostCapabilities { max_size: 0 });
}

/// When the host is not heard of in time, both directions fail.
pub proof fn law_ping_timeout_fails(state: FunctionView)
    requires
        state.connected(),
    ensures
        ({
            let (end, actions) = state.step(EventView::PingTimeout);
            &&& !end.connected()
            &&& actions.contains(ActionView::Fail(ErrorKind::TimedOut))
            &&& actions.contains(ActionView::StopReceiving)
            &&& actions.contains(ActionView::StopSending)
        }),
{
    let actions = state.step(EventView::PingTimeout).1;
    assert(actions[0] == ActionView::Fail(ErrorKind::TimedOut));
    assert(actions[1] == ActionView::StopReceiving);
    assert(actions[2] == ActionView::StopSending);
}

/// A connection sends packets of up to the size that the host has announced before it was
/// opened, and receives packets of up to the size that the device announces.
pub proof fn law_max_size_negotiated(
    state: FunctionView,
    host: HostCapabilities,
    topic: Seq<u8>,
)
    ensures
        ({
            let announced = request(state, ctrl::CAPABILITIES, Some(host.encoded())).0;
            announced.established(topic) matches ActionView::Establish { send_size, receiver }
                && send_size == capped(host.max_size) && receiver.max_size == capped(
                state.capabilities().max_size,
            )
        }),
{
    law_host_capabilities_round_trip(host);
}

/// Host capabilities that cannot be read or decoded are those of a host that announces
/// none.
pub proof fn law_bad_host_capabilities(state: FunctionView, data: Option<Seq<u8>>)
    requires
        data is Some ==> HostCapabilities::decoded(data->0) is None,
    ensures
        request(state, ctrl::CAPABILITIES, data).0 == (FunctionView {
            host_max_size: DEFAULT_MAX_SIZE,
            ..state
        }),
{
}

/// The state after transfers of these lengths were received.
pub open spec fn receive_all(state: FunctionView, lens: Seq<usize>) -> FunctionView
    decreases lens.len(),
{
    if lens.len() == 0 {
        state
    } else {
        receive_all(state.step(EventView::Received { len: lens[0] }).0, lens.drop_first())
    }
}

/// The sum of the lengths.
pub open spec fn total(lens: Seq<usize>) -> nat
    decreases lens.len(),
{
    if lens.len() == 0 {
        0
    } else {
        lens[0] as nat + total(lens.drop_first())
    }
}

/// While fewer bytes than announced have arrived, the device keeps receiving.
pub proof fn law_drain_waits(state: FunctionView, lens: Seq<usize>)
    requires
        state.recv_open,
        match state.drain {
            Some(count) => state.received + total(lens) < count,
            None => state.received + total(lens) <= u64::MAX,
        },
    ensures
        receive_all(state, lens) == (FunctionView {
            received: (state.received + total(lens)) as u64,
            ..state
        }),
    decreases lens.len(),
{
    if lens.len() > 0 {
        let next = state.step(EventView::Received { len: lens[0] }).0;
        law_drain_waits(next, lens.drop_first());
    }
}

pub(crate) proof fn lemma_closed_stays(state: FunctionView, lens: Seq<usize>)
    requires
        !state.recv_open,
    ensures
        receive_all(state, lens) == state,
    decreases lens.len(),
{
    if lens.len() > 0 {
        lemma_closed_stays(state, lens.drop_first());
    }
}

/// As soon as all announced bytes have arrived, the receive direction is closed, and
/// only that.
pub proof fn law_drain_completes(state: FunctionView, lens: Seq<usize>)
    requires
        state.recv_open,
        state.drain is Some,
        state.received < state.drain->0,
        state.received + total(lens) == state.drain->0,
    ensures
        receive_all(state, lens) == (FunctionView {
            received: state.drain->0,
            ..state.recv_closed()
        }),
    decreases lens.len(),
{
    if lens.len() > 0 {
        let next = state.step(EventView::Received { len: lens[0] }).0;
        if state.received + lens[0] == state.drain->0 {
            lemma_closed_stays(next, lens.drop_first());
        } else {
            law_drain_completes(next, lens.drop_first());
        }
    }
}

/// When the host is done sending, all data that it has sent is still received, no matter
/// how much of it arrives before the announcement and how much after. Then the receive
/// direction is closed.
pub proof fn law_close_send_drains(
    state: FunctionView,
    before: Seq<usize>,
    after: Seq<usize>,
    partial: Seq<usize>,
)
    requires
        state.recv_open,
        state.drain is None,
        state.received == 0,
        total(before) + total(after) <= u64::MAX,
        total(partial) < total(after),
    ensures
        ({
            let count = total(before) + total(after);
            let announced = request(
                receive_all(state, before),
                ctrl::CLOSE_SEND,
                Some(le_bytes(count, 8)),
            ).0;
            &&& receive_all(announced, partial).recv_open
            &&& receive_all(announced, after) == (FunctionView {
                received: count as u64,
                ..state.recv_closed()
            })
        }),
{
    let count = total(before) + total(after);
    lemma_radix();
    law_le_round_trip(count, 8);
    law_drain_waits(state, before);
    let received = receive_all(state, before);
    let announced = request(received, ctrl::CLOSE_SEND, Some(le_bytes(count, 8))).0;
    assert(announced == (FunctionView { drain: Some(count as u64), ..received }));
    law_drain_waits(announced, partial);
    law_drain_completes(announced, after);
}

/// If all data has arrived before the announcement, the receive direction is closed at
/// once.
pub proof fn law_close_send_without_rest(state: FunctionView, before: Seq<usize>)
    requires
        state.recv_open,
        state.drain is None,
        state.received == 0,
        total(before) <= u64::MAX,
    ensures
        request(
            receive_all(state, before),
            ctrl::CLOSE_SEND,
            Some(le_bytes(total(before), 8)),
        ).0 == (FunctionView { received: total(before) as u64, ..state.recv_closed() }),
{
    lemma_radix();
    law_le_round_trip(total(before), 8);
    law_drain_waits(state, before);
}

/// The actions when transfers of these lengths are received.
pub open spec fn receive_actions(state: FunctionView, lens: Seq<usize>) -> Seq<ActionView>
    decreases lens.len(),
{
    if lens.len() == 0 {
        Seq::empty()
    } else {
        let (next, actions) = state.step(EventView::Received { len: lens[0] });
        actions + receive_actions(next, lens.drop_first())
    }
}

/// A received transfer makes the device stop receiving exactly if it closes the receive
/// direction, which it does exactly if it brings the number of received bytes to the
/// announced one. It makes the device do nothing else and changes nothing else but the
/// number of received bytes.
pub proof fn law_received_transfer(state: FunctionView, len: usize)
    ensures
        ({
            let (next, actions) = state.step(EventView::Received { len });
            let sum = (state.received + len) % 0x1_0000_0000_0000_0000;
            &&& actions.contains(ActionView::StopReceiving) <==> state.recv_open
                && !next.recv_open
            &&& forall|i: int|
                0 <= i < actions.len() ==> #[trigger] actions[i] == ActionView::StopReceiving
            &&& actions.len() <= 1
            &&& state.drain is None ==> actions.len() == 0 && next.recv_open == state.recv_open
            &&& state.recv_open ==> {
                &&& next.received == sum
                &&& next.recv_open <==> !(state.drain is Some && state.drain->0 == sum)
                &&& next.recv_open ==> next.drain == state.drain
                &&& !next.recv_open ==> next.drain is None
            }
            &&& !state.recv_open ==> next == state
            &&& same_settings(state, next)
            &&& next.send_open == state.send_open
            &&& next.host_max_size == state.host_max_size
            &&& next.max_packet_size == state.max_packet_size
        }),
{
    let (next, actions) = state.step(EventView::Received { len });
    if state.recv_open && !next.recv_open {
        assert(actions[0] == ActionView::StopReceiving);
    }
}

/// The settings of the application are the same.
pub open spec fn same_settings(state: FunctionView, next: FunctionView) -> bool {
    &&& next.class == state.class
    &&& next.name == state.name
    &&& next.info == state.info
    &&& next.ping_timeout == state.ping_timeout
    &&& next.max_size == state.max_size
}

/// As long as the host has not announced the end of its data, a device receives without
/// limit: any number of transfers of any size leaves the direction open and requires
/// nothing to be done.
pub proof fn law_reception_unlimited(state: FunctionView, lens: Seq<usize>)
    requires
        state.recv_open,
        state.drain is None,
    ensures
        receive_all(state, lens).recv_open,
        receive_all(state, lens).drain is None,
        receive_actions(state, lens).len() == 0,
        receive_all(state, lens).received as int == (state.received + total(lens))
            % 0x1_0000_0000_0000_0000,
    decreases lens.len(),
{
    if lens.len() > 0 {
        let next = state.step(EventView::Received { len: lens[0] }).0;
        law_received_transfer(state, lens[0]);
        law_reception_unlimited(next, lens.drop_first());
        let rest = total(lens.drop_first()) as int;
        let first = state.received + lens[0];
        vstd::arithmetic::div_mod::lemma_add_mod_noop(first, rest, 0x1_0000_0000_0000_0000);
        vstd::arithmetic::div_mod::lemma_add_mod_noop(
            next.received as int,
            rest,
            0x1_0000_0000_0000_0000,
        );
        vstd::arithmetic::div_mod::lemma_mod_twice(first, 0x1_0000_0000_0000_0000);
    }
}

/// While announced bytes are outstanding, nothing is to be done; with the last of them, the
/// device stops receiving, once.
pub proof fn law_drain_actions(state: FunctionView, lens: Seq<usize>)
    requires
        state.recv_open,
        state.drain is Some,
        state.received < state.drain->0,
        state.received + total(lens) <= state.drain->0,
    ensures
        receive_actions(state, lens) == (if state.received + total(lens) == state.drain->0 {
            seq![ActionView::StopReceiving]
        } else {
            Seq::empty()
        }),
    decreases lens.len(),
{
    if lens.len() > 0 {
        let rest = lens.drop_first();
        let (next, actions) = state.step(EventView::Received { len: lens[0] });
        if state.received + lens[0] == state.drain->0 {
            lemma_closed_silent(next, rest);
            assert(receive_actions(state, lens) =~= seq![ActionView::StopReceiving]);
        } else {
            law_drain_actions(next, rest);
            assert(receive_actions(state, lens) =~= receive_actions(next, rest));
        }
    }
}

proof fn lemma_closed_silent(state: FunctionView, lens: Seq<usize>)
    requires
        !state.recv_open,
    ensures
        receive_actions(state, lens) == Seq::<ActionView>::empty(),
    decreases lens.len(),
{
    if lens.len() > 0 {
        lemma_closed_silent(state, lens.drop_first());
        assert(receive_actions(state, lens) =~= Seq::<ActionView>::empty());
    }
}

/// An open request hands exactly one connection to the application, as the last thing but
/// starting the ping timeout. Its receiver has the whole topic that was sent, nothing
/// pending, the limit of the device and the size of the buffers that were enqueued for it,
/// which hold 128 USB packets. Its sender has the limit that the host has announced. A
/// previous connection is stopped before, and the halt conditions are cleared before the
/// buffers are enqueued.
pub proof fn law_opened_connection(state: FunctionView, topic: Seq<u8>)
    requires
        state.max_packet_size is Some,
        128 * state.max_packet_size->0 <= usize::MAX,
    ensures
        ({
            let (end, actions) = request(state, ctrl::OPEN, Some(topic));
            let n = actions.len() as int;
            &&& n == (if state.connected() {
                7int
            } else {
                5int
            })
            &&& actions[n - 2] matches ActionView::Establish { send_size, receiver } && {
                &&& receiver.topic == topic
                &&& receiver.pending.len() == 0
                &&& receiver.max_size == capped(state.max_size)
                &&& receiver.transfer_size == 128 * state.max_packet_size->0
                &&& send_size == capped(state.host_max_size)
                &&& actions[n - 4] == ActionView::PrimeReceive { size: receiver.transfer_size }
            }
            &&& forall|i: int|
                0 <= i < n && (#[trigger] actions[i]) is Establish ==> i == n - 2
            &&& actions[n - 5] == ActionView::ClearHalts
            &&& actions[n - 3] == ActionView::ReadData
            &&& actions[n - 1] == ActionView::RestartPingTimer
            &&& state.send_open || state.recv_open ==> actions[0] == ActionView::StopReceiving
                && actions[1] == ActionView::StopSending
            &&& end.send_open && end.recv_open
            &&& end.received == 0 && end.drain is None
            &&& end.host_max_size == 16_777_216
            &&& end.max_packet_size == state.max_packet_size
            &&& same_settings(state, end)
        }),
{
    let (end, actions) = request(state, ctrl::OPEN, Some(topic));
    let n = actions.len() as int;
    assert(actions[n - 2] is Establish);
}

/// If the topic cannot be read, no connection is established: the previous one is stopped,
/// the buffers that were enqueued are cancelled, and what the host has announced is kept.
pub proof fn law_unread_topic(state: FunctionView)
    ensures
        ({
            let (end, actions) = request(state, ctrl::OPEN, None);
            &&& actions.last() == ActionView::CancelReceive
            &&& forall|i: int| 0 <= i < actions.len() ==> !((#[trigger] actions[i]) is Establish)
            &&& !end.send_open && !end.recv_open && end.drain is None
            &&& end.host_max_size == state.host_max_size
            &&& end.max_packet_size == state.max_packet_size
            &&& same_settings(state, end)
        }),
{
}

/// A close request leaves the settings and the endpoints alone, and makes the device forget
/// what the host has announced.
pub proof fn law_close_keeps_settings(state: FunctionView, data: Option<Seq<u8>>)
    ensures
        ({
            let end = request(state, ctrl::CLOSE, data).0;
            &&& !end.send_open && !end.recv_open && end.drain is None
            &&& end.host_max_size == 16_777_216
            &&& end.max_packet_size == state.max_packet_size
            &&& same_settings(state, end)
        }),
{
}

/// A host that is done sending closes the receive direction at once if all bytes that it
/// announces have arrived or if the number cannot be read. Otherwise the device goes on
/// receiving until they have. Without an open receive direction nothing happens.
pub proof fn law_announced_end(state: FunctionView, count: u64, data: Option<Seq<u8>>)
    ensures
        ({
            let (end, actions) = request(state, ctrl::CLOSE_SEND, Some(le_bytes(count as nat, 8)));
            &&& actions[0] == ActionView::ReadData
            &&& state.recv_open ==> {
                &&& end.recv_open <==> count != state.received
                &&& count == state.received ==> end.drain is None && actions.len() == 2
                    && actions[1] == ActionView::StopReceiving
                &&& count != state.received ==> end.drain == Some(count) && actions.len() == 1
            }
            &&& !state.recv_open ==> end == state && actions.len() == 1
            &&& end.received == state.received && end.send_open == state.send_open
            &&& end.host_max_size == state.host_max_size
            &&& end.max_packet_size == state.max_packet_size
            &&& same_settings(state, end)
        }),
        state.recv_open && (data is None || data->0.len() != 8) ==> {
            let (end, actions) = request(state, ctrl::CLOSE_SEND, data);
            &&& !end.recv_open && end.drain is None
            &&& FunctionView { recv_open: true, drain: state.drain, ..end } == state
            &&& actions.len() == 2 && actions[0] == ActionView::ReadData && actions[1]
                == ActionView::StopReceiving
        },
        !state.recv_open ==> {
            let (end, actions) = request(state, ctrl::CLOSE_SEND, data);
            &&& end == state
            &&& actions.len() == 1 && actions[0] == ActionView::ReadData
        },
{
    lemma_radix();
    law_le_round_trip(count as nat, 8);
}

/// A host that is done receiving makes the device stop sending and halt its endpoint if it
/// was sending, whatever the data of the request, and changes nothing else.
pub proof fn law_host_stops_receiving(state: FunctionView, data: Option<Seq<u8>>)
    ensures
        ({
            let (end, actions) = request(state, ctrl::CLOSE_RECV, data);
            &&& actions[0] == ActionView::ReadData
            &&& state.send_open ==> actions.len() == 3 && actions[1] == ActionView::StopSending
                && actions[2] == ActionView::HaltIn
            &&& !state.send_open ==> actions.len() == 1
            &&& end.send_open == false
            &&& FunctionView { send_open: state.send_open, ..end } == state
        }),
{
}

/// The limit that a host announces is kept for the next connection and changes nothing
/// else. It does not affect an open connection.
pub proof fn law_host_limit_kept(state: FunctionView, host: HostCapabilities)
    ensures
        ({
            let (end, actions) = request(state, ctrl::CAPABILITIES, Some(host.encoded()));
            &&& end.host_max_size == host.max_size
            &&& FunctionView { host_max_size: state.host_max_size, ..end } == state
            &&& actions.len() == 1 && actions[0] == ActionView::ReadData
        }),
{
    law_host_capabilities_round_trip(host);
}

/// The answers to the queries of a host: the probe response, the whole info, and
/// capabilities that the host decodes to the settings of the device, which supports status
/// and echo requests. A status request is answered by the closed flag alone or by nothing.
/// None of them changes the state.
pub proof fn law_answers(state: FunctionView)
    ensures
        forall|code: u8|
            (#[trigger] state.step(EventView::SetupIn { request: code })).0 == state,
        state.step(EventView::SetupIn { request: ctrl::PROBE }).1 == seq![
            ActionView::Reply(seq![0x55u8, 0x50u8, 0x43u8]),
        ],
        state.step(EventView::SetupIn { request: ctrl::INFO }).1 == seq![
            ActionView::Reply(state.info),
        ],
        ({
            let actions = state.step(EventView::SetupIn { request: ctrl::CAPABILITIES }).1;
            &&& actions.len() == 1
            &&& actions[0] matches ActionView::Reply(data) && DeviceCapabilitiesView::decoded(data)
                == Some(
                (DeviceCapabilitiesView {
                    ping_timeout: announced_timeout(state.ping_timeout),
                    status_supported: true,
                    max_size: state.max_size,
                    echo_supported: true,
                }),
            )
        }),
        state.step(EventView::SetupIn { request: ctrl::STATUS }).1 == seq![
            ActionView::RestartPingTimer,
            ActionView::Reply(
                if state.recv_open {
                    Seq::empty()
                } else {
                    seq![1u8]
                },
            ),
        ],
{
    law_device_capabilities_round_trip(state.capabilities());
}

/// A missing host ends an open connection: its failure is recorded before both directions
/// are stopped. It changes nothing without a connection.
pub proof fn law_missing_host(state: FunctionView)
    ensures
        ({
            let (end, actions) = state.step(EventView::PingTimeout);
            &&& state.send_open || state.recv_open ==> {
                &&& actions.len() == 4
                &&& actions[0] == ActionView::Fail(ErrorKind::TimedOut)
                &&& actions[1] == ActionView::StopReceiving
                &&& actions[2] == ActionView::StopSending
                &&& actions[3] == ActionView::RestartPingTimer
                &&& !end.send_open && !end.recv_open && end.drain is None
            }
            &&& !state.send_open && !state.recv_open ==> actions.len() == 0 && end == state
            &&& end.received == state.received
            &&& end.host_max_size == state.host_max_size
            &&& end.max_packet_size == state.max_packet_size
            &&& same_settings(state, end)
        }),
{
}

/// An application that is done with a direction has the endpoint of that direction halted
/// and leaves the other direction alone. It has no effect on a closed direction.
pub proof fn law_application_closes(state: FunctionView)
    ensures
        ({
            let (end, actions) = state.step(EventView::ReceiverDropped);
            &&& state.recv_open ==> actions == seq![
                ActionView::StopReceiving,
                ActionView::HaltOut,
            ] && end.drain is None
            &&& !state.recv_open ==> actions.len() == 0 && end == state
            &&& !end.recv_open
            &&& FunctionView { recv_open: state.recv_open, drain: state.drain, ..end } == state
        }),
        ({
            let (end, actions) = state.step(EventView::SenderDropped);
            &&& state.send_open ==> actions == seq![ActionView::HaltIn]
            &&& !state.send_open ==> actions.len() == 0 && end == state
            &&& !end.send_open
            &&& FunctionView { send_open: state.send_open, ..end } == state
        }),
{
}

/// Enabling the function only sets the size of USB packets. Disabling it stops both
/// directions and makes the device forget the size and what the host has announced.
pub proof fn law_enabled_and_disabled(state: FunctionView, max_packet_size: usize)
    ensures
        ({
            let (end, actions) = state.step(EventView::Enable { max_packet_size });
            &&& actions.len() == 0
            &&& end.max_packet_size == Some(max_packet_size)
            &&& FunctionView { max_packet_size: state.max_packet_size, ..end } == state
        }),
        ({
            let (end, actions) = state.step(EventView::Disable);
            &&& actions.contains(ActionView::StopReceiving)
            &&& actions.contains(ActionView::StopSending)
            &&& actions.len() == 2
            &&& !end.send_open && !end.recv_open && end.drain is None
            &&& end.max_packet_size is None
            &&& end.host_max_size == 16_777_216
            &&& same_settings(state, end)
        }),
{
    let actions = state.step(EventView::Disable).1;
    assert(actions[0] == ActionView::StopReceiving);
    assert(actions[1] == ActionView::StopSending);
}

/// What is to be done agrees with the state, whatever happens: a direction that closes is
/// stopped, unless the application has dropped its sender, and a direction that is stopped
/// is closed. A direction opens exactly when a connection is established. Endpoints are
/// halted only for directions that close, and a failure is recorded only for a connection
/// that ends.
pub proof fn law_actions_agree(state: FunctionView, event: EventView)
    ensures
        ({
            let (next, actions) = state.step(event);
            &&& state.recv_open && !next.recv_open ==> actions.contains(ActionView::StopReceiving)
            &&& state.send_open && !next.send_open && !(event is SenderDropped)
                ==> actions.contains(ActionView::StopSending)
            &&& actions.contains(ActionView::StopReceiving) ==> !next.recv_open
            &&& actions.contains(ActionView::StopSending) ==> !next.send_open
            &&& !state.recv_open && next.recv_open ==> is_open(event)
            &&& !state.send_open && next.send_open ==> is_open(event)
            &&& is_open(event) <==> exists|i: int|
                0 <= i < actions.len() && (#[trigger] actions[i]) is Establish
            &&& actions.contains(ActionView::HaltOut) ==> state.recv_open && !next.recv_open
            &&& actions.contains(ActionView::HaltIn) ==> state.send_open && !next.send_open
            &&& (exists|i: int| 0 <= i < actions.len() && (#[trigger] actions[i]) is Fail)
                ==> state.connected() && !next.connected()
        }),
{
    let (next, actions) = state.step(event);
    if state.recv_open && !next.recv_open {
        assert(exists|i: int|
            0 <= i < actions.len() && #[trigger] actions[i] == ActionView::StopReceiving) by {
            if actions[0] != ActionView::StopReceiving {
                assert(actions[1] == ActionView::StopReceiving);
            }
        }
    }
    if state.send_open && !next.send_open && !(event is SenderDropped) {
        assert(exists|i: int|
            0 <= i < actions.len() && #[trigger] actions[i] == ActionView::StopSending) by {
            if actions[0] != ActionView::StopSending && actions[1] != ActionView::StopSending {
                assert(actions[2] == ActionView::StopSending);
            }
        }
    }
    if is_open(event) {
        assert(actions[0] is Establish);
    }
}

/// The state of a device is consistent exactly if its info fits into a control request,
/// only an enabled device is connected, bytes are outstanding only while it receives, and
/// its receive buffers can be addressed. It accepts every event, except that it must be
/// enabled with a usable size and before a connection is opened.
pub proof fn law_consistent_states(state: FunctionView, event: EventView)
    ensures
        state.wf() <==> {
            &&& state.info.len() <= 4096
            &&& state.send_open || state.recv_open ==> state.max_packet_size is Some
            &&& state.drain is Some ==> state.recv_open
            &&& state.max_packet_size matches Some(size) ==> 0 < size && 128 * size <= usize::MAX
        },
        state.accepts(event) <==> match event {
            EventView::Enable { max_packet_size } => 0 < max_packet_size && 128
                * max_packet_size <= usize::MAX,
            EventView::SetupOut { request } => request != ctrl::OPEN
                || state.max_packet_size is Some,
            EventView::DataOut { request, data } => request != ctrl::OPEN || data is None
                || state.max_packet_size is Some,
            _ => true,
        },
        state.connected() <==> state.send_open || state.recv_open,
{
}

/// An event is known by all of its data: no request loses a byte of it.
pub proof fn law_event_views(event: Event)
    ensures
        event matches Event::DataOut { request, data } ==> (
        event@ matches EventView::DataOut { request: code, data: bytes } && code == request && (
        bytes is Some <==> data is Some) && (data is Some ==> bytes->0 == data->0@)),
        event matches Event::Enable { max_packet_size } ==> event@ == (EventView::Enable {
            max_packet_size,
        }),
        event matches Event::SetupOut { request } ==> event@ == (EventView::SetupOut { request }),
        event matches Event::SetupIn { request } ==> event@ == (EventView::SetupIn { request }),
        event matches Event::Received { len } ==> event@ == (EventView::Received { len }),
        event is Disable <==> event@ is Disable,
        event is PingTimeout <==> event@ is PingTimeout,
        event is ReceiverDropped <==> event@ is ReceiverDropped,
        event is SenderDropped <==> event@ is SenderDropped,
{
}

/// An action is known by all of its data, and a list of actions by each of them.
pub proof fn law_action_views(actions: Seq<Action>, i: int)
    requires
        0 <= i < actions.len(),
    ensures
        action_views(actions).len() == actions.len(),
        action_views(actions)[i] == actions[i]@,
        actions[i] matches Action::Establish { sender, receiver } ==> actions[i]@ == (
        ActionView::Establish { send_size: sender.limit(), receiver: receiver@ }),
        actions[i] matches Action::PrimeReceive { size } ==> actions[i]@ == (
        ActionView::PrimeReceive { size }),
        actions[i] matches Action::Reply(data) ==> actions[i]@ == ActionView::Reply(data@),
        actions[i] matches Action::SendEcho(data) ==> actions[i]@ == ActionView::SendEcho(data@),
        actions[i] matches Action::Fail(kind) ==> actions[i]@ == ActionView::Fail(kind),
        actions[i] is StopReceiving <==> actions[i]@ is StopReceiving,
        actions[i] is StopSending <==> actions[i]@ is StopSending,
        actions[i] is ClearHalts <==> actions[i]@ is ClearHalts,
        actions[i] is ReadData <==> actions[i]@ is ReadData,
        actions[i] is CancelReceive <==> actions[i]@ is CancelReceive,
        actions[i] is HaltIn <==> actions[i]@ is HaltIn,
        actions[i] is HaltOut <==> actions[i]@ is HaltOut,
        actions[i] is Stall <==> actions[i]@ is Stall,
        actions[i] is RestartPingTimer <==> actions[i]@ is RestartPingTimer,
{
}

/// The data of a request has no effect unless the request is to open or to close a
/// direction, or announces capabilities or a marker that could be read. Capabilities never
/// require anything to be done.
pub proof fn law_data_without_effect(state: FunctionView, code: u8, data: Option<Seq<u8>>)
    ensures
        code != 1 && code != 4 && code != 5 && code != 7 && code != 8 ==> state.step(
            EventView::DataOut { request: code, data },
        ) == (state, Seq::<ActionView>::empty()),
        request(state, ctrl::ECHO, None) == (state, seq![ActionView::ReadData]),
        request(state, ctrl::CAPABILITIES, data).1 == seq![ActionView::ReadData],
        ({
            let end = request(state, ctrl::CAPABILITIES, data).0;
            state == (FunctionView { host_max_size: state.host_max_size, ..end })
        }),
{
    assert(request(state, ctrl::ECHO, None).1 =~= seq![ActionView::ReadData]);
    assert(request(state, ctrl::CAPABILITIES, data).1 =~= seq![ActionView::ReadData]);
}

/// The limit of a host whose capabilities cannot be read is 16 MiB.
pub proof fn law_unread_host_limit(state: FunctionView, data: Option<Seq<u8>>)
    requires
        data is Some ==> HostCapabilities::decoded(data->0) is None,
    ensures
        request(state, ctrl::CAPABILITIES, data).0.host_max_size == 16 * 1024 * 1024,
{
}

} // verus!
