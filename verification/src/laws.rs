//! What holds of a host and a device together.

use vstd::prelude::*;

use crate::capabilities::{law_device_capabilities_round_trip, HostCapabilities};
use crate::ctrl;
use crate::device::function::{ActionView as DeviceAction, FunctionView};
use crate::device::laws::{
    known_in, known_out, law_close_send_drains, law_close_send_without_rest, law_drain_waits,
    law_host_limit_kept, law_max_size_negotiated, law_opened_connection, lemma_closed_stays, receive_all, request, total,
};
use crate::framing::{
    completed_transfers, delivered, law_byte_count, law_each_packet_taken, law_transfers_arrive,
    lemma_reports_stay, lemma_stream_transfers, lemma_transfer_sizes, outcomes, receive_times,
    total_len, wire_stream, Outcome,
};
use crate::host::connect::{
    advance, law_connect_sequence, law_options_used, law_started_connection, smooth_states,
    ActionView as HostAction, ConnectView, EventView as HostEvent,
};
use crate::host::half_close::{Closing, HalfCloseView};
use crate::host::tasks::{
    law_announced_count, law_stream_on_wire, put_all_on_wire, send_all, sum, OutTaskView,
};
use crate::limits::{capped, TRANSFER_PACKETS};
use crate::tlv::le_bytes;

verus! {

/// The lengths of byte strings.
pub open spec fn lengths(parts: Seq<Seq<u8>>) -> Seq<usize> {
    parts.map_values(|part: Seq<u8>| part.len() as usize)
}

/// The length of each byte string can be addressed.
pub open spec fn addressable(parts: Seq<Seq<u8>>) -> bool {
    forall|i: int| 0 <= i < parts.len() ==> (#[trigger] parts[i]).len() <= usize::MAX
}

proof fn lemma_lengths(parts: Seq<Seq<u8>>)
    requires
        addressable(parts),
    ensures
        total(lengths(parts)) == total_len(parts),
        sum(lengths(parts)) == total_len(parts),
    decreases parts.len(),
{
    if parts.len() > 0 {
        let rest = parts.drop_first();
        assert forall|i: int| 0 <= i < rest.len() implies (#[trigger] rest[i]).len()
            <= usize::MAX by {
            assert(rest[i] == parts[i + 1]);
        }
        lemma_lengths(rest);
        assert(lengths(parts).drop_first() =~= lengths(rest));
    }
}

proof fn lemma_total_concat(first: Seq<usize>, second: Seq<usize>)
    ensures
        total(first + second) == total(first) + total(second),
    decreases first.len(),
{
    if first.len() == 0 {
        assert(first + second =~= second);
    } else {
        lemma_total_concat(first.drop_first(), second);
        assert((first + second).drop_first() =~= first.drop_first() + second);
    }
}

proof fn lemma_total_last(lens: Seq<usize>)
    requires
        lens.len() > 0,
    ensures
        total(lens) == total(lens.drop_last()) + lens.last(),
{
    reveal_with_fuel(total, 2);
    lemma_total_concat(lens.drop_last(), seq![lens.last()]);
    assert(lens.drop_last() + seq![lens.last()] =~= lens);
}

/// The transfers that a device receives when a host sends packets.
pub open spec fn device_transfers(messages: Seq<Seq<u8>>, max_packet_size: usize) -> Seq<Seq<u8>> {
    completed_transfers(
        wire_stream(messages, max_packet_size as nat),
        Seq::empty(),
        max_packet_size as nat,
        (TRANSFER_PACKETS * max_packet_size) as nat,
    )
}

/// The number of bytes that a host announces after it has sent packets.
pub open spec fn announced_bytes(messages: Seq<Seq<u8>>, task: OutTaskView) -> u64 {
    send_all(task, lengths(messages)).total
}

/// The state of a device that has received the first `arrived` transfers when the host
/// announces that it is done sending.
pub open spec fn after_announcement(
    state: FunctionView,
    transfers: Seq<Seq<u8>>,
    arrived: int,
    count: u64,
) -> FunctionView {
    request(
        receive_all(state, lengths(transfers.take(arrived))),
        ctrl::CLOSE_SEND,
        Some(le_bytes(count as nat, 8)),
    ).0
}

/// When a host has sent packets and is done sending, the device delivers exactly these
/// packets and then closes its receive direction, no matter how many of the transfers
/// arrive after the announcement of the host.
///
/// The last transfer must not be an empty one that arrives after the announcement: all
/// bytes have arrived without it.
pub proof fn law_half_close_loses_nothing(
    messages: Seq<Seq<u8>>,
    max_packet_size: usize,
    task: OutTaskView,
    state: FunctionView,
    max: nat,
    arrived: int,
    later: int,
)
    requires
        0 < max_packet_size,
        TRANSFER_PACKETS * max_packet_size <= usize::MAX,
        addressable(messages),
        forall|i: int| 0 <= i < messages.len() ==> (#[trigger] messages[i]).len() <= max,
        total_len(messages) <= u64::MAX,
        task.total == 0,
        state.recv_open && state.drain is None && state.received == 0,
        0 <= arrived <= later,
        later < device_transfers(messages, max_packet_size).len(),
        device_transfers(messages, max_packet_size).last().len() > 0,
    ensures
        ({
            let transfers = device_transfers(messages, max_packet_size);
            let count = announced_bytes(messages, task);
            let announced = after_announcement(state, transfers, arrived, count);
            &&& outcomes(
                transfers,
                Seq::empty(),
                (TRANSFER_PACKETS * max_packet_size) as nat,
                max,
            ) == delivered(messages)
            &&& receive_all(
                announced,
                lengths(transfers.subrange(arrived, later)),
            ).recv_open
            &&& receive_all(announced, lengths(transfers.skip(arrived))) == (FunctionView {
                received: count,
                ..state.recv_closed()
            })
        }),
{
    let mps = max_packet_size as nat;
    let transfers = device_transfers(messages, max_packet_size);
    law_transfers_arrive(messages, mps, TRANSFER_PACKETS as nat, max);
    law_byte_count(messages, mps, TRANSFER_PACKETS as nat);
    lemma_transfer_sizes(messages, mps, TRANSFER_PACKETS as nat);
    assert(addressable(transfers));
    lemma_lengths(messages);
    lemma_lengths(transfers);
    law_announced_count(task, lengths(messages));
    let lens = lengths(transfers);
    let before = lens.take(arrived);
    let after = lens.skip(arrived);
    let partial = lens.subrange(arrived, later);
    assert(lengths(transfers.take(arrived)) =~= before);
    assert(lengths(transfers.skip(arrived)) =~= after);
    assert(lengths(transfers.subrange(arrived, later)) =~= partial);
    assert(before + after =~= lens);
    lemma_total_concat(before, after);
    lemma_total_last(after);
    assert(after.last() == transfers.last().len());
    assert(partial + lens.subrange(later, lens.len() - 1) =~= after.drop_last());
    lemma_total_concat(partial, lens.subrange(later, lens.len() - 1));
    law_close_send_drains(state, before, after, partial);
}

/// A device that was told that the host is done sending receives exactly until the last
/// byte has arrived, no matter how many of the transfers arrive after the announcement.
/// What it has delivered at any time is the beginning of what the host has sent.
pub proof fn law_received_to_last_byte(
    messages: Seq<Seq<u8>>,
    max_packet_size: usize,
    task: OutTaskView,
    state: FunctionView,
    max: nat,
    arrived: int,
    later: int,
)
    requires
        0 < max_packet_size,
        TRANSFER_PACKETS * max_packet_size <= usize::MAX,
        addressable(messages),
        forall|i: int| 0 <= i < messages.len() ==> (#[trigger] messages[i]).len() <= max,
        total_len(messages) <= u64::MAX,
        task.total == 0,
        state.recv_open && state.drain is None && state.received == 0,
        0 <= arrived <= later <= device_transfers(messages, max_packet_size).len(),
    ensures
        ({
            let transfers = device_transfers(messages, max_packet_size);
            let count = announced_bytes(messages, task);
            let announced = after_announcement(state, transfers, arrived, count);
            &&& receive_all(announced, lengths(transfers.subrange(arrived, later))).recv_open
                <==> total_len(transfers.take(later)) < total_len(messages)
            &&& outcomes(
                transfers.take(later),
                Seq::empty(),
                (TRANSFER_PACKETS * max_packet_size) as nat,
                max,
            ).is_prefix_of(delivered(messages))
        }),
{
    let mps = max_packet_size as nat;
    let unit = (TRANSFER_PACKETS * max_packet_size) as nat;
    let transfers = device_transfers(messages, max_packet_size);
    law_transfers_arrive(messages, mps, TRANSFER_PACKETS as nat, max);
    law_byte_count(messages, mps, TRANSFER_PACKETS as nat);
    lemma_transfer_sizes(messages, mps, TRANSFER_PACKETS as nat);
    assert(addressable(transfers));
    lemma_lengths(messages);
    lemma_lengths(transfers);
    lemma_lengths(transfers.take(later));
    law_announced_count(task, lengths(messages));
    lemma_reports_stay(transfers.take(later), transfers.skip(later), Seq::empty(), unit, max);
    assert(transfers.take(later) + transfers.skip(later) =~= transfers);
    let lens = lengths(transfers);
    let before = lens.take(arrived);
    let after = lens.skip(arrived);
    let partial = lens.subrange(arrived, later);
    assert(lengths(transfers.take(arrived)) =~= before);
    assert(lengths(transfers.subrange(arrived, later)) =~= partial);
    assert(lengths(transfers.take(later)) =~= before + partial);
    assert(before + after =~= lens);
    assert(partial + lens.skip(later) =~= after);
    lemma_total_concat(before, after);
    lemma_total_concat(before, partial);
    lemma_total_concat(partial, lens.skip(later));
    if total(partial) < total(after) {
        law_close_send_drains(state, before, after, partial);
    } else if total(partial) > 0 {
        law_close_send_drains(state, before, partial, Seq::empty());
    } else {
        law_close_send_without_rest(state, before);
        let count = announced_bytes(messages, task);
        lemma_closed_stays(after_announcement(state, transfers, arrived, count), partial);
    }
}

/// When the announcement of a host that is done sending arrives after all transfers, the
/// device delivers exactly the packets and closes its receive direction at once.
pub proof fn law_late_announcement(
    messages: Seq<Seq<u8>>,
    max_packet_size: usize,
    task: OutTaskView,
    state: FunctionView,
    max: nat,
)
    requires
        0 < max_packet_size,
        TRANSFER_PACKETS * max_packet_size <= usize::MAX,
        addressable(messages),
        forall|i: int| 0 <= i < messages.len() ==> (#[trigger] messages[i]).len() <= max,
        total_len(messages) <= u64::MAX,
        task.total == 0,
        state.recv_open && state.drain is None && state.received == 0,
    ensures
        ({
            let transfers = device_transfers(messages, max_packet_size);
            let count = announced_bytes(messages, task);
            &&& outcomes(
                transfers,
                Seq::empty(),
                (TRANSFER_PACKETS * max_packet_size) as nat,
                max,
            ) == delivered(messages)
            &&& receive_all(state, lengths(transfers)).recv_open
            &&& after_announcement(state, transfers, transfers.len() as int, count) == (
            FunctionView { received: count, ..state.recv_closed() })
        }),
{
    let mps = max_packet_size as nat;
    let transfers = device_transfers(messages, max_packet_size);
    law_transfers_arrive(messages, mps, TRANSFER_PACKETS as nat, max);
    law_byte_count(messages, mps, TRANSFER_PACKETS as nat);
    lemma_transfer_sizes(messages, mps, TRANSFER_PACKETS as nat);
    assert(addressable(transfers));
    lemma_lengths(messages);
    lemma_lengths(transfers);
    law_announced_count(task, lengths(messages));
    assert(transfers.take(transfers.len() as int) =~= transfers);
    law_close_send_without_rest(state, lengths(transfers));
    law_drain_waits(state, lengths(transfers));
}

/// After a connection was established, each side sends packets of up to the size that the
/// other side receives.
pub proof fn law_sizes_agree(
    host: ConnectView,
    device: FunctionView,
    topic: Seq<u8>,
)
    requires
        host.wf(),
        host.stage is Claim,
    ensures
        ({
            let connection = smooth_states(
                host,
                device.capabilities().encoded(),
            )[8].connection();
            let announced = request(
                device,
                ctrl::CAPABILITIES,
                Some((HostCapabilities { max_size: host.max_size as u64 }).encoded()),
            ).0;
            announced.established(topic) matches DeviceAction::Establish { send_size, receiver }
                && connection.send_size == receiver.max_size && connection.receiver.max_size
                == send_size
        }),
{
    law_connect_sequence(host, device.capabilities());
    law_max_size_negotiated(
        device,
        HostCapabilities { max_size: host.max_size as u64 },
        topic,
    );
}

/// A device knows every request that a host sends.
pub proof fn law_requests_known(state: ConnectView, half: HalfCloseView, closing: Closing)
    ensures
        match state.action() {
            HostAction::Send(request) => known_out(request.request),
            HostAction::Query(request) => known_in(request.request),
            _ => true,
        },
        forall|i: int|
            0 <= i < half.requests(closing).len() ==> known_out(
                (#[trigger] half.requests(closing)[i]).request,
            ),
{
}

/// The topic of the options of the host is the topic of the receiver that the device hands
/// to its application, byte for byte.
pub proof fn law_topic_arrives(host: ConnectView, device: FunctionView)
    requires
        host.stage is Open,
        device.max_packet_size is Some,
        128 * device.max_packet_size->0 <= usize::MAX,
    ensures
        host.action() matches HostAction::Send(open) && {
            let actions = request(device, open.request, Some(open.data)).1;
            actions.len() >= 2 && (actions[actions.len() - 2] matches DeviceAction::Establish {
                send_size,
                receiver,
            } && receiver.topic == host.topic)
        },
{
    law_opened_connection(device, host.topic);
}

/// What the sending task of a host puts on the wire for any packets arrives at the receiver
/// that the device hands to its application as exactly these packets, in order, whatever
/// the size of the USB packets.
pub proof fn law_packets_reach_device(
    task: OutTaskView,
    device: FunctionView,
    topic: Seq<u8>,
    messages: Seq<Seq<u8>>,
)
    requires
        0 < task.max_packet_size,
        device.max_packet_size == Some(task.max_packet_size),
        128 * task.max_packet_size <= usize::MAX,
        forall|i: int|
            0 <= i < messages.len() ==> (#[trigger] messages[i]).len() <= capped(device.max_size),
    ensures
        ({
            let actions = request(device, ctrl::OPEN, Some(topic)).1;
            actions[actions.len() - 2] matches DeviceAction::Establish { send_size, receiver } && {
                let unit = receiver.transfer_size as nat;
                let transfers = completed_transfers(
                    put_all_on_wire(task, messages),
                    Seq::empty(),
                    task.max_packet_size as nat,
                    unit,
                );
                receive_times(
                    messages.len(),
                    transfers,
                    receiver.pending,
                    unit,
                    receiver.max_size as nat,
                ) == (
                    Seq::<u8>::empty(),
                    Seq::<Seq<u8>>::empty(),
                    messages.map_values(|message: Seq<u8>| Some(Outcome::Packet(message))),
                )
            }
        }),
{
    let mps = task.max_packet_size as nat;
    let unit = 128 * mps;
    law_opened_connection(device, topic);
    law_stream_on_wire(task, messages);
    lemma_stream_transfers(messages, mps, 128);
    law_each_packet_taken(messages, Seq::empty(), unit, capped(device.max_size) as nat);
    let stream = wire_stream(messages, unit);
    assert(stream + Seq::<Seq<u8>>::empty() =~= stream);
    let actions = request(device, ctrl::OPEN, Some(topic)).1;
    if let DeviceAction::Establish { send_size, receiver } = actions[actions.len() - 2] {
        assert(receiver.pending =~= Seq::<u8>::empty());
    }
}

/// A host and a device that have announced their limits send packets of up to these limits
/// and accept packets of up to their own.
pub proof fn law_limits_agree(host: ConnectView, device: FunctionView, topic: Seq<u8>)
    requires
        host.stage is Claim,
        device.max_packet_size is Some,
        128 * device.max_packet_size->0 <= usize::MAX,
    ensures
        ({
            let states = smooth_states(host, device.capabilities().encoded());
            let announced = request(
                device,
                ctrl::CAPABILITIES,
                Some((HostCapabilities { max_size: host.max_size as u64 }).encoded()),
            ).0;
            let actions = request(announced, ctrl::OPEN, Some(topic)).1;
            states[8].action() matches HostAction::Start(connection) && (
            actions[actions.len() - 2] matches DeviceAction::Establish { send_size, receiver } && {
                &&& send_size == host.max_size
                &&& connection.receiver.max_size == host.max_size
                &&& receiver.max_size == connection.send_size
                &&& device.max_size <= usize::MAX ==> receiver.max_size == device.max_size
            })
        }),
{
    let host_caps = HostCapabilities { max_size: host.max_size as u64 };
    law_device_capabilities_round_trip(device.capabilities());
    law_host_limit_kept(device, host_caps);
    let announced = request(device, ctrl::CAPABILITIES, Some(host_caps.encoded())).0;
    law_opened_connection(announced, topic);
    law_started_connection(smooth_states(host, device.capabilities().encoded())[8]);
}

/// Whatever happens while a host connects, the device that it opens a connection to hands a
/// receiver with the topic of the host to its application.
pub proof fn law_topic_of_options(
    host: ConnectView,
    events: Seq<HostEvent>,
    device: FunctionView,
)
    requires
        advance(host, events).stage is Open,
        device.max_packet_size is Some,
        128 * device.max_packet_size->0 <= usize::MAX,
    ensures
        advance(host, events).action() matches HostAction::Send(open) && {
            let actions = request(device, open.request, Some(open.data)).1;
            actions.len() >= 2 && (actions[actions.len() - 2] matches DeviceAction::Establish {
                send_size,
                receiver,
            } && receiver.topic == host.topic)
        },
{
    law_options_used(host, events);
    law_topic_arrives(advance(host, events), device);
}

} // verus!
