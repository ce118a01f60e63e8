//! Short-packet framing.
//!
//! There is no length header on the wire. An application packet is cut into
//! USB packets of the endpoint's maximum packet size, and ends with the first
//! USB packet that is shorter than that. A packet whose size is a multiple of
//! the maximum packet size is therefore followed by a zero-length packet.

use crate::buffer::{bytes_content, bytes_mut_content};
use bytes::{Bytes, BytesMut};
use vstd::prelude::*;

verus! {

/// The USB packets that carry one application packet: full packets followed by
/// one short packet, which may be empty.
pub open spec fn wire_packets(data: Seq<u8>, mps: nat) -> Seq<Seq<u8>>
    decreases data.len(),
{
    if mps == 0 || data.len() < mps {
        seq![data]
    } else {
        seq![data.take(mps as int)] + wire_packets(data.skip(mps as int), mps)
    }
}

/// The USB packets that carry a sequence of application packets.
pub open spec fn wire_stream(messages: Seq<Seq<u8>>, mps: nat) -> Seq<Seq<u8>>
    decreases messages.len(),
{
    if messages.len() == 0 {
        Seq::empty()
    } else {
        wire_packets(messages[0], mps) + wire_stream(messages.drop_first(), mps)
    }
}

/// The USB packets into which the controller cuts one OUT transfer.
pub open spec fn transfer_packets(transfer: Seq<u8>, mps: nat) -> Seq<Seq<u8>>
    decreases transfer.len(),
{
    if mps == 0 || transfer.len() <= mps {
        seq![transfer]
    } else {
        seq![transfer.take(mps as int)] + transfer_packets(transfer.skip(mps as int), mps)
    }
}

/// Whether an application packet of `len` bytes that is sent as one transfer
/// must be followed by a zero-length packet.
pub open spec fn terminator_needed(len: nat, mps: nat) -> bool {
    len > 0 && len % mps == 0
}

/// The IN transfers that complete when the controller receives `packets` into
/// buffers of `unit` bytes, the current one already holding `filled`: a transfer
/// completes on a short packet or when its buffer is full.
pub open spec fn completed_transfers(
    packets: Seq<Seq<u8>>,
    filled: Seq<u8>,
    mps: nat,
    unit: nat,
) -> Seq<Seq<u8>>
    decreases packets.len(),
{
    if packets.len() == 0 {
        Seq::empty()
    } else {
        let grown = filled + packets[0];
        if packets[0].len() < mps || grown.len() >= unit {
            seq![grown] + completed_transfers(packets.drop_first(), Seq::empty(), mps, unit)
        } else {
            completed_transfers(packets.drop_first(), grown, mps, unit)
        }
    }
}

/// What a receiver reports when an application packet ends.
pub enum Outcome {
    /// The complete application packet.
    Packet(Seq<u8>),
    /// The data received so far exceeded the maximum size and was discarded.
    TooLarge,
}

/// What one received transfer does to a receiver that holds `buffer`, takes
/// transfers of up to `unit` bytes and accepts packets of up to `max` bytes:
/// the buffer afterwards and the report, if there is one.
pub open spec fn receive(buffer: Seq<u8>, transfer: Seq<u8>, unit: nat, max: nat) -> (
    Seq<u8>,
    Option<Outcome>,
) {
    let joined = buffer + transfer;
    if joined.len() > max {
        (Seq::empty(), Some(Outcome::TooLarge))
    } else if transfer.len() < unit {
        (Seq::empty(), Some(Outcome::Packet(joined)))
    } else {
        (joined, None)
    }
}

/// All reports of a receiver for a sequence of transfers.
pub open spec fn outcomes(transfers: Seq<Seq<u8>>, buffer: Seq<u8>, unit: nat, max: nat) -> Seq<
    Outcome,
>
    decreases transfers.len(),
{
    if transfers.len() == 0 {
        Seq::empty()
    } else {
        let (next, report) = receive(buffer, transfers[0], unit, max);
        let rest = outcomes(transfers.drop_first(), next, unit, max);
        match report {
            Some(outcome) => seq![outcome] + rest,
            None => rest,
        }
    }
}

/// What a receiver does that takes transfers from `queue` until an application packet
/// ends: the buffer and the queue afterwards and the report, or none if the queue ran
/// empty.
pub open spec fn receive_next(queue: Seq<Seq<u8>>, buffer: Seq<u8>, unit: nat, max: nat) -> (
    Seq<u8>,
    Seq<Seq<u8>>,
    Option<Outcome>,
)
    decreases queue.len(),
{
    if queue.len() == 0 {
        (buffer, queue, None)
    } else {
        let (next, report) = receive(buffer, queue[0], unit, max);
        match report {
            Some(outcome) => (next, queue.drop_first(), Some(outcome)),
            None => receive_next(queue.drop_first(), next, unit, max),
        }
    }
}

/// What a receiver does that takes application packets from `queue` several times in
/// succession: the buffer and the queue afterwards and all reports.
pub open spec fn receive_times(
    times: nat,
    queue: Seq<Seq<u8>>,
    buffer: Seq<u8>,
    unit: nat,
    max: nat,
) -> (Seq<u8>, Seq<Seq<u8>>, Seq<Option<Outcome>>)
    decreases times,
{
    if times == 0 {
        (buffer, queue, Seq::empty())
    } else {
        let (next, rest, report) = receive_next(queue, buffer, unit, max);
        let (end, left, reports) = receive_times((times - 1) as nat, rest, next, unit, max);
        (end, left, seq![report] + reports)
    }
}

/// The reports of a receiver that got exactly `messages`.
pub open spec fn delivered(messages: Seq<Seq<u8>>) -> Seq<Outcome> {
    messages.map_values(|message: Seq<u8>| Outcome::Packet(message))
}

/// The contents of a list of buffers.
pub open spec fn contents(parts: Seq<Bytes>) -> Seq<Seq<u8>> {
    parts.map_values(|part: Bytes| bytes_content(part))
}

/// The contents of a list of writable buffers.
pub open spec fn mut_contents(parts: Seq<BytesMut>) -> Seq<Seq<u8>> {
    parts.map_values(|part: BytesMut| bytes_mut_content(part))
}

/// One transfer followed by a zero-length packet where one is needed puts the
/// same USB packets on the wire as cutting the application packet at every
/// multiple of the maximum packet size.
pub proof fn law_terminator_ends_packet(data: Seq<u8>, mps: nat)
    requires
        mps > 0,
    ensures
        wire_packets(data, mps) == transfer_packets(data, mps) + (if terminator_needed(
            data.len(),
            mps,
        ) {
            transfer_packets(Seq::empty(), mps)
        } else {
            Seq::empty()
        }),
    decreases data.len(),
{
    let step = mps as int;
    if data.len() < mps {
        assert(data.len() > 0 ==> data.len() % mps == data.len()) by (nonlinear_arith)
            requires
                data.len() < mps,
        ;
        assert(seq![data] + Seq::<Seq<u8>>::empty() =~= seq![data]);
    } else if data.len() == mps {
        assert(mps % mps == 0) by (nonlinear_arith)
            requires
                mps > 0,
        ;
        assert(data.take(step) =~= data);
        assert(data.skip(step) =~= Seq::<u8>::empty());
        assert(wire_packets(data.skip(step), mps) == seq![Seq::<u8>::empty()]);
        assert(transfer_packets(Seq::<u8>::empty(), mps) == seq![Seq::<u8>::empty()]);
    } else {
        law_terminator_ends_packet(data.skip(step), mps);
        assert((data.len() - mps) % (mps as int) == data.len() as int % (mps as int)) by {
            vstd::arithmetic::div_mod::lemma_mod_sub_multiples_vanish(data.len() as int, mps as int);
        }
        assert(wire_packets(data, mps) =~= transfer_packets(data, mps) + (if terminator_needed(
            data.len(),
            mps,
        ) {
            transfer_packets(Seq::empty(), mps)
        } else {
            Seq::empty()
        }));
    }
}

/// A receiver that is in the middle of an application packet reports it when
/// the rest of it has arrived.
proof fn lemma_packet_completes(
    message: Seq<u8>,
    rest: Seq<Seq<u8>>,
    buffer: Seq<u8>,
    unit: nat,
    max: nat,
)
    requires
        unit > 0,
        buffer.len() + message.len() <= max,
    ensures
        outcomes(wire_packets(message, unit) + rest, buffer, unit, max) == seq![
            Outcome::Packet(buffer + message),
        ] + outcomes(rest, Seq::empty(), unit, max),
    decreases message.len(),
{
    let packets = wire_packets(message, unit) + rest;
    if message.len() < unit {
        assert(packets[0] == message);
        assert(packets.drop_first() =~= rest);
    } else {
        let head = message.take(unit as int);
        let tail = message.skip(unit as int);
        assert(packets[0] == head);
        assert(packets.drop_first() =~= wire_packets(tail, unit) + rest);
        assert(buffer + message =~= (buffer + head) + tail);
        lemma_packet_completes(tail, rest, buffer + head, unit, max);
    }
}

/// Message boundaries are preserved: a receiver whose transfers hold one USB
/// packet each reports exactly the application packets that were sent, in
/// order, as long as none exceeds its maximum size.
pub proof fn law_packets_arrive(messages: Seq<Seq<u8>>, mps: nat, max: nat)
    requires
        mps > 0,
        forall|i: int| 0 <= i < messages.len() ==> (#[trigger] messages[i]).len() <= max,
    ensures
        outcomes(wire_stream(messages, mps), Seq::empty(), mps, max) == delivered(messages),
    decreases messages.len(),
{
    if messages.len() == 0 {
        assert(delivered(messages) =~= Seq::<Outcome>::empty());
    } else {
        let rest = messages.drop_first();
        assert forall|i: int| 0 <= i < rest.len() implies (#[trigger] rest[i]).len() <= max by {
            assert(rest[i] == messages[i + 1]);
        }
        law_packets_arrive(rest, mps, max);
        lemma_packet_completes(messages[0], wire_stream(rest, mps), Seq::empty(), mps, max);
        assert(Seq::<u8>::empty() + messages[0] =~= messages[0]);
        assert(delivered(messages) =~= seq![Outcome::Packet(messages[0])] + delivered(rest));
    }
}

/// Taking application packets from a queue one after the other gives the reports of all
/// transfers in order. Then nothing is left in the queue that ends a packet.
pub proof fn law_taken_in_order(queue: Seq<Seq<u8>>, buffer: Seq<u8>, unit: nat, max: nat)
    ensures
        ({
            let reports = outcomes(queue, buffer, unit, max);
            let (end, left, taken) = receive_times(reports.len(), queue, buffer, unit, max);
            &&& taken == reports.map_values(|report: Outcome| Some(report))
            &&& receive_next(left, end, unit, max).1.len() == 0
            &&& receive_next(left, end, unit, max).2 is None
        }),
    decreases queue.len(),
{
    let reports = outcomes(queue, buffer, unit, max);
    let some = |report: Outcome| Some(report);
    if queue.len() == 0 {
        assert(reports.map_values(some) =~= Seq::<Option<Outcome>>::empty());
    } else {
        let (next, report) = receive(buffer, queue[0], unit, max);
        let rest = outcomes(queue.drop_first(), next, unit, max);
        law_taken_in_order(queue.drop_first(), next, unit, max);
        match report {
            Some(outcome) => {
                assert(reports.map_values(some) =~= seq![Some(outcome)] + rest.map_values(some));
            },
            None => {
                assert(reports == rest);
                if reports.len() > 0 {
                    assert(receive_next(queue, buffer, unit, max) == receive_next(
                        queue.drop_first(),
                        next,
                        unit,
                        max,
                    ));
                }
            },
        }
    }
}

/// A receiver that is in the middle of an application packet takes the rest of it, and
/// nothing more, from the queue.
proof fn lemma_packet_taken(
    message: Seq<u8>,
    rest: Seq<Seq<u8>>,
    buffer: Seq<u8>,
    unit: nat,
    max: nat,
)
    requires
        unit > 0,
        buffer.len() + message.len() <= max,
    ensures
        receive_next(wire_packets(message, unit) + rest, buffer, unit, max) == (
            Seq::<u8>::empty(),
            rest,
            Some(Outcome::Packet(buffer + message)),
        ),
    decreases message.len(),
{
    let packets = wire_packets(message, unit) + rest;
    if message.len() < unit {
        assert(packets[0] == message);
        assert(packets.drop_first() =~= rest);
    } else {
        let head = message.take(unit as int);
        let tail = message.skip(unit as int);
        assert(packets[0] == head);
        assert(packets.drop_first() =~= wire_packets(tail, unit) + rest);
        assert(buffer + message =~= (buffer + head) + tail);
        lemma_packet_taken(tail, rest, buffer + head, unit, max);
    }
}

/// When the queue holds application packets, each as full transfers followed by a short
/// one, taking as many packets from it gives exactly these packets: with the same bytes,
/// none joined with another, none left out when it is empty, in the same order. What
/// follows them in the queue is not touched.
pub proof fn law_each_packet_taken(
    messages: Seq<Seq<u8>>,
    rest: Seq<Seq<u8>>,
    unit: nat,
    max: nat,
)
    requires
        unit > 0,
        forall|i: int| 0 <= i < messages.len() ==> (#[trigger] messages[i]).len() <= max,
    ensures
        receive_times(
            messages.len(),
            wire_stream(messages, unit) + rest,
            Seq::empty(),
            unit,
            max,
        ) == (
            Seq::<u8>::empty(),
            rest,
            messages.map_values(|message: Seq<u8>| Some(Outcome::Packet(message))),
        ),
    decreases messages.len(),
{
    let packet = |message: Seq<u8>| Some(Outcome::Packet(message));
    let queue = wire_stream(messages, unit) + rest;
    if messages.len() == 0 {
        assert(queue =~= rest);
        assert(messages.map_values(packet) =~= Seq::<Option<Outcome>>::empty());
    } else {
        let later = messages.drop_first();
        assert forall|i: int| 0 <= i < later.len() implies (#[trigger] later[i]).len() <= max by {
            assert(later[i] == messages[i + 1]);
        }
        law_each_packet_taken(later, rest, unit, max);
        let following = wire_stream(later, unit) + rest;
        assert(queue =~= wire_packets(messages[0], unit) + following);
        lemma_packet_taken(messages[0], following, Seq::empty(), unit, max);
        assert(Seq::<u8>::empty() + messages[0] =~= messages[0]);
        assert(messages.map_values(packet) =~= seq![packet(messages[0])] + later.map_values(
            packet,
        ));
    }
}

/// It does not matter when transfers arrive: a receiver that found no complete packet in
/// the queue goes on with the transfers that are queued later as if all had been there, and
/// transfers that are queued behind a packet do not change it.
pub proof fn law_later_transfers(
    first: Seq<Seq<u8>>,
    second: Seq<Seq<u8>>,
    buffer: Seq<u8>,
    unit: nat,
    max: nat,
)
    ensures
        receive_next(first + second, buffer, unit, max) == ({
            let (pending, rest, report) = receive_next(first, buffer, unit, max);
            if report is Some {
                (pending, rest + second, report)
            } else {
                receive_next(second, pending, unit, max)
            }
        }),
    decreases first.len(),
{
    if first.len() == 0 {
        assert(first + second =~= second);
    } else {
        let (next, _) = receive(buffer, first[0], unit, max);
        assert((first + second).drop_first() =~= first.drop_first() + second);
        law_later_transfers(first.drop_first(), second, next, unit, max);
    }
}

/// Transfers do not change what was reported before them.
pub(crate) proof fn lemma_reports_stay(
    first: Seq<Seq<u8>>,
    second: Seq<Seq<u8>>,
    buffer: Seq<u8>,
    unit: nat,
    max: nat,
)
    ensures
        outcomes(first, buffer, unit, max).is_prefix_of(
            outcomes(first + second, buffer, unit, max),
        ),
    decreases first.len(),
{
    if first.len() > 0 {
        let (next, _) = receive(buffer, first[0], unit, max);
        assert((first + second).drop_first() =~= first.drop_first() + second);
        lemma_reports_stay(first.drop_first(), second, next, unit, max);
        assert(outcomes(first, buffer, unit, max).is_prefix_of(
            outcomes(first + second, buffer, unit, max),
        ));
    }
}

/// Whatever is received, no packet that exceeds the maximum size is delivered.
pub proof fn law_delivered_within_limit(
    transfers: Seq<Seq<u8>>,
    buffer: Seq<u8>,
    unit: nat,
    max: nat,
)
    ensures
        forall|i: int|
            0 <= i < outcomes(transfers, buffer, unit, max).len() ==> (#[trigger] outcomes(
                transfers,
                buffer,
                unit,
                max,
            )[i] matches Outcome::Packet(data) ==> data.len() <= max),
    decreases transfers.len(),
{
    if transfers.len() > 0 {
        let (next, report) = receive(buffer, transfers[0], unit, max);
        let rest = outcomes(transfers.drop_first(), next, unit, max);
        law_delivered_within_limit(transfers.drop_first(), next, unit, max);
        let all = outcomes(transfers, buffer, unit, max);
        assert forall|i: int| 0 <= i < all.len() implies (
        #[trigger] all[i] matches Outcome::Packet(data) ==> data.len() <= max) by {
            if report is Some && i > 0 {
                assert(all[i] == rest[i - 1]);
            } else if report is None {
                assert(all[i] == rest[i]);
            }
        }
    }
}

/// A packet that exceeds the maximum size is reported as soon as too much data of it has
/// arrived.
pub proof fn law_oversize_reported(message: Seq<u8>, buffer: Seq<u8>, unit: nat, max: nat)
    requires
        unit > 0,
        buffer.len() <= max < buffer.len() + message.len(),
    ensures
        outcomes(wire_packets(message, unit), buffer, unit, max).len() > 0,
        outcomes(wire_packets(message, unit), buffer, unit, max)[0] is TooLarge,
    decreases message.len(),
{
    let packets = wire_packets(message, unit);
    if message.len() >= unit {
        let head = message.take(unit as int);
        let tail = message.skip(unit as int);
        assert(packets[0] == head);
        assert(packets.drop_first() =~= wire_packets(tail, unit));
        if buffer.len() + unit <= max {
            law_oversize_reported(tail, buffer + head, unit, max);
        }
    }
}

/// Received into larger buffers, an application packet completes transfers as
/// if the buffer size were the maximum packet size.
proof fn lemma_transfers_complete(
    message: Seq<u8>,
    rest: Seq<Seq<u8>>,
    filled: Seq<u8>,
    mps: nat,
    count: nat,
    used: nat,
)
    requires
        mps > 0,
        used < count,
        filled.len() == used * mps,
    ensures
        completed_transfers(wire_packets(message, mps) + rest, filled, mps, count * mps)
            == wire_packets(filled + message, count * mps) + completed_transfers(
            rest,
            Seq::empty(),
            mps,
            count * mps,
        ),
    decreases message.len(),
{
    let unit = count * mps;
    let packets = wire_packets(message, mps) + rest;
    assert((used + 1) * mps <= count * mps) by (nonlinear_arith)
        requires
            used < count,
    ;
    assert((used + 1) * mps == used * mps + mps) by (nonlinear_arith);
    if message.len() < mps {
        assert(packets[0] == message);
        assert(packets.drop_first() =~= rest);
    } else {
        let head = message.take(mps as int);
        let tail = message.skip(mps as int);
        let grown = filled + head;
        assert(packets[0] == head);
        assert(packets.drop_first() =~= wire_packets(tail, mps) + rest);
        assert(filled + message =~= grown + tail);
        if used + 1 == count {
            assert((filled + message).take(unit as int) =~= grown);
            assert((filled + message).skip(unit as int) =~= tail);
            assert(0 * mps == 0) by (nonlinear_arith);
            lemma_transfers_complete(tail, rest, Seq::empty(), mps, count, 0);
            assert(Seq::<u8>::empty() + tail =~= tail);
            assert(completed_transfers(packets, filled, mps, unit) =~= wire_packets(
                filled + message,
                unit,
            ) + completed_transfers(rest, Seq::empty(), mps, unit));
        } else {
            assert((used + 2) * mps <= count * mps) by (nonlinear_arith)
                requires
                    used + 2 <= count,
            ;
            assert((used + 2) * mps == (used + 1) * mps + mps) by (nonlinear_arith);
            lemma_transfers_complete(tail, rest, grown, mps, count, used + 1);
        }
    }
}

/// The transfers that complete when a stream of application packets is received
/// into buffers of `count` USB packets.
pub(crate) proof fn lemma_stream_transfers(messages: Seq<Seq<u8>>, mps: nat, count: nat)
    requires
        mps > 0,
        count > 0,
    ensures
        completed_transfers(wire_stream(messages, mps), Seq::empty(), mps, count * mps)
            == wire_stream(messages, count * mps),
    decreases messages.len(),
{
    if messages.len() > 0 {
        let rest = messages.drop_first();
        lemma_stream_transfers(rest, mps, count);
        assert(0 * mps == 0) by (nonlinear_arith);
        lemma_transfers_complete(
            messages[0],
            wire_stream(rest, mps),
            Seq::empty(),
            mps,
            count,
            0,
        );
        assert(Seq::<u8>::empty() + messages[0] =~= messages[0]);
    }
}

/// No transfer is larger than its buffer.
pub(crate) proof fn lemma_transfer_sizes(messages: Seq<Seq<u8>>, mps: nat, count: nat)
    requires
        mps > 0,
        count > 0,
    ensures
        ({
            let transfers = completed_transfers(
                wire_stream(messages, mps),
                Seq::empty(),
                mps,
                count * mps,
            );
            forall|i: int|
                0 <= i < transfers.len() ==> (#[trigger] transfers[i]).len() <= count * mps
        }),
{
    assert(count * mps > 0) by (nonlinear_arith)
        requires
            mps > 0,
            count > 0,
    ;
    lemma_stream_transfers(messages, mps, count);
    lemma_stream_sizes(messages, count * mps);
}

proof fn lemma_packet_sizes(data: Seq<u8>, mps: nat)
    requires
        mps > 0,
    ensures
        forall|i: int|
            0 <= i < wire_packets(data, mps).len() ==> (#[trigger] wire_packets(data, mps)[i]).len()
                <= mps,
    decreases data.len(),
{
    if data.len() >= mps {
        let tail = wire_packets(data.skip(mps as int), mps);
        lemma_packet_sizes(data.skip(mps as int), mps);
        assert forall|i: int| 0 <= i < wire_packets(data, mps).len() implies (
        #[trigger] wire_packets(data, mps)[i]).len() <= mps by {
            if i > 0 {
                assert(wire_packets(data, mps)[i] == tail[i - 1]);
            }
        }
    }
}

proof fn lemma_stream_sizes(messages: Seq<Seq<u8>>, mps: nat)
    requires
        mps > 0,
    ensures
        forall|i: int|
            0 <= i < wire_stream(messages, mps).len() ==> (#[trigger] wire_stream(
                messages,
                mps,
            )[i]).len() <= mps,
    decreases messages.len(),
{
    if messages.len() > 0 {
        let head = wire_packets(messages[0], mps);
        let tail = wire_stream(messages.drop_first(), mps);
        lemma_packet_sizes(messages[0], mps);
        lemma_stream_sizes(messages.drop_first(), mps);
        assert forall|i: int| 0 <= i < wire_stream(messages, mps).len() implies (
        #[trigger] wire_stream(messages, mps)[i]).len() <= mps by {
            if i < head.len() {
                assert(wire_stream(messages, mps)[i] == head[i]);
            } else {
                assert(wire_stream(messages, mps)[i] == tail[i - head.len()]);
            }
        }
    }
}

/// Message boundaries are preserved also by a receiver whose transfers hold
/// several USB packets each: it reports exactly the application packets that
/// were sent, in order, as long as none exceeds its maximum size.
pub proof fn law_transfers_arrive(messages: Seq<Seq<u8>>, mps: nat, count: nat, max: nat)
    requires
        mps > 0,
        count > 0,
        forall|i: int| 0 <= i < messages.len() ==> (#[trigger] messages[i]).len() <= max,
    ensures
        outcomes(
            completed_transfers(wire_stream(messages, mps), Seq::empty(), mps, count * mps),
            Seq::empty(),
            count * mps,
            max,
        ) == delivered(messages),
{
    assert(count * mps > 0) by (nonlinear_arith)
        requires
            mps > 0,
            count > 0,
    ;
    lemma_stream_transfers(messages, mps, count);
    law_packets_arrive(messages, count * mps, max);
}

/// The number of bytes in a list of byte strings.
pub open spec fn total_len(parts: Seq<Seq<u8>>) -> nat
    decreases parts.len(),
{
    if parts.len() == 0 {
        0
    } else {
        parts[0].len() + total_len(parts.drop_first())
    }
}

proof fn lemma_total_len_concat(first: Seq<Seq<u8>>, second: Seq<Seq<u8>>)
    ensures
        total_len(first + second) == total_len(first) + total_len(second),
    decreases first.len(),
{
    if first.len() == 0 {
        assert(first + second =~= second);
    } else {
        lemma_total_len_concat(first.drop_first(), second);
        assert((first + second).drop_first() =~= first.drop_first() + second);
    }
}

proof fn lemma_wire_packets_len(data: Seq<u8>, mps: nat)
    ensures
        total_len(wire_packets(data, mps)) == data.len(),
    decreases data.len(),
{
    reveal_with_fuel(total_len, 2);
    if mps > 0 && data.len() >= mps {
        let head = seq![data.take(mps as int)];
        lemma_wire_packets_len(data.skip(mps as int), mps);
        lemma_total_len_concat(head, wire_packets(data.skip(mps as int), mps));
    }
}

proof fn lemma_wire_stream_len(messages: Seq<Seq<u8>>, mps: nat)
    ensures
        total_len(wire_stream(messages, mps)) == total_len(messages),
    decreases messages.len(),
{
    if messages.len() > 0 {
        lemma_wire_packets_len(messages[0], mps);
        lemma_wire_stream_len(messages.drop_first(), mps);
        lemma_total_len_concat(
            wire_packets(messages[0], mps),
            wire_stream(messages.drop_first(), mps),
        );
    }
}

/// Framing adds no bytes: a receiver gets as many bytes as the application packets hold,
/// whatever the size of its transfers.
pub proof fn law_byte_count(messages: Seq<Seq<u8>>, mps: nat, count: nat)
    requires
        mps > 0,
        count > 0,
    ensures
        total_len(
            completed_transfers(wire_stream(messages, mps), Seq::empty(), mps, count * mps),
        ) == total_len(messages),
{
    lemma_stream_transfers(messages, mps, count);
    lemma_wire_stream_len(messages, count * mps);
}

/// Whether an application packet of `len` bytes, sent as one transfer, must be
/// terminated by a zero-length packet.
pub fn needs_terminator(len: usize, mps: usize) -> (needed: bool)
    requires
        mps > 0,
    ensures
        needed == terminator_needed(len as nat, mps as nat),
{
    len > 0 && len % mps == 0
}

/// Cuts an application packet into the USB packets that carry it.
pub fn split_packets(data: Bytes, mps: usize) -> (parts: Vec<Bytes>)
    requires
        mps > 0,
    ensures
        contents(parts@) == wire_packets(bytes_content(data), mps as nat),
{
    let ghost whole = bytes_content(data);
    let mut rest = data;
    let mut parts: Vec<Bytes> = Vec::new();
    loop
        invariant
            mps > 0,
            whole == bytes_content(data),
            wire_packets(whole, mps as nat) == contents(parts@) + wire_packets(
                bytes_content(rest),
                mps as nat,
            ),
        decreases bytes_content(rest).len(),
    {
        let len: usize = rest.len();
        let at: usize = if len < mps { len } else { mps };
        let ghost before = bytes_content(rest);
        let ghost done = contents(parts@);
        let part = rest.split_to(at);
        parts.push(part);
        assert(contents(parts@) =~= done.push(bytes_content(part)));
        if at != mps {
            assert(before.take(at as int) =~= before);
            assert(contents(parts@) =~= wire_packets(whole, mps as nat));
            return parts;
        }
        assert(contents(parts@) + wire_packets(bytes_content(rest), mps as nat) =~= done
            + wire_packets(before, mps as nat));
    }
}

/// What a [`Reassembler`] makes of one transfer.
pub enum Assembled {
    /// The application packet is not complete yet.
    More,
    /// The complete application packet.
    Packet(BytesMut),
    /// The maximum size was exceeded; the data was discarded.
    TooLarge,
}

impl Assembled {
    /// The report that this makes, if any.
    pub open spec fn outcome(self) -> Option<Outcome> {
        match self {
            Assembled::More => None,
            Assembled::Packet(data) => Some(Outcome::Packet(bytes_mut_content(data))),
            Assembled::TooLarge => Some(Outcome::TooLarge),
        }
    }
}

/// Joins received transfers into application packets.
pub struct Reassembler {
    buffer: BytesMut,
    max_size: usize,
    unit: usize,
}

impl Reassembler {
    /// The data of the application packet that is being received.
    pub closed spec fn pending(self) -> Seq<u8> {
        bytes_mut_content(self.buffer)
    }

    /// The maximum size of an application packet.
    pub closed spec fn limit(self) -> usize {
        self.max_size
    }

    /// The size of a transfer that does not end an application packet.
    pub closed spec fn transfer_size(self) -> usize {
        self.unit
    }

    /// Creates a reassembler for transfers of up to `unit` bytes and packets of
    /// up to `max_size` bytes.
    pub fn new(unit: usize, max_size: usize) -> (reassembler: Self)
        ensures
            reassembler.pending() == Seq::<u8>::empty(),
            reassembler.limit() == max_size,
            reassembler.transfer_size() == unit,
    {
        Reassembler { buffer: BytesMut::new(), max_size, unit }
    }

    /// The number of bytes received of the current application packet.
    pub fn pending_len(&self) -> (len: usize)
        ensures
            len == self.pending().len(),
    {
        self.buffer.len()
    }

    /// The maximum size of an application packet.
    pub fn max_size(&self) -> (max_size: usize)
        ensures
            max_size == self.limit(),
    {
        self.max_size
    }

    /// Sets the maximum size of an application packet.
    pub fn set_max_size(&mut self, max_size: usize)
        ensures
            final(self).limit() == max_size,
            final(self).pending() == old(self).pending(),
            final(self).transfer_size() == old(self).transfer_size(),
    {
        self.max_size = max_size;
    }

    /// Takes in one received transfer.
    pub fn push(&mut self, transfer: BytesMut) -> (assembled: Assembled)
        requires
            old(self).pending().len() + bytes_mut_content(transfer).len() <= isize::MAX,
        ensures
            (final(self).pending(), assembled.outcome()) == receive(
                old(self).pending(),
                bytes_mut_content(transfer),
                old(self).transfer_size() as nat,
                old(self).limit() as nat,
            ),
            final(self).limit() == old(self).limit(),
            final(self).transfer_size() == old(self).transfer_size(),
    {
        let len: usize = transfer.len();
        self.buffer.unsplit(transfer);
        if self.buffer.len() > self.max_size {
            self.buffer.clear();
            return Assembled::TooLarge;
        }
        if len < self.unit {
            let mut packet = BytesMut::new();
            std::mem::swap(&mut self.buffer, &mut packet);
            return Assembled::Packet(packet);
        }
        Assembled::More
    }
}

/// The USB packets of an application packet are its consecutive pieces: all but the last
/// one are full, and the last one is shorter, possibly empty.
pub proof fn law_wire_pieces(data: Seq<u8>, mps: nat, i: int)
    requires
        mps > 0,
        0 <= i < wire_packets(data, mps).len(),
    ensures
        wire_packets(data, mps).len() == data.len() / mps + 1,
        i * mps <= data.len(),
        i + 1 < wire_packets(data, mps).len() ==> (i + 1) * mps <= data.len()
            && wire_packets(data, mps)[i] == data.subrange(i * mps, (i + 1) * mps),
        i + 1 == wire_packets(data, mps).len() ==> wire_packets(data, mps)[i] == data.skip(
            i * mps,
        ) && wire_packets(data, mps)[i].len() < mps,
    decreases data.len(),
{
    let step = mps as int;
    let packets = wire_packets(data, mps);
    lemma_wire_count(data, mps);
    if data.len() < mps {
        assert(data.skip(0) =~= data);
        assert(0 * step == 0) by (nonlinear_arith);
        assert(i == 0);
    } else if i == 0 {
        assert(0 * step == 0 && 1 * step == step) by (nonlinear_arith);
        assert(data.subrange(0, step) =~= data.take(step));
        lemma_wire_count(data.skip(step), mps);
        assert(packets.len() > 1);
    } else {
        let rest = data.skip(step);
        law_wire_pieces(rest, mps, i - 1);
        lemma_wire_count(rest, mps);
        assert(packets[i] == wire_packets(rest, mps)[i - 1]);
        assert((i - 1) * step + step == i * step) by (nonlinear_arith);
        assert(i * step + step == (i + 1) * step) by (nonlinear_arith);
        if i + 1 < packets.len() {
            assert(rest.subrange((i - 1) * step, i * step) =~= data.subrange(
                i * step,
                (i + 1) * step,
            ));
        } else {
            assert(rest.skip((i - 1) * step) =~= data.skip(i * step));
        }
    }
}

proof fn lemma_wire_count(data: Seq<u8>, mps: nat)
    requires
        mps > 0,
    ensures
        wire_packets(data, mps).len() == data.len() / mps + 1,
    decreases data.len(),
{
    let len = data.len() as int;
    let step = mps as int;
    if data.len() < mps {
        vstd::arithmetic::div_mod::lemma_basic_div(len, step);
    } else {
        lemma_wire_count(data.skip(step), mps);
        vstd::arithmetic::div_mod::lemma_div_minus_one(len, step);
    }
}

/// A zero-length packet is needed exactly after a packet that fills at least one USB packet
/// and leaves none partly filled.
pub proof fn law_terminator_multiples(len: nat, mps: nat)
    requires
        mps > 0,
    ensures
        terminator_needed(len, mps) <==> exists|full: nat| full > 0 && len == #[trigger] (full
            * mps),
{
    let step = mps as int;
    if terminator_needed(len, mps) {
        let full = len / mps;
        vstd::arithmetic::div_mod::lemma_fundamental_div_mod(len as int, step);
        assert(step * (len as int / step) == full * mps) by (nonlinear_arith)
            requires
                full == len as int / step,
                mps == step,
        ;
        assert(full > 0) by (nonlinear_arith)
            requires
                len == full * mps,
                len > 0,
        ;
    }
    if exists|full: nat| full > 0 && len == #[trigger] (full * mps) {
        let full = choose|full: nat| full > 0 && len == #[trigger] (full * mps);
        vstd::arithmetic::div_mod::lemma_mod_multiples_basic(full as int, step);
        assert(full * mps > 0) by (nonlinear_arith)
            requires
                full > 0,
                mps > 0,
        ;
    }
}

/// A transfer is added to what was received before. If that is too much, it is discarded
/// and reported. Otherwise a transfer that is not full ends the packet, and a full one
/// leaves it open.
pub proof fn law_transfer_added(buffer: Seq<u8>, transfer: Seq<u8>, unit: nat, max: nat)
    ensures
        ({
            let (next, report) = receive(buffer, transfer, unit, max);
            let size = buffer.len() + transfer.len();
            &&& report == Some(Outcome::TooLarge) <==> size > max
            &&& report is Some && report->0 is Packet <==> size <= max && transfer.len() < unit
            &&& report is None <==> size <= max && transfer.len() >= unit
            &&& report is Some ==> next.len() == 0
            &&& report is None ==> next == buffer + transfer
            &&& report matches Some(Outcome::Packet(data)) ==> data == buffer + transfer
        }),
{
}

/// After a packet that was too large, the next one is received as if nothing had been
/// before it.
pub proof fn law_recovers_from_oversize(
    buffer: Seq<u8>,
    transfer: Seq<u8>,
    rest: Seq<Seq<u8>>,
    unit: nat,
    max: nat,
)
    requires
        buffer.len() + transfer.len() > max,
    ensures
        receive_next(seq![transfer] + rest, buffer, unit, max) == (
            Seq::<u8>::empty(),
            rest,
            Some(Outcome::TooLarge),
        ),
{
    let queue = seq![transfer] + rest;
    assert(queue[0] == transfer);
    assert(queue.drop_first() =~= rest);
}

/// Lists of buffers are known by the bytes of each buffer.
pub proof fn law_contents(parts: Seq<Bytes>, mut_parts: Seq<BytesMut>)
    ensures
        contents(parts).len() == parts.len(),
        forall|i: int|
            0 <= i < parts.len() ==> #[trigger] contents(parts)[i] == bytes_content(parts[i]),
        mut_contents(mut_parts).len() == mut_parts.len(),
        forall|i: int|
            0 <= i < mut_parts.len() ==> #[trigger] mut_contents(mut_parts)[i]
                == bytes_mut_content(mut_parts[i]),
{
}

/// What a reassembler makes of a transfer reports the whole packet or that it was too large,
/// and otherwise nothing.
pub proof fn law_assembled_reports(assembled: Assembled)
    ensures
        assembled is More <==> assembled.outcome() is None,
        assembled is TooLarge <==> assembled.outcome() == Some(Outcome::TooLarge),
        assembled matches Assembled::Packet(data) ==> assembled.outcome() == Some(
            Outcome::Packet(bytes_mut_content(data)),
        ),
{
}

} // verus!
