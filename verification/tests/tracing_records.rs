//! Tests of packet tracing.

use upc::trace::{Point, Record, Scope, Tracer, What};

#[test]
fn packets_are_numbered() {
    let mut tracer = Tracer::host_out("device:1");
    assert_eq!(tracer.point(), Point::HostOut);
    assert_eq!(tracer.name(), Some("device:1"));
    assert_eq!(tracer.sending_data(5).scope, Scope::NoPacket);
    tracer.next();
    assert_eq!(tracer.sending_data(5), Record { scope: Scope::Packet(0), what: What::SendingData(5) });
    assert_eq!(tracer.send_part(4), Record { scope: Scope::Packet(0), what: What::SendPart(4) });
    assert_eq!(tracer.send_terminator(), Record { scope: Scope::Packet(0), what: What::SendTerminator });
    assert_eq!(tracer.data_finished(), Record { scope: Scope::Packet(0), what: What::DataFinished });
    tracer.next();
    assert_eq!(tracer.received_data(1), Record { scope: Scope::Packet(1), what: What::ReceivedData(1) });
    assert_eq!(tracer.dequeued_part(2), Record { scope: Scope::Packet(1), what: What::DequeuedPart(2) });
    assert_eq!(tracer.dequeing(), Record { scope: Scope::Packet(1), what: What::Dequeing });
    assert_eq!(tracer.dequeued(3), Record { scope: Scope::Packet(1), what: What::Dequeued(3) });
    assert_eq!(
        tracer.deque_transfer(4, true),
        Record { scope: Scope::Packet(1), what: What::DequeTransfer { len: 4, short: true } }
    );
    assert_eq!(tracer.received_packet(6), Record { scope: Scope::Channel, what: What::ReceivedPacket(6) });
}

#[test]
fn enqueued_packets_are_numbered() {
    let mut tracer = Tracer::device_enqueue();
    assert_eq!(tracer.name(), None);
    assert_eq!(tracer.enqueued(7), Record { scope: Scope::Packet(0), what: What::Enqueued(7) });
    assert_eq!(tracer.enqueued(8), Record { scope: Scope::Packet(1), what: What::Enqueued(8) });
    tracer.next();
    assert_eq!(tracer.dequeing().scope, Scope::Packet(2));
}

#[test]
fn points_of_channels() {
    let points = [
        (Tracer::device_enqueue(), Point::DeviceEnqueue, "device_enqueue"),
        (Tracer::device_dequeue(), Point::DeviceDequeue, "device_dequeue"),
        (Tracer::device_in(), Point::DeviceIn, "device_in"),
        (Tracer::device_out(), Point::DeviceOut, "device_out"),
        (Tracer::host_enqueue("x"), Point::HostEnqueue, "host_enqueue"),
        (Tracer::host_dequeue("x"), Point::HostDequeue, "host_dequeue"),
        (Tracer::host_in("x"), Point::HostIn, "host_in"),
        (Tracer::host_out("x"), Point::HostOut, "host_out"),
    ];
    for (tracer, point, text) in points {
        assert_eq!(tracer.point(), point);
        assert_eq!(point.text(), text);
    }
}

#[test]
fn trace_messages() {
    let messages = [
        (What::Enqueued(1), "data enqueued for sending"),
        (What::ReceivedData(1), "received data"),
        (What::DequeuedPart(1), "dequeued part of data"),
        (What::Dequeing, "dequeing received data"),
        (What::Dequeued(1), "dequeued received data"),
        (What::DequeTransfer { len: 1, short: false }, "dequeued received transfer"),
        (What::SendingData(1), "sending data"),
        (What::SendPart(1), "sent packet part"),
        (What::SendTerminator, "sent zero length packet terminator"),
        (What::DataFinished, "sending data finished"),
        (What::ReceivedPacket(1), "received USB transfer"),
    ];
    for (what, text) in messages {
        assert_eq!(what.text(), text);
    }
}
