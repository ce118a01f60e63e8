//! Packet tracing.
//!
//! A [`Tracer`] numbers the packets that pass a point of a channel and describes what
//! happens to them. The descriptions are emitted by the application.

use vstd::prelude::*;

verus! {

/// The point of a channel that is traced.
#[derive(Debug, Clone, Copy, PartialEq, Eq, Structural)]
pub enum Point {
    /// Packets enter the send queue of the device.
    DeviceEnqueue,
    /// Packets leave the receive queue of the device.
    DeviceDequeue,
    /// The device receives.
    DeviceIn,
    /// The device sends.
    DeviceOut,
    /// Packets enter the send queue of the host.
    HostEnqueue,
    /// Packets leave the receive queue of the host.
    HostDequeue,
    /// The host receives.
    HostIn,
    /// The host sends.
    HostOut,
}

/// Where something happens.
#[derive(Debug, Clone, Copy, PartialEq, Eq, Structural)]
pub enum Scope {
    /// At the point, not related to a packet.
    Channel,
    /// Before the first packet.
    NoPacket,
    /// At a packet with its sequence number.
    Packet(usize),
}

/// What happens.
#[derive(Debug, Clone, Copy, PartialEq, Eq, Structural)]
pub enum What {
    /// Data of this length is enqueued for sending.
    Enqueued(usize),
    /// Data of this length is received.
    ReceivedData(usize),
    /// A part of this length is dequeued.
    DequeuedPart(usize),
    /// Received data is about to be dequeued.
    Dequeing,
    /// Received data of this length is dequeued.
    Dequeued(usize),
    /// A received transfer is dequeued.
    DequeTransfer {
        /// Length.
        len: usize,
        /// Whether the transfer is shorter than its buffer.
        short: bool,
    },
    /// Data of this length is being sent.
    SendingData(usize),
    /// A part of this length is sent.
    SendPart(usize),
    /// A zero-length packet is sent.
    SendTerminator,
    /// Sending the data is finished.
    DataFinished,
    /// A transfer of this length is received.
    ReceivedPacket(usize),
}

/// A description of something that happens.
#[derive(Debug, Clone, Copy, PartialEq, Eq, Structural)]
pub struct Record {
    /// Where it happens.
    pub scope: Scope,
    /// What happens.
    pub what: What,
}

/// State of a tracer.
pub struct TracerView {
    /// The point.
    pub point: Point,
    /// Name of the channel, if it has one.
    pub name: Option<Seq<char>>,
    /// The next sequence number.
    pub seq: usize,
    /// The current packet.
    pub packet: Scope,
}

impl TracerView {
    /// A new tracer.
    pub open spec fn fresh(point: Point, name: Option<Seq<char>>) -> Self {
        TracerView { point, name, seq: 0, packet: Scope::NoPacket }
    }

    /// The sequence number that follows, starting over after the largest one.
    pub open spec fn next_seq(self) -> usize {
        if self.seq == usize::MAX {
            0
        } else {
            (self.seq + 1) as usize
        }
    }
}

/// Packet tracer.
#[derive(Debug)]
pub struct Tracer {
    point: Point,
    name: Option<String>,
    seq: usize,
    packet: Scope,
}

impl View for Tracer {
    type V = TracerView;

    closed spec fn view(&self) -> TracerView {
        TracerView {
            point: self.point,
            name: match self.name {
                Some(name) => Some(name@),
                None => None,
            },
            seq: self.seq,
            packet: self.packet,
        }
    }
}

impl Tracer {
    fn new(point: Point, name: Option<String>) -> (tracer: Self)
        ensures
            tracer@ == TracerView::fresh(
                point,
                match name {
                    Some(name) => Some(name@),
                    None => None,
                },
            ),
    {
        Tracer { point, name, seq: 0, packet: Scope::NoPacket }
    }

    /// Traces packets that enter the send queue of the device.
    pub fn device_enqueue() -> (tracer: Self)
        ensures
            tracer@ == TracerView::fresh(Point::DeviceEnqueue, None),
    {
        Tracer::new(Point::DeviceEnqueue, None)
    }

    /// Traces packets that leave the receive queue of the device.
    pub fn device_dequeue() -> (tracer: Self)
        ensures
            tracer@ == TracerView::fresh(Point::DeviceDequeue, None),
    {
        Tracer::new(Point::DeviceDequeue, None)
    }

    /// Traces packets that the device receives.
    pub fn device_in() -> (tracer: Self)
        ensures
            tracer@ == TracerView::fresh(Point::DeviceIn, None),
    {
        Tracer::new(Point::DeviceIn, None)
    }

    /// Traces packets that the device sends.
    pub fn device_out() -> (tracer: Self)
        ensures
            tracer@ == TracerView::fresh(Point::DeviceOut, None),
    {
        Tracer::new(Point::DeviceOut, None)
    }

    /// Traces packets that enter the send queue of the host.
    pub fn host_enqueue(name: &str) -> (tracer: Self)
        ensures
            tracer@ == TracerView::fresh(Point::HostEnqueue, Some(name@)),
    {
        Tracer::new(Point::HostEnqueue, Some(name.to_string()))
    }

    /// Traces packets that leave the receive queue of the host.
    pub fn host_dequeue(name: &str) -> (tracer: Self)
        ensures
            tracer@ == TracerView::fresh(Point::HostDequeue, Some(name@)),
    {
        Tracer::new(Point::HostDequeue, Some(name.to_string()))
    }

    /// Traces packets that the host receives.
    pub fn host_in(name: &str) -> (tracer: Self)
        ensures
            tracer@ == TracerView::fresh(Point::HostIn, Some(name@)),
    {
        Tracer::new(Point::HostIn, Some(name.to_string()))
    }

    /// Traces packets that the host sends.
    pub fn host_out(name: &str) -> (tracer: Self)
        ensures
            tracer@ == TracerView::fresh(Point::HostOut, Some(name@)),
    {
        Tracer::new(Point::HostOut, Some(name.to_string()))
    }

    /// The point that is traced.
    pub fn point(&self) -> (point: Point)
        ensures
            point == self@.point,
    {
        self.point
    }

    /// The name of the channel, if it has one.
    pub fn name(&self) -> (name: Option<&str>)
        ensures
            match name {
                Some(name) => self@.name == Some(name@),
                None => self@.name is None,
            },
    {
        match &self.name {
            Some(name) => Some(name.as_str()),
            None => None,
        }
    }

    fn take_seq(&mut self) -> (seq: usize)
        ensures
            seq == old(self)@.seq,
            final(self)@ == (TracerView { seq: old(self)@.next_seq(), ..old(self)@ }),
    {
        let seq: usize = self.seq;
        self.seq = seq.wrapping_add(1);
        seq
    }

    /// Starts with the next packet.
    pub fn next(&mut self)
        ensures
            final(self)@ == (TracerView {
                seq: old(self)@.next_seq(),
                packet: Scope::Packet(old(self)@.seq),
                ..old(self)@
            }),
    {
        let seq: usize = self.take_seq();
        self.packet = Scope::Packet(seq);
    }

    /// A packet is enqueued for sending. It gets its own sequence number.
    pub fn enqueued(&mut self, len: usize) -> (record: Record)
        ensures
            record == (Record {
                scope: Scope::Packet(old(self)@.seq),
                what: What::Enqueued(len),
            }),
            final(self)@ == (TracerView { seq: old(self)@.next_seq(), ..old(self)@ }),
    {
        let seq: usize = self.take_seq();
        Record { scope: Scope::Packet(seq), what: What::Enqueued(len) }
    }

    fn at_packet(&self, what: What) -> (record: Record)
        ensures
            record == (Record { scope: self@.packet, what }),
    {
        Record { scope: self.packet, what }
    }

    /// Data is received.
    pub fn received_data(&self, len: usize) -> (record: Record)
        ensures
            record == (Record { scope: self@.packet, what: What::ReceivedData(len) }),
    {
        self.at_packet(What::ReceivedData(len))
    }

    /// A part of the data is dequeued.
    pub fn dequeued_part(&self, len: usize) -> (record: Record)
        ensures
            record == (Record { scope: self@.packet, what: What::DequeuedPart(len) }),
    {
        self.at_packet(What::DequeuedPart(len))
    }

    /// Received data is about to be dequeued.
    pub fn dequeing(&self) -> (record: Record)
        ensures
            record == (Record { scope: self@.packet, what: What::Dequeing }),
    {
        self.at_packet(What::Dequeing)
    }

    /// Received data is dequeued.
    pub fn dequeued(&self, len: usize) -> (record: Record)
        ensures
            record == (Record { scope: self@.packet, what: What::Dequeued(len) }),
    {
        self.at_packet(What::Dequeued(len))
    }

    /// A received transfer is dequeued.
    pub fn deque_transfer(&self, len: usize, short: bool) -> (record: Record)
        ensures
            record == (Record {
                scope: self@.packet,
                what: What::DequeTransfer { len, short },
            }),
    {
        self.at_packet(What::DequeTransfer { len, short })
    }

    /// Data is being sent.
    pub fn sending_data(&self, len: usize) -> (record: Record)
        ensures
            record == (Record { scope: self@.packet, what: What::SendingData(len) }),
    {
        self.at_packet(What::SendingData(len))
    }

    /// A part of the data is sent.
    pub fn send_part(&self, len: usize) -> (record: Record)
        ensures
            record == (Record { scope: self@.packet, what: What::SendPart(len) }),
    {
        self.at_packet(What::SendPart(len))
    }

    /// A zero-length packet is sent.
    pub fn send_terminator(&self) -> (record: Record)
        ensures
            record == (Record { scope: self@.packet, what: What::SendTerminator }),
    {
        self.at_packet(What::SendTerminator)
    }

    /// Sending the data is finished.
    pub fn data_finished(&self) -> (record: Record)
        ensures
            record == (Record { scope: self@.packet, what: What::DataFinished }),
    {
        self.at_packet(What::DataFinished)
    }

    /// A USB transfer is received.
    pub fn received_packet(&self, len: usize) -> (record: Record)
        ensures
            record == (Record { scope: Scope::Channel, what: What::ReceivedPacket(len) }),
    {
        Record { scope: Scope::Channel, what: What::ReceivedPacket(len) }
    }
}

impl Point {
    /// The name of the point in a trace.
    pub open spec fn spec_text(self) -> Seq<char> {
        match self {
            Point::DeviceEnqueue => "device_enqueue"@,
            Point::DeviceDequeue => "device_dequeue"@,
            Point::DeviceIn => "device_in"@,
            Point::DeviceOut => "device_out"@,
            Point::HostEnqueue => "host_enqueue"@,
            Point::HostDequeue => "host_dequeue"@,
            Point::HostIn => "host_in"@,
            Point::HostOut => "host_out"@,
        }
    }

    /// The name of the point in a trace.
    pub fn text(&self) -> (text: &'static str)
        ensures
            text@ == self.spec_text(),
    {
        match self {
            Point::DeviceEnqueue => "device_enqueue",
            Point::DeviceDequeue => "device_dequeue",
            Point::DeviceIn => "device_in",
            Point::DeviceOut => "device_out",
            Point::HostEnqueue => "host_enqueue",
            Point::HostDequeue => "host_dequeue",
            Point::HostIn => "host_in",
            Point::HostOut => "host_out",
        }
    }
}

impl What {
    /// The message in a trace.
    pub open spec fn spec_text(self) -> Seq<char> {
        match self {
            What::Enqueued(_) => "data enqueued for sending"@,
            What::ReceivedData(_) => "received data"@,
            What::DequeuedPart(_) => "dequeued part of data"@,
            What::Dequeing => "dequeing received data"@,
            What::Dequeued(_) => "dequeued received data"@,
            What::DequeTransfer { .. } => "dequeued received transfer"@,
            What::SendingData(_) => "sending data"@,
            What::SendPart(_) => "sent packet part"@,
            What::SendTerminator => "sent zero length packet terminator"@,
            What::DataFinished => "sending data finished"@,
            What::ReceivedPacket(_) => "received USB transfer"@,
        }
    }

    /// The message in a trace.
    pub fn text(&self) -> (text: &'static str)
        ensures
            text@ == self.spec_text(),
    {
        match self {
            What::Enqueued(_) => "data enqueued for sending",
            What::ReceivedData(_) => "received data",
            What::DequeuedPart(_) => "dequeued part of data",
            What::Dequeing => "dequeing received data",
            What::Dequeued(_) => "dequeued received data",
            What::DequeTransfer { .. } => "dequeued received transfer",
            What::SendingData(_) => "sending data",
            What::SendPart(_) => "sent packet part",
            What::SendTerminator => "sent zero length packet terminator",
            What::DataFinished => "sending data finished",
            What::ReceivedPacket(_) => "received USB transfer",
        }
    }
}

/// Whatever the tracer numbers, two numbers that it gives one after the other differ by
/// one, starting over after the largest one.
pub proof fn law_sequence_numbers(tracer: TracerView)
    ensures
        tracer.seq < usize::MAX ==> tracer.next_seq() == tracer.seq + 1,
        tracer.seq == usize::MAX ==> tracer.next_seq() == 0,
        tracer.next_seq() != tracer.seq,
{
}

/// A new tracer has its point and name, numbers packets from zero and is at none.
pub proof fn law_fresh_tracer(point: Point, name: Option<Seq<char>>)
    ensures
        TracerView::fresh(point, name).point == point,
        TracerView::fresh(point, name).name == name,
        TracerView::fresh(point, name).seq == 0,
        TracerView::fresh(point, name).packet is NoPacket,
{
}

/// The texts do not depend on sizes.
pub proof fn law_trace_texts(len: usize, short: bool)
    ensures
        What::Enqueued(len).spec_text() == "data enqueued for sending"@,
        What::ReceivedData(len).spec_text() == "received data"@,
        What::DequeuedPart(len).spec_text() == "dequeued part of data"@,
        What::Dequeing.spec_text() == "dequeing received data"@,
        What::Dequeued(len).spec_text() == "dequeued received data"@,
        (What::DequeTransfer { len, short }).spec_text() == "dequeued received transfer"@,
        What::SendingData(len).spec_text() == "sending data"@,
        What::SendPart(len).spec_text() == "sent packet part"@,
        What::SendTerminator.spec_text() == "sent zero length packet terminator"@,
        What::DataFinished.spec_text() == "sending data finished"@,
        What::ReceivedPacket(len).spec_text() == "received USB transfer"@,
{
}

} // verus!
