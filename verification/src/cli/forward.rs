//! Forwarding between the standard streams and a channel.

use bytes::Bytes;
use vstd::prelude::*;

use crate::buffer::bytes_content;
use crate::error::ErrorKind;
use crate::framing::contents;

verus! {

/// Time in milliseconds without data after which an interactive session ends when the
/// standard input is closed.
pub const IDLE_TIMEOUT_MILLIS: u64 = 1000;

/// How stdin is split into packets.
#[derive(Debug, Clone, Copy, PartialEq, Eq, Structural)]
pub enum Framing {
    /// Automatic: line-wise when stdin is a terminal, raw otherwise.
    Auto,
    /// Each line (delimited by newline) becomes one packet.
    Line,
    /// Each read() call becomes one packet.
    Raw,
}

impl Framing {
    /// Whether stdin is split into lines.
    pub open spec fn by_line(self, interactive: bool) -> bool {
        self == Framing::Line || self == Framing::Auto && interactive
    }

    /// Determines whether stdin is split into lines.
    pub fn is_by_line(&self, interactive: bool) -> (by_line: bool)
        ensures
            by_line == self.by_line(interactive),
    {
        match self {
            Framing::Auto => interactive,
            Framing::Line => true,
            Framing::Raw => false,
        }
    }
}

/// Whether an error says that the remote side has closed its receiver.
pub fn is_broken_pipe(kind: &ErrorKind) -> (result: bool)
    ensures
        result == (*kind == ErrorKind::BrokenPipe),
{
    *kind == ErrorKind::BrokenPipe
}

/// Pieces of `size` bytes of which only the last one may be shorter.
pub open spec fn chunks(data: Seq<u8>, size: nat) -> Seq<Seq<u8>>
    decreases data.len(),
{
    if size == 0 || data.len() == 0 {
        Seq::empty()
    } else if data.len() <= size {
        seq![data]
    } else {
        seq![data.take(size as int)] + chunks(data.skip(size as int), size)
    }
}

/// The packets for a line: the line and a newline, in pieces of up to `max_send` bytes.
pub fn line_packets(line: Vec<u8>, max_send: usize) -> (packets: Vec<Bytes>)
    requires
        max_send > 0,
    ensures
        contents(packets@) == chunks(line@.push(10), max_send as nat),
{
    let mut data = line;
    data.push(10);
    let ghost whole = data@;
    let mut packets: Vec<Bytes> = Vec::new();
    let mut pos: usize = 0;
    assert(whole.skip(0) =~= whole);
    assert(contents(packets@) =~= Seq::<Seq<u8>>::empty());
    assert(Seq::<Seq<u8>>::empty() + chunks(whole, max_send as nat) =~= chunks(
        whole,
        max_send as nat,
    ));
    while pos < data.len()
        invariant
            max_send > 0,
            data@ == whole,
            pos <= whole.len(),
            chunks(whole, max_send as nat) == contents(packets@) + chunks(
                whole.skip(pos as int),
                max_send as nat,
            ),
        decreases whole.len() - pos,
    {
        let ghost rest = whole.skip(pos as int);
        let ghost done = contents(packets@);
        let end: usize = if data.len() - pos <= max_send {
            data.len()
        } else {
            pos + max_send
        };
        let piece = vstd::slice::slice_subrange(data.as_slice(), pos, end);
        let packet = Bytes::copy_from_slice(piece);
        packets.push(packet);
        assert(contents(packets@) =~= done.push(bytes_content(packet)));
        assert(piece@ =~= rest.take(end - pos));
        assert(rest.skip(end - pos) =~= whole.skip(end as int));
        assert(rest.len() <= max_send ==> rest.take(end - pos) =~= rest);
        assert(contents(packets@) + chunks(whole.skip(end as int), max_send as nat) =~= done
            + chunks(rest, max_send as nat));
        pos = end;
    }
    assert(chunks(whole.skip(pos as int), max_send as nat) =~= Seq::<Seq<u8>>::empty());
    assert(contents(packets@) + Seq::<Seq<u8>>::empty() =~= contents(packets@));
    packets
}

/// The packet for the first `len` bytes that were read into a buffer.
pub fn raw_packet(buf: &[u8], len: usize) -> (packet: Bytes)
    requires
        len <= buf@.len(),
    ensures
        bytes_content(packet) == buf@.take(len as int),
{
    let data = vstd::slice::slice_subrange(buf, 0, len);
    assert(data@ =~= buf@.take(len as int));
    Bytes::copy_from_slice(data)
}

/// Something that happened while sending.
#[derive(Debug, Clone, Copy, PartialEq, Eq, Structural)]
pub enum SendEvent {
    /// The channel was closed.
    ChannelClosed,
    /// Stdin has ended.
    InputEnded,
    /// Reading stdin has failed.
    InputFailed,
    /// A packet was sent.
    Sent,
    /// Sending a packet has failed.
    SendFailed(ErrorKind),
}

/// What the sending side has to do.
#[derive(Debug, Clone, Copy, PartialEq, Eq, Structural)]
pub enum SendAction {
    /// Read on.
    Continue,
    /// End.
    End {
        /// Report the error.
        failed: bool,
        /// Close stdin.
        close_stdin: bool,
        /// Start the idle timeout of the receiving side.
        start_idle: bool,
    },
}

/// Decides what the sending side does. A remote side that has closed its receiver is no
/// error.
pub fn send_step(event: SendEvent, interactive: bool, keep: bool) -> (action: SendAction)
    ensures
        action == (match event {
            SendEvent::Sent => SendAction::Continue,
            SendEvent::SendFailed(kind) => SendAction::End {
                failed: kind != ErrorKind::BrokenPipe,
                close_stdin: false,
                start_idle: false,
            },
            SendEvent::ChannelClosed | SendEvent::InputEnded => SendAction::End {
                failed: false,
                close_stdin: !keep,
                start_idle: interactive,
            },
            SendEvent::InputFailed => SendAction::End {
                failed: true,
                close_stdin: !keep,
                start_idle: interactive,
            },
        }),
{
    match event {
        SendEvent::Sent => SendAction::Continue,
        SendEvent::SendFailed(kind) => SendAction::End {
            failed: !is_broken_pipe(&kind),
            close_stdin: false,
            start_idle: false,
        },
        SendEvent::ChannelClosed => SendAction::End {
            failed: false,
            close_stdin: !keep,
            start_idle: interactive,
        },
        SendEvent::InputEnded => SendAction::End {
            failed: false,
            close_stdin: !keep,
            start_idle: interactive,
        },
        SendEvent::InputFailed => SendAction::End {
            failed: true,
            close_stdin: !keep,
            start_idle: interactive,
        },
    }
}

/// Something that happened while receiving.
#[derive(Debug, Clone, Copy, PartialEq, Eq, Structural)]
pub enum RecvEvent {
    /// A packet was received.
    Packet,
    /// The packet was written to stdout.
    Written,
    /// Writing to stdout has failed.
    WriteFailed(ErrorKind),
    /// The remote side is done sending.
    Ended,
    /// Receiving has failed.
    Failed(ErrorKind),
    /// The sending side has ended.
    InputEnded,
    /// The idle timeout has elapsed.
    Idle,
}

/// What the receiving side has to do.
#[derive(Debug, Clone, Copy, PartialEq, Eq, Structural)]
pub enum RecvAction {
    /// Receive on.
    Continue,
    /// Write the packet to stdout.
    Write {
        /// Start the idle timeout anew.
        restart_idle: bool,
    },
    /// Start the idle timeout and receive on.
    StartIdle,
    /// End.
    End {
        /// Report the error.
        failed: bool,
    },
}

/// The receiving side.
#[derive(Debug)]
pub struct RecvSide {
    stdin_done: bool,
}

impl RecvSide {
    /// Whether the sending side has ended.
    pub closed spec fn input_ended(self) -> bool {
        self.stdin_done
    }

    /// Creates the receiving side while the sending side is running.
    pub fn new() -> (side: Self)
        ensures
            !side.input_ended(),
    {
        RecvSide { stdin_done: false }
    }

    /// Decides what the receiving side does. A closed pipe is no error.
    pub fn step(&mut self, event: RecvEvent) -> (action: RecvAction)
        ensures
            final(self).input_ended() == (old(self).input_ended() || event
                == RecvEvent::InputEnded),
            action == (match event {
                RecvEvent::Packet => RecvAction::Write { restart_idle: old(self).input_ended() },
                RecvEvent::Written => RecvAction::Continue,
                RecvEvent::WriteFailed(kind) | RecvEvent::Failed(kind) => RecvAction::End {
                    failed: kind != ErrorKind::BrokenPipe,
                },
                RecvEvent::Ended | RecvEvent::Idle => RecvAction::End { failed: false },
                RecvEvent::InputEnded => if old(self).input_ended() {
                    RecvAction::Continue
                } else {
                    RecvAction::StartIdle
                },
            }),
    {
        match event {
            RecvEvent::Packet => RecvAction::Write { restart_idle: self.stdin_done },
            RecvEvent::Written => RecvAction::Continue,
            RecvEvent::WriteFailed(kind) => RecvAction::End { failed: !is_broken_pipe(&kind) },
            RecvEvent::Failed(kind) => RecvAction::End { failed: !is_broken_pipe(&kind) },
            RecvEvent::Ended => RecvAction::End { failed: false },
            RecvEvent::Idle => RecvAction::End { failed: false },
            RecvEvent::InputEnded => {
                if self.stdin_done {
                    RecvAction::Continue
                } else {
                    self.stdin_done = true;
                    RecvAction::StartIdle
                }
            },
        }
    }
}

proof fn lemma_chunks_joined(data: Seq<u8>, size: nat)
    requires
        size > 0,
    ensures
        chunks(data, size).flatten() == data,
        forall|i: int|
            0 <= i < chunks(data, size).len() ==> 0 < (#[trigger] chunks(data, size)[i]).len()
                <= size,
    decreases data.len(),
{
    if data.len() == 0 {
        assert(Seq::<Seq<u8>>::empty().flatten() =~= data);
    } else if data.len() <= size {
        seq![data].lemma_flatten_one_element();
    } else {
        let head = data.take(size as int);
        let tail = chunks(data.skip(size as int), size);
        lemma_chunks_joined(data.skip(size as int), size);
        let all = seq![head] + tail;
        assert(all.drop_first() =~= tail);
        assert(all.flatten() =~= head + tail.flatten());
        assert(head + data.skip(size as int) =~= data);
    }
}

/// The pieces of a line are not empty, not larger than allowed, and together make up the
/// line.
pub proof fn law_line_is_kept(line: Seq<u8>, max_send: nat)
    requires
        max_send > 0,
    ensures
        chunks(line.push(10), max_send).flatten() == line.push(10),
        forall|i: int|
            0 <= i < chunks(line.push(10), max_send).len() ==> 0 < (#[trigger] chunks(
                line.push(10),
                max_send,
            )[i]).len() <= max_send,
{
    lemma_chunks_joined(line.push(10), max_send);
}

/// Lines are sent if asked for, and otherwise only if it is not asked for raw data and the
/// input is a terminal.
pub proof fn law_line_framing(framing: Framing, interactive: bool)
    ensures
        Framing::Line.by_line(interactive),
        !Framing::Raw.by_line(interactive),
        Framing::Auto.by_line(interactive) == interactive,
{
}

/// The pieces of data are consecutive: all but the last one have the full size, so there
/// are no more of them than needed.
pub proof fn law_pieces_are_full(data: Seq<u8>, size: nat, i: int)
    requires
        size > 0,
        0 <= i < chunks(data, size).len(),
    ensures
        i * size < data.len(),
        i + 1 < chunks(data, size).len() ==> (i + 1) * size < data.len() && chunks(data, size)[i]
            == data.subrange(i * size, (i + 1) * size),
        i + 1 == chunks(data, size).len() ==> chunks(data, size)[i] == data.skip(i * size)
            && chunks(data, size)[i].len() <= size,
    decreases data.len(),
{
    let step = size as int;
    let all = chunks(data, size);
    if data.len() <= size {
        assert(i == 0);
        assert(0 * step == 0) by (nonlinear_arith);
        assert(data.skip(0) =~= data);
    } else {
        let rest = data.skip(step);
        let tail = chunks(rest, size);
        assert(tail.len() > 0);
        if i == 0 {
            assert(0 * step == 0 && 1 * step == step) by (nonlinear_arith);
            assert(data.subrange(0, step) =~= data.take(step));
        } else {
            law_pieces_are_full(rest, size, i - 1);
            assert(all[i] == tail[i - 1]);
            assert((i - 1) * step + step == i * step) by (nonlinear_arith);
            assert(i * step + step == (i + 1) * step) by (nonlinear_arith);
            if i + 1 < all.len() {
                assert(rest.subrange((i - 1) * step, i * step) =~= data.subrange(
                    i * step,
                    (i + 1) * step,
                ));
            } else {
                assert(rest.skip((i - 1) * step) =~= data.skip(i * step));
            }
        }
    }
}

} // verus!
