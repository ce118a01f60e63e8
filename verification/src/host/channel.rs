//! The two directions of a host-side connection.

use std::collections::VecDeque;

use bytes::Bytes;
use vstd::prelude::*;
use vstd::string::StringExecFns;

use crate::buffer::{bytes_content, bytes_from_vec, thaw};
use crate::error::{Error, ErrorKind, TaskError};
use crate::framing;
use crate::framing::{Assembled, Reassembler};
use crate::text::{append_number, number};

verus! {

/// A received transfer: a buffer of which the first bytes are data.
#[derive(Debug)]
pub struct RecvPacket {
    buffer: Vec<u8>,
    actual_len: usize,
    zero_copy: bool,
}

impl RecvPacket {
    /// The data of the transfer.
    pub closed spec fn content(self) -> Seq<u8> {
        self.buffer@.take(self.actual_len as int)
    }

    /// The buffer is large enough.
    pub closed spec fn wf(self) -> bool {
        self.actual_len <= self.buffer@.len()
    }

    /// Whether the buffer can be accessed by the device directly.
    pub closed spec fn zero_copy(self) -> bool {
        self.zero_copy
    }

    /// Creates a transfer of the first `actual_len` bytes of the buffer.
    pub fn new(buffer: Vec<u8>, actual_len: usize, zero_copy: bool) -> (packet: Self)
        requires
            actual_len <= buffer@.len(),
        ensures
            packet.wf(),
            packet.content() == buffer@.take(actual_len as int),
            packet.zero_copy() == zero_copy,
    {
        RecvPacket { buffer, actual_len, zero_copy }
    }

    /// The data of the transfer.
    pub fn data(&self) -> (data: &[u8])
        requires
            self.wf(),
        ensures
            data@ == self.content(),
    {
        let data = vstd::slice::slice_subrange(self.buffer.as_slice(), 0, self.actual_len);
        assert(data@ =~= self.content());
        data
    }

    /// Whether the buffer can be accessed by the device directly.
    pub fn is_zero_copy(&self) -> (zero_copy: bool)
        ensures
            zero_copy == self.zero_copy(),
    {
        self.zero_copy
    }

    /// The data of the transfer.
    pub fn into_vec(self) -> (data: Vec<u8>)
        requires
            self.wf(),
        ensures
            data@ == self.content(),
    {
        let mut data = self.buffer;
        data.truncate(self.actual_len);
        assert(data@ =~= self.content());
        data
    }

    /// The data of the transfer.
    pub fn into_bytes(self) -> (data: Bytes)
        requires
            self.wf(),
        ensures
            bytes_content(data) == self.content(),
    {
        bytes_from_vec(self.into_vec())
    }
}

/// The name of a channel: the text for the device and the interface number.
pub fn channel_name(device: &str, interface: u8) -> (name: String)
    ensures
        name@ == device@ + ":"@ + number(interface as nat, 10),
{
    let mut name = String::new();
    name.append(device);
    name.append(":");
    append_number(&mut name, interface as u64);
    assert(name@ =~= device@ + ":"@ + number(interface as nat, 10));
    name
}

/// The error for a closed channel: that of the failed task, if any.
pub open spec fn spec_closed_error(failure: Option<TaskError>) -> Error {
    match failure {
        Some(failure) => Error::Task(failure),
        None => Error::ChannelClosed,
    }
}

/// Sends data into a USB packet channel.
#[derive(Debug)]
pub struct UpcSender {
    max_size: usize,
}

impl UpcSender {
    /// The maximum size of a packet.
    pub closed spec fn limit(self) -> usize {
        self.max_size
    }

    /// Creates a sender for packets of up to `max_size` bytes.
    pub fn new(max_size: usize) -> (sender: Self)
        ensures
            sender.limit() == max_size,
    {
        UpcSender { max_size }
    }

    /// The maximum packet size: what the device can receive.
    pub fn max_size(&self) -> (max_size: usize)
        ensures
            max_size == self.limit(),
    {
        self.max_size
    }

    /// Checks whether a packet can be sent and returns it for the send queue.
    pub fn send(&self, data: Bytes) -> (result: Result<Bytes, Error>)
        ensures
            bytes_content(data).len() <= self.limit() ==> result == Ok::<Bytes, Error>(data),
            bytes_content(data).len() > self.limit() ==> result == Err::<Bytes, Error>(
                Error::SendTooLarge {
                    size: bytes_content(data).len() as usize,
                    max_size: self.limit(),
                },
            ),
    {
        let size: usize = data.len();
        if size > self.max_size {
            Err(Error::SendTooLarge { size, max_size: self.max_size })
        } else {
            Ok(data)
        }
    }

    /// The error for a packet that the send queue did not take because the connection was
    /// closed, possibly due to a failure.
    pub fn closed_error(failure: Option<TaskError>) -> (error: Error)
        ensures
            error == spec_closed_error(failure),
    {
        match failure {
            Some(failure) => Error::Task(failure),
            None => Error::ChannelClosed,
        }
    }
}

/// Receives data from a USB packet channel.
pub struct UpcReceiver {
    reassembler: Reassembler,
}

/// What is known of a receiver: the data of the packet that is being received, the maximum
/// packet size and the size of a full transfer.
pub struct ReceiverView {
    pub pending: Seq<u8>,
    pub max_size: usize,
    pub transfer_size: usize,
}

impl View for UpcReceiver {
    type V = ReceiverView;

    closed spec fn view(&self) -> ReceiverView {
        ReceiverView {
            pending: self.reassembler.pending(),
            max_size: self.reassembler.limit(),
            transfer_size: self.reassembler.transfer_size(),
        }
    }
}

/// Result of looking at the receive queue.
pub enum Received {
    /// More transfers are needed to complete the packet.
    More,
    /// A packet.
    Packet(Bytes),
    /// The device is done sending.
    End,
    /// Receiving failed.
    Failed(Error),
}

impl UpcReceiver {
    /// Creates a receiver for packets of up to `max_size` bytes and transfers of up to
    /// `transfer_size` bytes.
    pub fn new(transfer_size: usize, max_size: usize) -> (receiver: Self)
        ensures
            receiver@ == (ReceiverView { pending: Seq::empty(), max_size, transfer_size }),
    {
        UpcReceiver { reassembler: Reassembler::new(transfer_size, max_size) }
    }

    /// Takes the next packet from the receive queue.
    ///
    /// If the queue runs empty before a packet is complete, more transfers are needed, or
    /// the channel has ended, possibly due to a failure, if no more can be queued.
    pub fn recv(
        &mut self,
        queue: &mut VecDeque<Bytes>,
        open: bool,
        failure: Option<TaskError>,
    ) -> (received: Received)
        requires
            old(self)@.pending.len() + framing::total_len(framing::contents(old(queue)@)) <= isize::MAX,
        ensures
            final(self)@.max_size == old(self)@.max_size,
            final(self)@.transfer_size == old(self)@.transfer_size,
            ({
                let (pending, rest, report) = framing::receive_next(
                    framing::contents(old(queue)@),
                    old(self)@.pending,
                    old(self)@.transfer_size as nat,
                    old(self)@.max_size as nat,
                );
                &&& final(self)@.pending == pending
                &&& framing::contents(final(queue)@) == rest
                &&& match report {
                    Some(framing::Outcome::Packet(data)) => received matches Received::Packet(
                        packet,
                    ) && bytes_content(packet) == data,
                    Some(framing::Outcome::TooLarge) => received == Received::Failed(
                        Error::MaxSizeExceeded,
                    ),
                    None => if open {
                        received is More
                    } else {
                        match failure {
                            Some(failure) => received == Received::Failed(Error::Task(failure)),
                            None => received is End,
                        }
                    },
                }
            }),
    {
        let ghost before = self@;
        let ghost all = framing::contents(queue@);
        loop
            invariant
                before == old(self)@,
                all == framing::contents(old(queue)@),
                self@.pending.len() + framing::total_len(framing::contents(queue@)) <= isize::MAX,
                self@.max_size == before.max_size,
                self@.transfer_size == before.transfer_size,
                framing::receive_next(
                    all,
                    before.pending,
                    before.transfer_size as nat,
                    before.max_size as nat,
                ) == framing::receive_next(
                    framing::contents(queue@),
                    self@.pending,
                    before.transfer_size as nat,
                    before.max_size as nat,
                ),
            decreases queue@.len(),
        {
            let ghost queued = framing::contents(queue@);
            match queue.pop_front() {
                Some(transfer) => {
                    assert(framing::contents(queue@) =~= queued.drop_first());
                    match self.reassembler.push(thaw(transfer)) {
                        Assembled::More => {},
                        Assembled::Packet(packet) => {
                            return Received::Packet(packet.freeze());
                        },
                        Assembled::TooLarge => {
                            return Received::Failed(Error::MaxSizeExceeded);
                        },
                    }
                },
                None => {
                    assert(framing::contents(queue@) =~= queued);
                    if open {
                        return Received::More;
                    }
                    return match failure {
                        Some(failure) => Received::Failed(Error::Task(failure)),
                        None => Received::End,
                    };
                },
            }
        }
    }

    /// The number of bytes received of the current packet.
    pub fn pending_len(&self) -> (len: usize)
        ensures
            len == self@.pending.len(),
    {
        self.reassembler.pending_len()
    }

    /// The maximum packet size.
    pub fn max_size(&self) -> (max_size: usize)
        ensures
            max_size == self@.max_size,
    {
        self.reassembler.max_size()
    }

    /// Sets the maximum packet size.
    pub fn set_max_size(&mut self, max_size: usize)
        ensures
            final(self)@ == (ReceiverView { max_size, ..old(self)@ }),
    {
        self.reassembler.set_max_size(max_size);
    }
}

/// The error for a closed channel is that of the failed task. Without one it is that of a
/// broken pipe.
pub proof fn law_closed_error(failure: Option<TaskError>)
    ensures
        failure is Some ==> spec_closed_error(failure) == Error::Task(failure->0),
        failure is None ==> spec_closed_error(failure).spec_kind() == ErrorKind::BrokenPipe,
{
}

} // verus!
