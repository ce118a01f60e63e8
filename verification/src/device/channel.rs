//! The two directions of a device-side connection.

use std::collections::VecDeque;

use bytes::{Bytes, BytesMut};
use vstd::prelude::*;

use crate::buffer::{bytes_content, bytes_mut_content};
use crate::error::{Error, ErrorKind};
use crate::framing;
use crate::framing::{Assembled, Reassembler};

verus! {

/// Sends data into a USB packet channel.
pub struct UpcSender {
    max_size: usize,
}

impl UpcSender {
    /// The maximum size of a packet.
    pub closed spec fn limit(self) -> usize {
        self.max_size
    }

    /// The maximum packet size: what the host can receive.
    pub fn max_size(&self) -> (max_size: usize)
        ensures
            max_size == self.limit(),
    {
        self.max_size
    }

    /// Checks whether a packet can be sent and returns it for the send queue.
    pub fn send(&self, data: Bytes) -> (result: Result<Bytes, Error>)
        ensures
            bytes_content(data).len() <= self.limit() ==> result == Ok::<Bytes, Error>(data),
            bytes_content(data).len() > self.limit() ==> result == Err::<Bytes, Error>(
                Error::SendTooLarge {
                    size: bytes_content(data).len() as usize,
                    max_size: self.limit(),
                },
            ),
    {
        let size: usize = data.len();
        if size > self.max_size {
            Err(Error::SendTooLarge { size, max_size: self.max_size })
        } else {
            Ok(data)
        }
    }

    /// The error for a packet that the send queue did not take because the connection
    /// was closed, possibly due to a failure.
    pub fn closed_error(failure: Option<ErrorKind>) -> (error: Error)
        ensures
            error == Error::ConnectionClosed(
                match failure {
                    Some(kind) => kind,
                    None => ErrorKind::ConnectionReset,
                },
            ),
    {
        match failure {
            Some(kind) => Error::ConnectionClosed(kind),
            None => Error::ConnectionClosed(ErrorKind::ConnectionReset),
        }
    }
}

/// Receives data from a USB packet channel.
pub struct UpcReceiver {
    topic: Vec<u8>,
    reassembler: Reassembler,
}

/// What is known of a receiver: its topic, the data of the packet that is being
/// received, the maximum packet size and the size of a full transfer.
pub struct ReceiverView {
    pub topic: Seq<u8>,
    pub pending: Seq<u8>,
    pub max_size: usize,
    pub transfer_size: usize,
}

impl View for UpcReceiver {
    type V = ReceiverView;

    closed spec fn view(&self) -> ReceiverView {
        ReceiverView {
            topic: self.topic@,
            pending: self.reassembler.pending(),
            max_size: self.reassembler.limit(),
            transfer_size: self.reassembler.transfer_size(),
        }
    }
}

/// Result of looking at the receive queue.
pub enum Received {
    /// More transfers are needed to complete the packet.
    More,
    /// A packet.
    Packet(BytesMut),
    /// The host is done sending.
    End,
    /// Receiving failed.
    Failed(Error),
}

impl UpcReceiver {
    /// Topic provided by host when establishing the connection.
    pub fn topic(&self) -> (topic: &[u8])
        ensures
            topic@ == self@.topic,
    {
        self.topic.as_slice()
    }

    /// Takes the next packet from the receive queue.
    ///
    /// If the queue runs empty before a packet is complete, more transfers are needed, or
    /// the channel has ended, possibly due to a failure, if no more can be queued.
    pub fn recv(
        &mut self,
        queue: &mut VecDeque<BytesMut>,
        open: bool,
        failure: Option<ErrorKind>,
    ) -> (received: Received)
        requires
            old(self)@.pending.len() + framing::total_len(framing::mut_contents(old(queue)@)) <= isize::MAX,
        ensures
            final(self)@.topic == old(self)@.topic,
            final(self)@.max_size == old(self)@.max_size,
            final(self)@.transfer_size == old(self)@.transfer_size,
            ({
                let (pending, rest, report) = framing::receive_next(
                    framing::mut_contents(old(queue)@),
                    old(self)@.pending,
                    old(self)@.transfer_size as nat,
                    old(self)@.max_size as nat,
                );
                &&& final(self)@.pending == pending
                &&& framing::mut_contents(final(queue)@) == rest
                &&& match report {
                    Some(framing::Outcome::Packet(data)) => received matches Received::Packet(
                        packet,
                    ) && bytes_mut_content(packet) == data,
                    Some(framing::Outcome::TooLarge) => received == Received::Failed(
                        Error::IncomingTooLarge,
                    ),
                    None => if open {
                        received is More
                    } else {
                        match failure {
                            Some(failure) => received == Received::Failed(Error::ConnectionClosed(failure)),
                            None => received is End,
                        }
                    },
                }
            }),
    {
        let ghost before = self@;
        let ghost all = framing::mut_contents(queue@);
        loop
            invariant
                before == old(self)@,
                all == framing::mut_contents(old(queue)@),
                self@.pending.len() + framing::total_len(framing::mut_contents(queue@)) <= isize::MAX,
                self@.topic == before.topic,
                self@.max_size == before.max_size,
                self@.transfer_size == before.transfer_size,
                framing::receive_next(
                    all,
                    before.pending,
                    before.transfer_size as nat,
                    before.max_size as nat,
                ) == framing::receive_next(
                    framing::mut_contents(queue@),
                    self@.pending,
                    before.transfer_size as nat,
                    before.max_size as nat,
                ),
            decreases queue@.len(),
        {
            let ghost queued = framing::mut_contents(queue@);
            match queue.pop_front() {
                Some(transfer) => {
                    assert(framing::mut_contents(queue@) =~= queued.drop_first());
                    match self.reassembler.push(transfer) {
                        Assembled::More => {},
                        Assembled::Packet(packet) => {
                            return Received::Packet(packet);
                        },
                        Assembled::TooLarge => {
                            return Received::Failed(Error::IncomingTooLarge);
                        },
                    }
                },
                None => {
                    assert(framing::mut_contents(queue@) =~= queued);
                    if open {
                        return Received::More;
                    }
                    return match failure {
                        Some(failure) => Received::Failed(Error::ConnectionClosed(failure)),
                        None => Received::End,
                    };
                },
            }
        }
    }

    /// The number of bytes received of the current packet.
    pub fn pending_len(&self) -> (len: usize)
        ensures
            len == self@.pending.len(),
    {
        self.reassembler.pending_len()
    }

    /// The maximum receive packet size.
    pub fn max_size(&self) -> (max_size: usize)
        ensures
            max_size == self@.max_size,
    {
        self.reassembler.max_size()
    }

    /// Sets the maximum receive packet size.
    pub fn set_max_size(&mut self, max_size: usize)
        ensures
            final(self)@ == (ReceiverView { max_size, ..old(self)@ }),
    {
        self.reassembler.set_max_size(max_size);
    }
}

/// Creates the two directions of a connection.
///
/// Packets of up to `send_size` bytes can be sent, and packets of up to `recv_size` bytes
/// can be received by transfers of `transfer_size` bytes.
pub fn connection(
    topic: Vec<u8>,
    send_size: usize,
    recv_size: usize,
    transfer_size: usize,
) -> (channel: (UpcSender, UpcReceiver))
    ensures
        channel.0.limit() == send_size,
        channel.1@ == (ReceiverView {
            topic: topic@,
            pending: Seq::empty(),
            max_size: recv_size,
            transfer_size,
        }),
{
    (
        UpcSender { max_size: send_size },
        UpcReceiver { topic, reassembler: Reassembler::new(transfer_size, recv_size) },
    )
}

} // verus!
