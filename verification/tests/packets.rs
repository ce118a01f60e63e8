//! Tests of the framing of packets.

use std::collections::VecDeque;

use bytes::{Bytes, BytesMut};

use upc::device;
use upc::error::{Error, ErrorKind, TaskError, TransferError};
use upc::framing::{needs_terminator, split_packets, Assembled, Reassembler};
use upc::host;

fn sizes(len: usize) -> Vec<usize> {
    split_packets(Bytes::from(vec![1u8; len]), 512).iter().map(|part| part.len()).collect()
}

#[test]
fn short_packet_ends_message() {
    assert_eq!(sizes(1025), [512, 512, 1]);
    assert_eq!(sizes(1024), [512, 512, 0]);
    assert_eq!(sizes(512), [512, 0]);
    assert_eq!(sizes(511), [511]);
    assert_eq!(sizes(0), [0]);
}

#[test]
fn terminator_after_full_packets() {
    assert!(needs_terminator(1024, 512));
    assert!(needs_terminator(512, 512));
    assert!(!needs_terminator(0, 512));
    assert!(!needs_terminator(513, 512));
}

#[test]
fn parts_are_joined() {
    let data: Vec<u8> = (0..1300u32).map(|i| i as u8).collect();
    let mut reassembler = Reassembler::new(512, 2000);
    let mut packets = Vec::new();
    for part in split_packets(Bytes::from(data.clone()), 512) {
        match reassembler.push(BytesMut::from(part)) {
            Assembled::More => {}
            Assembled::Packet(packet) => packets.push(packet),
            Assembled::TooLarge => panic!("too large"),
        }
    }
    assert_eq!(packets.len(), 1);
    assert_eq!(&packets[0][..], &data[..]);
    assert_eq!(reassembler.pending_len(), 0);
}

#[test]
fn too_large_data_is_discarded() {
    let mut reassembler = Reassembler::new(4, 6);
    assert!(matches!(reassembler.push(BytesMut::from(&[1, 2, 3, 4][..])), Assembled::More));
    assert_eq!(reassembler.pending_len(), 4);
    assert!(matches!(reassembler.push(BytesMut::from(&[5, 6, 7][..])), Assembled::TooLarge));
    assert_eq!(reassembler.pending_len(), 0);
    match reassembler.push(BytesMut::from(&[8][..])) {
        Assembled::Packet(packet) => assert_eq!(&packet[..], &[8]),
        _ => panic!("no packet"),
    }
    reassembler.set_max_size(0);
    assert_eq!(reassembler.max_size(), 0);
    assert!(matches!(reassembler.push(BytesMut::from(&[9][..])), Assembled::TooLarge));
    assert!(matches!(reassembler.push(BytesMut::new()), Assembled::Packet(_)));
}

#[test]
fn host_receiver() {
    let mut receiver = host::UpcReceiver::new(4, 6);
    let mut queue = VecDeque::new();
    assert!(matches!(receiver.recv(&mut VecDeque::from([Bytes::from_static(b"abcd")]), true, None), host::Received::More));
    assert_eq!(receiver.pending_len(), 4);
    match receiver.recv(&mut VecDeque::from([Bytes::from_static(b"ef")]), true, None) {
        host::Received::Packet(packet) => assert_eq!(&packet[..], b"abcdef"),
        _ => panic!("no packet"),
    }
    receiver.recv(&mut VecDeque::from([Bytes::from_static(b"abcd")]), true, None);
    match receiver.recv(&mut VecDeque::from([Bytes::from_static(b"efg")]), true, None) {
        host::Received::Failed(err) => {
            assert_eq!(err, Error::MaxSizeExceeded);
            assert_eq!(err.kind(), ErrorKind::OutOfMemory);
            assert_eq!(err.message().unwrap(), "maximum packet size exceeded");
        }
        _ => panic!("no error"),
    }
    assert!(matches!(receiver.recv(&mut queue, false, None), host::Received::End));
    let failure = TaskError::Transfer(TransferError::Fault);
    match receiver.recv(&mut queue, false, Some(failure)) {
        host::Received::Failed(err) => {
            assert_eq!(err, Error::Task(failure));
            assert_eq!(err.kind(), ErrorKind::UnexpectedEof);
        }
        _ => panic!("no error"),
    }
    receiver.set_max_size(3);
    assert_eq!(receiver.max_size(), 3);
}

#[test]
fn device_receiver() {
    let (sender, mut receiver) = device::connection(b"topic".to_vec(), 10, 6, 4);
    assert_eq!(sender.max_size(), 10);
    assert_eq!(receiver.topic(), b"topic");
    let mut queue = VecDeque::new();
    assert!(matches!(receiver.recv(&mut VecDeque::from([BytesMut::from(&b"abcd"[..])]), true, None), device::Received::More));
    assert_eq!(receiver.pending_len(), 4);
    match receiver.recv(&mut VecDeque::from([BytesMut::new()]), true, None) {
        device::Received::Packet(packet) => assert_eq!(&packet[..], b"abcd"),
        _ => panic!("no packet"),
    }
    receiver.set_max_size(2);
    assert_eq!(receiver.max_size(), 2);
    match receiver.recv(&mut VecDeque::from([BytesMut::from(&b"abc"[..])]), true, None) {
        device::Received::Failed(err) => {
            assert_eq!(err, Error::IncomingTooLarge);
            assert_eq!(err.kind(), ErrorKind::InvalidData);
            assert_eq!(err.message().unwrap(), "incoming packet exceeds maximum receive packet size");
        }
        _ => panic!("no error"),
    }
    assert!(matches!(receiver.recv(&mut queue, false, None), device::Received::End));
    match receiver.recv(&mut queue, false, Some(ErrorKind::TimedOut)) {
        device::Received::Failed(err) => {
            assert_eq!(err.kind(), ErrorKind::TimedOut);
            assert_eq!(err.message().unwrap(), "connection closed");
        }
        _ => panic!("no error"),
    }
}

#[test]
fn senders_check_size() {
    let sender = host::UpcSender::new(3);
    assert_eq!(sender.send(Bytes::from_static(b"abc")), Ok(Bytes::from_static(b"abc")));
    let err = sender.send(Bytes::from_static(b"abcd")).unwrap_err();
    assert_eq!(err.kind(), ErrorKind::InvalidInput);
    assert_eq!(err.message().unwrap(), "packet of 4 bytes exceeds maximum packet size of 3 bytes");

    let (sender, _) = device::connection(Vec::new(), 3, 0, 1);
    assert!(sender.send(Bytes::from_static(b"abc")).is_ok());
    assert_eq!(
        sender.send(Bytes::from_static(b"abcd")),
        Err(Error::SendTooLarge { size: 4, max_size: 3 })
    );
}

#[test]
fn closed_channel_errors() {
    assert_eq!(host::UpcSender::closed_error(None).kind(), ErrorKind::BrokenPipe);
    assert_eq!(host::UpcSender::closed_error(None).message().unwrap(), "UPC channel closed");
    let failure = TaskError::PartialSend { size: 10, sent: 4 };
    let err = host::UpcSender::closed_error(Some(failure));
    assert_eq!(err.kind(), ErrorKind::WriteZero);
    assert_eq!(err.message().unwrap(), "only sent 4 out of 10 bytes");

    assert_eq!(device::UpcSender::closed_error(None).kind(), ErrorKind::ConnectionReset);
    assert_eq!(device::UpcSender::closed_error(Some(ErrorKind::TimedOut)).kind(), ErrorKind::TimedOut);
}

#[test]
fn received_buffer_is_cut() {
    let packet = host::RecvPacket::new(vec![1, 2, 3, 4], 2, true);
    assert_eq!(packet.data(), &[1, 2]);
    assert!(packet.is_zero_copy());
    assert_eq!(packet.into_vec(), [1, 2]);
    let packet = host::RecvPacket::new(vec![1, 2, 3], 3, false);
    assert!(!packet.is_zero_copy());
    assert_eq!(&packet.into_bytes()[..], &[1, 2, 3]);
}

#[test]
fn host_receiver_takes_packets_in_order() {
    let packets: [&[u8]; 6] = [b"abc", b"", b"abcdefgh", b"abcdefghi", b"", b"abcd"];
    let mut queue = VecDeque::new();
    for packet in packets {
        for part in split_packets(Bytes::from_static(packet), 4) {
            queue.push_back(part);
        }
    }
    queue.push_back(Bytes::from_static(b"rest"));
    let mut receiver = host::UpcReceiver::new(4, 9);
    for packet in packets {
        match receiver.recv(&mut queue, true, None) {
            host::Received::Packet(data) => assert_eq!(&data[..], packet),
            _ => panic!("no packet"),
        }
    }
    assert_eq!(queue.len(), 1);
    assert!(matches!(receiver.recv(&mut queue, true, None), host::Received::More));
    assert_eq!(receiver.pending_len(), 4);
    queue.push_back(Bytes::from_static(b"!"));
    match receiver.recv(&mut queue, false, None) {
        host::Received::Packet(data) => assert_eq!(&data[..], b"rest!"),
        _ => panic!("no packet"),
    }
    assert!(matches!(receiver.recv(&mut queue, false, None), host::Received::End));
}

#[test]
fn device_receiver_takes_packets_in_order() {
    let packets: [&[u8]; 5] = [b"", b"abcd", b"", b"ab", b"abcdefg"];
    let mut queue = VecDeque::new();
    for packet in packets {
        for part in split_packets(Bytes::from_static(packet), 4) {
            queue.push_back(BytesMut::from(&part[..]));
        }
    }
    let (_, mut receiver) = device::connection(Vec::new(), 10, 7, 4);
    for packet in packets {
        match receiver.recv(&mut queue, false, Some(ErrorKind::TimedOut)) {
            device::Received::Packet(data) => assert_eq!(&data[..], packet),
            _ => panic!("no packet"),
        }
    }
    match receiver.recv(&mut queue, false, Some(ErrorKind::TimedOut)) {
        device::Received::Failed(err) => assert_eq!(err.kind(), ErrorKind::TimedOut),
        _ => panic!("no error"),
    }
}
