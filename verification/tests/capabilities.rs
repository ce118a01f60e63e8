//! Tests of the encoding of capabilities.

use std::time::Duration;

use upc::capabilities::{Capabilities, DeviceCapabilities, HostCapabilities};
use upc::error::{Error, ErrorKind};
use upc::tlv;

#[test]
fn basic_encoding() {
    let caps = Capabilities { ping_timeout: Some(Duration::from_secs(10)), status_supported: true };
    assert_eq!(caps.encode(), [1, 4, 0, 0x10, 0x27, 0, 0, 2, 1, 0, 1]);
    assert_eq!(Capabilities::default().encode(), [1, 4, 0, 0, 0, 0, 0, 2, 1, 0, 0]);
}

#[test]
fn basic_round_trip() {
    let caps = Capabilities { ping_timeout: Some(Duration::from_millis(1234)), status_supported: true };
    assert_eq!(Capabilities::decode(&caps.encode()), Ok(caps));
    let caps = Capabilities { ping_timeout: None, status_supported: false };
    assert_eq!(Capabilities::decode(&caps.encode()), Ok(caps));
}

#[test]
fn timeout_is_rounded_and_capped() {
    let caps = Capabilities { ping_timeout: Some(Duration::from_micros(1999)), status_supported: false };
    assert_eq!(Capabilities::decode(&caps.encode()).unwrap().ping_timeout, Some(Duration::from_millis(1)));
    let caps = Capabilities { ping_timeout: Some(Duration::from_micros(999)), status_supported: false };
    assert_eq!(Capabilities::decode(&caps.encode()).unwrap().ping_timeout, None);
    let caps = Capabilities { ping_timeout: Some(Duration::from_secs(u64::MAX)), status_supported: false };
    assert_eq!(
        Capabilities::decode(&caps.encode()).unwrap().ping_timeout,
        Some(Duration::from_millis(u32::MAX.into()))
    );
}

#[test]
fn device_encoding() {
    let caps = DeviceCapabilities {
        ping_timeout: Some(Duration::from_secs(10)),
        status_supported: true,
        max_size: 1_000_000,
        echo_supported: true,
    };
    let data = caps.encode();
    assert_eq!(
        data,
        [
            1, 4, 0, 0x10, 0x27, 0, 0, // ping timeout
            2, 1, 0, 1, // status supported
            3, 8, 0, 0x40, 0x42, 0x0f, 0, 0, 0, 0, 0, // maximum size
            4, 1, 0, 1, // echo supported
        ]
    );
    assert_eq!(DeviceCapabilities::decode(&data), Ok(caps));
}

#[test]
fn host_encoding() {
    let caps = HostCapabilities { max_size: 0x0102_0304_0506_0708 };
    assert_eq!(caps.encode(), [3, 8, 0, 8, 7, 6, 5, 4, 3, 2, 1]);
    assert_eq!(HostCapabilities::decode(&caps.encode()), Ok(caps));
}

#[test]
fn missing_tags_use_defaults() {
    let caps = DeviceCapabilities::decode(&[]).unwrap();
    assert_eq!(caps, DeviceCapabilities::default());
    assert_eq!(caps.max_size, 16_777_216);
    assert_eq!(caps.ping_timeout, None);
    assert!(!caps.status_supported);
    assert!(!caps.echo_supported);
    assert_eq!(HostCapabilities::decode(&[]), Ok(HostCapabilities { max_size: 16_777_216 }));
    assert_eq!(Capabilities::decode(&[]), Ok(Capabilities::default()));
}

#[test]
fn unknown_tags_are_skipped() {
    let data = [0x80, 2, 0, 9, 9, 2, 1, 0, 1, 0, 0, 0];
    assert!(Capabilities::decode(&data).unwrap().status_supported);
    assert!(DeviceCapabilities::decode(&data).unwrap().status_supported);
    assert_eq!(HostCapabilities::decode(&data), Ok(HostCapabilities::default()));
}

#[test]
fn short_values_are_ignored_and_long_ones_cut() {
    let caps = Capabilities::decode(&[1, 3, 0, 1, 1, 1, 2, 0, 0]).unwrap();
    assert_eq!(caps, Capabilities::default());
    let caps = Capabilities::decode(&[1, 5, 0, 2, 0, 0, 0, 7, 2, 2, 0, 5, 0]).unwrap();
    assert_eq!(caps, Capabilities { ping_timeout: Some(Duration::from_millis(2)), status_supported: true });
}

#[test]
fn last_entry_wins() {
    let caps = Capabilities::decode(&[2, 1, 0, 1, 2, 1, 0, 0]).unwrap();
    assert!(!caps.status_supported);
    let caps = Capabilities::decode(&[2, 1, 0, 1, 2, 0, 0]).unwrap();
    assert!(caps.status_supported);
}

#[test]
fn truncated_capabilities() {
    for data in [&[1u8][..], &[1, 4], &[1, 4, 0], &[1, 4, 0, 1, 2, 3], &[2, 1, 0, 1, 5]] {
        let err = Capabilities::decode(data).unwrap_err();
        assert_eq!(err, Error::CapabilitiesTruncated);
        assert_eq!(err.kind(), ErrorKind::InvalidData);
        assert_eq!(err.message().unwrap(), "capabilities data truncated");
        assert_eq!(DeviceCapabilities::decode(data), Err(Error::CapabilitiesTruncated));
        assert_eq!(HostCapabilities::decode(data), Err(Error::CapabilitiesTruncated));
    }
}

#[test]
fn basic_and_full_encodings_are_compatible() {
    let full = DeviceCapabilities {
        ping_timeout: Some(Duration::from_secs(3)),
        status_supported: true,
        max_size: 5,
        echo_supported: true,
    };
    let basic = Capabilities { ping_timeout: full.ping_timeout, status_supported: full.status_supported };
    assert_eq!(Capabilities::decode(&full.encode()), Ok(basic));
    let read = DeviceCapabilities::decode(&basic.encode()).unwrap();
    assert_eq!(read, DeviceCapabilities { max_size: 16_777_216, echo_supported: false, ..full });
    assert!(full.encode().len() <= Capabilities::SIZE);
}

#[test]
fn tagged_entries() {
    let mut buf = vec![7];
    tlv::push_entry(&mut buf, 9, &vec![1, 2]);
    assert_eq!(buf, [7, 9, 2, 0, 1, 2]);
    let entries = tlv::decode(&buf[1..]).unwrap();
    assert_eq!(entries.len(), 1);
    assert_eq!((entries[0].tag, &entries[0].value[..]), (9, &[1u8, 2][..]));
    assert!(tlv::decode(&buf).is_none());
}

#[test]
fn little_endian_numbers() {
    let mut buf = Vec::new();
    tlv::push_le(&mut buf, 0x1234_5678, 3);
    assert_eq!(buf, [0x78, 0x56, 0x34]);
    assert_eq!(tlv::read_le(&[9, 0x78, 0x56, 0x34, 9], 1, 3), 0x34_5678);
    assert_eq!(tlv::read_le(&[0xff; 8], 0, 8), u64::MAX);
}
