//! Tests of errors and texts.

use upc::class::Class;
use upc::error::{Error, ErrorKind, TaskError, TransferError, UsbError, WebError};
use upc::host::channel::channel_name;
use upc::text::{append_number, append_padded};

#[test]
fn vendor_specific_class() {
    assert_eq!(Class::vendor_specific(22, 3), Class::new(0xff, 22, 3));
    assert_eq!(Class::VENDOR_SPECIFIC, 0xff);
}

#[test]
fn transfer_error_kinds() {
    let kinds = [
        (TransferError::Disconnected, ErrorKind::ConnectionAborted),
        (TransferError::Cancelled, ErrorKind::TimedOut),
        (TransferError::Fault, ErrorKind::UnexpectedEof),
        (TransferError::InvalidArgument, ErrorKind::InvalidInput),
        (TransferError::Stall, ErrorKind::WriteZero),
        (TransferError::Unknown(5), ErrorKind::Other),
    ];
    for (err, kind) in kinds {
        assert_eq!(err.kind(), kind);
        assert_eq!(TaskError::from(err).kind(), kind);
        assert_eq!(Error::Task(err.into()).kind(), kind);
        assert_eq!(Error::Task(err.into()).message(), None);
    }
}

#[test]
fn usb_error_kinds() {
    let kinds = [
        (UsbError::Disconnected, ErrorKind::ConnectionAborted),
        (UsbError::PermissionDenied, ErrorKind::PermissionDenied),
        (UsbError::NotFound, ErrorKind::NotFound),
        (UsbError::Busy, ErrorKind::ResourceBusy),
        (UsbError::Unsupported, ErrorKind::Unsupported),
        (UsbError::Other, ErrorKind::Other),
    ];
    for (err, kind) in kinds {
        assert_eq!(err.kind(), kind);
        assert_eq!(Error::Usb(err).kind(), kind);
        assert_eq!(Error::Usb(err).message(), None);
    }
}

#[test]
fn web_error_kinds() {
    let kinds = [
        (WebError::Unsupported, ErrorKind::Unsupported),
        (WebError::AlreadyOpen, ErrorKind::ResourceBusy),
        (WebError::Disconnected, ErrorKind::NotFound),
        (WebError::Security, ErrorKind::PermissionDenied),
        (WebError::Stall, ErrorKind::ConnectionAborted),
        (WebError::Babble, ErrorKind::ConnectionAborted),
        (WebError::Transfer, ErrorKind::ConnectionAborted),
        (WebError::InvalidAccess, ErrorKind::InvalidInput),
        (WebError::Other, ErrorKind::Other),
    ];
    for (err, kind) in kinds {
        assert_eq!(err.kind(), kind);
        assert_eq!(TaskError::from(err).kind(), kind);
        assert_eq!(Error::Web(err).kind(), kind);
        assert_eq!(Error::Web(err).message(), None);
    }
}

#[test]
fn error_messages() {
    let messages = [
        (Error::NoConfiguration, ErrorKind::NotFound, "USB device has no active configuration"),
        (
            Error::ClassNotFound(Class::vendor_specific(22, 3)),
            ErrorKind::NotFound,
            "USB interface for Class { class: 255, sub_class: 22, protocol: 3 } not found",
        ),
        (Error::UpcNotFound, ErrorKind::NotFound, "UPC interface not found"),
        (Error::InterfaceNotFound(200), ErrorKind::NotFound, "interface 200 not found"),
        (Error::SpecifiedInterfaceNotFound, ErrorKind::NotFound, "specified interface not found"),
        (Error::TransferEndpointsNotFound, ErrorKind::NotFound, "transfer endpoints not found"),
        (Error::EndpointsNotFound, ErrorKind::NotFound, "endpoints not found"),
        (Error::InterfaceInUse, ErrorKind::ResourceBusy, "interface is used by another UPC channel"),
        (Error::DeviceUnbound, ErrorKind::ConnectionReset, "the USB device was unbound"),
        (Error::DeviceFailed, ErrorKind::BrokenPipe, "the USB device has failed"),
    ];
    for (err, kind, message) in messages {
        assert_eq!(err.kind(), kind);
        assert_eq!(err.message().unwrap(), message);
    }
    assert_eq!(Error::NotConfigured.kind(), ErrorKind::NetworkDown);
    assert_eq!(Error::NotConfigured.message(), None);
}

#[test]
fn debug_text_of_class() {
    let class = Class::new(1, 20, 255);
    assert_eq!(
        Error::ClassNotFound(class).message().unwrap(),
        format!("USB interface for {class:?} not found")
    );
}

#[test]
fn numbers_as_text() {
    for value in [0, 7, 10, 99, 12345, u64::MAX] {
        let mut text = String::from("x");
        append_number(&mut text, value);
        assert_eq!(text, format!("x{value}"));
    }
    for value in [0, 9, 255, 0x1209, 0xffff] {
        let mut text = String::new();
        append_padded(&mut text, value, 16, 4);
        assert_eq!(text, format!("{value:04x}"));
    }
    let mut text = String::new();
    append_padded(&mut text, 5, 10, 3);
    assert_eq!(text, "005");
}

#[test]
fn names_of_channels() {
    assert_eq!(channel_name("device", 3), "device:3");
}
