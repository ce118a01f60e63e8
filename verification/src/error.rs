//! Errors.

use vstd::prelude::*;
use vstd::std_specs::convert::{FromSpec, FromSpecImpl};
use vstd::string::StringExecFns;

use crate::class::Class;
use crate::text::{append_number, number};

verus! {

/// Kind of an error.
#[derive(Debug, Clone, Copy, PartialEq, Eq, Structural)]
pub enum ErrorKind {
    /// The peer or the operating system closed the channel.
    BrokenPipe,
    /// The device has disconnected or a transfer was aborted.
    ConnectionAborted,
    /// The connection was reset.
    ConnectionReset,
    /// Malformed data.
    InvalidData,
    /// Invalid argument.
    InvalidInput,
    /// The device is not configured.
    NetworkDown,
    /// Not found.
    NotFound,
    /// Other error.
    Other,
    /// A size limit is exceeded.
    OutOfMemory,
    /// Access is denied.
    PermissionDenied,
    /// The resource is in use.
    ResourceBusy,
    /// The operation timed out.
    TimedOut,
    /// Data ended prematurely.
    UnexpectedEof,
    /// The operation is not supported.
    Unsupported,
    /// The data could not be written completely.
    WriteZero,
}

/// Failure of a USB transfer on a native host.
#[derive(Debug, Clone, Copy, PartialEq, Eq, Structural)]
pub enum TransferError {
    /// The transfer was cancelled or timed out.
    Cancelled,
    /// The endpoint is halted or the control request is not supported.
    Stall,
    /// The device is disconnected.
    Disconnected,
    /// Hardware issue or protocol violation.
    Fault,
    /// The request has an invalid argument.
    InvalidArgument,
    /// Another failure with its platform-specific code.
    Unknown(u32),
}

/// Failure of a USB operation on a native host.
#[derive(Debug, Clone, Copy, PartialEq, Eq, Structural)]
pub enum UsbError {
    /// The device is disconnected.
    Disconnected,
    /// The device or interface is in use.
    Busy,
    /// Access is denied.
    PermissionDenied,
    /// The device or interface does not exist.
    NotFound,
    /// The operation is not supported.
    Unsupported,
    /// Another failure.
    Other,
}

/// Failure of a USB operation on a web host.
#[derive(Debug, Clone, Copy, PartialEq, Eq, Structural)]
pub enum WebError {
    /// The operation is not supported.
    Unsupported,
    /// The device is already open.
    AlreadyOpen,
    /// The device is disconnected.
    Disconnected,
    /// Access is denied.
    Security,
    /// The endpoint is halted or the control request is not supported.
    Stall,
    /// The device sent more data than expected.
    Babble,
    /// The transfer failed.
    Transfer,
    /// The operation is invalid in the current state.
    InvalidAccess,
    /// Another failure.
    Other,
}

/// Failure of a task that performs transfers.
#[derive(Debug, Clone, Copy, PartialEq, Eq, Structural)]
pub enum TaskError {
    /// A transfer on a native host failed.
    Transfer(TransferError),
    /// A transfer on a web host failed.
    WebUsb(WebError),
    /// A transfer sent less data than requested.
    PartialSend {
        /// Requested size.
        size: usize,
        /// Sent size.
        sent: usize,
    },
}

/// An error.
#[derive(Debug, Clone, Copy, PartialEq, Eq, Structural)]
pub enum Error {
    /// The encoded capabilities end in the middle of an entry.
    CapabilitiesTruncated,
    /// The device-side channel is closed.
    ConnectionClosed(ErrorKind),
    /// The host-side channel is closed.
    ChannelClosed,
    /// A packet received by the host is too large.
    MaxSizeExceeded,
    /// A packet received by the device is too large.
    IncomingTooLarge,
    /// A packet is too large to be sent.
    SendTooLarge {
        /// Size of the packet.
        size: usize,
        /// Maximum packet size.
        max_size: usize,
    },
    /// A USB operation on a native host failed.
    Usb(UsbError),
    /// A task failed.
    Task(TaskError),
    /// A USB operation on a web host failed.
    Web(WebError),
    /// The configuration of the device cannot be read.
    NotConfigured,
    /// The device has no active configuration.
    NoConfiguration,
    /// The device has no interface of this class.
    ClassNotFound(Class),
    /// The device has no UPC interface.
    UpcNotFound,
    /// The device has no interface of this number.
    InterfaceNotFound(u8),
    /// The device does not have the specified interface.
    SpecifiedInterfaceNotFound,
    /// The interface does not have the endpoints for the transfers.
    TransferEndpointsNotFound,
    /// The interface does not have the endpoints.
    EndpointsNotFound,
    /// The interface is used by another channel.
    InterfaceInUse,
    /// The device was unbound.
    DeviceUnbound,
    /// The device has failed.
    DeviceFailed,
}

impl TransferError {
    /// The kind of the error.
    pub open spec fn spec_kind(self) -> ErrorKind {
        match self {
            TransferError::Disconnected => ErrorKind::ConnectionAborted,
            TransferError::Cancelled => ErrorKind::TimedOut,
            TransferError::Fault => ErrorKind::UnexpectedEof,
            TransferError::InvalidArgument => ErrorKind::InvalidInput,
            TransferError::Stall => ErrorKind::WriteZero,
            TransferError::Unknown(_) => ErrorKind::Other,
        }
    }

    /// The kind of the error.
    pub fn kind(&self) -> (kind: ErrorKind)
        ensures
            kind == self.spec_kind(),
    {
        match self {
            TransferError::Disconnected => ErrorKind::ConnectionAborted,
            TransferError::Cancelled => ErrorKind::TimedOut,
            TransferError::Fault => ErrorKind::UnexpectedEof,
            TransferError::InvalidArgument => ErrorKind::InvalidInput,
            TransferError::Stall => ErrorKind::WriteZero,
            TransferError::Unknown(_) => ErrorKind::Other,
        }
    }
}

impl UsbError {
    /// The kind of the error.
    pub open spec fn spec_kind(self) -> ErrorKind {
        match self {
            UsbError::Disconnected => ErrorKind::ConnectionAborted,
            UsbError::PermissionDenied => ErrorKind::PermissionDenied,
            UsbError::NotFound => ErrorKind::NotFound,
            UsbError::Busy => ErrorKind::ResourceBusy,
            UsbError::Unsupported => ErrorKind::Unsupported,
            UsbError::Other => ErrorKind::Other,
        }
    }

    /// The kind of the error.
    pub fn kind(&self) -> (kind: ErrorKind)
        ensures
            kind == self.spec_kind(),
    {
        match self {
            UsbError::Disconnected => ErrorKind::ConnectionAborted,
            UsbError::PermissionDenied => ErrorKind::PermissionDenied,
            UsbError::NotFound => ErrorKind::NotFound,
            UsbError::Busy => ErrorKind::ResourceBusy,
            UsbError::Unsupported => ErrorKind::Unsupported,
            UsbError::Other => ErrorKind::Other,
        }
    }
}

impl WebError {
    /// The kind of the error.
    pub open spec fn spec_kind(self) -> ErrorKind {
        match self {
            WebError::Unsupported => ErrorKind::Unsupported,
            WebError::AlreadyOpen => ErrorKind::ResourceBusy,
            WebError::Disconnected => ErrorKind::NotFound,
            WebError::Security => ErrorKind::PermissionDenied,
            WebError::Stall => ErrorKind::ConnectionAborted,
            WebError::Babble => ErrorKind::ConnectionAborted,
            WebError::Transfer => ErrorKind::ConnectionAborted,
            WebError::InvalidAccess => ErrorKind::InvalidInput,
            WebError::Other => ErrorKind::Other,
        }
    }

    /// The kind of the error.
    pub fn kind(&self) -> (kind: ErrorKind)
        ensures
            kind == self.spec_kind(),
    {
        match self {
            WebError::Unsupported => ErrorKind::Unsupported,
            WebError::AlreadyOpen => ErrorKind::ResourceBusy,
            WebError::Disconnected => ErrorKind::NotFound,
            WebError::Security => ErrorKind::PermissionDenied,
            WebError::Stall => ErrorKind::ConnectionAborted,
            WebError::Babble => ErrorKind::ConnectionAborted,
            WebError::Transfer => ErrorKind::ConnectionAborted,
            WebError::InvalidAccess => ErrorKind::InvalidInput,
            WebError::Other => ErrorKind::Other,
        }
    }
}

impl TaskError {
    /// The kind of the error.
    pub open spec fn spec_kind(self) -> ErrorKind {
        match self {
            TaskError::Transfer(err) => err.spec_kind(),
            TaskError::WebUsb(err) => err.spec_kind(),
            TaskError::PartialSend { .. } => ErrorKind::WriteZero,
        }
    }

    /// The kind of the error.
    pub fn kind(&self) -> (kind: ErrorKind)
        ensures
            kind == self.spec_kind(),
    {
        match self {
            TaskError::Transfer(err) => err.kind(),
            TaskError::WebUsb(err) => err.kind(),
            TaskError::PartialSend { .. } => ErrorKind::WriteZero,
        }
    }
}

impl From<TransferError> for TaskError {
    fn from(err: TransferError) -> (task_err: Self) {
        TaskError::Transfer(err)
    }
}

impl FromSpecImpl<TransferError> for TaskError {
    open spec fn obeys_from_spec() -> bool {
        true
    }

    open spec fn from_spec(err: TransferError) -> Self {
        TaskError::Transfer(err)
    }
}

impl From<WebError> for TaskError {
    fn from(err: WebError) -> (task_err: Self) {
        TaskError::WebUsb(err)
    }
}

impl FromSpecImpl<WebError> for TaskError {
    open spec fn obeys_from_spec() -> bool {
        true
    }

    open spec fn from_spec(err: WebError) -> Self {
        TaskError::WebUsb(err)
    }
}

/// The debug text of a class.
pub open spec fn class_text(class: Class) -> Seq<char> {
    "Class { class: "@ + number(class.class as nat, 10) + ", sub_class: "@ + number(
        class.sub_class as nat,
        10,
    ) + ", protocol: "@ + number(class.protocol as nat, 10) + " }"@
}

fn append_class(text: &mut String, class: &Class)
    ensures
        final(text)@ == old(text)@ + class_text(*class),
{
    let ghost before = text@;
    text.append("Class { class: ");
    append_number(text, class.class as u64);
    text.append(", sub_class: ");
    append_number(text, class.sub_class as u64);
    text.append(", protocol: ");
    append_number(text, class.protocol as u64);
    text.append(" }");
    assert(text@ =~= before + class_text(*class));
}

impl Error {
    /// The kind of the error.
    pub open spec fn spec_kind(self) -> ErrorKind {
        match self {
            Error::CapabilitiesTruncated => ErrorKind::InvalidData,
            Error::ConnectionClosed(kind) => kind,
            Error::ChannelClosed => ErrorKind::BrokenPipe,
            Error::MaxSizeExceeded => ErrorKind::OutOfMemory,
            Error::IncomingTooLarge => ErrorKind::InvalidData,
            Error::SendTooLarge { .. } => ErrorKind::InvalidInput,
            Error::Usb(err) => err.spec_kind(),
            Error::Task(err) => err.spec_kind(),
            Error::Web(err) => err.spec_kind(),
            Error::NotConfigured => ErrorKind::NetworkDown,
            Error::NoConfiguration => ErrorKind::NotFound,
            Error::ClassNotFound(_) => ErrorKind::NotFound,
            Error::UpcNotFound => ErrorKind::NotFound,
            Error::InterfaceNotFound(_) => ErrorKind::NotFound,
            Error::SpecifiedInterfaceNotFound => ErrorKind::NotFound,
            Error::TransferEndpointsNotFound => ErrorKind::NotFound,
            Error::EndpointsNotFound => ErrorKind::NotFound,
            Error::InterfaceInUse => ErrorKind::ResourceBusy,
            Error::DeviceUnbound => ErrorKind::ConnectionReset,
            Error::DeviceFailed => ErrorKind::BrokenPipe,
        }
    }

    /// The kind of the error.
    pub fn kind(&self) -> (kind: ErrorKind)
        ensures
            kind == self.spec_kind(),
    {
        match self {
            Error::CapabilitiesTruncated => ErrorKind::InvalidData,
            Error::ConnectionClosed(kind) => *kind,
            Error::ChannelClosed => ErrorKind::BrokenPipe,
            Error::MaxSizeExceeded => ErrorKind::OutOfMemory,
            Error::IncomingTooLarge => ErrorKind::InvalidData,
            Error::SendTooLarge { .. } => ErrorKind::InvalidInput,
            Error::Usb(err) => err.kind(),
            Error::Task(err) => err.kind(),
            Error::Web(err) => err.kind(),
            Error::NotConfigured => ErrorKind::NetworkDown,
            Error::NoConfiguration => ErrorKind::NotFound,
            Error::ClassNotFound(_) => ErrorKind::NotFound,
            Error::UpcNotFound => ErrorKind::NotFound,
            Error::InterfaceNotFound(_) => ErrorKind::NotFound,
            Error::SpecifiedInterfaceNotFound => ErrorKind::NotFound,
            Error::TransferEndpointsNotFound => ErrorKind::NotFound,
            Error::EndpointsNotFound => ErrorKind::NotFound,
            Error::InterfaceInUse => ErrorKind::ResourceBusy,
            Error::DeviceUnbound => ErrorKind::ConnectionReset,
            Error::DeviceFailed => ErrorKind::BrokenPipe,
        }
    }

    /// The text of the error.
    ///
    /// There is none for an error that has its text from the USB library.
    pub open spec fn spec_message(self) -> Option<Seq<char>> {
        match self {
            Error::CapabilitiesTruncated => Some("capabilities data truncated"@),
            Error::ConnectionClosed(_) => Some("connection closed"@),
            Error::ChannelClosed => Some("UPC channel closed"@),
            Error::MaxSizeExceeded => Some("maximum packet size exceeded"@),
            Error::IncomingTooLarge => Some(
                "incoming packet exceeds maximum receive packet size"@,
            ),
            Error::SendTooLarge { size, max_size } => Some(
                "packet of "@ + number(size as nat, 10)
                    + " bytes exceeds maximum packet size of "@ + number(max_size as nat, 10)
                    + " bytes"@,
            ),
            Error::Task(TaskError::PartialSend { size, sent }) => Some(
                "only sent "@ + number(sent as nat, 10) + " out of "@ + number(size as nat, 10)
                    + " bytes"@,
            ),
            Error::Usb(_) | Error::Task(_) | Error::Web(_) | Error::NotConfigured => None,
            Error::NoConfiguration => Some("USB device has no active configuration"@),
            Error::ClassNotFound(class) => Some(
                "USB interface for "@ + class_text(class) + " not found"@,
            ),
            Error::UpcNotFound => Some("UPC interface not found"@),
            Error::InterfaceNotFound(interface) => Some(
                "interface "@ + number(interface as nat, 10) + " not found"@,
            ),
            Error::SpecifiedInterfaceNotFound => Some("specified interface not found"@),
            Error::TransferEndpointsNotFound => Some("transfer endpoints not found"@),
            Error::EndpointsNotFound => Some("endpoints not found"@),
            Error::InterfaceInUse => Some("interface is used by another UPC channel"@),
            Error::DeviceUnbound => Some("the USB device was unbound"@),
            Error::DeviceFailed => Some("the USB device has failed"@),
        }
    }

    /// The text of the error.
    ///
    /// There is none for an error that has its text from the USB library.
    pub fn message(&self) -> (message: Option<String>)
        ensures
            match message {
                Some(message) => self.spec_message() == Some(message@),
                None => self.spec_message() is None,
            },
    {
        let mut text = String::new();
        match self {
            Error::CapabilitiesTruncated => text.append("capabilities data truncated"),
            Error::ConnectionClosed(_) => text.append("connection closed"),
            Error::ChannelClosed => text.append("UPC channel closed"),
            Error::MaxSizeExceeded => text.append("maximum packet size exceeded"),
            Error::IncomingTooLarge => text.append(
                "incoming packet exceeds maximum receive packet size",
            ),
            Error::SendTooLarge { size, max_size } => {
                text.append("packet of ");
                append_number(&mut text, *size as u64);
                text.append(" bytes exceeds maximum packet size of ");
                append_number(&mut text, *max_size as u64);
                text.append(" bytes");
            },
            Error::Task(TaskError::PartialSend { size, sent }) => {
                text.append("only sent ");
                append_number(&mut text, *sent as u64);
                text.append(" out of ");
                append_number(&mut text, *size as u64);
                text.append(" bytes");
            },
            Error::Usb(_) | Error::Task(_) | Error::Web(_) | Error::NotConfigured => {
                return None;
            },
            Error::NoConfiguration => text.append("USB device has no active configuration"),
            Error::ClassNotFound(class) => {
                text.append("USB interface for ");
                append_class(&mut text, class);
                text.append(" not found");
            },
            Error::UpcNotFound => text.append("UPC interface not found"),
            Error::InterfaceNotFound(interface) => {
                text.append("interface ");
                append_number(&mut text, *interface as u64);
                text.append(" not found");
            },
            Error::SpecifiedInterfaceNotFound => text.append("specified interface not found"),
            Error::TransferEndpointsNotFound => text.append("transfer endpoints not found"),
            Error::EndpointsNotFound => text.append("endpoints not found"),
            Error::InterfaceInUse => text.append("interface is used by another UPC channel"),
            Error::DeviceUnbound => text.append("the USB device was unbound"),
            Error::DeviceFailed => text.append("the USB device has failed"),
        }
        assert(text@ =~= self.spec_message()->0);
        Some(text)
    }
}

/// The kind of an error does not depend on its details, except for those that tell where it
/// comes from.
pub proof fn law_error_kinds(
    kind: ErrorKind,
    code: u32,
    size: usize,
    other: usize,
    class: Class,
    interface: u8,
    transfer: TransferError,
    usb: UsbError,
    web: WebError,
)
    ensures
        Error::ConnectionClosed(kind).spec_kind() == kind,
        TransferError::Unknown(code).spec_kind() is Other,
        (TaskError::PartialSend { size, sent: other }).spec_kind() is WriteZero,
        (Error::SendTooLarge { size, max_size: other }).spec_kind() is InvalidInput,
        Error::ClassNotFound(class).spec_kind() is NotFound,
        Error::InterfaceNotFound(interface).spec_kind() is NotFound,
        TaskError::Transfer(transfer).spec_kind() == transfer.spec_kind(),
        TaskError::WebUsb(web).spec_kind() == web.spec_kind(),
        Error::Usb(usb).spec_kind() == usb.spec_kind(),
        Error::Web(web).spec_kind() == web.spec_kind(),
        Error::Task(TaskError::Transfer(transfer)).spec_kind() == transfer.spec_kind(),
        usb.spec_kind() is ResourceBusy <==> usb is Busy,
        !(transfer.spec_kind() is ResourceBusy),
        web.spec_kind() is ResourceBusy <==> web is AlreadyOpen,
{
}

/// The texts of errors with details name the details in decimal.
pub proof fn law_error_details(
    size: usize,
    other: usize,
    class: Class,
    interface: u8,
    kind: ErrorKind,
)
    ensures
        Error::ConnectionClosed(kind).spec_message() == Some("connection closed"@),
        (Error::SendTooLarge { size, max_size: other }).spec_message() == Some(
            "packet of "@ + number(size as nat, 10) + " bytes exceeds maximum packet size of "@
                + number(other as nat, 10) + " bytes"@,
        ),
        Error::Task(TaskError::PartialSend { size, sent: other }).spec_message() == Some(
            "only sent "@ + number(other as nat, 10) + " out of "@ + number(size as nat, 10)
                + " bytes"@,
        ),
        Error::InterfaceNotFound(interface).spec_message() == Some(
            "interface "@ + number(interface as nat, 10) + " not found"@,
        ),
        Error::ClassNotFound(class).spec_message() == Some(
            "USB interface for Class { class: "@ + number(class.class as nat, 10)
                + ", sub_class: "@ + number(class.sub_class as nat, 10) + ", protocol: "@
                + number(class.protocol as nat, 10) + " } not found"@,
        ),
{
    reveal_strlit("USB interface for ");
    reveal_strlit("Class { class: ");
    reveal_strlit("USB interface for Class { class: ");
    reveal_strlit(" }");
    reveal_strlit(" not found");
    reveal_strlit(" } not found");
    assert("USB interface for "@ + "Class { class: "@ =~= "USB interface for Class { class: "@);
    assert(" }"@ + " not found"@ =~= " } not found"@);
    assert(Error::ClassNotFound(class).spec_message()->0 =~= "USB interface for Class { class: "@
        + number(class.class as nat, 10) + ", sub_class: "@ + number(class.sub_class as nat, 10)
        + ", protocol: "@ + number(class.protocol as nat, 10) + " } not found"@);
}

/// A failure of a transfer is known as the failure of the task.
pub proof fn law_task_errors(transfer: TransferError, web: WebError)
    ensures
        <TaskError as FromSpec<TransferError>>::from_spec(transfer) == TaskError::Transfer(
            transfer,
        ),
        <TaskError as FromSpec<WebError>>::from_spec(web) == TaskError::WebUsb(web),
{
}

} // verus!
