//! USB packet channel (UPC).
//!
//! A packet-based transport over USB bulk endpoints with preserved message boundaries,
//! connection management, independent closing of the two directions, liveness detection
//! and negotiation of the maximum packet size.
//!
//! The crate holds the protocol: the encoding of what goes over the wire and the decisions
//! of the device ([`device`]), of the host ([`host`]) and of the command-line tool
//! ([`cli`]). It performs no transfers itself. An application feeds it with what happens on
//! the USB side and does what it asks for.

pub mod buffer;
pub mod capabilities;
pub mod class;
pub mod cli;
pub mod ctrl;
pub mod device;
pub mod error;
pub mod framing;
pub mod guid;
pub mod host;
pub mod laws;
pub mod limits;
pub mod text;
pub mod time;
pub mod tlv;
pub mod trace;

pub use class::Class;
pub use limits::{INFO_SIZE, MAX_SIZE, TRANSFER_PACKETS};
