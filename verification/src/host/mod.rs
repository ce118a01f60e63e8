//! Host-side USB packet channel (UPC).
//!
//! The modules hold the decisions that the host takes: which interface and endpoints it
//! uses, how it establishes and closes a connection and what it makes of the transfers.

pub mod blocking;
pub mod channel;
pub mod connect;
pub mod discovery;
pub mod guard;
pub mod half_close;
pub mod options;
pub mod tasks;
pub mod web;

pub use connect::{Connect, Connection};
pub use channel::{Received, RecvPacket, UpcReceiver, UpcSender};
pub use discovery::{find_interface, find_interface_opened};
pub use guard::{InUse, InUseGuard};
pub use half_close::HalfCloseHandle;
pub use options::UpcOptions;
