//! Device-side USB packet channel (UPC).
//!
//! [`UpcFunction`] decides how the device reacts to control requests and to what
//! happens on its endpoints. [`UpcSender`] and [`UpcReceiver`] are the two directions of
//! an accepted connection.

pub mod channel;
pub mod function;
pub mod interface;
pub mod laws;

pub use channel::{connection, Received, UpcReceiver, UpcSender};
pub use function::{accept_error, Action, Ended, Event, UpcFunction};
pub use interface::InterfaceId;
