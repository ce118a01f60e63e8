//! Logic of the command-line tool.

pub mod device;
pub mod filter;
pub mod forward;
pub mod hex;
pub mod listing;
