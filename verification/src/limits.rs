//! Sizes and limits.

use vstd::prelude::*;

verus! {

/// Maximum info size.
pub const INFO_SIZE: usize = 4096;

/// Default maximum packet size.
pub const MAX_SIZE: usize = 16_777_216;

/// Number of USB packets in a receive buffer.
pub const TRANSFER_PACKETS: usize = 128;

/// Number of packets in a queue.
pub const QUEUE_LEN: usize = 32;

/// A size limit that a peer announced, capped to what can be addressed.
pub open spec fn capped(size: u64) -> usize {
    if size <= usize::MAX {
        size as usize
    } else {
        usize::MAX
    }
}

/// A size limit that a peer announced, capped to what can be addressed.
pub fn cap_size(size: u64) -> (result: usize)
    ensures
        result == capped(size),
{
    if size <= usize::MAX as u64 {
        size as usize
    } else {
        usize::MAX
    }
}

/// A capped size is the largest number that can be addressed and does not exceed the
/// announced size.
pub proof fn law_capped_is_largest(size: u64, other: usize)
    ensures
        capped(size) <= size,
        other <= size ==> other <= capped(size),
        size <= usize::MAX ==> capped(size) == size,
{
}

/// The limits of the protocol: 4 KiB of info or topic, 16 MiB per packet unless announced
/// otherwise, 128 USB packets in a receive buffer.
pub proof fn law_limits()
    ensures
        INFO_SIZE == 4 * 1024,
        MAX_SIZE == 16 * 1024 * 1024,
        TRANSFER_PACKETS == 128,
        QUEUE_LEN == 32,
{
}

} // verus!
