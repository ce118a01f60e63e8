//! Vendor-specific control requests.
//!
//! All requests have the vendor type and an interface as recipient. The index is the
//! interface number and the value is zero.

use vstd::prelude::*;

verus! {

/// Check whether the interface speaks the protocol.
pub const PROBE: u8 = 0;

/// Open a connection.
pub const OPEN: u8 = 1;

/// Close the connection (both directions).
pub const CLOSE: u8 = 2;

/// Read device-provided information.
pub const INFO: u8 = 3;

/// Host is done sending (close send direction).
pub const CLOSE_SEND: u8 = 4;

/// Host is done receiving (close receive direction).
pub const CLOSE_RECV: u8 = 5;

/// Ping / status request (device responds with status bytes).
pub const STATUS: u8 = 6;

/// Exchange capabilities.
pub const CAPABILITIES: u8 = 7;

/// Send the data back through the bulk endpoint.
pub const ECHO: u8 = 8;

/// Status byte: the device is done receiving.
pub const RECV_CLOSED: u8 = 1;

/// Maximum size of the response to a status request.
pub const STATUS_SIZE: usize = 8;

/// The response to a probe request: the text `UPC`.
pub open spec fn probe_response() -> Seq<u8> {
    seq![0x55u8, 0x50u8, 0x43u8]
}

/// The response to a probe request: the text `UPC`.
pub fn probe_response_data() -> (data: Vec<u8>)
    ensures
        data@ == probe_response(),
{
    let mut data: Vec<u8> = Vec::new();
    data.push(0x55);
    data.push(0x50);
    data.push(0x43);
    assert(data@ =~= probe_response());
    data
}

/// Whether two byte strings are equal.
pub fn same_bytes(first: &[u8], second: &[u8]) -> (same: bool)
    ensures
        same == (first@ == second@),
{
    if first.len() != second.len() {
        return false;
    }
    let mut i: usize = 0;
    while i < first.len()
        invariant
            first@.len() == second@.len(),
            i <= first@.len(),
            forall|j: int| 0 <= j < i ==> first@[j] == second@[j],
        decreases first@.len() - i,
    {
        if first[i] != second[i] {
            assert(first@[i as int] != second@[i as int]);
            return false;
        }
        i = i + 1;
    }
    assert(first@ =~= second@);
    true
}

/// A control request from host to device.
pub struct ControlOut {
    /// Request code.
    pub request: u8,
    /// Data.
    pub data: Vec<u8>,
}

/// A control request from host to device with its data.
pub struct ControlOutView {
    pub request: u8,
    pub data: Seq<u8>,
}

impl View for ControlOut {
    type V = ControlOutView;

    open spec fn view(&self) -> ControlOutView {
        ControlOutView { request: self.request, data: self.data@ }
    }
}

/// A control request from device to host.
#[derive(Debug, Clone, Copy, PartialEq, Eq, Structural)]
pub struct ControlIn {
    /// Request code.
    pub request: u8,
    /// Maximum size of the response.
    pub length: u16,
}

/// The numbers of the requests on the wire.
pub proof fn law_request_codes()
    ensures
        seq![
            PROBE,
            OPEN,
            CLOSE,
            INFO,
            CLOSE_SEND,
            CLOSE_RECV,
            STATUS,
            CAPABILITIES,
            ECHO,
        ] == Seq::new(9, |code: int| code as u8),
        RECV_CLOSED == 1,
        STATUS_SIZE == 8,
{
}

/// The response to a probe request is the text `UPC` in ASCII.
pub proof fn law_probe_response_text()
    ensures
        probe_response().len() == "UPC"@.len(),
        forall|i: int|
            0 <= i < "UPC"@.len() ==> #[trigger] probe_response()[i] as char == "UPC"@[i],
{
    reveal_strlit("UPC");
}

/// A request is known by its code and all of its data.
pub proof fn law_request_view(request: ControlOut)
    ensures
        request@.request == request.request,
        request@.data == request.data@,
{
}

} // verus!
