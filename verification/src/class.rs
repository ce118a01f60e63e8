//! USB interface class.

use vstd::prelude::*;

verus! {

/// USB interface class.
#[derive(Debug, Clone, Copy, PartialEq, Eq, PartialOrd, Ord, Hash, Structural)]
pub struct Class {
    /// Class code.
    pub class: u8,
    /// Subclass code.
    pub sub_class: u8,
    /// Protocol code.
    pub protocol: u8,
}

impl Class {
    /// Vendor specific class code.
    pub const VENDOR_SPECIFIC: u8 = 0xff;

    /// Creates a new USB device or interface class.
    pub fn new(class: u8, sub_class: u8, protocol: u8) -> (result: Self)
        ensures
            result == (Class { class, sub_class, protocol }),
    {
        Class { class, sub_class, protocol }
    }

    /// Creates a new USB device or interface class with vendor-specific class code.
    pub fn vendor_specific(sub_class: u8, protocol: u8) -> (result: Self)
        ensures
            result == (Class { class: 0xff, sub_class, protocol }),
    {
        Class::new(Class::VENDOR_SPECIFIC, sub_class, protocol)
    }
}

} // verus!
