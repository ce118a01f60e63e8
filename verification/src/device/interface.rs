//! USB interface id.

use uuid::Uuid;
use vstd::prelude::*;
use vstd::std_specs::convert::FromSpecImpl;

use crate::class::Class;

verus! {

/// USB interface id.
#[derive(Debug)]
pub struct InterfaceId {
    /// Interface class.
    pub class: Class,
    /// Interface name.
    pub name: String,
    /// Device interface GUID for Microsoft OS.
    pub guid: Option<Uuid>,
}

impl InterfaceId {
    /// Whether this is the id for an interface class without further settings.
    pub open spec fn is_default_for(self, class: Class) -> bool {
        &&& self.class == class
        &&& self.name@ == "USB packet channel (UPC)"@
        &&& self.guid is None
    }

    /// Creates a new interface id using the specified interface class.
    pub fn new(class: Class) -> (id: Self)
        ensures
            id.is_default_for(class),
    {
        InterfaceId { class, name: "USB packet channel (UPC)".to_string(), guid: None }
    }

    /// Sets the interface name.
    #[must_use]
    pub fn with_name(self, name: &str) -> (id: Self)
        ensures
            id.class == self.class,
            id.name@ == name@,
            id.guid == self.guid,
    {
        InterfaceId { class: self.class, name: name.to_string(), guid: self.guid }
    }

    /// Sets the device interface GUID for Microsoft OS.
    #[must_use]
    pub fn with_guid(self, guid: Uuid) -> (id: Self)
        ensures
            id.class == self.class,
            id.name == self.name,
            id.guid == Some(guid),
    {
        InterfaceId { class: self.class, name: self.name, guid: Some(guid) }
    }
}

impl Clone for InterfaceId {
    fn clone(&self) -> (id: Self)
        ensures
            id.class == self.class,
            id.name@ == self.name@,
            id.guid == self.guid,
    {
        InterfaceId { class: self.class, name: self.name.clone(), guid: self.guid }
    }
}

impl From<Class> for InterfaceId {
    fn from(class: Class) -> (id: Self)
        ensures
            id.is_default_for(class),
    {
        InterfaceId::new(class)
    }
}

impl FromSpecImpl<Class> for InterfaceId {
    open spec fn obeys_from_spec() -> bool {
        false
    }

    open spec fn from_spec(class: Class) -> Self {
        arbitrary()
    }
}

/// The id for a class has the class, the name of the protocol and no GUID.
pub proof fn law_default_id(id: InterfaceId, class: Class)
    ensures
        id.is_default_for(class) <==> {
            &&& id.class.class == class.class
            &&& id.class.sub_class == class.sub_class
            &&& id.class.protocol == class.protocol
            &&& id.name@ == "USB packet channel (UPC)"@
            &&& id.guid is None
        },
{
}

} // verus!
