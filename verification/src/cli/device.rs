//! The device command.

use uuid::Uuid;
use vstd::prelude::*;

use crate::class::Class;
use crate::device::InterfaceId;
use crate::guid::{parse_guid, parsed_guid};

verus! {

/// Determines the interface id from the result of parsing the GUID argument, if there is one.
///
/// The error is that of an invalid GUID.
pub fn interface_id_with(
    subclass: u8,
    protocol: u8,
    name: Option<&str>,
    guid: Option<Result<Uuid, String>>,
) -> (result: Result<InterfaceId, String>)
    ensures
        match guid {
            Some(Err(message)) => result matches Err(err) && err@ == message@,
            _ => result matches Ok(id) && {
                &&& id.class == (Class { class: 0xff, sub_class: subclass, protocol })
                &&& id.name@ == (match name {
                    Some(name) => name@,
                    None => "USB packet channel (UPC)"@,
                })
                &&& id.guid == (match guid {
                    Some(Ok(guid)) => Some(guid),
                    _ => None,
                })
            },
        },
{
    let mut id = InterfaceId::new(Class::vendor_specific(subclass, protocol));
    if let Some(name) = name {
        id = id.with_name(name);
    }
    match guid {
        Some(Ok(guid)) => Ok(id.with_guid(guid)),
        Some(Err(message)) => Err(message),
        None => Ok(id),
    }
}

/// Determines the interface id from the arguments.
///
/// The error is that of an invalid GUID.
pub fn interface_id(subclass: u8, protocol: u8, name: Option<&str>, guid: Option<&str>) -> (result:
    Result<InterfaceId, String>)
    ensures
        match result {
            Ok(id) => {
                &&& id.class == (Class { class: 0xff, sub_class: subclass, protocol })
                &&& id.name@ == (match name {
                    Some(name) => name@,
                    None => "USB packet channel (UPC)"@,
                })
                &&& match guid {
                    Some(text) => id.guid is Some && parsed_guid(text@) == Ok::<Uuid, Seq<char>>(
                        id.guid->0,
                    ),
                    None => id.guid is None,
                }
            },
            Err(message) => guid is Some && parsed_guid(guid->0@) == Err::<Uuid, Seq<char>>(
                message@,
            ),
        },
{
    match guid {
        Some(text) => {
            let guid = parse_guid(text);
            interface_id_with(subclass, protocol, name, Some(guid))
        },
        None => interface_id_with(subclass, protocol, name, None),
    }
}

/// The exit code after a connection has ended. There is none if the next connection is
/// accepted.
pub fn exit_code(failed: bool, keep: bool) -> (code: Option<i32>)
    ensures
        code == (if keep {
            None
        } else if failed {
            Some(1i32)
        } else {
            Some(0i32)
        }),
{
    if keep {
        None
    } else if failed {
        Some(1)
    } else {
        Some(0)
    }
}

} // verus!
