//! Decisions of a host with blocking transfers.

use vstd::prelude::*;
use vstd::string::StringExecFns;

use crate::class::Class;
use crate::host::discovery::Direction;
use crate::text::{append_number, number};

verus! {

/// Timeout of a transfer in milliseconds.
pub const TRANSFER_TIMEOUT_MILLIS: u64 = 1000;

/// Number of packets in a queue.
pub const BLOCKING_QUEUE_LEN: usize = 16;

/// Identifier of the language English (United States).
pub const ENGLISH_US: u16 = 0x0409;

/// Failure of a blocking USB operation.
#[derive(Debug, Clone, Copy, PartialEq, Eq, Structural)]
pub enum BlockingError {
    /// Input/output error.
    Io,
    /// Invalid parameter.
    InvalidParam,
    /// Access denied.
    Access,
    /// No such device.
    NoDevice,
    /// Entity not found.
    NotFound,
    /// Resource busy.
    Busy,
    /// Operation timed out.
    Timeout,
    /// Overflow.
    Overflow,
    /// Pipe error.
    Pipe,
    /// System call interrupted.
    Interrupted,
    /// Insufficient memory.
    NoMem,
    /// Operation not supported or unimplemented.
    NotSupported,
    /// The device returned a malformed descriptor.
    BadDescriptor,
    /// Other error.
    Other,
}

/// Who defines a control request.
#[derive(Debug, Clone, Copy, PartialEq, Eq, Structural)]
pub enum RequestKind {
    /// The USB standard.
    Standard,
    /// The class of the device.
    Class,
    /// The vendor of the device.
    Vendor,
}

/// Recipient of a control request.
#[derive(Debug, Clone, Copy, PartialEq, Eq, Structural)]
pub enum Recipient {
    /// The device.
    Device,
    /// An interface.
    Interface,
    /// An endpoint.
    Endpoint,
}

/// `rusb::request_type` combines the bit of the direction, set for a request that asks for
/// data, the bits of the kind and the bits of the recipient.
#[verifier::external_body]
fn combined_type(direction: Direction, kind: RequestKind, recipient: Recipient) -> (value: u8)
    ensures
        value == (match direction {
            Direction::In => 0x80int,
            Direction::Out => 0int,
        }) + (match kind {
            RequestKind::Standard => 0int,
            RequestKind::Class => 0x20int,
            RequestKind::Vendor => 0x40int,
        }) + (match recipient {
            Recipient::Device => 0int,
            Recipient::Interface => 1int,
            Recipient::Endpoint => 2int,
        }),
{
    let direction = match direction {
        Direction::In => rusb::Direction::In,
        Direction::Out => rusb::Direction::Out,
    };
    let kind = match kind {
        RequestKind::Standard => rusb::RequestType::Standard,
        RequestKind::Class => rusb::RequestType::Class,
        RequestKind::Vendor => rusb::RequestType::Vendor,
    };
    let recipient = match recipient {
        Recipient::Device => rusb::Recipient::Device,
        Recipient::Interface => rusb::Recipient::Interface,
        Recipient::Endpoint => rusb::Recipient::Endpoint,
    };
    rusb::request_type(direction, kind, recipient)
}

/// The request type of the control requests of a direction: vendor requests to the
/// interface.
pub fn request_type(direction: Direction) -> (value: u8)
    ensures
        value == (match direction {
            Direction::In => 0xc1u8,
            Direction::Out => 0x41u8,
        }),
{
    combined_type(direction, RequestKind::Vendor, Recipient::Interface)
}

/// An interface in one of its alternate settings.
#[derive(Debug)]
pub struct NamedInterface {
    /// Interface number.
    pub number: u8,
    /// Class.
    pub class: Class,
    /// Name, if there is one and it can be read.
    pub name: Option<String>,
}

impl NamedInterface {
    /// Whether the interface has the class and, if one is given, the name.
    pub open spec fn spec_matches(self, class: Class, name: Option<&String>) -> bool {
        &&& self.class == class
        &&& match name {
            Some(name) => self.name is Some && self.name->0@ == name@,
            None => true,
        }
    }

    /// Whether the interface has the class and, if one is given, the name.
    pub fn matches(&self, class: Class, name: Option<&String>) -> (result: bool)
        ensures
            result == self.spec_matches(class, name),
    {
        if self.class != class {
            return false;
        }
        match name {
            Some(name) => match &self.name {
                Some(own) => *own == *name,
                None => false,
            },
            None => true,
        }
    }
}

/// The position of the first matching interface.
pub open spec fn is_first_match(
    interfaces: Seq<NamedInterface>,
    class: Class,
    name: Option<&String>,
    pos: int,
) -> bool {
    &&& 0 <= pos < interfaces.len()
    &&& interfaces[pos].spec_matches(class, name)
    &&& forall|i: int| 0 <= i < pos ==> !(#[trigger] interfaces[i]).spec_matches(class, name)
}

/// Finds the interface by class and optional interface name.
pub fn find_interface(
    interfaces: &Vec<NamedInterface>,
    class: Class,
    name: Option<&String>,
) -> (result: Result<u8, BlockingError>)
    ensures
        match result {
            Ok(number) => exists|pos: int| #[trigger]
                is_first_match(interfaces@, class, name, pos) && interfaces@[pos].number
                    == number,
            Err(err) => err == BlockingError::NotFound && forall|i: int|
                0 <= i < interfaces@.len() ==> !(#[trigger] interfaces@[i]).spec_matches(
                    class,
                    name,
                ),
        },
{
    let mut pos: usize = 0;
    while pos < interfaces.len()
        invariant
            pos <= interfaces@.len(),
            forall|i: int|
                0 <= i < pos ==> !(#[trigger] interfaces@[i]).spec_matches(class, name),
        decreases interfaces@.len() - pos,
    {
        if interfaces[pos].matches(class, name) {
            assert(is_first_match(interfaces@, class, name, pos as int));
            return Ok(interfaces[pos].number);
        }
        pos = pos + 1;
    }
    Err(BlockingError::NotFound)
}

/// Finds the language in which the name of an interface is read: English (United States).
pub fn choose_language(languages: &Vec<u16>) -> (result: Result<usize, BlockingError>)
    ensures
        match result {
            Ok(pos) => {
                &&& pos < languages@.len()
                &&& languages@[pos as int] == ENGLISH_US
                &&& forall|i: int| 0 <= i < pos ==> languages@[i] != ENGLISH_US
            },
            Err(err) => err == BlockingError::NotFound && !languages@.contains(ENGLISH_US),
        },
{
    let mut pos: usize = 0;
    while pos < languages.len()
        invariant
            pos <= languages@.len(),
            forall|i: int| 0 <= i < pos ==> languages@[i] != ENGLISH_US,
        decreases languages@.len() - pos,
    {
        if languages[pos] == ENGLISH_US {
            return Ok(pos);
        }
        pos = pos + 1;
    }
    Err(BlockingError::NotFound)
}

/// The address of the last endpoint of a direction.
pub open spec fn last_address(endpoints: Seq<(Direction, u8)>, direction: Direction) -> Option<u8>
    decreases endpoints.len(),
{
    if endpoints.len() == 0 {
        None
    } else if endpoints.last().0 == direction {
        Some(endpoints.last().1)
    } else {
        last_address(endpoints.drop_last(), direction)
    }
}

/// An interface with the directions and addresses of the endpoints of all its alternate
/// settings.
#[derive(Debug)]
pub struct InterfaceEndpoints {
    /// Interface number.
    pub number: u8,
    /// Endpoints.
    pub endpoints: Vec<(Direction, u8)>,
}

/// The IN and the OUT endpoint to use, if there are both.
pub open spec fn endpoint_pair(endpoints: Seq<(Direction, u8)>) -> Result<
    (u8, u8),
    BlockingError,
> {
    match (
        last_address(endpoints, Direction::In),
        last_address(endpoints, Direction::Out),
    ) {
        (Some(ep_in), Some(ep_out)) => Ok((ep_in, ep_out)),
        _ => Err(BlockingError::NotFound),
    }
}

/// The IN and the OUT endpoint of the first interface with the number.
pub open spec fn endpoints_of_number(interfaces: Seq<InterfaceEndpoints>, number: u8) -> Result<
    (u8, u8),
    BlockingError,
>
    decreases interfaces.len(),
{
    if interfaces.len() == 0 {
        Err(BlockingError::NotFound)
    } else if interfaces[0].number == number {
        endpoint_pair(interfaces[0].endpoints@)
    } else {
        endpoints_of_number(interfaces.drop_first(), number)
    }
}

fn choose_endpoints(endpoints: &Vec<(Direction, u8)>) -> (result: Result<(u8, u8), BlockingError>)
    ensures
        result == endpoint_pair(endpoints@),
{
    let mut ep_in: Option<u8> = None;
    let mut ep_out: Option<u8> = None;
    let mut i: usize = 0;
    while i < endpoints.len()
        invariant
            i <= endpoints@.len(),
            ep_in == last_address(endpoints@.take(i as int), Direction::In),
            ep_out == last_address(endpoints@.take(i as int), Direction::Out),
        decreases endpoints@.len() - i,
    {
        assert(endpoints@.take(i + 1).drop_last() =~= endpoints@.take(i as int));
        assert(endpoints@.take(i + 1).last() == endpoints@[i as int]);
        let (direction, address) = endpoints[i];
        match direction {
            Direction::In => {
                ep_in = Some(address);
            },
            Direction::Out => {
                ep_out = Some(address);
            },
        }
        i = i + 1;
    }
    assert(endpoints@.take(i as int) =~= endpoints@);
    match (ep_in, ep_out) {
        (Some(ep_in), Some(ep_out)) => Ok((ep_in, ep_out)),
        _ => Err(BlockingError::NotFound),
    }
}

/// Selects the IN and the OUT endpoint of an interface.
pub fn select_endpoints(interfaces: &Vec<InterfaceEndpoints>, number: u8) -> (result: Result<
    (u8, u8),
    BlockingError,
>)
    ensures
        result == endpoints_of_number(interfaces@, number),
{
    let mut i: usize = 0;
    assert(interfaces@.skip(0) =~= interfaces@);
    while i < interfaces.len()
        invariant
            i <= interfaces@.len(),
            endpoints_of_number(interfaces@, number) == endpoints_of_number(
                interfaces@.skip(i as int),
                number,
            ),
        decreases interfaces@.len() - i,
    {
        if interfaces[i].number == number {
            return choose_endpoints(&interfaces[i].endpoints);
        }
        assert(interfaces@.skip(i as int).drop_first() =~= interfaces@.skip(i + 1));
        i = i + 1;
    }
    Err(BlockingError::NotFound)
}

/// Port numbers separated by hyphens.
pub open spec fn port_text(ports: Seq<u8>) -> Seq<char>
    decreases ports.len(),
{
    if ports.len() == 0 {
        Seq::empty()
    } else if ports.len() == 1 {
        number(ports[0] as nat, 10)
    } else {
        port_text(ports.drop_last()) + "-"@ + number(ports.last() as nat, 10)
    }
}

/// The name of a channel: the port numbers of the device and the interface number.
pub fn channel_name(ports: &Vec<u8>, interface: u8) -> (name: String)
    ensures
        name@ == port_text(ports@) + ":"@ + number(interface as nat, 10),
{
    let mut name = String::new();
    let mut i: usize = 0;
    assert(ports@.take(0) =~= Seq::<u8>::empty());
    while i < ports.len()
        invariant
            i <= ports@.len(),
            name@ == port_text(ports@.take(i as int)),
        decreases ports@.len() - i,
    {
        let ghost before = name@;
        assert(ports@.take(i + 1).drop_last() =~= ports@.take(i as int));
        assert(ports@.take(i + 1).last() == ports@[i as int]);
        if i > 0 {
            name.append("-");
        }
        append_number(&mut name, ports[i] as u64);
        assert(name@ =~= port_text(ports@.take(i + 1)));
        i = i + 1;
    }
    assert(ports@.take(i as int) =~= ports@);
    name.append(":");
    append_number(&mut name, interface as u64);
    assert(name@ =~= port_text(ports@) + ":"@ + number(interface as nat, 10));
    name
}

/// What a thread has to do after a transfer.
#[derive(Debug, Clone, Copy, PartialEq, Eq, Structural)]
pub enum ThreadAction {
    /// The transfer is done: go on with the next packet.
    Next,
    /// Try again.
    Again,
    /// Close the connection.
    Stop,
}

/// Decides what the receiving thread does after a transfer: a timeout is no failure.
///
/// The error of a failure replaces the previous one.
pub fn in_thread(result: Result<usize, BlockingError>, error: &mut BlockingError) -> (action:
    ThreadAction)
    ensures
        action == (match result {
            Ok(_) => ThreadAction::Next,
            Err(BlockingError::Timeout) => ThreadAction::Again,
            Err(_) => ThreadAction::Stop,
        }),
        *final(error) == (match result {
            Ok(_) | Err(BlockingError::Timeout) => *old(error),
            Err(err) => err,
        }),
{
    match result {
        Ok(_) => ThreadAction::Next,
        Err(BlockingError::Timeout) => ThreadAction::Again,
        Err(err) => {
            *error = err;
            ThreadAction::Stop
        },
    }
}

/// Decides what the sending thread does after a transfer of `size` bytes: a timeout is no
/// failure, and a transfer that succeeds has sent all bytes.
///
/// The error of a failure replaces the previous one.
pub fn out_thread(size: usize, result: Result<usize, BlockingError>, error: &mut BlockingError) -> (
    action: ThreadAction)
    requires
        result is Ok ==> result->Ok_0 == size,
    ensures
        action == (match result {
            Ok(_) => ThreadAction::Next,
            Err(BlockingError::Timeout) => ThreadAction::Again,
            Err(_) => ThreadAction::Stop,
        }),
        *final(error) == (match result {
            Ok(_) | Err(BlockingError::Timeout) => *old(error),
            Err(err) => err,
        }),
{
    in_thread(result, error)
}

/// The position of the last endpoint of a direction.
pub open spec fn is_last_of(
    endpoints: Seq<(Direction, u8)>,
    direction: Direction,
    pos: int,
) -> bool {
    &&& 0 <= pos < endpoints.len()
    &&& endpoints[pos].0 == direction
    &&& forall|later: int|
        pos < later < endpoints.len() ==> (#[trigger] endpoints[later]).0 != direction
}

proof fn lemma_last_address(endpoints: Seq<(Direction, u8)>, direction: Direction)
    ensures
        match last_address(endpoints, direction) {
            Some(address) => exists|pos: int| #[trigger]
                is_last_of(endpoints, direction, pos) && endpoints[pos].1 == address,
            None => forall|i: int|
                0 <= i < endpoints.len() ==> (#[trigger] endpoints[i]).0 != direction,
        },
    decreases endpoints.len(),
{
    if endpoints.len() > 0 {
        let last = endpoints.len() - 1;
        let init = endpoints.drop_last();
        lemma_last_address(init, direction);
        if endpoints[last].0 == direction {
            assert(is_last_of(endpoints, direction, last));
        } else {
            match last_address(init, direction) {
                Some(address) => {
                    let pos = choose|pos: int| #[trigger]
                        is_last_of(init, direction, pos) && init[pos].1 == address;
                    assert forall|later: int| pos < later < endpoints.len() implies (
                    #[trigger] endpoints[later]).0 != direction by {
                        if later < last {
                            assert(init[later] == endpoints[later]);
                        }
                    }
                    assert(is_last_of(endpoints, direction, pos));
                },
                None => {
                    assert forall|i: int| 0 <= i < endpoints.len() implies (
                    #[trigger] endpoints[i]).0 != direction by {
                        if i < last {
                            assert(init[i] == endpoints[i]);
                        }
                    }
                },
            }
        }
    }
}

/// Endpoints are selected exactly if there is one of each direction, in whatever order, and
/// they are the last ones.
pub proof fn law_endpoint_pair(endpoints: Seq<(Direction, u8)>)
    ensures
        endpoint_pair(endpoints) is Ok <==> {
            &&& exists|i: int| 0 <= i < endpoints.len() && (#[trigger] endpoints[i]).0 is In
            &&& exists|i: int| 0 <= i < endpoints.len() && (#[trigger] endpoints[i]).0 is Out
        },
        match endpoint_pair(endpoints) {
            Ok((ep_in, ep_out)) => {
                &&& exists|pos: int| #[trigger]
                    is_last_of(endpoints, Direction::In, pos) && endpoints[pos].1 == ep_in
                &&& exists|pos: int| #[trigger]
                    is_last_of(endpoints, Direction::Out, pos) && endpoints[pos].1 == ep_out
            },
            Err(err) => err == BlockingError::NotFound,
        },
{
    lemma_last_address(endpoints, Direction::In);
    lemma_last_address(endpoints, Direction::Out);
    if let Ok((ep_in, ep_out)) = endpoint_pair(endpoints) {
        let pos_in = choose|pos: int| #[trigger]
            is_last_of(endpoints, Direction::In, pos) && endpoints[pos].1 == ep_in;
        let pos_out = choose|pos: int| #[trigger]
            is_last_of(endpoints, Direction::Out, pos) && endpoints[pos].1 == ep_out;
        assert(endpoints[pos_in].0 is In);
        assert(endpoints[pos_out].0 is Out);
    }
}

/// The endpoints are those of the first interface with the number, whatever other interfaces
/// there are, and there are none without such an interface.
pub proof fn law_endpoints_of_first(interfaces: Seq<InterfaceEndpoints>, number: u8, pos: int)
    ensures
        0 <= pos < interfaces.len() && interfaces[pos].number == number && (forall|i: int|
            0 <= i < pos ==> (#[trigger] interfaces[i]).number != number)
            ==> endpoints_of_number(interfaces, number) == endpoint_pair(
            interfaces[pos].endpoints@,
        ),
        (forall|i: int|
            0 <= i < interfaces.len() ==> (#[trigger] interfaces[i]).number != number)
            ==> endpoints_of_number(interfaces, number) == Err::<(u8, u8), BlockingError>(
            BlockingError::NotFound,
        ),
    decreases interfaces.len(),
{
    if interfaces.len() > 0 && interfaces[0].number != number {
        let rest = interfaces.drop_first();
        law_endpoints_of_first(rest, number, pos - 1);
        assert forall|i: int| 0 <= i < rest.len() implies #[trigger] rest[i] == interfaces[i
            + 1] by {}
        if 0 < pos < interfaces.len() {
            assert(rest[pos - 1] == interfaces[pos]);
        }
    }
}

/// An interface matches exactly if it has the class and, where a name is given, has a name
/// that is the same. The first match is the one with the smallest position.
pub proof fn law_named_interface(
    interfaces: Seq<NamedInterface>,
    class: Class,
    name: Option<&String>,
    pos: int,
    other: int,
)
    requires
        0 <= pos < interfaces.len(),
        0 <= other < interfaces.len(),
    ensures
        interfaces[pos].spec_matches(class, name) <==> interfaces[pos].class == class && (
        name is None || (interfaces[pos].name is Some && interfaces[pos].name->0@ == name->0@)),
        is_first_match(interfaces, class, name, pos) ==> interfaces[pos].spec_matches(class, name),
        is_first_match(interfaces, class, name, pos) && interfaces[other].spec_matches(
            class,
            name,
        ) ==> pos <= other,
        interfaces[pos].spec_matches(class, name) && (forall|i: int|
            0 <= i < interfaces.len() && (#[trigger] interfaces[i]).spec_matches(class, name)
                ==> pos <= i) ==> is_first_match(interfaces, class, name, pos),
{
}

/// Port numbers are joined by hyphens: a single one is its decimal number, and several are
/// the texts of any two parts with a hyphen between them.
pub proof fn law_ports_joined(first: Seq<u8>, second: Seq<u8>, port: u8)
    requires
        first.len() > 0,
        second.len() > 0,
    ensures
        port_text(seq![port]) == number(port as nat, 10),
        port_text(Seq::empty()).len() == 0,
        port_text(first + second) == port_text(first) + "-"@ + port_text(second),
    decreases second.len(),
{
    let all = first + second;
    if second.len() == 1 {
        assert(all.drop_last() =~= first);
        assert(port_text(second) == number(second.last() as nat, 10));
    } else {
        let init = second.drop_last();
        law_ports_joined(first, init, port);
        assert(all.drop_last() =~= first + init);
        assert(port_text(all) =~= port_text(first) + "-"@ + port_text(second));
    }
}

/// The limits of the blocking host and the language of names: English (United States).
pub proof fn law_blocking_limits()
    ensures
        TRANSFER_TIMEOUT_MILLIS == 1000,
        BLOCKING_QUEUE_LEN == 16,
        ENGLISH_US == 0x0409,
{
}

} // verus!
