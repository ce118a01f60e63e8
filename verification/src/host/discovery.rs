//! Finding the interface and its endpoints, and the requests that need no connection.

use vstd::prelude::*;

use crate::class::Class;
use crate::ctrl;
use crate::ctrl::ControlIn;
use crate::error::{Error, TaskError, TransferError, WebError};
use crate::limits::{INFO_SIZE, TRANSFER_PACKETS};

verus! {

/// Direction of an endpoint.
#[derive(Debug, Clone, Copy, PartialEq, Eq, Structural)]
pub enum Direction {
    /// Device to host.
    In,
    /// Host to device.
    Out,
}

/// Transfer type of an endpoint.
#[derive(Debug, Clone, Copy, PartialEq, Eq, Structural)]
pub enum TransferType {
    /// Control.
    Control,
    /// Isochronous.
    Isochronous,
    /// Bulk.
    Bulk,
    /// Interrupt.
    Interrupt,
}

/// Descriptor of an endpoint.
#[derive(Debug, Clone, Copy, PartialEq, Eq, Structural)]
pub struct EndpointDescriptor {
    /// Address.
    pub address: u8,
    /// Direction.
    pub direction: Direction,
    /// Transfer type.
    pub transfer_type: TransferType,
    /// Maximum packet size.
    pub max_packet_size: u16,
}

/// Descriptor of an interface in its first alternate setting.
#[derive(Debug)]
pub struct InterfaceDescriptor {
    /// Interface number.
    pub number: u8,
    /// Class.
    pub class: Class,
    /// Endpoints.
    pub endpoints: Vec<EndpointDescriptor>,
}

/// The position of the first interface of a class.
pub open spec fn is_first_of_class(
    interfaces: Seq<InterfaceDescriptor>,
    class: Class,
    pos: int,
) -> bool {
    &&& 0 <= pos < interfaces.len()
    &&& interfaces[pos].class == class
    &&& forall|i: int| 0 <= i < pos ==> (#[trigger] interfaces[i]).class != class
}

fn position_of_class(interfaces: &Vec<InterfaceDescriptor>, class: Class) -> (pos: Option<usize>)
    ensures
        match pos {
            Some(pos) => is_first_of_class(interfaces@, class, pos as int),
            None => forall|i: int|
                0 <= i < interfaces@.len() ==> (#[trigger] interfaces@[i]).class != class,
        },
{
    let mut pos: usize = 0;
    while pos < interfaces.len()
        invariant
            pos <= interfaces@.len(),
            forall|i: int| 0 <= i < pos ==> (#[trigger] interfaces@[i]).class != class,
        decreases interfaces@.len() - pos,
    {
        if interfaces[pos].class == class {
            return Some(pos);
        }
        pos = pos + 1;
    }
    None
}

/// Finds the interface by interface class from USB device information.
///
/// Returns the interface number.
pub fn find_interface(interfaces: &Vec<InterfaceDescriptor>, class: Class) -> (result: Result<
    u8,
    Error,
>)
    ensures
        match result {
            Ok(number) => exists|pos: int| #[trigger]
                is_first_of_class(interfaces@, class, pos) && interfaces@[pos].number == number,
            Err(err) => err == Error::ClassNotFound(class) && forall|i: int|
                0 <= i < interfaces@.len() ==> (#[trigger] interfaces@[i]).class != class,
        },
{
    match position_of_class(interfaces, class) {
        Some(pos) => Ok(interfaces[pos].number),
        None => Err(Error::ClassNotFound(class)),
    }
}

/// Finds the interface by interface class for an opened USB device.
///
/// Returns the interface number.
pub fn find_interface_opened(interfaces: &Vec<InterfaceDescriptor>, class: Class) -> (result:
    Result<u8, Error>)
    ensures
        match result {
            Ok(number) => exists|pos: int| #[trigger]
                is_first_of_class(interfaces@, class, pos) && interfaces@[pos].number == number,
            Err(err) => err == Error::ClassNotFound(class) && forall|i: int|
                0 <= i < interfaces@.len() ==> (#[trigger] interfaces@[i]).class != class,
        },
{
    find_interface(interfaces, class)
}

/// Finds the interface by interface class for a USB device of a web host, which may have no
/// active configuration.
///
/// Returns the interface number.
pub fn find_web_interface(interfaces: Option<&Vec<InterfaceDescriptor>>, class: Class) -> (result:
    Result<u8, Error>)
    ensures
        match interfaces {
            Some(interfaces) => match result {
                Ok(number) => exists|pos: int| #[trigger]
                    is_first_of_class(interfaces@, class, pos) && interfaces@[pos].number
                        == number,
                Err(err) => err == Error::UpcNotFound && forall|i: int|
                    0 <= i < interfaces@.len() ==> (#[trigger] interfaces@[i]).class != class,
            },
            None => result == Err::<u8, Error>(Error::NoConfiguration),
        },
{
    match interfaces {
        Some(interfaces) => match position_of_class(interfaces, class) {
            Some(pos) => Ok(interfaces[pos].number),
            None => Err(Error::UpcNotFound),
        },
        None => Err(Error::NoConfiguration),
    }
}

/// The address of the last bulk endpoint of a direction.
pub open spec fn last_bulk(endpoints: Seq<EndpointDescriptor>, direction: Direction) -> Option<u8>
    decreases endpoints.len(),
{
    if endpoints.len() == 0 {
        None
    } else if endpoints.last().transfer_type == TransferType::Bulk && endpoints.last().direction
        == direction {
        Some(endpoints.last().address)
    } else {
        last_bulk(endpoints.drop_last(), direction)
    }
}

/// The smallest maximum packet size of the bulk endpoints.
pub open spec fn smallest_packet(endpoints: Seq<EndpointDescriptor>) -> u16
    decreases endpoints.len(),
{
    if endpoints.len() == 0 {
        u16::MAX
    } else {
        let rest = smallest_packet(endpoints.drop_last());
        if endpoints.last().transfer_type == TransferType::Bulk
            && endpoints.last().max_packet_size < rest {
            endpoints.last().max_packet_size
        } else {
            rest
        }
    }
}

/// The endpoints of a channel.
#[derive(Debug, Clone, Copy, PartialEq, Eq, Structural)]
pub struct Endpoints {
    /// Address of the IN endpoint.
    pub ep_in: u8,
    /// Address of the OUT endpoint.
    pub ep_out: u8,
    /// Maximum packet size.
    pub max_packet_size: u16,
}

impl Endpoints {
    /// The size of a receive buffer.
    pub open spec fn spec_transfer_size(self) -> usize {
        (self.max_packet_size * TRANSFER_PACKETS) as usize
    }

    /// The size of a receive buffer.
    pub fn transfer_size(&self) -> (size: usize)
        ensures
            size == self.spec_transfer_size(),
            size == self.max_packet_size * TRANSFER_PACKETS,
    {
        self.max_packet_size as usize * TRANSFER_PACKETS
    }
}

/// The endpoints to use of an interface: the last bulk endpoint of each direction, and the
/// smallest maximum packet size of all bulk endpoints.
pub open spec fn endpoints_of(endpoints: Seq<EndpointDescriptor>) -> Option<Endpoints> {
    match (last_bulk(endpoints, Direction::In), last_bulk(endpoints, Direction::Out)) {
        (Some(ep_in), Some(ep_out)) => Some(
            Endpoints { ep_in, ep_out, max_packet_size: smallest_packet(endpoints) },
        ),
        _ => None,
    }
}

fn choose_endpoints(endpoints: &Vec<EndpointDescriptor>) -> (chosen: Option<Endpoints>)
    ensures
        chosen == endpoints_of(endpoints@),
{
    let mut ep_in: Option<u8> = None;
    let mut ep_out: Option<u8> = None;
    let mut max_packet_size: u16 = u16::MAX;
    let mut i: usize = 0;
    while i < endpoints.len()
        invariant
            i <= endpoints@.len(),
            ep_in == last_bulk(endpoints@.take(i as int), Direction::In),
            ep_out == last_bulk(endpoints@.take(i as int), Direction::Out),
            max_packet_size == smallest_packet(endpoints@.take(i as int)),
        decreases endpoints@.len() - i,
    {
        let endpoint = endpoints[i];
        assert(endpoints@.take(i + 1).drop_last() =~= endpoints@.take(i as int));
        assert(endpoints@.take(i + 1).last() == endpoint);
        if endpoint.transfer_type == TransferType::Bulk {
            if endpoint.max_packet_size < max_packet_size {
                max_packet_size = endpoint.max_packet_size;
            }
            match endpoint.direction {
                Direction::In => {
                    ep_in = Some(endpoint.address);
                },
                Direction::Out => {
                    ep_out = Some(endpoint.address);
                },
            }
        }
        i = i + 1;
    }
    assert(endpoints@.take(i as int) =~= endpoints@);
    match (ep_in, ep_out) {
        (Some(ep_in), Some(ep_out)) => Some(Endpoints { ep_in, ep_out, max_packet_size }),
        _ => None,
    }
}

/// The position of the first interface with a number.
pub open spec fn is_first_numbered(
    interfaces: Seq<InterfaceDescriptor>,
    number: u8,
    pos: int,
) -> bool {
    &&& 0 <= pos < interfaces.len()
    &&& interfaces[pos].number == number
    &&& forall|i: int| 0 <= i < pos ==> (#[trigger] interfaces[i]).number != number
}

/// Whether there is no interface with a number.
pub open spec fn none_numbered(interfaces: Seq<InterfaceDescriptor>, number: u8) -> bool {
    forall|i: int| 0 <= i < interfaces.len() ==> (#[trigger] interfaces[i]).number != number
}

fn position_of_number(interfaces: &Vec<InterfaceDescriptor>, number: u8) -> (pos: Option<usize>)
    ensures
        match pos {
            Some(pos) => is_first_numbered(interfaces@, number, pos as int),
            None => none_numbered(interfaces@, number),
        },
{
    let mut pos: usize = 0;
    while pos < interfaces.len()
        invariant
            pos <= interfaces@.len(),
            forall|i: int| 0 <= i < pos ==> (#[trigger] interfaces@[i]).number != number,
        decreases interfaces@.len() - pos,
    {
        if interfaces[pos].number == number {
            return Some(pos);
        }
        pos = pos + 1;
    }
    None
}

/// Selects the endpoints of an interface of a native host.
pub fn select_endpoints(interfaces: &Vec<InterfaceDescriptor>, number: u8) -> (result: Result<
    Endpoints,
    Error,
>)
    ensures
        match result {
            Ok(endpoints) => exists|pos: int| #[trigger]
                is_first_numbered(interfaces@, number, pos) && endpoints_of(
                    interfaces@[pos].endpoints@,
                ) == Some(endpoints),
            Err(Error::TransferEndpointsNotFound) => exists|pos: int| #[trigger]
                is_first_numbered(interfaces@, number, pos) && endpoints_of(
                    interfaces@[pos].endpoints@,
                ) is None,
            Err(err) => err == Error::InterfaceNotFound(number) && none_numbered(
                interfaces@,
                number,
            ),
        },
{
    match position_of_number(interfaces, number) {
        Some(pos) => match choose_endpoints(&interfaces[pos].endpoints) {
            Some(endpoints) => Ok(endpoints),
            None => Err(Error::TransferEndpointsNotFound),
        },
        None => Err(Error::InterfaceNotFound(number)),
    }
}

/// Selects the endpoints of an interface of a web host, whose device may have no active
/// configuration.
pub fn select_web_endpoints(
    interfaces: Option<&Vec<InterfaceDescriptor>>,
    number: u8,
) -> (result: Result<Endpoints, Error>)
    ensures
        match interfaces {
            Some(interfaces) => match result {
                Ok(endpoints) => exists|pos: int| #[trigger]
                    is_first_numbered(interfaces@, number, pos) && endpoints_of(
                        interfaces@[pos].endpoints@,
                    ) == Some(endpoints),
                Err(Error::EndpointsNotFound) => exists|pos: int| #[trigger]
                    is_first_numbered(interfaces@, number, pos) && endpoints_of(
                        interfaces@[pos].endpoints@,
                    ) is None,
                Err(err) => err == Error::SpecifiedInterfaceNotFound && none_numbered(
                    interfaces@,
                    number,
                ),
            },
            None => result == Err::<Endpoints, Error>(Error::NoConfiguration),
        },
{
    match interfaces {
        Some(interfaces) => match position_of_number(interfaces, number) {
            Some(pos) => match choose_endpoints(&interfaces[pos].endpoints) {
                Some(endpoints) => Ok(endpoints),
                None => Err(Error::EndpointsNotFound),
            },
            None => Err(Error::SpecifiedInterfaceNotFound),
        },
        None => Err(Error::NoConfiguration),
    }
}

/// The request that reads the device-provided information.
///
/// The maximum size of the data is [`INFO_SIZE`].
pub fn info() -> (request: ControlIn)
    ensures
        request == (ControlIn { request: ctrl::INFO, length: INFO_SIZE as u16 }),
{
    ControlIn { request: ctrl::INFO, length: INFO_SIZE as u16 }
}

/// The request that probes whether an interface speaks the protocol.
pub fn probe() -> (request: ControlIn)
    ensures
        request == (ControlIn { request: ctrl::PROBE, length: 3 }),
        request.length == ctrl::probe_response().len(),
{
    ControlIn { request: ctrl::PROBE, length: 3 }
}

/// Whether an error says that an endpoint is halted or a request is not supported.
pub open spec fn is_stall(err: Error) -> bool {
    err == Error::Task(TaskError::Transfer(TransferError::Stall)) || err == Error::Web(
        WebError::Stall,
    )
}

/// Whether an interface speaks the protocol.
///
/// It does if the device responds with the expected probe response, and it does not if the
/// request is stalled or the response does not match.
pub fn probe_result(response: Result<Vec<u8>, Error>) -> (result: Result<bool, Error>)
    ensures
        result == (match response {
            Ok(data) => Ok::<bool, Error>(data@ == ctrl::probe_response()),
            Err(err) => if is_stall(err) {
                Ok(false)
            } else {
                Err(err)
            },
        }),
{
    match response {
        Ok(data) => {
            let expected = ctrl::probe_response_data();
            Ok(ctrl::same_bytes(data.as_slice(), expected.as_slice()))
        },
        Err(Error::Task(TaskError::Transfer(TransferError::Stall))) => Ok(false),
        Err(Error::Web(WebError::Stall)) => Ok(false),
        Err(err) => Err(err),
    }
}

/// The last bulk endpoint of a direction.
pub open spec fn is_last_bulk(
    endpoints: Seq<EndpointDescriptor>,
    direction: Direction,
    pos: int,
) -> bool {
    &&& 0 <= pos < endpoints.len()
    &&& endpoints[pos].transfer_type is Bulk && endpoints[pos].direction == direction
    &&& forall|later: int|
        pos < later < endpoints.len() ==> !((#[trigger] endpoints[later]).transfer_type is Bulk
            && endpoints[later].direction == direction)
}

proof fn lemma_last_bulk(endpoints: Seq<EndpointDescriptor>, direction: Direction)
    ensures
        match last_bulk(endpoints, direction) {
            Some(address) => exists|pos: int| #[trigger]
                is_last_bulk(endpoints, direction, pos) && endpoints[pos].address == address,
            None => forall|i: int|
                0 <= i < endpoints.len() ==> !((#[trigger] endpoints[i]).transfer_type is Bulk
                    && endpoints[i].direction == direction),
        },
    decreases endpoints.len(),
{
    if endpoints.len() > 0 {
        let last = endpoints.len() - 1;
        let init = endpoints.drop_last();
        lemma_last_bulk(init, direction);
        if endpoints[last].transfer_type is Bulk && endpoints[last].direction == direction {
            assert(is_last_bulk(endpoints, direction, last));
        } else {
            match last_bulk(init, direction) {
                Some(address) => {
                    let pos = choose|pos: int| #[trigger]
                        is_last_bulk(init, direction, pos) && init[pos].address == address;
                    assert forall|later: int| pos < later < endpoints.len() implies !((
                    #[trigger] endpoints[later]).transfer_type is Bulk
                        && endpoints[later].direction == direction) by {
                        if later < last {
                            assert(init[later] == endpoints[later]);
                        }
                    }
                    assert(is_last_bulk(endpoints, direction, pos));
                },
                None => {
                    assert forall|i: int| 0 <= i < endpoints.len() implies !((
                    #[trigger] endpoints[i]).transfer_type is Bulk && endpoints[i].direction
                        == direction) by {
                        if i < last {
                            assert(init[i] == endpoints[i]);
                        }
                    }
                },
            }
        }
    }
}

proof fn lemma_smallest_packet(endpoints: Seq<EndpointDescriptor>)
    ensures
        forall|i: int|
            0 <= i < endpoints.len() && (#[trigger] endpoints[i]).transfer_type is Bulk
                ==> smallest_packet(endpoints) <= endpoints[i].max_packet_size,
        smallest_packet(endpoints) < u16::MAX ==> exists|i: int|
            0 <= i < endpoints.len() && (#[trigger] endpoints[i]).transfer_type is Bulk
                && endpoints[i].max_packet_size == smallest_packet(endpoints),
    decreases endpoints.len(),
{
    if endpoints.len() > 0 {
        let last = endpoints.len() - 1;
        let init = endpoints.drop_last();
        let smallest = smallest_packet(endpoints);
        lemma_smallest_packet(init);
        assert forall|i: int|
            0 <= i < endpoints.len() && (#[trigger] endpoints[i]).transfer_type is Bulk implies
            smallest <= endpoints[i].max_packet_size by {
            if i < last {
                assert(init[i] == endpoints[i]);
            }
        }
        if smallest < u16::MAX {
            if endpoints[last].transfer_type is Bulk && endpoints[last].max_packet_size
                == smallest {
            } else {
                let i = choose|i: int|
                    0 <= i < init.len() && (#[trigger] init[i]).transfer_type is Bulk
                        && init[i].max_packet_size == smallest;
                assert(endpoints[i] == init[i]);
            }
        }
    }
}

/// Endpoints are selected exactly if there is a bulk endpoint of each direction, in
/// whatever order. They are the last ones, and no bulk endpoint has smaller packets than
/// the selected size, which one of them has.
pub proof fn law_endpoints_selected(endpoints: Seq<EndpointDescriptor>)
    ensures
        endpoints_of(endpoints) is Some <==> {
            &&& exists|i: int|
                0 <= i < endpoints.len() && (#[trigger] endpoints[i]).transfer_type is Bulk
                    && endpoints[i].direction is In
            &&& exists|i: int|
                0 <= i < endpoints.len() && (#[trigger] endpoints[i]).transfer_type is Bulk
                    && endpoints[i].direction is Out
        },
        endpoints_of(endpoints) matches Some(chosen) ==> {
            &&& exists|pos: int| #[trigger]
                is_last_bulk(endpoints, Direction::In, pos) && endpoints[pos].address
                    == chosen.ep_in
            &&& exists|pos: int| #[trigger]
                is_last_bulk(endpoints, Direction::Out, pos) && endpoints[pos].address
                    == chosen.ep_out
            &&& forall|i: int|
                0 <= i < endpoints.len() && (#[trigger] endpoints[i]).transfer_type is Bulk
                    ==> chosen.max_packet_size <= endpoints[i].max_packet_size
            &&& exists|i: int|
                0 <= i < endpoints.len() && (#[trigger] endpoints[i]).transfer_type is Bulk
                    && endpoints[i].max_packet_size == chosen.max_packet_size
        },
{
    lemma_last_bulk(endpoints, Direction::In);
    lemma_last_bulk(endpoints, Direction::Out);
    lemma_smallest_packet(endpoints);
    if let Some(chosen) = endpoints_of(endpoints) {
        let pos_in = choose|pos: int| #[trigger]
            is_last_bulk(endpoints, Direction::In, pos) && endpoints[pos].address == chosen.ep_in;
        let pos_out = choose|pos: int| #[trigger]
            is_last_bulk(endpoints, Direction::Out, pos) && endpoints[pos].address
                == chosen.ep_out;
        assert(endpoints[pos_in].transfer_type is Bulk && endpoints[pos_in].direction is In);
        assert(endpoints[pos_out].transfer_type is Bulk && endpoints[pos_out].direction is Out);
        if chosen.max_packet_size == u16::MAX {
            assert(endpoints[pos_in].max_packet_size == u16::MAX);
        }
    }
}

/// Endpoints that are not bulk endpoints are ignored, wherever they stand.
pub proof fn law_other_endpoints_ignored(
    before: Seq<EndpointDescriptor>,
    other: EndpointDescriptor,
    after: Seq<EndpointDescriptor>,
)
    requires
        !(other.transfer_type is Bulk),
    ensures
        endpoints_of(before + seq![other] + after) == endpoints_of(before + after),
{
    lemma_other_endpoint(before, other, after);
}

proof fn lemma_other_endpoint(
    before: Seq<EndpointDescriptor>,
    other: EndpointDescriptor,
    after: Seq<EndpointDescriptor>,
)
    requires
        !(other.transfer_type is Bulk),
    ensures
        last_bulk(before + seq![other] + after, Direction::In) == last_bulk(
            before + after,
            Direction::In,
        ),
        last_bulk(before + seq![other] + after, Direction::Out) == last_bulk(
            before + after,
            Direction::Out,
        ),
        smallest_packet(before + seq![other] + after) == smallest_packet(before + after),
    decreases after.len(),
{
    let with = before + seq![other] + after;
    let without = before + after;
    if after.len() == 0 {
        assert(with.drop_last() =~= before);
        assert(with.last() == other);
        assert(without =~= before);
    } else {
        lemma_other_endpoint(before, other, after.drop_last());
        assert(with.drop_last() =~= before + seq![other] + after.drop_last());
        assert(without.drop_last() =~= before + after.drop_last());
        assert(with.last() == without.last());
    }
}

/// A receive buffer holds 128 USB packets of the endpoint, whatever their size.
pub proof fn law_receive_buffer(endpoints: Endpoints)
    ensures
        endpoints.spec_transfer_size() == 128 * endpoints.max_packet_size,
{
}

/// The interface of a class is the one with the smallest position of all that have the
/// class, and the same holds of an interface with a number.
pub proof fn law_first_interface(
    interfaces: Seq<InterfaceDescriptor>,
    class: Class,
    number: u8,
    pos: int,
    other: int,
)
    requires
        0 <= pos < interfaces.len(),
        0 <= other < interfaces.len(),
    ensures
        is_first_of_class(interfaces, class, pos) ==> interfaces[pos].class == class,
        is_first_of_class(interfaces, class, pos) && interfaces[other].class == class ==> pos
            <= other,
        interfaces[pos].class == class && (forall|i: int|
            0 <= i < interfaces.len() && (#[trigger] interfaces[i]).class == class ==> pos <= i)
            ==> is_first_of_class(interfaces, class, pos),
        is_first_numbered(interfaces, number, pos) ==> interfaces[pos].number == number,
        is_first_numbered(interfaces, number, pos) && interfaces[other].number == number ==> pos
            <= other,
        interfaces[pos].number == number && (forall|i: int|
            0 <= i < interfaces.len() && (#[trigger] interfaces[i]).number == number ==> pos <= i)
            ==> is_first_numbered(interfaces, number, pos),
        interfaces[pos].number == number ==> !none_numbered(interfaces, number),
        !none_numbered(interfaces, number) ==> exists|i: int|
            0 <= i < interfaces.len() && (#[trigger] interfaces[i]).number == number,
{
}

/// Only a stalled request says that an interface does not speak the protocol.
pub proof fn law_stalls(err: Error)
    ensures
        is_stall(err) <==> err == Error::Task(TaskError::Transfer(TransferError::Stall)) || err
            == Error::Web(WebError::Stall),
{
}

} // verus!
