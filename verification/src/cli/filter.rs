//! Selection of USB devices and interfaces.

use vstd::prelude::*;

use crate::class::Class;

verus! {

/// Information about an interface.
#[derive(Debug)]
pub struct InterfaceInfo {
    /// Interface number.
    pub number: u8,
    /// Class.
    pub class: Class,
    /// Name.
    pub name: Option<String>,
}

/// Information about a USB device.
#[derive(Debug)]
pub struct DeviceInfo {
    /// Vendor id.
    pub vendor_id: u16,
    /// Product id.
    pub product_id: u16,
    /// Bus identifier.
    pub bus: String,
    /// Address on the bus.
    pub address: u8,
    /// Manufacturer.
    pub manufacturer: Option<String>,
    /// Product.
    pub product: Option<String>,
    /// Serial number.
    pub serial: Option<String>,
    /// Interfaces.
    pub interfaces: Vec<InterfaceInfo>,
}

/// Filter for USB devices and interfaces.
#[derive(Debug)]
pub struct DeviceFilter {
    /// Filter by USB vendor ID.
    pub vid: Option<u16>,
    /// Filter by USB product ID.
    pub pid: Option<u16>,
    /// Filter by USB serial number string.
    pub serial: Option<String>,
    /// Filter by USB bus identifier.
    pub bus: Option<String>,
    /// Filter by USB device address.
    pub address: Option<u8>,
    /// Filter by interface number.
    pub interface: Option<u8>,
    /// Filter by interface subclass.
    pub subclass: Option<u8>,
    /// Filter by interface protocol.
    pub protocol: Option<u8>,
}

impl DeviceFilter {
    /// Whether a device passes the filter.
    pub open spec fn device_passes(self, dev: DeviceInfo) -> bool {
        &&& self.vid is Some ==> dev.vendor_id == self.vid->0
        &&& self.pid is Some ==> dev.product_id == self.pid->0
        &&& self.serial is Some ==> dev.serial is Some && dev.serial->0@ == self.serial->0@
        &&& self.bus is Some ==> dev.bus@ == self.bus->0@
        &&& self.address is Some ==> dev.address == self.address->0
    }

    /// Whether an interface passes the filter.
    pub open spec fn interface_passes(self, iface: InterfaceInfo) -> bool {
        &&& self.interface is Some ==> iface.number == self.interface->0
        &&& self.subclass is Some ==> iface.class.sub_class == self.subclass->0
        &&& self.protocol is Some ==> iface.class.protocol == self.protocol->0
    }

    /// Whether an interface may be a channel: it passes the filter and is either
    /// vendor-specific or asked for by its number.
    pub open spec fn is_candidate(self, iface: InterfaceInfo) -> bool {
        self.interface_passes(iface) && (iface.class.class == Class::VENDOR_SPECIFIC
            || self.interface is Some)
    }

    /// Whether a device passes the filter.
    pub fn matches_device(&self, dev: &DeviceInfo) -> (result: bool)
        ensures
            result == self.device_passes(*dev),
    {
        if let Some(vid) = self.vid {
            if dev.vendor_id != vid {
                return false;
            }
        }
        if let Some(pid) = self.pid {
            if dev.product_id != pid {
                return false;
            }
        }
        if let Some(serial) = &self.serial {
            match &dev.serial {
                Some(dev_serial) => {
                    if !(*dev_serial == *serial) {
                        return false;
                    }
                },
                None => {
                    return false;
                },
            }
        }
        if let Some(bus) = &self.bus {
            if !(dev.bus == *bus) {
                return false;
            }
        }
        if let Some(address) = self.address {
            if dev.address != address {
                return false;
            }
        }
        true
    }

    /// Whether an interface passes the filter.
    pub fn matches_interface(&self, iface: &InterfaceInfo) -> (result: bool)
        ensures
            result == self.interface_passes(*iface),
    {
        if let Some(number) = self.interface {
            if iface.number != number {
                return false;
            }
        }
        if let Some(subclass) = self.subclass {
            if iface.class.sub_class != subclass {
                return false;
            }
        }
        if let Some(protocol) = self.protocol {
            if iface.class.protocol != protocol {
                return false;
            }
        }
        true
    }

    /// Whether an interface is selected by its class or number instead of by probing.
    pub fn selects_interface(&self) -> (result: bool)
        ensures
            result == (self.interface is Some || self.subclass is Some || self.protocol is Some),
    {
        self.interface.is_some() || self.subclass.is_some() || self.protocol.is_some()
    }

    /// The numbers of the interfaces that may be a channel, in order.
    pub open spec fn candidate_numbers(self, interfaces: Seq<InterfaceInfo>) -> Seq<u8>
        decreases interfaces.len(),
    {
        if interfaces.len() == 0 {
            Seq::empty()
        } else {
            let rest = self.candidate_numbers(interfaces.drop_last());
            if self.is_candidate(interfaces.last()) {
                rest.push(interfaces.last().number)
            } else {
                rest
            }
        }
    }

    /// Determines the numbers of the interfaces of a device that may be a channel, in order.
    pub fn candidates(&self, dev: &DeviceInfo) -> (numbers: Vec<u8>)
        ensures
            numbers@ == self.candidate_numbers(dev.interfaces@),
    {
        let mut numbers: Vec<u8> = Vec::new();
        let mut i: usize = 0;
        while i < dev.interfaces.len()
            invariant
                i <= dev.interfaces@.len(),
                numbers@ == self.candidate_numbers(dev.interfaces@.take(i as int)),
            decreases dev.interfaces@.len() - i,
        {
            let iface = &dev.interfaces[i];
            assert(dev.interfaces@.take(i + 1).drop_last() =~= dev.interfaces@.take(i as int));
            assert(dev.interfaces@.take(i + 1).last() == dev.interfaces@[i as int]);
            if self.matches_interface(iface) && (iface.class.class == Class::VENDOR_SPECIFIC
                || self.interface.is_some()) {
                numbers.push(iface.number);
            }
            i = i + 1;
        }
        assert(dev.interfaces@.take(i as int) =~= dev.interfaces@);
        numbers
    }

    /// The devices, by their position, and interfaces that may be a channel, in order.
    pub open spec fn all_candidates(self, devices: Seq<DeviceInfo>) -> Seq<(usize, u8)>
        decreases devices.len(),
    {
        if devices.len() == 0 {
            Seq::empty()
        } else {
            let rest = self.all_candidates(devices.drop_last());
            if self.device_passes(devices.last()) {
                rest + self.candidate_numbers(devices.last().interfaces@).map_values(
                    |number: u8| ((devices.len() - 1) as usize, number),
                )
            } else {
                rest
            }
        }
    }

    /// Determines the devices, by their position, and interfaces that may be a channel, in
    /// order.
    pub fn find_candidates(&self, devices: &Vec<DeviceInfo>) -> (found: Vec<(usize, u8)>)
        ensures
            found@ == self.all_candidates(devices@),
    {
        let mut found: Vec<(usize, u8)> = Vec::new();
        let mut i: usize = 0;
        while i < devices.len()
            invariant
                i <= devices@.len(),
                found@ == self.all_candidates(devices@.take(i as int)),
            decreases devices@.len() - i,
        {
            assert(devices@.take(i + 1).drop_last() =~= devices@.take(i as int));
            assert(devices@.take(i + 1).last() == devices@[i as int]);
            let ghost before = found@;
            if self.matches_device(&devices[i]) {
                let numbers = self.candidates(&devices[i]);
                let mut j: usize = 0;
                while j < numbers.len()
                    invariant
                        j <= numbers@.len(),
                        found@ == before + numbers@.take(j as int).map_values(
                            |number: u8| (i, number),
                        ),
                    decreases numbers@.len() - j,
                {
                    assert(numbers@.take(j + 1) =~= numbers@.take(j as int).push(
                        numbers@[j as int],
                    ));
                    found.push((i, numbers[j]));
                    assert(found@ =~= before + numbers@.take(j + 1).map_values(
                        |number: u8| (i, number),
                    ));
                    j = j + 1;
                }
                assert(numbers@.take(j as int) =~= numbers@);
                assert(found@ =~= self.all_candidates(devices@.take(i + 1)));
            }
            i = i + 1;
        }
        assert(devices@.take(i as int) =~= devices@);
        found
    }
}

/// The candidates that were probed successfully, in order.
pub open spec fn probed_candidates(candidates: Seq<(usize, u8)>, probed: Seq<bool>) -> Seq<
    (usize, u8),
>
    decreases candidates.len(),
{
    if candidates.len() == 0 {
        Seq::empty()
    } else {
        let rest = probed_candidates(candidates.drop_last(), probed);
        if probed[candidates.len() - 1] {
            rest.push(candidates.last())
        } else {
            rest
        }
    }
}

/// Keeps the candidates that were probed successfully, in order.
pub fn keep_probed(candidates: &Vec<(usize, u8)>, probed: &Vec<bool>) -> (kept: Vec<(usize, u8)>)
    requires
        candidates@.len() == probed@.len(),
    ensures
        kept@ == probed_candidates(candidates@, probed@),
{
    let mut kept: Vec<(usize, u8)> = Vec::new();
    let mut i: usize = 0;
    while i < candidates.len()
        invariant
            i <= candidates@.len() == probed@.len(),
            kept@ == probed_candidates(candidates@.take(i as int), probed@),
        decreases candidates@.len() - i,
    {
        assert(candidates@.take(i + 1).drop_last() =~= candidates@.take(i as int));
        if probed[i] {
            kept.push(candidates[i]);
        }
        i = i + 1;
    }
    assert(candidates@.take(i as int) =~= candidates@);
    kept
}

/// Why no interface is selected.
#[derive(Debug, Clone, Copy, PartialEq, Eq, Structural)]
pub enum SelectError {
    /// No interface matches.
    NotFound,
    /// Several interfaces match.
    Ambiguous,
}

impl SelectError {
    /// The text of the error.
    pub open spec fn spec_text(self) -> Seq<char> {
        match self {
            SelectError::NotFound => "No matching UPC device found."@,
            SelectError::Ambiguous =>
                "Multiple matching UPC interfaces found. Use --serial, --vid, --pid, or -i to narrow down."@,
        }
    }

    /// The text of the error.
    pub fn text(&self) -> (text: &'static str)
        ensures
            text@ == self.spec_text(),
    {
        match self {
            SelectError::NotFound => "No matching UPC device found.",
            SelectError::Ambiguous =>
                "Multiple matching UPC interfaces found. Use --serial, --vid, --pid, or -i to narrow down.",
        }
    }
}

/// Selects the interface to connect to: there must be exactly one.
pub fn select(candidates: &Vec<(usize, u8)>) -> (result: Result<(usize, u8), SelectError>)
    ensures
        result == (if candidates@.len() == 0 {
            Err::<(usize, u8), SelectError>(SelectError::NotFound)
        } else if candidates@.len() == 1 {
            Ok(candidates@[0])
        } else {
            Err(SelectError::Ambiguous)
        }),
{
    if candidates.len() == 0 {
        Err(SelectError::NotFound)
    } else if candidates.len() == 1 {
        Ok(candidates[0])
    } else {
        Err(SelectError::Ambiguous)
    }
}

proof fn lemma_numbers_found(filter: DeviceFilter, interfaces: Seq<InterfaceInfo>, number: u8)
    ensures
        filter.candidate_numbers(interfaces).contains(number) <==> exists|i: int|
            0 <= i < interfaces.len() && filter.is_candidate(#[trigger] interfaces[i])
                && interfaces[i].number == number,
    decreases interfaces.len(),
{
    let all = filter.candidate_numbers(interfaces);
    if interfaces.len() > 0 {
        let init = interfaces.drop_last();
        let last = interfaces.last();
        let rest = filter.candidate_numbers(init);
        lemma_numbers_found(filter, init, number);
        if all.contains(number) {
            if rest.contains(number) {
                let i = choose|i: int|
                    0 <= i < init.len() && filter.is_candidate(#[trigger] init[i])
                        && init[i].number == number;
                assert(interfaces[i] == init[i]);
            } else {
                let k = choose|k: int| 0 <= k < all.len() && all[k] == number;
                assert(k < rest.len() ==> rest[k] == number);
                assert(interfaces[interfaces.len() - 1] == last);
            }
        }
        if exists|i: int|
            0 <= i < interfaces.len() && filter.is_candidate(#[trigger] interfaces[i])
                && interfaces[i].number == number {
            let i = choose|i: int|
                0 <= i < interfaces.len() && filter.is_candidate(#[trigger] interfaces[i])
                    && interfaces[i].number == number;
            if i < init.len() {
                assert(init[i] == interfaces[i]);
                let k = choose|k: int| 0 <= k < rest.len() && rest[k] == number;
                assert(all[k] == number);
            } else {
                assert(all[all.len() - 1] == number);
            }
        }
    }
}

/// The candidates are exactly the interfaces that may be a channel on the devices that pass
/// the filter.
pub proof fn law_candidates_exact(
    filter: DeviceFilter,
    devices: Seq<DeviceInfo>,
    device: usize,
    number: u8,
)
    requires
        devices.len() <= usize::MAX,
    ensures
        filter.all_candidates(devices).contains((device, number)) <==> {
            &&& device < devices.len()
            &&& filter.device_passes(devices[device as int])
            &&& exists|i: int|
                0 <= i < devices[device as int].interfaces@.len() && filter.is_candidate(
                    #[trigger] devices[device as int].interfaces@[i],
                ) && devices[device as int].interfaces@[i].number == number
        },
    decreases devices.len(),
{
    let all = filter.all_candidates(devices);
    let key = (device, number);
    if devices.len() > 0 {
        let init = devices.drop_last();
        let last = devices.last();
        let rest = filter.all_candidates(init);
        let numbers = filter.candidate_numbers(last.interfaces@);
        let pos = (devices.len() - 1) as usize;
        let added = numbers.map_values(|number: u8| (pos, number));
        law_candidates_exact(filter, init, device, number);
        lemma_numbers_found(filter, last.interfaces@, number);
        if filter.device_passes(last) {
            assert(all == rest + added);
            assert(all.contains(key) <==> rest.contains(key) || added.contains(key)) by {
                if rest.contains(key) {
                    let k = choose|k: int| 0 <= k < rest.len() && rest[k] == key;
                    assert(all[k] == key);
                }
                if added.contains(key) {
                    let k = choose|k: int| 0 <= k < added.len() && added[k] == key;
                    assert(all[rest.len() + k] == key);
                }
                if all.contains(key) {
                    let k = choose|k: int| 0 <= k < all.len() && all[k] == key;
                    if k < rest.len() {
                        assert(rest[k] == key);
                    } else {
                        assert(added[k - rest.len()] == key);
                    }
                }
            }
            assert(added.contains(key) <==> device == pos && numbers.contains(number)) by {
                if added.contains(key) {
                    let k = choose|k: int| 0 <= k < added.len() && added[k] == key;
                    assert(numbers[k] == number);
                }
                if device == pos && numbers.contains(number) {
                    let k = choose|k: int| 0 <= k < numbers.len() && numbers[k] == number;
                    assert(added[k] == key);
                }
            }
        }
        if device < init.len() {
            assert(init[device as int] == devices[device as int]);
        }
    }
}

/// A filter that asks for nothing lets every device and interface pass, and its candidates
/// are the vendor-specific interfaces.
pub proof fn law_empty_filter(filter: DeviceFilter, dev: DeviceInfo, iface: InterfaceInfo)
    requires
        filter.vid is None && filter.pid is None && filter.serial is None,
        filter.bus is None && filter.address is None,
        filter.interface is None && filter.subclass is None && filter.protocol is None,
    ensures
        filter.device_passes(dev),
        filter.interface_passes(iface),
        filter.is_candidate(iface) <==> iface.class.class == Class::VENDOR_SPECIFIC,
{
}

/// A device is filtered out exactly by a vendor id, product id, serial number, bus or
/// address that is asked for and that it does not have.
pub proof fn law_device_filtered(filter: DeviceFilter, dev: DeviceInfo)
    ensures
        !filter.device_passes(dev) <==> {
            ||| filter.vid is Some && filter.vid != Some(dev.vendor_id)
            ||| filter.pid is Some && filter.pid != Some(dev.product_id)
            ||| filter.serial is Some && (dev.serial is None || dev.serial->0@
                != filter.serial->0@)
            ||| filter.bus is Some && filter.bus->0@ != dev.bus@
            ||| filter.address is Some && filter.address != Some(dev.address)
        },
{
}

/// An interface is filtered out exactly by a number, subclass or protocol that is asked for
/// and that it does not have. Of the others, a vendor-specific one is a candidate, and one
/// of another class only if its number is asked for.
pub proof fn law_interface_filtered(filter: DeviceFilter, iface: InterfaceInfo)
    ensures
        !filter.interface_passes(iface) <==> {
            ||| filter.interface is Some && filter.interface != Some(iface.number)
            ||| filter.subclass is Some && filter.subclass != Some(iface.class.sub_class)
            ||| filter.protocol is Some && filter.protocol != Some(iface.class.protocol)
        },
        filter.is_candidate(iface) ==> filter.interface_passes(iface),
        filter.interface_passes(iface) && filter.interface is Some ==> filter.is_candidate(iface),
        filter.interface_passes(iface) && filter.interface is None ==> (filter.is_candidate(iface)
            <==> iface.class.class == 0xff),
{
}

/// The candidates of a device are its interfaces that may be a channel, each once for each
/// time that it is listed, in the order in which they are listed.
pub proof fn law_candidates_in_order(filter: DeviceFilter, interfaces: Seq<InterfaceInfo>)
    ensures
        filter.candidate_numbers(interfaces) == interfaces.filter(
            |iface: InterfaceInfo| filter.is_candidate(iface),
        ).map_values(|iface: InterfaceInfo| iface.number),
    decreases interfaces.len(),
{
    reveal(Seq::filter);
    let number = |iface: InterfaceInfo| iface.number;
    let candidate = |iface: InterfaceInfo| filter.is_candidate(iface);
    let kept = interfaces.filter(candidate);
    if interfaces.len() == 0 {
        assert(filter.candidate_numbers(interfaces) =~= kept.map_values(number));
    } else {
        let init = interfaces.drop_last();
        law_candidates_in_order(filter, init);
        if candidate(interfaces.last()) {
            assert(kept.map_values(number) =~= init.filter(candidate).map_values(number).push(
                interfaces.last().number,
            ));
        }
    }
}

/// The candidates of all devices are those of each device that passes the filter, in the
/// order of the devices.
pub proof fn law_devices_in_order(filter: DeviceFilter, devices: Seq<DeviceInfo>, device: usize)
    requires
        devices.len() <= usize::MAX,
        device < devices.len(),
    ensures
        ({
            let all = filter.all_candidates(devices);
            let dev = devices[device as int];
            &&& all.filter(|found: (usize, u8)| found.0 == device) == (if filter.device_passes(
                dev,
            ) {
                filter.candidate_numbers(dev.interfaces@).map_values(
                    |number: u8| (device, number),
                )
            } else {
                Seq::empty()
            })
            &&& forall|i: int, j: int|
                0 <= i < j < all.len() ==> (#[trigger] all[i]).0 <= (#[trigger] all[j]).0
        }),
{
    lemma_devices_in_order(filter, devices, device);
}

proof fn lemma_devices_in_order(filter: DeviceFilter, devices: Seq<DeviceInfo>, device: usize)
    requires
        devices.len() <= usize::MAX,
    ensures
        ({
            let all = filter.all_candidates(devices);
            &&& all.filter(|found: (usize, u8)| found.0 == device) == (if device < devices.len()
                && filter.device_passes(devices[device as int]) {
                filter.candidate_numbers(devices[device as int].interfaces@).map_values(
                    |number: u8| (device, number),
                )
            } else {
                Seq::empty()
            })
            &&& forall|i: int, j: int|
                0 <= i < j < all.len() ==> (#[trigger] all[i]).0 <= (#[trigger] all[j]).0
            &&& forall|i: int| 0 <= i < all.len() ==> (#[trigger] all[i]).0 < devices.len()
        }),
    decreases devices.len(),
{
    let of_device = |found: (usize, u8)| found.0 == device;
    let all = filter.all_candidates(devices);
    if devices.len() == 0 {
        reveal(Seq::filter);
        assert(all.filter(of_device) =~= Seq::<(usize, u8)>::empty());
    } else {
        let init = devices.drop_last();
        let pos = (devices.len() - 1) as usize;
        let rest = filter.all_candidates(init);
        lemma_devices_in_order(filter, init, device);
        if device < init.len() {
            assert(init[device as int] == devices[device as int]);
        }
        if filter.device_passes(devices.last()) {
            let numbers = filter.candidate_numbers(devices.last().interfaces@);
            let added = numbers.map_values(|number: u8| (pos, number));
            assert(all == rest + added);
            Seq::filter_distributes_over_add(rest, added, of_device);
            lemma_filter_uniform(added, pos, device);
            let none = Seq::<(usize, u8)>::empty();
            assert(rest.filter(of_device) + none =~= rest.filter(of_device));
            assert(none + added =~= added);
            if device == pos {
                assert(rest.filter(of_device) =~= none);
            }
        }
    }
}

proof fn lemma_filter_uniform(found: Seq<(usize, u8)>, pos: usize, device: usize)
    requires
        forall|i: int| 0 <= i < found.len() ==> (#[trigger] found[i]).0 == pos,
    ensures
        found.filter(|found: (usize, u8)| found.0 == device) == (if device == pos {
            found
        } else {
            Seq::empty()
        }),
    decreases found.len(),
{
    reveal(Seq::filter);
    let of_device = |found: (usize, u8)| found.0 == device;
    if found.len() == 0 {
        assert(found.filter(of_device) =~= found);
        assert(found =~= Seq::<(usize, u8)>::empty());
    } else {
        lemma_filter_uniform(found.drop_last(), pos, device);
        assert(found.drop_last().push(found.last()) =~= found);
        assert(found[found.len() - 1].0 == pos);
    }
}

/// The candidates that are kept are exactly those whose own probe was successful, in order.
pub proof fn law_probed_kept(candidates: Seq<(usize, u8)>, probed: Seq<bool>)
    requires
        candidates.len() == probed.len(),
    ensures
        probed_candidates(candidates, probed) == candidates.zip_with(probed).filter(
            |pair: ((usize, u8), bool)| pair.1,
        ).map_values(|pair: ((usize, u8), bool)| pair.0),
    decreases candidates.len(),
{
    reveal(Seq::filter);
    let success = |pair: ((usize, u8), bool)| pair.1;
    let candidate = |pair: ((usize, u8), bool)| pair.0;
    let pairs = candidates.zip_with(probed);
    let kept = pairs.filter(success).map_values(candidate);
    if candidates.len() == 0 {
        assert(probed_candidates(candidates, probed) =~= kept);
    } else {
        let init = candidates.drop_last();
        let init_probed = probed.drop_last();
        law_probed_kept(init, init_probed);
        lemma_probed_prefix(init, probed, init_probed);
        assert(pairs.drop_last() =~= init.zip_with(init_probed));
        let before = pairs.drop_last().filter(success);
        if probed.last() {
            assert(pairs.filter(success) =~= before.push(pairs.last()));
            assert(kept =~= before.map_values(candidate).push(candidates.last()));
        } else {
            assert(pairs.filter(success) =~= before);
        }
    }
}

proof fn lemma_probed_prefix(candidates: Seq<(usize, u8)>, first: Seq<bool>, second: Seq<bool>)
    requires
        candidates.len() <= first.len(),
        candidates.len() <= second.len(),
        forall|i: int| 0 <= i < candidates.len() ==> first[i] == second[i],
    ensures
        probed_candidates(candidates, first) == probed_candidates(candidates, second),
    decreases candidates.len(),
{
    if candidates.len() > 0 {
        lemma_probed_prefix(candidates.drop_last(), first, second);
    }
}

/// The texts that say why nothing is selected.
pub proof fn law_select_texts()
    ensures
        SelectError::NotFound.spec_text() == "No matching UPC device found."@,
        SelectError::Ambiguous.spec_text()
            == "Multiple matching UPC interfaces found. Use --serial, --vid, --pid, or -i to narrow down."@,
{
}

} // verus!
