//! Texts about USB devices.

use vstd::prelude::*;
use vstd::string::StringExecFns;
use vstd::utf8::{decode_utf8, valid_utf8};

use crate::cli::filter::{DeviceFilter, DeviceInfo, InterfaceInfo};
use crate::cli::hex::{hex_value, law_listed_number_accepted, power16, HexError};
use crate::text::{
    append_number, append_padded, is_digit, law_padded_reads_back, number, padded, read_back,
};

verus! {

/// A text, or another one if there is none.
pub open spec fn text_or(text: Option<String>, other: Seq<char>) -> Seq<char> {
    match text {
        Some(text) => text@,
        None => other,
    }
}

fn append_or(text: &mut String, value: &Option<String>, other: &str)
    ensures
        final(text)@ == old(text)@ + text_or(*value, other@),
{
    match value {
        Some(value) => text.append(value.as_str()),
        None => text.append(other),
    }
}

/// Vendor and product id.
pub open spec fn id_text(dev: DeviceInfo) -> Seq<char> {
    padded(dev.vendor_id as nat, 16, 4) + ":"@ + padded(dev.product_id as nat, 16, 4)
}

/// Bus and address.
pub open spec fn location_text(dev: DeviceInfo) -> Seq<char> {
    dev.bus@ + ":"@ + padded(dev.address as nat, 10, 3)
}

fn append_id(text: &mut String, dev: &DeviceInfo)
    ensures
        final(text)@ == old(text)@ + id_text(*dev),
{
    let ghost before = text@;
    append_padded(text, dev.vendor_id as u64, 16, 4);
    text.append(":");
    append_padded(text, dev.product_id as u64, 16, 4);
    assert(text@ =~= before + id_text(*dev));
}

fn append_location(text: &mut String, dev: &DeviceInfo)
    ensures
        final(text)@ == old(text)@ + location_text(*dev),
{
    let ghost before = text@;
    text.append(dev.bus.as_str());
    text.append(":");
    append_padded(text, dev.address as u64, 10, 3);
    assert(text@ =~= before + location_text(*dev));
}

/// Vendor and product id of a device.
pub fn device_id(dev: &DeviceInfo) -> (text: String)
    ensures
        text@ == id_text(*dev),
{
    let mut text = String::new();
    append_id(&mut text, dev);
    assert(text@ =~= id_text(*dev));
    text
}

/// Bus and address of a device.
pub fn device_location(dev: &DeviceInfo) -> (text: String)
    ensures
        text@ == location_text(*dev),
{
    let mut text = String::new();
    append_location(&mut text, dev);
    assert(text@ =~= location_text(*dev));
    text
}

/// The line for a device.
pub open spec fn device_text(dev: DeviceInfo) -> Seq<char> {
    "Device "@ + id_text(dev) + " on "@ + location_text(dev) + " - "@ + text_or(
        dev.manufacturer,
        "?"@,
    ) + " "@ + text_or(dev.product, "?"@) + (match dev.serial {
        Some(serial) => " (serial: "@ + serial@ + ")"@,
        None => Seq::empty(),
    })
}

/// The line for a device.
pub fn device_line(dev: &DeviceInfo) -> (text: String)
    ensures
        text@ == device_text(*dev),
{
    let mut text = String::new();
    text.append("Device ");
    append_id(&mut text, dev);
    text.append(" on ");
    append_location(&mut text, dev);
    text.append(" - ");
    append_or(&mut text, &dev.manufacturer, "?");
    text.append(" ");
    append_or(&mut text, &dev.product, "?");
    if let Some(serial) = &dev.serial {
        text.append(" (serial: ");
        text.append(serial.as_str());
        text.append(")");
    }
    assert(text@ =~= device_text(*dev));
    text
}

/// The line for an interface.
pub open spec fn interface_text(iface: InterfaceInfo) -> Seq<char> {
    "  Interface "@ + number(iface.number as nat, 10) + ": class="@ + padded(
        iface.class.class as nat,
        16,
        2,
    ) + " subclass="@ + padded(iface.class.sub_class as nat, 16, 2) + " protocol="@ + padded(
        iface.class.protocol as nat,
        16,
        2,
    ) + (match iface.name {
        Some(name) => " \""@ + name@ + "\""@,
        None => Seq::empty(),
    })
}

/// The line for an interface.
pub fn interface_line(iface: &InterfaceInfo) -> (text: String)
    ensures
        text@ == interface_text(*iface),
{
    let mut text = String::new();
    text.append("  Interface ");
    append_number(&mut text, iface.number as u64);
    text.append(": class=");
    append_padded(&mut text, iface.class.class as u64, 16, 2);
    text.append(" subclass=");
    append_padded(&mut text, iface.class.sub_class as u64, 16, 2);
    text.append(" protocol=");
    append_padded(&mut text, iface.class.protocol as u64, 16, 2);
    if let Some(name) = &iface.name {
        text.append(" \"");
        text.append(name.as_str());
        text.append("\"");
    }
    assert(text@ =~= interface_text(*iface));
    text
}

/// The subclass of the first interface with a number, or zero.
pub open spec fn subclass_of(interfaces: Seq<InterfaceInfo>, number: u8) -> u8
    decreases interfaces.len(),
{
    if interfaces.len() == 0 {
        0
    } else if interfaces[0].number == number {
        interfaces[0].class.sub_class
    } else {
        subclass_of(interfaces.drop_first(), number)
    }
}

fn find_subclass(interfaces: &Vec<InterfaceInfo>, number: u8) -> (subclass: u8)
    ensures
        subclass == subclass_of(interfaces@, number),
{
    let mut i: usize = 0;
    assert(interfaces@.skip(0) =~= interfaces@);
    while i < interfaces.len()
        invariant
            i <= interfaces@.len(),
            subclass_of(interfaces@, number) == subclass_of(interfaces@.skip(i as int), number),
        decreases interfaces@.len() - i,
    {
        if interfaces[i].number == number {
            return interfaces[i].class.sub_class;
        }
        assert(interfaces@.skip(i as int).drop_first() =~= interfaces@.skip(i + 1));
        i = i + 1;
    }
    0
}

/// The line for a channel: ids, location, serial number, interface, subclass and info,
/// separated by tabs.
pub open spec fn channel_text(dev: DeviceInfo, interface: u8, info: Seq<char>) -> Seq<char> {
    id_text(dev) + "\t"@ + location_text(dev) + "\t"@ + text_or(dev.serial, ""@) + "\t"@ + number(
        interface as nat,
        10,
    ) + "\t"@ + padded(subclass_of(dev.interfaces@, interface) as nat, 16, 2) + "\t"@ + info
}

/// The line for a channel: ids, location, serial number, interface, subclass and info,
/// separated by tabs.
pub fn channel_line(dev: &DeviceInfo, interface: u8, info: &str) -> (text: String)
    ensures
        text@ == channel_text(*dev, interface, info@),
{
    let mut text = String::new();
    append_id(&mut text, dev);
    text.append("\t");
    append_location(&mut text, dev);
    text.append("\t");
    append_or(&mut text, &dev.serial, "");
    text.append("\t");
    append_number(&mut text, interface as u64);
    text.append("\t");
    append_padded(&mut text, find_subclass(&dev.interfaces, interface) as u64, 16, 2);
    text.append("\t");
    text.append(info);
    assert(text@ =~= channel_text(*dev, interface, info@));
    text
}

/// `std::str::from_utf8` returns the text that the bytes encode in UTF-8, or an error if
/// they are not valid UTF-8.
#[verifier::external_body]
fn utf8_text(data: &[u8]) -> (text: Option<&str>)
    ensures
        match text {
            Some(text) => valid_utf8(data@) && text@ == decode_utf8(data@),
            None => !valid_utf8(data@),
        },
{
    std::str::from_utf8(data).ok()
}

/// The text of the info data of a channel; empty if it is not valid UTF-8.
pub fn info_text(data: &[u8]) -> (text: String)
    ensures
        text@ == (if valid_utf8(data@) {
            decode_utf8(data@)
        } else {
            Seq::empty()
        }),
{
    match utf8_text(data) {
        Some(text) => text.to_string(),
        None => {
            let text = String::new();
            assert(text@ =~= Seq::<char>::empty());
            text
        },
    }
}

/// The report for a channel, in a listing of all devices or on its own.
pub fn channel_report(dev: &DeviceInfo, interface: u8, info: &[u8], all: bool) -> (text: String)
    ensures
        ({
            let info = if valid_utf8(info@) {
                decode_utf8(info@)
            } else {
                Seq::empty()
            };
            text@ == (if all {
                "    UPC info: "@ + info
            } else {
                channel_text(*dev, interface, info)
            })
        }),
{
    let info = info_text(info);
    if all {
        let mut text = String::new();
        text.append("    UPC info: ");
        text.append(info.as_str());
        text
    } else {
        channel_line(dev, interface, info.as_str())
    }
}

/// Whether an interface is reported as a channel: its probe, where one is made, found a
/// channel, and its info was read.
pub fn scan_outcome<E>(probed: Option<Result<bool, E>>, info_read: bool) -> (reported: bool)
    ensures
        reported == ((probed matches Some(result) ==> result == Ok::<bool, E>(true)) && info_read),
{
    match probed {
        Some(Ok(is_channel)) => is_channel && info_read,
        Some(Err(_)) => false,
        None => info_read,
    }
}

/// The report at the end, if there is one.
pub fn final_report(found: bool, all: bool) -> (text: Option<&'static str>)
    ensures
        match text {
            Some(text) => !found && all && text@ == "No UPC interfaces found."@,
            None => found || !all,
        },
{
    if !found && all {
        Some("No UPC interfaces found.")
    } else {
        None
    }
}

/// A device to be reported on.
#[derive(Debug)]
pub struct ScanEntry {
    /// Position of the device.
    pub device: usize,
    /// Lines that describe the device.
    pub lines: Vec<String>,
    /// Interfaces that may be channels.
    pub interfaces: Vec<u8>,
}

/// A device to be reported on, with its texts.
pub struct ScanEntryView {
    pub device: usize,
    pub lines: Seq<Seq<char>>,
    pub interfaces: Seq<u8>,
}

/// The texts of lines.
pub open spec fn line_texts(lines: Seq<String>) -> Seq<Seq<char>> {
    lines.map_values(|line: String| line@)
}

impl View for ScanEntry {
    type V = ScanEntryView;

    open spec fn view(&self) -> ScanEntryView {
        ScanEntryView {
            device: self.device,
            lines: line_texts(self.lines@),
            interfaces: self.interfaces@,
        }
    }
}

/// The lines for the interfaces that pass the filter, in order.
pub open spec fn interface_texts(filter: DeviceFilter, interfaces: Seq<InterfaceInfo>) -> Seq<
    Seq<char>,
>
    decreases interfaces.len(),
{
    if interfaces.len() == 0 {
        Seq::empty()
    } else {
        let rest = interface_texts(filter, interfaces.drop_last());
        if filter.interface_passes(interfaces.last()) {
            rest.push(interface_text(interfaces.last()))
        } else {
            rest
        }
    }
}

/// The lines that describe a device: none unless all devices are listed.
pub open spec fn description(filter: DeviceFilter, dev: DeviceInfo, all: bool) -> Seq<Seq<char>> {
    if all {
        seq![device_text(dev)] + interface_texts(filter, dev.interfaces@)
    } else {
        Seq::empty()
    }
}

/// The devices to be reported on, in order: those that pass the filter and, unless all are
/// listed, may have a channel.
pub open spec fn scan_entries(filter: DeviceFilter, devices: Seq<DeviceInfo>, all: bool) -> Seq<
    ScanEntryView,
>
    decreases devices.len(),
{
    if devices.len() == 0 {
        Seq::empty()
    } else {
        let rest = scan_entries(filter, devices.drop_last(), all);
        let dev = devices.last();
        let interfaces = filter.candidate_numbers(dev.interfaces@);
        if filter.device_passes(dev) && (all || interfaces.len() > 0) {
            rest.push(
                ScanEntryView {
                    device: (devices.len() - 1) as usize,
                    lines: description(filter, dev, all),
                    interfaces,
                },
            )
        } else {
            rest
        }
    }
}

fn describe(filter: &DeviceFilter, dev: &DeviceInfo) -> (lines: Vec<String>)
    ensures
        line_texts(lines@) == description(*filter, *dev, true),
{
    let mut lines: Vec<String> = Vec::new();
    lines.push(device_line(dev));
    let mut i: usize = 0;
    assert(line_texts(lines@) =~= seq![device_text(*dev)] + Seq::<Seq<char>>::empty());
    while i < dev.interfaces.len()
        invariant
            i <= dev.interfaces@.len(),
            line_texts(lines@) == seq![device_text(*dev)] + interface_texts(
                *filter,
                dev.interfaces@.take(i as int),
            ),
        decreases dev.interfaces@.len() - i,
    {
        let ghost before = line_texts(lines@);
        let ghost now = dev.interfaces@.take(i + 1);
        assert(now.drop_last() =~= dev.interfaces@.take(i as int));
        assert(now.last() == dev.interfaces@[i as int]);
        if filter.matches_interface(&dev.interfaces[i]) {
            let line = interface_line(&dev.interfaces[i]);
            lines.push(line);
            assert(line_texts(lines@) =~= before.push(line@));
        }
        assert(line_texts(lines@) =~= seq![device_text(*dev)] + interface_texts(*filter, now));
        i = i + 1;
    }
    assert(dev.interfaces@.take(i as int) =~= dev.interfaces@);
    lines
}

/// Determines the devices to be reported on, in order.
pub fn scan_plan(filter: &DeviceFilter, devices: &Vec<DeviceInfo>, all: bool) -> (plan: Vec<
    ScanEntry,
>)
    ensures
        plan@.map_values(|entry: ScanEntry| entry@) == scan_entries(*filter, devices@, all),
{
    let mut plan: Vec<ScanEntry> = Vec::new();
    let mut i: usize = 0;
    while i < devices.len()
        invariant
            i <= devices@.len(),
            plan@.map_values(|entry: ScanEntry| entry@) == scan_entries(
                *filter,
                devices@.take(i as int),
                all,
            ),
        decreases devices@.len() - i,
    {
        let ghost before = plan@.map_values(|entry: ScanEntry| entry@);
        let ghost now = devices@.take(i + 1);
        assert(now.drop_last() =~= devices@.take(i as int));
        assert(now.last() == devices@[i as int]);
        let dev = &devices[i];
        if filter.matches_device(dev) {
            let interfaces = filter.candidates(dev);
            if all || interfaces.len() > 0 {
                let lines = if all {
                    describe(filter, dev)
                } else {
                    Vec::new()
                };
                assert(line_texts(lines@) =~= description(*filter, *dev, all));
                let entry = ScanEntry { device: i, lines, interfaces };
                plan.push(entry);
                assert(plan@.map_values(|entry: ScanEntry| entry@) =~= before.push(entry@));
            }
        }
        assert(plan@.map_values(|entry: ScanEntry| entry@) =~= scan_entries(*filter, now, all));
        i = i + 1;
    }
    assert(devices@.take(i as int) =~= devices@);
    plan
}

/// The text about connecting to an interface.
pub fn connecting_text(dev: &DeviceInfo, interface: u8) -> (text: String)
    ensures
        text@ == "Connecting to "@ + id_text(*dev) + " on "@ + location_text(*dev)
            + " interface "@ + number(interface as nat, 10) + "..."@,
{
    let mut text = String::new();
    text.append("Connecting to ");
    append_id(&mut text, dev);
    text.append(" on ");
    append_location(&mut text, dev);
    text.append(" interface ");
    append_number(&mut text, interface as u64);
    text.append("...");
    assert(text@ =~= "Connecting to "@ + id_text(*dev) + " on "@ + location_text(*dev)
        + " interface "@ + number(interface as nat, 10) + "..."@);
    text
}

/// The ids are listed as four digits of base 16 each with a colon between them, which can be
/// given as arguments again.
pub proof fn law_ids_listed(dev: DeviceInfo)
    ensures
        id_text(dev).len() == 9,
        id_text(dev)[4] == ':',
        hex_value(id_text(dev).take(4), 0xffff) == Ok::<nat, HexError>(dev.vendor_id as nat),
        hex_value(id_text(dev).skip(5), 0xffff) == Ok::<nat, HexError>(dev.product_id as nat),
{
    reveal_strlit(":");
    reveal_with_fuel(power16, 5);
    let vendor = padded(dev.vendor_id as nat, 16, 4);
    let product = padded(dev.product_id as nat, 16, 4);
    law_padded_reads_back(dev.vendor_id as nat, 16, 4);
    law_padded_reads_back(dev.product_id as nat, 16, 4);
    law_listed_number_accepted(dev.vendor_id as nat, 4, 0xffff);
    law_listed_number_accepted(dev.product_id as nat, 4, 0xffff);
    assert(id_text(dev).take(4) =~= vendor);
    assert(id_text(dev).skip(5) =~= product);
}

/// The location is listed as the bus, a colon and three digits that read back as the
/// address.
pub proof fn law_location_listed(dev: DeviceInfo)
    ensures
        ({
            let text = location_text(dev);
            let len = dev.bus@.len() as int;
            &&& text.len() == len + 4
            &&& text.take(len) == dev.bus@
            &&& text[len] == ':'
            &&& read_back(text.skip(len + 1), 10) == dev.address
            &&& forall|i: int| len < i < text.len() ==> is_digit(#[trigger] text[i], 10)
        }),
{
    reveal_strlit(":");
    let text = location_text(dev);
    let len = dev.bus@.len() as int;
    let address = padded(dev.address as nat, 10, 3);
    law_padded_reads_back(dev.address as nat, 10, 3);
    vstd::arithmetic::power::lemma_pow1(10);
    reveal(vstd::arithmetic::power::pow);
    assert(vstd::arithmetic::power::pow(10, 3) == 1000) by {
        reveal_with_fuel(vstd::arithmetic::power::pow, 4);
    }
    assert(text.take(len) =~= dev.bus@);
    assert(text.skip(len + 1) =~= address);
    assert forall|i: int| len < i < text.len() implies is_digit(#[trigger] text[i], 10) by {
        assert(text[i] == address[i - len - 1]);
    }
}

/// The columns of a channel: ids, location, serial number or nothing, interface number,
/// subclass in two digits of base 16 and info.
pub proof fn law_channel_columns(dev: DeviceInfo, interface: u8, info: Seq<char>)
    ensures
        ({
            let serial = if dev.serial is Some {
                dev.serial->0@
            } else {
                Seq::empty()
            };
            let subclass = padded(subclass_of(dev.interfaces@, interface) as nat, 16, 2);
            channel_text(dev, interface, info) == id_text(dev).push('\t') + location_text(dev).push(
                '\t',
            ) + serial.push('\t') + number(interface as nat, 10).push('\t') + subclass.push('\t')
                + info
        }),
{
    reveal_strlit("\t");
    reveal_strlit("");
    assert(""@ =~= Seq::<char>::empty());
    let serial = if dev.serial is Some {
        dev.serial->0@
    } else {
        Seq::empty()
    };
    assert(text_or(dev.serial, ""@) =~= serial);
    let subclass = padded(subclass_of(dev.interfaces@, interface) as nat, 16, 2);
    assert(channel_text(dev, interface, info) =~= id_text(dev).push('\t') + location_text(dev).push(
        '\t',
    ) + serial.push('\t') + number(interface as nat, 10).push('\t') + subclass.push('\t') + info);
}

/// The subclass is that of the first interface with the number, and zero without one.
pub proof fn law_subclass_of_first(interfaces: Seq<InterfaceInfo>, number: u8, pos: int)
    ensures
        0 <= pos < interfaces.len() && interfaces[pos].number == number && (forall|i: int|
            0 <= i < pos ==> (#[trigger] interfaces[i]).number != number) ==> subclass_of(
            interfaces,
            number,
        ) == interfaces[pos].class.sub_class,
        (forall|i: int|
            0 <= i < interfaces.len() ==> (#[trigger] interfaces[i]).number != number)
            ==> subclass_of(interfaces, number) == 0,
    decreases interfaces.len(),
{
    if interfaces.len() > 0 && interfaces[0].number != number {
        let rest = interfaces.drop_first();
        law_subclass_of_first(rest, number, pos - 1);
        assert forall|i: int| 0 <= i < rest.len() implies #[trigger] rest[i] == interfaces[i
            + 1] by {}
        if 0 < pos < interfaces.len() {
            assert(rest[pos - 1] == interfaces[pos]);
        }
    }
}

/// The line for a device names its ids, location, manufacturer and product, or a question
/// mark for each that is unknown, and its serial number if there is one.
pub proof fn law_device_line(dev: DeviceInfo)
    ensures
        ({
            let maker = if dev.manufacturer is Some {
                dev.manufacturer->0@
            } else {
                seq!['?']
            };
            let product = if dev.product is Some {
                dev.product->0@
            } else {
                seq!['?']
            };
            let start = "Device "@ + id_text(dev) + " on "@ + location_text(dev) + " - "@ + maker
                + " "@ + product;
            &&& dev.serial is None ==> device_text(dev) == start
            &&& dev.serial is Some ==> device_text(dev) == start + " (serial: "@ + dev.serial->0@
                + ")"@
        }),
{
    reveal_strlit("?");
    assert("?"@ =~= seq!['?']);
    let start = "Device "@ + id_text(dev) + " on "@ + location_text(dev) + " - "@ + text_or(
        dev.manufacturer,
        "?"@,
    ) + " "@ + text_or(dev.product, "?"@);
    assert(start + Seq::<char>::empty() =~= start);
    if dev.serial is Some {
        assert(device_text(dev) =~= start + " (serial: "@ + dev.serial->0@ + ")"@);
    }
}

/// The line for an interface names its number, the three parts of its class in two digits
/// of base 16 each, and its name in quotes if there is one.
pub proof fn law_interface_line(iface: InterfaceInfo)
    ensures
        ({
            let start = "  Interface "@ + number(iface.number as nat, 10) + ": class="@ + padded(
                iface.class.class as nat,
                16,
                2,
            ) + " subclass="@ + padded(iface.class.sub_class as nat, 16, 2) + " protocol="@
                + padded(iface.class.protocol as nat, 16, 2);
            &&& iface.name is None ==> interface_text(iface) == start
            &&& iface.name is Some ==> interface_text(iface) == start + seq![' ', '"']
                + iface.name->0@ + seq!['"']
        }),
{
    reveal_strlit(" \"");
    reveal_strlit("\"");
    assert(" \""@ =~= seq![' ', '"']);
    assert("\""@ =~= seq!['"']);
    let start = "  Interface "@ + number(iface.number as nat, 10) + ": class="@ + padded(
        iface.class.class as nat,
        16,
        2,
    ) + " subclass="@ + padded(iface.class.sub_class as nat, 16, 2) + " protocol="@ + padded(
        iface.class.protocol as nat,
        16,
        2,
    );
    assert(start + Seq::<char>::empty() =~= start);
    if iface.name is Some {
        assert(interface_text(iface) =~= start + seq![' ', '"'] + iface.name->0@ + seq!['"']);
    }
}

/// The interfaces that are listed are exactly those that pass the filter, in order.
pub proof fn law_interfaces_listed(filter: DeviceFilter, interfaces: Seq<InterfaceInfo>)
    ensures
        interface_texts(filter, interfaces) == interfaces.filter(
            |iface: InterfaceInfo| filter.interface_passes(iface),
        ).map_values(|iface: InterfaceInfo| interface_text(iface)),
    decreases interfaces.len(),
{
    reveal(Seq::filter);
    let text = |iface: InterfaceInfo| interface_text(iface);
    let passes = |iface: InterfaceInfo| filter.interface_passes(iface);
    let kept = interfaces.filter(passes);
    if interfaces.len() == 0 {
        assert(interface_texts(filter, interfaces) =~= kept.map_values(text));
    } else {
        let init = interfaces.drop_last();
        law_interfaces_listed(filter, init);
        if passes(interfaces.last()) {
            assert(kept.map_values(text) =~= init.filter(passes).map_values(text).push(
                interface_text(interfaces.last()),
            ));
        }
    }
}

/// A device is described only if all devices are listed: by its own line and those of its
/// interfaces.
pub proof fn law_descriptions(filter: DeviceFilter, dev: DeviceInfo)
    ensures
        description(filter, dev, false).len() == 0,
        description(filter, dev, true).len() > 0,
        description(filter, dev, true)[0] == device_text(dev),
        description(filter, dev, true).skip(1) == interface_texts(filter, dev.interfaces@),
{
    assert(description(filter, dev, true).skip(1) =~= interface_texts(filter, dev.interfaces@));
}

/// The devices that are reported on are exactly those that pass the filter and, unless all
/// are listed, have a candidate. They are reported on once each, in order, with all their
/// candidates.
pub proof fn law_devices_reported(
    filter: DeviceFilter,
    devices: Seq<DeviceInfo>,
    all: bool,
    device: usize,
)
    requires
        devices.len() <= usize::MAX,
    ensures
        ({
            let entries = scan_entries(filter, devices, all);
            &&& forall|i: int, j: int|
                0 <= i < j < entries.len() ==> (#[trigger] entries[i]).device < (
                #[trigger] entries[j]).device
            &&& forall|i: int|
                0 <= i < entries.len() ==> {
                    let entry = #[trigger] entries[i];
                    let dev = devices[entry.device as int];
                    &&& entry.device < devices.len()
                    &&& filter.device_passes(dev)
                    &&& entry.interfaces == filter.candidate_numbers(dev.interfaces@)
                    &&& entry.lines == description(filter, dev, all)
                    &&& all || entry.interfaces.len() > 0
                }
            &&& device < devices.len() && filter.device_passes(devices[device as int]) && (all
                || filter.candidate_numbers(devices[device as int].interfaces@).len() > 0)
                ==> exists|i: int|
                0 <= i < entries.len() && (#[trigger] entries[i]).device == device
        }),
    decreases devices.len(),
{
    let entries = scan_entries(filter, devices, all);
    if devices.len() > 0 {
        let init = devices.drop_last();
        let rest = scan_entries(filter, init, all);
        let pos = (devices.len() - 1) as usize;
        law_devices_reported(filter, init, all, device);
        assert forall|i: int| 0 <= i < rest.len() implies #[trigger] entries[i] == rest[i]
            && entries[i].device < pos by {
            assert(rest[i].device < init.len());
        }
        assert forall|i: int| 0 <= i < entries.len() implies {
            let entry = #[trigger] entries[i];
            let dev = devices[entry.device as int];
            &&& entry.device < devices.len()
            &&& filter.device_passes(dev)
            &&& entry.interfaces == filter.candidate_numbers(dev.interfaces@)
            &&& entry.lines == description(filter, dev, all)
            &&& all || entry.interfaces.len() > 0
        } by {
            if i < rest.len() {
                assert(entries[i] == rest[i]);
                assert(init[rest[i].device as int] == devices[rest[i].device as int]);
            }
        }
        if device < init.len() {
            assert(init[device as int] == devices[device as int]);
            if exists|i: int| 0 <= i < rest.len() && (#[trigger] rest[i]).device == device {
                let i = choose|i: int|
                    0 <= i < rest.len() && (#[trigger] rest[i]).device == device;
                assert(entries[i].device == device);
            }
        } else if device == pos && entries.len() > rest.len() {
            assert(entries[rest.len() as int].device == device);
        }
    }
}

/// An entry is known by its device, its lines and its interfaces.
pub proof fn law_scan_entry_view(entry: ScanEntry, i: int)
    requires
        0 <= i < entry.lines@.len(),
    ensures
        entry@.device == entry.device,
        entry@.interfaces == entry.interfaces@,
        entry@.lines.len() == entry.lines@.len(),
        entry@.lines[i] == entry.lines@[i]@,
{
}

} // verus!
