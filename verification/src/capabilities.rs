//! Capabilities of devices and hosts.
//!
//! Capabilities are encoded as a list of tagged entries for forward and
//! backward compatibility: unknown tags are skipped during decoding and missing
//! tags fall back to their default values.

use std::time::Duration;
use vstd::prelude::*;

use crate::error::Error;
use crate::time::{optional_nanos, NANOS_PER_MILLI};
use crate::tlv;
use crate::tlv::{Entry, EntryView};

verus! {

/// Maximum size of encoded capabilities.
pub const CAPABILITIES_SIZE: usize = 256;

/// Maximum packet size of a peer that does not announce one.
pub const DEFAULT_MAX_SIZE: u64 = 16_777_216;

/// Tag of the ping timeout: milliseconds in four bytes, zero if disabled.
pub const TAG_PING_TIMEOUT: u8 = 0x01;

/// Tag of the support for status requests: one byte, zero if unsupported.
pub const TAG_STATUS_SUPPORTED: u8 = 0x02;

/// Tag of the maximum packet size: bytes in eight bytes.
pub const TAG_MAX_SIZE: u8 = 0x03;

/// Tag of the support for echo requests: one byte, zero if unsupported.
pub const TAG_ECHO_SUPPORTED: u8 = 0x04;

/// Basic device capabilities.
#[derive(Debug, Clone, Copy, PartialEq, Eq)]
pub struct Capabilities {
    /// Ping timeout duration.
    pub ping_timeout: Option<Duration>,
    /// Whether the device supports the STATUS control request.
    pub status_supported: bool,
}

/// Device capabilities.
#[derive(Debug, Clone, Copy, PartialEq, Eq)]
pub struct DeviceCapabilities {
    /// Ping timeout duration.
    pub ping_timeout: Option<Duration>,
    /// Whether the device supports the STATUS control request.
    pub status_supported: bool,
    /// Maximum packet size the device can receive.
    pub max_size: u64,
    /// Whether the device supports the ECHO control request.
    pub echo_supported: bool,
}

/// Host capabilities.
#[derive(Debug, Clone, Copy, PartialEq, Eq, Structural)]
pub struct HostCapabilities {
    /// Maximum packet size the host can receive.
    pub max_size: u64,
}

/// Basic device capabilities with the ping timeout in nanoseconds.
pub struct CapabilitiesView {
    pub ping_timeout: Option<nat>,
    pub status_supported: bool,
}

/// Device capabilities with the ping timeout in nanoseconds.
pub struct DeviceCapabilitiesView {
    pub ping_timeout: Option<nat>,
    pub status_supported: bool,
    pub max_size: u64,
    pub echo_supported: bool,
}

impl View for Capabilities {
    type V = CapabilitiesView;

    open spec fn view(&self) -> CapabilitiesView {
        CapabilitiesView {
            ping_timeout: optional_nanos(self.ping_timeout),
            status_supported: self.status_supported,
        }
    }
}

impl View for DeviceCapabilities {
    type V = DeviceCapabilitiesView;

    open spec fn view(&self) -> DeviceCapabilitiesView {
        DeviceCapabilitiesView {
            ping_timeout: optional_nanos(self.ping_timeout),
            status_supported: self.status_supported,
            max_size: self.max_size,
            echo_supported: self.echo_supported,
        }
    }
}

/// The whole milliseconds of a ping timeout, capped to four bytes; zero for no timeout.
pub open spec fn timeout_millis(timeout: Option<nat>) -> nat {
    match timeout {
        Some(timeout) => {
            let millis = timeout / NANOS_PER_MILLI as nat;
            if millis <= u32::MAX {
                millis
            } else {
                u32::MAX as nat
            }
        },
        None => 0,
    }
}

/// The ping timeout of a number of milliseconds; none for zero.
pub open spec fn millis_timeout(millis: nat) -> Option<nat> {
    if millis == 0 {
        None
    } else {
        Some(millis * NANOS_PER_MILLI as nat)
    }
}

/// The ping timeout that the peer sees.
pub open spec fn announced_timeout(timeout: Option<nat>) -> Option<nat> {
    millis_timeout(timeout_millis(timeout))
}

/// The value of the last entry with the tag that is at least `min_len` bytes long.
pub open spec fn last_value(entries: Seq<EntryView>, tag: u8, min_len: nat) -> Option<Seq<u8>>
    decreases entries.len(),
{
    if entries.len() == 0 {
        None
    } else if entries.last().0 == tag && entries.last().1.len() >= min_len {
        Some(entries.last().1)
    } else {
        last_value(entries.drop_last(), tag, min_len)
    }
}

/// The number in the first `len` bytes of the last long enough entry with the tag.
pub open spec fn number_field(
    entries: Seq<EntryView>,
    tag: u8,
    len: nat,
    default_value: nat,
) -> nat {
    match last_value(entries, tag, len) {
        Some(value) => tlv::le_value(value.take(len as int)),
        None => default_value,
    }
}

/// Whether the first byte of the last non-empty entry with the tag is not zero.
pub open spec fn flag_field(entries: Seq<EntryView>, tag: u8) -> bool {
    number_field(entries, tag, 1, 0) != 0
}

/// The value of a flag entry.
pub open spec fn flag_bytes(flag: bool) -> Seq<u8> {
    seq![if flag { 1u8 } else { 0u8 }]
}

impl CapabilitiesView {
    /// The entries that describe the capabilities.
    pub open spec fn to_entries(self) -> Seq<EntryView> {
        seq![
            (TAG_PING_TIMEOUT, tlv::le_bytes(timeout_millis(self.ping_timeout), 4)),
            (TAG_STATUS_SUPPORTED, flag_bytes(self.status_supported)),
        ]
    }

    /// The capabilities that the entries describe.
    pub open spec fn from_entries(entries: Seq<EntryView>) -> Self {
        CapabilitiesView {
            ping_timeout: millis_timeout(number_field(entries, TAG_PING_TIMEOUT, 4, 0)),
            status_supported: flag_field(entries, TAG_STATUS_SUPPORTED),
        }
    }

    /// The encoded capabilities.
    pub open spec fn encoded(self) -> Seq<u8> {
        tlv::encoded(self.to_entries())
    }

    /// The capabilities that `data` encodes, if it is not truncated.
    pub open spec fn decoded(data: Seq<u8>) -> Option<Self> {
        match tlv::decoded(data) {
            Some(entries) => Some(Self::from_entries(entries)),
            None => None,
        }
    }
}

impl DeviceCapabilitiesView {
    /// The capabilities of a device that announces none.
    pub open spec fn default_view() -> Self {
        DeviceCapabilitiesView {
            ping_timeout: None,
            status_supported: false,
            max_size: DEFAULT_MAX_SIZE,
            echo_supported: false,
        }
    }

    /// The basic part of the capabilities.
    pub open spec fn basic(self) -> CapabilitiesView {
        CapabilitiesView {
            ping_timeout: self.ping_timeout,
            status_supported: self.status_supported,
        }
    }

    /// The entries that describe the capabilities.
    pub open spec fn to_entries(self) -> Seq<EntryView> {
        seq![
            (TAG_PING_TIMEOUT, tlv::le_bytes(timeout_millis(self.ping_timeout), 4)),
            (TAG_STATUS_SUPPORTED, flag_bytes(self.status_supported)),
            (TAG_MAX_SIZE, tlv::le_bytes(self.max_size as nat, 8)),
            (TAG_ECHO_SUPPORTED, flag_bytes(self.echo_supported)),
        ]
    }

    /// The capabilities that the entries describe.
    pub open spec fn from_entries(entries: Seq<EntryView>) -> Self {
        DeviceCapabilitiesView {
            ping_timeout: millis_timeout(number_field(entries, TAG_PING_TIMEOUT, 4, 0)),
            status_supported: flag_field(entries, TAG_STATUS_SUPPORTED),
            max_size: number_field(entries, TAG_MAX_SIZE, 8, DEFAULT_MAX_SIZE as nat) as u64,
            echo_supported: flag_field(entries, TAG_ECHO_SUPPORTED),
        }
    }

    /// The encoded capabilities.
    pub open spec fn encoded(self) -> Seq<u8> {
        tlv::encoded(self.to_entries())
    }

    /// The capabilities that `data` encodes, if it is not truncated.
    pub open spec fn decoded(data: Seq<u8>) -> Option<Self> {
        match tlv::decoded(data) {
            Some(entries) => Some(Self::from_entries(entries)),
            None => None,
        }
    }
}

impl HostCapabilities {
    /// The entries that describe the capabilities.
    pub open spec fn to_entries(self) -> Seq<EntryView> {
        seq![(TAG_MAX_SIZE, tlv::le_bytes(self.max_size as nat, 8))]
    }

    /// The capabilities that the entries describe.
    pub open spec fn from_entries(entries: Seq<EntryView>) -> Self {
        HostCapabilities {
            max_size: number_field(entries, TAG_MAX_SIZE, 8, DEFAULT_MAX_SIZE as nat) as u64,
        }
    }

    /// The encoded capabilities.
    pub open spec fn encoded(self) -> Seq<u8> {
        tlv::encoded(self.to_entries())
    }

    /// The capabilities that `data` encodes, if it is not truncated.
    pub open spec fn decoded(data: Seq<u8>) -> Option<Self> {
        match tlv::decoded(data) {
            Some(entries) => Some(Self::from_entries(entries)),
            None => None,
        }
    }
}

proof fn lemma_entry_len(entry: EntryView)
    ensures
        tlv::entry_bytes(entry).len() == 3 + entry.1.len(),
{
    reveal_with_fuel(tlv::le_bytes, 3);
}

proof fn lemma_numbers(millis: nat, max_size: u64)
    requires
        millis <= u32::MAX,
    ensures
        tlv::le_bytes(millis, 4).len() == 4,
        tlv::le_value(tlv::le_bytes(millis, 4).take(4)) == millis,
        tlv::le_bytes(max_size as nat, 8).len() == 8,
        tlv::le_value(tlv::le_bytes(max_size as nat, 8).take(8)) == max_size,
{
    tlv::lemma_radix();
    tlv::law_le_round_trip(millis, 4);
    tlv::law_le_round_trip(max_size as nat, 8);
    assert(tlv::le_bytes(millis, 4).take(4) =~= tlv::le_bytes(millis, 4));
    assert(tlv::le_bytes(max_size as nat, 8).take(8) =~= tlv::le_bytes(max_size as nat, 8));
}

proof fn lemma_flags()
    ensures
        forall|flag: bool|
            #![trigger flag_bytes(flag)]
            (tlv::le_value(flag_bytes(flag).take(1)) != 0) == flag,
{
    assert forall|flag: bool|
        #![trigger flag_bytes(flag)]
        (tlv::le_value(flag_bytes(flag).take(1)) != 0) == flag by {
        reveal_with_fuel(tlv::le_value, 2);
        assert(flag_bytes(flag).take(1) =~= flag_bytes(flag));
    }
}

proof fn lemma_last_value_push(entries: Seq<EntryView>, entry: EntryView, tag: u8, min_len: nat)
    ensures
        last_value(entries.push(entry), tag, min_len) == (if entry.0 == tag && entry.1.len()
            >= min_len {
            Some(entry.1)
        } else {
            last_value(entries, tag, min_len)
        }),
{
    assert(entries.push(entry).drop_last() =~= entries);
}

/// The fields of a list of up to four entries that have the known tags in order.
proof fn lemma_known_entries(caps: DeviceCapabilitiesView)
    ensures
        DeviceCapabilitiesView::from_entries(caps.to_entries()) == (DeviceCapabilitiesView {
            ping_timeout: announced_timeout(caps.ping_timeout),
            ..caps
        }),
        CapabilitiesView::from_entries(caps.to_entries()) == (CapabilitiesView {
            ping_timeout: announced_timeout(caps.ping_timeout),
            status_supported: caps.status_supported,
        }),
        CapabilitiesView::from_entries(caps.basic().to_entries()) == (CapabilitiesView {
            ping_timeout: announced_timeout(caps.ping_timeout),
            status_supported: caps.status_supported,
        }),
        DeviceCapabilitiesView::from_entries(caps.basic().to_entries()) == (
        DeviceCapabilitiesView {
            ping_timeout: announced_timeout(caps.ping_timeout),
            status_supported: caps.status_supported,
            ..DeviceCapabilitiesView::default_view()
        }),
{
    let e = caps.to_entries();
    let none = Seq::<EntryView>::empty();
    let e1 = none.push(e[0]);
    let e2 = e1.push(e[1]);
    let e3 = e2.push(e[2]);
    lemma_numbers(timeout_millis(caps.ping_timeout), caps.max_size);
    lemma_flags();
    assert forall|tag: u8, len: nat|
        #![trigger last_value(e, tag, len)]
        last_value(e, tag, len) == (if tag == 4 && len <= 1 {
            Some(e[3].1)
        } else if tag == 3 && len <= 8 {
            Some(e[2].1)
        } else {
            last_value(e2, tag, len)
        }) by {
        lemma_last_value_push(e3, e[3], tag, len);
        lemma_last_value_push(e2, e[2], tag, len);
        assert(e3.push(e[3]) =~= e);
    }
    assert forall|tag: u8, len: nat|
        #![trigger last_value(e2, tag, len)]
        last_value(e2, tag, len) == (if tag == 2 && len <= 1 {
            Some(e[1].1)
        } else if tag == 1 && len <= 4 {
            Some(e[0].1)
        } else {
            None
        }) by {
        lemma_last_value_push(e1, e[1], tag, len);
        lemma_last_value_push(none, e[0], tag, len);
    }
    assert(caps.basic().to_entries() =~= e2);
}

proof fn lemma_decoded(caps: DeviceCapabilitiesView)
    ensures
        tlv::decoded(caps.encoded()) == Some(caps.to_entries()),
        tlv::decoded(caps.basic().encoded()) == Some(caps.basic().to_entries()),
{
    lemma_entry_sizes(caps);
    tlv::law_entries_round_trip(caps.to_entries());
    tlv::law_entries_round_trip(caps.basic().to_entries());
}

proof fn lemma_entry_sizes(caps: DeviceCapabilitiesView)
    ensures
        forall|i: int|
            0 <= i < caps.to_entries().len() ==> (#[trigger] caps.to_entries()[i]).1.len()
                < 0x1_0000,
        forall|i: int|
            0 <= i < caps.basic().to_entries().len() ==> (
            #[trigger] caps.basic().to_entries()[i]).1.len() < 0x1_0000,
{
    lemma_numbers(timeout_millis(caps.ping_timeout), caps.max_size);
}

/// A host sees the device capabilities as the device encodes them, with the ping
/// timeout in whole milliseconds.
pub proof fn law_device_capabilities_round_trip(caps: DeviceCapabilitiesView)
    ensures
        DeviceCapabilitiesView::decoded(caps.encoded()) == Some(
            (DeviceCapabilitiesView {
                ping_timeout: announced_timeout(caps.ping_timeout),
                ..caps
            }),
        ),
{
    lemma_known_entries(caps);
    lemma_decoded(caps);
}

/// Basic device capabilities are read as they are encoded, with the ping timeout in
/// whole milliseconds.
pub proof fn law_capabilities_round_trip(caps: CapabilitiesView)
    ensures
        CapabilitiesView::decoded(caps.encoded()) == Some(
            (CapabilitiesView { ping_timeout: announced_timeout(caps.ping_timeout), ..caps }),
        ),
{
    let device = DeviceCapabilitiesView {
        ping_timeout: caps.ping_timeout,
        status_supported: caps.status_supported,
        max_size: 0,
        echo_supported: false,
    };
    lemma_known_entries(device);
    lemma_decoded(device);
    assert(device.basic() == caps);
}

/// A device sees the host capabilities as the host encodes them.
pub proof fn law_host_capabilities_round_trip(caps: HostCapabilities)
    ensures
        HostCapabilities::decoded(caps.encoded()) == Some(caps),
{
    lemma_numbers(0, caps.max_size);
    lemma_last_value_push(Seq::empty(), caps.to_entries()[0], TAG_MAX_SIZE, 8);
    assert(Seq::<EntryView>::empty().push(caps.to_entries()[0]) =~= caps.to_entries());
    tlv::law_entries_round_trip(caps.to_entries());
}

/// A ping timeout of whole milliseconds that fits into four bytes is announced exactly.
pub proof fn law_whole_millis_exact(millis: nat)
    requires
        0 < millis <= u32::MAX,
    ensures
        announced_timeout(Some(millis * NANOS_PER_MILLI as nat)) == Some(
            millis * NANOS_PER_MILLI as nat,
        ),
        announced_timeout(None) == None::<nat>,
{
}

/// A peer that knows only the basic capabilities reads them from a full encoding, and
/// a peer that knows all of them reads a basic encoding with defaults for the rest.
pub proof fn law_capabilities_compatible(caps: DeviceCapabilitiesView)
    ensures
        CapabilitiesView::decoded(caps.encoded()) == CapabilitiesView::decoded(
            caps.basic().encoded(),
        ),
        DeviceCapabilitiesView::decoded(caps.basic().encoded()) == Some(
            (DeviceCapabilitiesView {
                ping_timeout: announced_timeout(caps.ping_timeout),
                status_supported: caps.status_supported,
                ..DeviceCapabilitiesView::default_view()
            }),
        ),
{
    lemma_known_entries(caps);
    lemma_decoded(caps);
}

proof fn lemma_last_value_insert(
    before: Seq<EntryView>,
    unknown: EntryView,
    after: Seq<EntryView>,
    tag: u8,
    min_len: nat,
)
    requires
        unknown.0 != tag,
    ensures
        last_value(before + seq![unknown] + after, tag, min_len) == last_value(
            before + after,
            tag,
            min_len,
        ),
    decreases after.len(),
{
    let with = before + seq![unknown] + after;
    if after.len() == 0 {
        lemma_last_value_push(before, unknown, tag, min_len);
        assert(with =~= before.push(unknown));
        assert(before + after =~= before);
    } else {
        lemma_last_value_insert(before, unknown, after.drop_last(), tag, min_len);
        assert(with.drop_last() =~= before + seq![unknown] + after.drop_last());
        assert((before + after).drop_last() =~= before + after.drop_last());
    }
}

/// An entry with an unknown tag does not change the capabilities, wherever it stands.
pub proof fn law_unknown_tags_skipped(
    before: Seq<EntryView>,
    unknown: EntryView,
    after: Seq<EntryView>,
)
    requires
        unknown.0 == 0 || unknown.0 > TAG_ECHO_SUPPORTED,
    ensures
        CapabilitiesView::from_entries(before + seq![unknown] + after)
            == CapabilitiesView::from_entries(before + after),
        DeviceCapabilitiesView::from_entries(before + seq![unknown] + after)
            == DeviceCapabilitiesView::from_entries(before + after),
        HostCapabilities::from_entries(before + seq![unknown] + after)
            == HostCapabilities::from_entries(before + after),
{
    lemma_last_value_insert(before, unknown, after, TAG_PING_TIMEOUT, 4);
    lemma_last_value_insert(before, unknown, after, TAG_STATUS_SUPPORTED, 1);
    lemma_last_value_insert(before, unknown, after, TAG_MAX_SIZE, 8);
    lemma_last_value_insert(before, unknown, after, TAG_ECHO_SUPPORTED, 1);
}

proof fn lemma_last_value_missing(entries: Seq<EntryView>, tag: u8, min_len: nat)
    requires
        forall|i: int| 0 <= i < entries.len() ==> (#[trigger] entries[i]).0 != tag,
    ensures
        last_value(entries, tag, min_len) is None,
    decreases entries.len(),
{
    if entries.len() > 0 {
        lemma_last_value_missing(entries.drop_last(), tag, min_len);
    }
}

/// Missing tags fall back to their default values.
pub proof fn law_missing_tags_default(entries: Seq<EntryView>, tag: u8)
    requires
        forall|i: int| 0 <= i < entries.len() ==> (#[trigger] entries[i]).0 != tag,
    ensures
        ({
            let caps = DeviceCapabilitiesView::from_entries(entries);
            let default_caps = DeviceCapabilitiesView::default_view();
            &&& tag == TAG_PING_TIMEOUT ==> caps.ping_timeout == default_caps.ping_timeout
            &&& tag == TAG_STATUS_SUPPORTED ==> caps.status_supported
                == default_caps.status_supported
            &&& tag == TAG_MAX_SIZE ==> caps.max_size == default_caps.max_size
            &&& tag == TAG_ECHO_SUPPORTED ==> caps.echo_supported == default_caps.echo_supported
        }),
        tag == TAG_MAX_SIZE ==> HostCapabilities::from_entries(entries).max_size
            == DEFAULT_MAX_SIZE,
{
    lemma_last_value_missing(entries, tag, 1);
    lemma_last_value_missing(entries, tag, 4);
    lemma_last_value_missing(entries, tag, 8);
}

/// Encoded capabilities fit into the data of a control request.
pub proof fn law_encoded_size(device: DeviceCapabilitiesView, host: HostCapabilities)
    ensures
        device.encoded().len() == 26 <= CAPABILITIES_SIZE,
        device.basic().encoded().len() == 11 <= CAPABILITIES_SIZE,
        host.encoded().len() == 11 <= CAPABILITIES_SIZE,
{
    lemma_numbers(timeout_millis(device.ping_timeout), device.max_size);
    lemma_numbers(0, host.max_size);
    reveal_with_fuel(tlv::encoded, 5);
    let e = device.to_entries();
    let b = device.basic().to_entries();
    lemma_entry_len(e[0]);
    lemma_entry_len(e[1]);
    lemma_entry_len(e[2]);
    lemma_entry_len(e[3]);
    lemma_entry_len(host.to_entries()[0]);
    assert(e.drop_first().drop_first().drop_first() =~= seq![e[3]]);
    assert(e.drop_first() =~= seq![e[1], e[2], e[3]]);
    assert(e.drop_first().drop_first() =~= seq![e[2], e[3]]);
    assert(b.drop_first() =~= seq![e[1]]);
}

proof fn lemma_encoded_push(entries: Seq<EntryView>, entry: EntryView)
    ensures
        tlv::encoded(entries.push(entry)) == tlv::encoded(entries) + tlv::entry_bytes(entry),
    decreases entries.len(),
{
    let all = entries.push(entry);
    if entries.len() == 0 {
        assert(all.drop_first() =~= entries);
        assert(all[0] == entry);
        assert(tlv::encoded(entries) =~= Seq::<u8>::empty());
        assert(tlv::encoded(all) =~= tlv::encoded(entries) + tlv::entry_bytes(entry));
    } else {
        lemma_encoded_push(entries.drop_first(), entry);
        assert(all.drop_first() =~= entries.drop_first().push(entry));
        assert(tlv::encoded(all) =~= tlv::encoded(entries) + tlv::entry_bytes(entry));
    }
}

/// Appends a number entry.
fn push_number(
    buf: &mut Vec<u8>,
    tag: u8,
    value: u64,
    count: usize,
    Ghost(entries): Ghost<Seq<EntryView>>,
)
    requires
        old(buf)@ == tlv::encoded(entries),
    ensures
        final(buf)@ == tlv::encoded(
            entries.push((tag, tlv::le_bytes(value as nat, count as nat))),
        ),
{
    let mut bytes: Vec<u8> = Vec::new();
    tlv::push_le(&mut bytes, value, count);
    assert(bytes@ =~= tlv::le_bytes(value as nat, count as nat));
    tlv::push_entry(buf, tag, &bytes);
    proof {
        lemma_encoded_push(entries, (tag, bytes@));
    }
}

/// Appends a flag entry.
fn push_flag(buf: &mut Vec<u8>, tag: u8, flag: bool, Ghost(entries): Ghost<Seq<EntryView>>)
    requires
        old(buf)@ == tlv::encoded(entries),
    ensures
        final(buf)@ == tlv::encoded(entries.push((tag, flag_bytes(flag)))),
{
    let mut bytes: Vec<u8> = Vec::new();
    bytes.push(if flag { 1 } else { 0 });
    assert(bytes@ =~= flag_bytes(flag));
    tlv::push_entry(buf, tag, &bytes);
    proof {
        lemma_encoded_push(entries, (tag, bytes@));
    }
}

/// The milliseconds to announce for a ping timeout.
fn millis_of(timeout: Option<Duration>) -> (millis: u64)
    ensures
        millis == timeout_millis(optional_nanos(timeout)),
{
    match timeout {
        Some(timeout) => {
            let millis: u128 = timeout.as_millis();
            if millis <= u32::MAX as u128 {
                millis as u64
            } else {
                u32::MAX as u64
            }
        },
        None => 0,
    }
}

/// The ping timeout of an announced number of milliseconds.
fn timeout_of(millis: u64) -> (timeout: Option<Duration>)
    ensures
        optional_nanos(timeout) == millis_timeout(millis as nat),
{
    if millis == 0 {
        None
    } else {
        Some(Duration::from_millis(millis))
    }
}

/// Reads a number from the last long enough entry with the tag.
fn read_number(entries: &Vec<Entry>, tag: u8, len: usize, default_value: u64) -> (value: u64)
    requires
        len <= 8,
    ensures
        value == number_field(
            tlv::entry_views(entries@),
            tag,
            len as nat,
            default_value as nat,
        ),
{
    let ghost views = tlv::entry_views(entries@);
    let mut count: usize = entries.len();
    assert(views.take(count as int) =~= views);
    while count > 0
        invariant
            len <= 8,
            count <= entries@.len(),
            views == tlv::entry_views(entries@),
            last_value(views, tag, len as nat) == last_value(
                views.take(count as int),
                tag,
                len as nat,
            ),
        decreases count,
    {
        let entry = &entries[count - 1];
        assert(views.take(count as int).last() == entry@);
        assert(views.take(count as int).drop_last() =~= views.take(count - 1));
        if entry.tag == tag && entry.value.len() >= len {
            let value: u64 = tlv::read_le(entry.value.as_slice(), 0, len);
            assert(entry.value@.subrange(0, len as int) =~= entry.value@.take(len as int));
            return value;
        }
        count = count - 1;
    }
    default_value
}

impl Default for Capabilities {
    fn default() -> (caps: Self)
        ensures
            caps@ == (CapabilitiesView { ping_timeout: None, status_supported: false }),
    {
        Capabilities { ping_timeout: None, status_supported: false }
    }
}

impl Default for DeviceCapabilities {
    fn default() -> (caps: Self)
        ensures
            caps@ == DeviceCapabilitiesView::default_view(),
    {
        DeviceCapabilities {
            ping_timeout: None,
            status_supported: false,
            max_size: DEFAULT_MAX_SIZE,
            echo_supported: false,
        }
    }
}

impl Default for HostCapabilities {
    fn default() -> (caps: Self)
        ensures
            caps == (HostCapabilities { max_size: DEFAULT_MAX_SIZE }),
    {
        HostCapabilities { max_size: DEFAULT_MAX_SIZE }
    }
}

impl Capabilities {
    /// Maximum encoded capabilities size.
    pub const SIZE: usize = CAPABILITIES_SIZE;

    /// Encodes the capabilities.
    pub fn encode(&self) -> (data: Vec<u8>)
        ensures
            data@ == self@.encoded(),
    {
        let mut data: Vec<u8> = Vec::new();
        let ghost none = Seq::<EntryView>::empty();
        let ghost entries = self@.to_entries();
        let millis: u64 = millis_of(self.ping_timeout);
        push_number(&mut data, TAG_PING_TIMEOUT, millis, 4, Ghost(none));
        push_flag(
            &mut data,
            TAG_STATUS_SUPPORTED,
            self.status_supported,
            Ghost(none.push(entries[0])),
        );
        assert(none.push(entries[0]).push(entries[1]) =~= entries);
        data
    }

    /// Decodes capabilities.
    ///
    /// Unknown tags are skipped. Missing tags keep their default values.
    pub fn decode(data: &[u8]) -> (result: Result<Self, Error>)
        ensures
            match result {
                Ok(caps) => CapabilitiesView::decoded(data@) == Some(caps@),
                Err(err) => CapabilitiesView::decoded(data@) is None && err
                    == Error::CapabilitiesTruncated,
            },
    {
        match tlv::decode(data) {
            Some(entries) => Ok(
                Capabilities {
                    ping_timeout: timeout_of(read_number(&entries, TAG_PING_TIMEOUT, 4, 0)),
                    status_supported: read_number(&entries, TAG_STATUS_SUPPORTED, 1, 0) != 0,
                },
            ),
            None => Err(Error::CapabilitiesTruncated),
        }
    }
}

impl DeviceCapabilities {
    /// Encodes the capabilities.
    pub fn encode(&self) -> (data: Vec<u8>)
        ensures
            data@ == self@.encoded(),
    {
        let mut data: Vec<u8> = Vec::new();
        let ghost none = Seq::<EntryView>::empty();
        let ghost entries = self@.to_entries();
        let ghost one = none.push(entries[0]);
        let ghost two = one.push(entries[1]);
        let millis: u64 = millis_of(self.ping_timeout);
        push_number(&mut data, TAG_PING_TIMEOUT, millis, 4, Ghost(none));
        push_flag(&mut data, TAG_STATUS_SUPPORTED, self.status_supported, Ghost(one));
        push_number(&mut data, TAG_MAX_SIZE, self.max_size, 8, Ghost(two));
        push_flag(
            &mut data,
            TAG_ECHO_SUPPORTED,
            self.echo_supported,
            Ghost(two.push(entries[2])),
        );
        assert(two.push(entries[2]).push(entries[3]) =~= entries);
        data
    }

    /// Decodes capabilities.
    ///
    /// Unknown tags are skipped. Missing tags keep their default values.
    pub fn decode(data: &[u8]) -> (result: Result<Self, Error>)
        ensures
            match result {
                Ok(caps) => DeviceCapabilitiesView::decoded(data@) == Some(caps@),
                Err(err) => DeviceCapabilitiesView::decoded(data@) is None && err
                    == Error::CapabilitiesTruncated,
            },
    {
        match tlv::decode(data) {
            Some(entries) => Ok(
                DeviceCapabilities {
                    ping_timeout: timeout_of(read_number(&entries, TAG_PING_TIMEOUT, 4, 0)),
                    status_supported: read_number(&entries, TAG_STATUS_SUPPORTED, 1, 0) != 0,
                    max_size: read_number(&entries, TAG_MAX_SIZE, 8, DEFAULT_MAX_SIZE),
                    echo_supported: read_number(&entries, TAG_ECHO_SUPPORTED, 1, 0) != 0,
                },
            ),
            None => Err(Error::CapabilitiesTruncated),
        }
    }
}

impl HostCapabilities {
    /// Encodes the capabilities.
    pub fn encode(&self) -> (data: Vec<u8>)
        ensures
            data@ == self.encoded(),
    {
        let mut data: Vec<u8> = Vec::new();
        let ghost none = Seq::<EntryView>::empty();
        push_number(&mut data, TAG_MAX_SIZE, self.max_size, 8, Ghost(none));
        assert(none.push(self.to_entries()[0]) =~= self.to_entries());
        data
    }

    /// Decodes capabilities.
    ///
    /// Unknown tags are skipped. Missing tags keep their default values.
    pub fn decode(data: &[u8]) -> (result: Result<Self, Error>)
        ensures
            match result {
                Ok(caps) => HostCapabilities::decoded(data@) == Some(caps),
                Err(err) => HostCapabilities::decoded(data@) is None && err
                    == Error::CapabilitiesTruncated,
            },
    {
        match tlv::decode(data) {
            Some(entries) => Ok(
                HostCapabilities {
                    max_size: read_number(&entries, TAG_MAX_SIZE, 8, DEFAULT_MAX_SIZE),
                },
            ),
            None => Err(Error::CapabilitiesTruncated),
        }
    }
}

/// The position of the last entry with a tag that is at least `min_len` bytes long.
pub open spec fn is_last_entry(
    entries: Seq<EntryView>,
    tag: u8,
    min_len: nat,
    pos: int,
) -> bool {
    &&& 0 <= pos < entries.len()
    &&& entries[pos].0 == tag && entries[pos].1.len() >= min_len
    &&& forall|later: int|
        pos < later < entries.len() ==> !((#[trigger] entries[later]).0 == tag
            && entries[later].1.len() >= min_len)
}

/// The value of a tag is that of its last entry that is long enough, wherever it stands.
pub proof fn law_last_entry_counts(entries: Seq<EntryView>, tag: u8, min_len: nat)
    ensures
        match last_value(entries, tag, min_len) {
            Some(value) => exists|pos: int| #[trigger]
                is_last_entry(entries, tag, min_len, pos) && entries[pos].1 == value,
            None => forall|i: int|
                0 <= i < entries.len() ==> !((#[trigger] entries[i]).0 == tag
                    && entries[i].1.len() >= min_len),
        },
    decreases entries.len(),
{
    if entries.len() > 0 {
        let last = entries.len() - 1;
        let init = entries.drop_last();
        law_last_entry_counts(init, tag, min_len);
        if entries[last].0 == tag && entries[last].1.len() >= min_len {
            assert(is_last_entry(entries, tag, min_len, last));
        } else {
            match last_value(init, tag, min_len) {
                Some(value) => {
                    let pos = choose|pos: int| #[trigger]
                        is_last_entry(init, tag, min_len, pos) && init[pos].1 == value;
                    assert forall|later: int| pos < later < entries.len() implies !((
                    #[trigger] entries[later]).0 == tag && entries[later].1.len()
                        >= min_len) by {
                        if later < last {
                            assert(init[later] == entries[later]);
                        }
                    }
                    assert(is_last_entry(entries, tag, min_len, pos));
                },
                None => {
                    assert forall|i: int| 0 <= i < entries.len() implies !((
                    #[trigger] entries[i]).0 == tag && entries[i].1.len() >= min_len) by {
                        if i < last {
                            assert(init[i] == entries[i]);
                        }
                    }
                },
            }
        }
    }
}

/// A number is read from the first bytes of its entry in little-endian order, and further
/// bytes are ignored. A flag is set exactly if the first byte of its entry is not zero.
pub proof fn law_entry_fields(entries: Seq<EntryView>, tag: u8, len: nat, pos: int, default: nat)
    requires
        is_last_entry(entries, tag, len, pos),
    ensures
        number_field(entries, tag, len, default) == tlv::le_value(entries[pos].1.take(len as int)),
        len == 1 ==> (flag_field(entries, tag) <==> entries[pos].1[0] != 0),
{
    law_last_entry_counts(entries, tag, len);
    let value = last_value(entries, tag, len);
    assert(value is Some);
    let found = choose|found: int| #[trigger]
        is_last_entry(entries, tag, len, found) && entries[found].1 == value->0;
    if found < pos {
        assert(!(entries[pos].0 == tag && entries[pos].1.len() >= len));
    } else if pos < found {
        assert(!(entries[found].0 == tag && entries[found].1.len() >= len));
    }
    if len == 1 {
        let first = entries[pos].1.take(1);
        reveal_with_fuel(tlv::le_value, 2);
        assert(first.drop_first() =~= Seq::<u8>::empty());
    }
}

/// Which entry each capability is read from: four bytes of tag 1 are the ping timeout in
/// milliseconds, one byte of tag 2 is the support for status requests, eight bytes of tag 3
/// are the maximum packet size, and one byte of tag 4 is the support for echo requests.
pub proof fn law_capability_tags(entries: Seq<EntryView>)
    ensures
        ({
            let caps = DeviceCapabilitiesView::from_entries(entries);
            let millis = number_field(entries, 1, 4, 0);
            let size = number_field(entries, 3, 8, 16_777_216);
            &&& millis == 0 ==> caps.ping_timeout is None
            &&& millis > 0 ==> caps.ping_timeout == Some(millis * 1_000_000)
            &&& caps.status_supported == flag_field(entries, 2)
            &&& caps.max_size == size
            &&& caps.echo_supported == flag_field(entries, 4)
            &&& CapabilitiesView::from_entries(entries).ping_timeout == caps.ping_timeout
            &&& CapabilitiesView::from_entries(entries).status_supported == caps.status_supported
            &&& HostCapabilities::from_entries(entries).max_size == size
        }),
{
    if let Some(value) = last_value(entries, 3, 8) {
        tlv::lemma_radix();
        law_last_entry_counts(entries, 3, 8);
        assert(value.len() >= 8);
        tlv::law_le_bytes_unique(value.take(8));
    }
}

/// Without any entries there is no ping timeout, neither status nor echo requests are
/// supported, and packets may have up to 16 MiB.
pub proof fn law_default_capabilities()
    ensures
        DeviceCapabilitiesView::from_entries(Seq::empty())
            == DeviceCapabilitiesView::default_view(),
        DeviceCapabilitiesView::default_view().ping_timeout is None,
        !DeviceCapabilitiesView::default_view().status_supported,
        DeviceCapabilitiesView::default_view().max_size == 16 * 1024 * 1024,
        !DeviceCapabilitiesView::default_view().echo_supported,
        DEFAULT_MAX_SIZE == 16 * 1024 * 1024,
        CAPABILITIES_SIZE == 256,
{
}

/// A ping timeout is announced in whole milliseconds, rounded down. One that does not fit
/// into four bytes is announced as the largest number that does, one of less than a
/// millisecond as none.
pub proof fn law_announced_millis(timeout: nat, millis: nat)
    ensures
        timeout_millis(None) == 0,
        timeout_millis(Some(timeout)) <= 0xffff_ffff,
        timeout_millis(Some(timeout)) * 1_000_000 <= timeout,
        timeout_millis(Some(timeout)) < 0xffff_ffff ==> timeout < (timeout_millis(Some(timeout))
            + 1) * 1_000_000,
        millis_timeout(0) is None,
        millis > 0 ==> millis_timeout(millis) == Some(millis * 1_000_000),
{
}

/// The bytes of encoded capabilities: each field after its tag and length.
pub proof fn law_encoded_layout(device: DeviceCapabilitiesView, host: HostCapabilities)
    ensures
        ({
            let data = device.encoded();
            &&& data.len() == 26
            &&& data.take(3) == seq![1u8, 4, 0]
            &&& tlv::le_value(data.subrange(3, 7)) == timeout_millis(device.ping_timeout)
            &&& data.subrange(7, 10) == seq![2u8, 1, 0]
            &&& data[10] == (if device.status_supported { 1int } else { 0int })
            &&& data.subrange(11, 14) == seq![3u8, 8, 0]
            &&& tlv::le_value(data.subrange(14, 22)) == device.max_size
            &&& data.subrange(22, 25) == seq![4u8, 1, 0]
            &&& data[25] == (if device.echo_supported { 1int } else { 0int })
        }),
        device.basic().encoded() == device.encoded().take(11),
        ({
            let data = host.encoded();
            &&& data.len() == 11
            &&& data.take(3) == seq![3u8, 8, 0]
            &&& tlv::le_value(data.skip(3)) == host.max_size
        }),
{
    law_encoded_size(device, host);
    lemma_numbers(timeout_millis(device.ping_timeout), device.max_size);
    lemma_numbers(0, host.max_size);
    let e = device.to_entries();
    let b = device.basic().to_entries();
    let data = device.encoded();
    tlv::law_entries_joined(seq![e[0]], seq![e[1]]);
    tlv::law_entries_joined(seq![e[0], e[1]], seq![e[2]]);
    tlv::law_entries_joined(seq![e[0], e[1], e[2]], seq![e[3]]);
    assert(seq![e[0]] + seq![e[1]] =~= seq![e[0], e[1]]);
    assert(seq![e[0], e[1]] + seq![e[2]] =~= seq![e[0], e[1], e[2]]);
    assert(seq![e[0], e[1], e[2]] + seq![e[3]] =~= e);
    assert(b =~= seq![e[0], e[1]]);
    let e0 = tlv::entry_bytes(e[0]);
    let e1 = tlv::entry_bytes(e[1]);
    let e2 = tlv::entry_bytes(e[2]);
    let e3 = tlv::entry_bytes(e[3]);
    assert(data =~= e0 + e1 + e2 + e3);
    reveal_with_fuel(tlv::le_bytes, 3);
    assert(tlv::le_bytes(4, 2) =~= seq![4u8, 0]);
    assert(tlv::le_bytes(1, 2) =~= seq![1u8, 0]);
    assert(tlv::le_bytes(8, 2) =~= seq![8u8, 0]);
    assert(e0 =~= seq![1u8, 4, 0] + e[0].1);
    assert(e1 =~= seq![2u8, 1, 0] + e[1].1);
    assert(e2 =~= seq![3u8, 8, 0] + e[2].1);
    assert(e3 =~= seq![4u8, 1, 0] + e[3].1);
    assert(data.take(3) =~= seq![1u8, 4, 0]);
    assert(data.subrange(3, 7) =~= e[0].1);
    assert(e[0].1.take(4) =~= e[0].1);
    assert(data.subrange(7, 10) =~= seq![2u8, 1, 0]);
    assert(data.subrange(11, 14) =~= seq![3u8, 8, 0]);
    assert(data.subrange(14, 22) =~= e[2].1);
    assert(e[2].1.take(8) =~= e[2].1);
    assert(data.subrange(22, 25) =~= seq![4u8, 1, 0]);
    assert(device.basic().encoded() =~= data.take(11));
    let h = host.to_entries();
    tlv::law_entries_joined(Seq::empty(), h);
    assert(h =~= seq![h[0]]);
    assert(host.encoded() =~= seq![3u8, 8, 0] + h[0].1);
    assert(host.encoded().take(3) =~= seq![3u8, 8, 0]);
    assert(host.encoded().skip(3) =~= h[0].1);
    assert(h[0].1.take(8) =~= h[0].1);
}

/// Capabilities are known by each of their fields.
pub proof fn law_capability_views(basic: Capabilities, device: DeviceCapabilities)
    ensures
        basic@.ping_timeout == optional_nanos(basic.ping_timeout),
        basic@.status_supported == basic.status_supported,
        device@.ping_timeout == optional_nanos(device.ping_timeout),
        device@.status_supported == device.status_supported,
        device@.max_size == device.max_size,
        device@.echo_supported == device.echo_supported,
{
}

/// Capabilities are read from every well-formed list of entries and from nothing else.
pub proof fn law_capabilities_decoded(data: Seq<u8>, entries: Seq<EntryView>)
    ensures
        tlv::decoded(data) is None <==> DeviceCapabilitiesView::decoded(data) is None,
        tlv::decoded(data) is None <==> CapabilitiesView::decoded(data) is None,
        tlv::decoded(data) is None <==> HostCapabilities::decoded(data) is None,
        (forall|i: int| 0 <= i < entries.len() ==> (#[trigger] entries[i]).1.len() < 0x1_0000)
            && data == tlv::encoded(entries) ==> {
            &&& DeviceCapabilitiesView::decoded(data) == Some(
                DeviceCapabilitiesView::from_entries(entries),
            )
            &&& CapabilitiesView::decoded(data) == Some(CapabilitiesView::from_entries(entries))
            &&& HostCapabilities::decoded(data) == Some(HostCapabilities::from_entries(entries))
        },
{
    if forall|i: int| 0 <= i < entries.len() ==> (#[trigger] entries[i]).1.len() < 0x1_0000 {
        tlv::law_entries_round_trip(entries);
    }
}

/// Entries that are too short count as missing: without a long enough entry a number has its
/// default value and a flag is not set.
pub proof fn law_short_entries_ignored(entries: Seq<EntryView>, tag: u8, len: nat, default: nat)
    requires
        forall|i: int|
            0 <= i < entries.len() ==> (#[trigger] entries[i]).0 != tag || entries[i].1.len()
                < len,
    ensures
        number_field(entries, tag, len, default) == default,
        len == 1 ==> !flag_field(entries, tag),
{
    law_last_entry_counts(entries, tag, len);
    if let Some(value) = last_value(entries, tag, len) {
        let pos = choose|pos: int| #[trigger]
            is_last_entry(entries, tag, len, pos) && entries[pos].1 == value;
        assert(entries[pos].0 == tag && entries[pos].1.len() >= len);
    }
}

} // verus!
