//! Options for connecting to a USB packet channel.

use std::time::Duration;
use vstd::prelude::*;

use crate::capabilities::{DeviceCapabilities, DeviceCapabilitiesView};
use crate::limits::MAX_SIZE;
use crate::time::{half, optional_nanos, shorter};

verus! {

/// Options for connecting to a USB packet channel.
///
/// Use [`UpcOptions::new`] to create a default set of options, then chain `with_*`
/// methods to customize.
#[derive(Debug)]
pub struct UpcOptions {
    topic: Vec<u8>,
    ping_interval: Option<Duration>,
    max_size: usize,
}

/// The options with the ping interval in nanoseconds.
pub struct OptionsView {
    pub topic: Seq<u8>,
    pub ping_interval: Option<nat>,
    pub max_size: usize,
}

impl OptionsView {
    /// The default options: no topic, an interval of 5 seconds and packets of up to 16 MiB.
    pub open spec fn default_view() -> Self {
        OptionsView {
            topic: Seq::empty(),
            ping_interval: Some(5_000_000_000),
            max_size: MAX_SIZE,
        }
    }
}

impl View for UpcOptions {
    type V = OptionsView;

    closed spec fn view(&self) -> OptionsView {
        OptionsView {
            topic: self.topic@,
            ping_interval: optional_nanos(self.ping_interval),
            max_size: self.max_size,
        }
    }
}

impl UpcOptions {
    /// Creates a new set of default connection options.
    pub fn new() -> (options: Self)
        ensures
            options@ == OptionsView::default_view(),
    {
        let options = UpcOptions {
            topic: Vec::new(),
            ping_interval: Some(Duration::from_secs(5)),
            max_size: MAX_SIZE,
        };
        assert(options@.topic =~= Seq::<u8>::empty());
        options
    }

    /// Sets the topic data provided to the device.
    ///
    /// The maximum size is [`crate::limits::INFO_SIZE`].
    pub fn with_topic(self, topic: Vec<u8>) -> (options: Self)
        ensures
            options@ == (OptionsView { topic: topic@, ..self@ }),
    {
        UpcOptions { topic, ping_interval: self.ping_interval, max_size: self.max_size }
    }

    /// Sets the requested interval for pinging the device.
    ///
    /// The actual ping interval is the minimum of this value and half the device's ping
    /// timeout. If the device does not support status polling, it is disabled regardless
    /// of this setting.
    ///
    /// The default is 5 seconds.
    pub fn with_ping_interval(self, ping_interval: Option<Duration>) -> (options: Self)
        ensures
            options@ == (OptionsView { ping_interval: optional_nanos(ping_interval), ..self@ }),
    {
        UpcOptions { topic: self.topic, ping_interval, max_size: self.max_size }
    }

    /// Sets the maximum size of a packet from the device.
    ///
    /// The default is 16 MiB.
    pub fn with_max_size(self, max_size: usize) -> (options: Self)
        ensures
            options@ == (OptionsView { max_size, ..self@ }),
    {
        UpcOptions { topic: self.topic, ping_interval: self.ping_interval, max_size }
    }

    /// Returns the topic data.
    pub fn topic(&self) -> (topic: &[u8])
        ensures
            topic@ == self@.topic,
    {
        self.topic.as_slice()
    }

    /// Returns the requested ping interval.
    pub fn ping_interval(&self) -> (ping_interval: Option<Duration>)
        ensures
            optional_nanos(ping_interval) == self@.ping_interval,
    {
        self.ping_interval
    }

    /// Returns the maximum size of a packet from the device.
    pub fn max_size(&self) -> (max_size: usize)
        ensures
            max_size == self@.max_size,
    {
        self.max_size
    }
}

impl Default for UpcOptions {
    fn default() -> (options: Self)
        ensures
            options@ == OptionsView::default_view(),
    {
        UpcOptions::new()
    }
}

impl Clone for UpcOptions {
    fn clone(&self) -> (options: Self)
        ensures
            options@ == self@,
    {
        let options = UpcOptions {
            topic: self.topic.clone(),
            ping_interval: self.ping_interval,
            max_size: self.max_size,
        };
        assert(options@.topic =~= self@.topic);
        options
    }
}

/// The interval in nanoseconds at which a host polls the status of a device.
pub open spec fn polling_interval(
    ping_interval: Option<nat>,
    caps: DeviceCapabilitiesView,
) -> Option<nat> {
    if !caps.status_supported {
        None
    } else {
        match (ping_interval, caps.ping_timeout) {
            (Some(interval), Some(timeout)) => Some(
                if interval <= timeout / 2 {
                    interval
                } else {
                    timeout / 2
                },
            ),
            (None, Some(timeout)) => Some(timeout / 2),
            (Some(interval), None) => Some(interval),
            (None, None) => None,
        }
    }
}

/// Determines the interval at which the host polls the status of the device.
pub fn status_interval(ping_interval: Option<Duration>, caps: &DeviceCapabilities) -> (interval:
    Option<Duration>)
    ensures
        optional_nanos(interval) == polling_interval(optional_nanos(ping_interval), caps@),
{
    if !caps.status_supported {
        return None;
    }
    match (ping_interval, caps.ping_timeout) {
        (Some(interval), Some(timeout)) => Some(shorter(interval, half(timeout))),
        (None, Some(timeout)) => Some(half(timeout)),
        (Some(interval), None) => Some(interval),
        (None, None) => None,
    }
}

/// A host never polls a device that does not support it, always polls one that has a ping
/// timeout at least twice during the timeout, and never less often than requested.
pub proof fn law_polling_in_time(ping_interval: Option<nat>, caps: DeviceCapabilitiesView)
    ensures
        !caps.status_supported ==> polling_interval(ping_interval, caps) is None,
        caps.status_supported && caps.ping_timeout is Some ==> polling_interval(
            ping_interval,
            caps,
        ) is Some && 2 * polling_interval(ping_interval, caps)->0 <= caps.ping_timeout->0,
        caps.status_supported && ping_interval is Some ==> polling_interval(
            ping_interval,
            caps,
        ) is Some && polling_interval(ping_interval, caps)->0 <= ping_interval->0,
{
}

/// The polling interval is the shorter one of the requested interval and half the ping
/// timeout of the device, rounded down, as far as there are both. There is none without
/// either of them or if the device cannot be polled.
pub proof fn law_polling_exact(ping_interval: Option<nat>, caps: DeviceCapabilitiesView)
    ensures
        polling_interval(ping_interval, caps) is Some <==> caps.status_supported && (
        ping_interval is Some || caps.ping_timeout is Some),
        polling_interval(ping_interval, caps) matches Some(interval) ==> {
            &&& ping_interval is Some ==> interval <= ping_interval->0
            &&& caps.ping_timeout is Some ==> 2 * interval <= caps.ping_timeout->0
            &&& ping_interval == Some(interval) || (caps.ping_timeout is Some
                && caps.ping_timeout->0 < 2 * interval + 2)
        },
{
}

/// The default options send an empty topic, poll every five seconds and receive packets of
/// up to 16 MiB.
pub proof fn law_default_options()
    ensures
        OptionsView::default_view().topic.len() == 0,
        OptionsView::default_view().ping_interval == Some(5 * 1_000_000_000nat),
        OptionsView::default_view().max_size == 16 * 1024 * 1024,
{
}

} // verus!
