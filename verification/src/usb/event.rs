use vstd::prelude::*;
use vstd::std_specs::convert::{FromSpecImpl, TryFromSpecImpl};
use vstd::std_specs::ops::BitOrSpecImpl;

use crate::usb::error::Error;

verus! {

/// The raw code of the arrival of a device.
pub const HOTPLUG_EVENT_DEVICE_ARRIVED: u32 = 1;

/// The raw code of the departure of a device.
pub const HOTPLUG_EVENT_DEVICE_LEFT: u32 = 2;

/// What happened to a device.
#[derive(Debug, Clone, Copy, PartialEq, Eq, Structural)]
pub enum UsbHotplugEventType {
    Undefined,
    DeviceArrived,
    DeviceLeft,
}

impl UsbHotplugEventType {
    /// The bit that stands for this kind of event; none for the undefined
    /// one.
    pub open spec fn spec_bit(self) -> u32 {
        match self {
            UsbHotplugEventType::Undefined => 0,
            UsbHotplugEventType::DeviceArrived => HOTPLUG_EVENT_DEVICE_ARRIVED,
            UsbHotplugEventType::DeviceLeft => HOTPLUG_EVENT_DEVICE_LEFT,
        }
    }

    pub fn bit(self) -> (r: u32)
        ensures
            r == self.spec_bit(),
    {
        match self {
            UsbHotplugEventType::Undefined => 0,
            UsbHotplugEventType::DeviceArrived => HOTPLUG_EVENT_DEVICE_ARRIVED,
            UsbHotplugEventType::DeviceLeft => HOTPLUG_EVENT_DEVICE_LEFT,
        }
    }

    /// The kind of event that a raw code stands for.
    pub open spec fn spec_try_from(value: u32) -> Result<Self, Error> {
        if value == HOTPLUG_EVENT_DEVICE_LEFT {
            Ok(UsbHotplugEventType::DeviceLeft)
        } else if value == HOTPLUG_EVENT_DEVICE_ARRIVED {
            Ok(UsbHotplugEventType::DeviceArrived)
        } else {
            Err(Error::UndefinedEvent(value))
        }
    }
}

impl TryFromSpecImpl<u32> for UsbHotplugEventType {
    open spec fn obeys_try_from_spec() -> bool {
        true
    }

    open spec fn try_from_spec(value: u32) -> Result<Self, Error> {
        Self::spec_try_from(value)
    }
}

impl TryFrom<u32> for UsbHotplugEventType {
    type Error = Error;

    fn try_from(value: u32) -> (r: Result<Self, Error>) {
        if value == HOTPLUG_EVENT_DEVICE_LEFT {
            Ok(UsbHotplugEventType::DeviceLeft)
        } else if value == HOTPLUG_EVENT_DEVICE_ARRIVED {
            Ok(UsbHotplugEventType::DeviceArrived)
        } else {
            Err(Error::UndefinedEvent(value))
        }
    }
}

/// A set of kinds of hotplug event, one bit per kind.
#[derive(Debug, Clone, Copy, PartialEq, Eq)]
pub struct UsbHotplugEventMask(u32);

impl UsbHotplugEventMask {
    pub closed spec fn bits(self) -> u32 {
        self.0
    }

    /// The mask with exactly these bits.
    pub closed spec fn spec_from_bits(bits: u32) -> UsbHotplugEventMask {
        UsbHotplugEventMask(bits)
    }

    pub open spec fn spec_matches(self, event: UsbHotplugEventType) -> bool {
        self.bits() & event.spec_bit() != 0
    }

    pub broadcast proof fn bits_of_spec_from_bits(bits: u32)
        ensures
            #[trigger] Self::spec_from_bits(bits).bits() == bits,
    {
    }

    /// Whether a handler with this mask is to hear of `event`.
    pub fn matches(&self, event: UsbHotplugEventType) -> (r: bool)
        ensures
            r == self.spec_matches(event),
    {
        (self.0 & event.bit()) != 0
    }
}

impl FromSpecImpl<UsbHotplugEventType> for UsbHotplugEventMask {
    open spec fn obeys_from_spec() -> bool {
        true
    }

    open spec fn from_spec(value: UsbHotplugEventType) -> Self {
        Self::spec_from_bits(value.spec_bit())
    }
}

impl From<UsbHotplugEventType> for UsbHotplugEventMask {
    fn from(value: UsbHotplugEventType) -> (r: Self) {
        UsbHotplugEventMask(value.bit())
    }
}

impl BitOrSpecImpl for UsbHotplugEventType {
    open spec fn obeys_bitor_spec() -> bool {
        true
    }

    open spec fn bitor_req(self, rhs: Self) -> bool {
        true
    }

    open spec fn bitor_spec(self, rhs: Self) -> UsbHotplugEventMask {
        UsbHotplugEventMask::spec_from_bits(self.spec_bit() | rhs.spec_bit())
    }
}

impl core::ops::BitOr for UsbHotplugEventType {
    type Output = UsbHotplugEventMask;

    fn bitor(self, rhs: Self) -> (r: UsbHotplugEventMask) {
        UsbHotplugEventMask(self.bit() | rhs.bit())
    }
}

/// A mask made of two kinds of event matches exactly those two; the mask
/// of one kind matches that kind alone, and nothing matches the undefined
/// kind.
pub proof fn lemma_mask_matches_its_kinds(
    a: UsbHotplugEventType,
    b: UsbHotplugEventType,
    event: UsbHotplugEventType,
)
    ensures
        UsbHotplugEventMask::spec_from_bits(a.spec_bit() | b.spec_bit()).spec_matches(event) <==> (
        event != UsbHotplugEventType::Undefined && (event == a || event == b)),
        UsbHotplugEventMask::spec_from_bits(a.spec_bit()).spec_matches(event) <==> (event
            != UsbHotplugEventType::Undefined && event == a),
{
    let x = a.spec_bit();
    let y = b.spec_bit();
    let e = event.spec_bit();
    assert((x == 0 || x == 1 || x == 2) && (y == 0 || y == 1 || y == 2) && (e == 0 || e == 1 || e
        == 2) ==> (((x | y) & e != 0) <==> (e != 0 && (e == x || e == y))) && ((x & e != 0) <==> (e
        != 0 && e == x))) by (bit_vector);
    UsbHotplugEventMask::bits_of_spec_from_bits(x | y);
    UsbHotplugEventMask::bits_of_spec_from_bits(x);
}

/// A change of the set of file descriptors that are to be polled.
#[derive(Debug, Clone, Copy, PartialEq, Eq, Structural)]
pub enum UsbFileDescriptorEventData {
    /// Poll this descriptor for these events from now on.
    Add(i32, i16),
    /// Poll this descriptor no longer.
    Remove(i32),
}

} // verus!
