use vstd::prelude::*;

use crate::usb::device::UsbDevice;

verus! {

/// A context of the USB library, by its address. It stands for the context
/// and does not own it.
#[derive(Debug, Clone, Copy, PartialEq, Eq, Structural)]
pub struct UsbContextRef(pub usize);

/// A context of the USB library together with what was found in it.
#[derive(Debug, PartialEq, Eq)]
pub struct UsbContext<T>(pub UsbContextRef, pub T);

impl UsbContext<UsbDevice> {
    /// The device that was found in the context.
    pub fn device(&self) -> (r: &UsbDevice)
        ensures
            *r == self.1,
    {
        &self.1
    }
}

} // verus!
