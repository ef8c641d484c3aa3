use vstd::prelude::*;

verus! {

/// Everything that can go wrong while USB devices are watched.
#[derive(Debug, Clone, Copy, PartialEq, Eq, Structural)]
pub enum Error {
    /// A device could not be opened; carries the code of the failure.
    DeviceOpen(i32),
    /// The hotplug callback could not be registered.
    RegisterCallback(i32),
    /// The descriptor of a device could not be read.
    DeviceDescriptor(i32),
    /// A hotplug event that is neither an arrival nor a departure.
    UndefinedEvent(u32),
}

} // verus!
