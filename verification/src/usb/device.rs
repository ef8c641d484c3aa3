use vstd::prelude::*;
use vstd::std_specs::convert::FromSpecImpl;

use crate::usb::error::Error;

verus! {

/// A device, by its address. It stands for the device and does not own it.
#[derive(Debug, Clone, Copy, PartialEq, Eq, Structural)]
pub struct UsbDeviceRef(pub usize);

/// A device on the bus.
#[derive(Debug, Clone, Copy, PartialEq, Eq, Structural)]
pub struct UsbDevice(pub UsbDeviceRef);

impl FromSpecImpl<UsbDeviceRef> for UsbDevice {
    open spec fn obeys_from_spec() -> bool {
        true
    }

    open spec fn from_spec(value: UsbDeviceRef) -> Self {
        UsbDevice(value)
    }
}

impl From<UsbDeviceRef> for UsbDevice {
    fn from(value: UsbDeviceRef) -> (r: Self) {
        UsbDevice(value)
    }
}

impl UsbDevice {
    /// Reads the outcome of asking for the descriptor of the device: any
    /// code but 0 is a failure.
    pub fn descriptor_status(code: i32) -> (r: Result<(), Error>)
        ensures
            r == if code != 0 {
                Err::<(), Error>(Error::DeviceDescriptor(code))
            } else {
                Ok::<(), Error>(())
            },
    {
        if code != 0 {
            Err(Error::DeviceDescriptor(code))
        } else {
            Ok(())
        }
    }

    /// Reads the outcome of opening the device: any code but 0 is a
    /// failure.
    pub fn open_status(code: i32) -> (r: Result<(), Error>)
        ensures
            r == if code != 0 {
                Err::<(), Error>(Error::DeviceOpen(code))
            } else {
                Ok::<(), Error>(())
            },
    {
        if code != 0 {
            Err(Error::DeviceOpen(code))
        } else {
            Ok(())
        }
    }
}

/// The most port numbers that a block holds.
pub const MAX_PORTS: usize = 7;

/// The port numbers on the way from the root hub to a device: the count,
/// and after it the numbers, in one block of eight bytes.
#[derive(Debug, Clone, Copy, PartialEq, Eq)]
pub struct PortNumberSet([u8; 8]);

impl View for PortNumberSet {
    type V = Seq<u8>;

    /// The port numbers, from the root hub on.
    closed spec fn view(&self) -> Seq<u8> {
        self.0@.subrange(1, 1 + self.0@[0] as int)
    }
}

impl PortNumberSet {
    #[verifier::type_invariant]
    spec fn fits(self) -> bool {
        self.0@[0] as int <= MAX_PORTS
    }

    /// The set in a raw block, if the count in its first byte leaves room
    /// for that many numbers.
    pub fn from_raw(raw: [u8; 8]) -> (r: Option<Self>)
        ensures
            r is Some <==> raw@[0] as int <= MAX_PORTS,
            r is Some ==> r->Some_0@ == raw@.subrange(1, 1 + raw@[0] as int),
    {
        if raw[0] as usize <= MAX_PORTS {
            Some(PortNumberSet(raw))
        } else {
            None
        }
    }

    /// How many port numbers there are.
    pub fn len(&self) -> (r: usize)
        ensures
            r == self@.len(),
            r <= MAX_PORTS,
    {
        proof {
            use_type_invariant(self);
        }
        self.0[0] as usize
    }

    /// The port number at `index`, counted from the root hub.
    pub fn get(&self, index: usize) -> (r: Option<u8>)
        ensures
            r == if index < self@.len() {
                Some(self@[index as int])
            } else {
                None
            },
    {
        proof {
            use_type_invariant(self);
        }
        if index < self.len() {
            Some(self.0[index + 1])
        } else {
            None
        }
    }

    /// A walk over the port numbers, from the root hub on.
    pub fn into_iter(self) -> (r: PortNumberIter)
        ensures
            r.ports() == self,
            r.position() == 0,
    {
        PortNumberIter(self, 0)
    }
}

/// A walk over port numbers.
pub struct PortNumberIter(PortNumberSet, usize);

impl PortNumberIter {
    /// What is walked over.
    pub closed spec fn ports(self) -> PortNumberSet {
        self.0
    }

    /// How many numbers the walk has handed out.
    pub closed spec fn position(self) -> nat {
        self.1 as nat
    }

    /// The next port number, or `None` after the last.
    pub fn next(&mut self) -> (r: Option<u8>)
        ensures
            final(self).ports() == old(self).ports(),
            r == if old(self).position() < old(self).ports()@.len() {
                Some(old(self).ports()@[old(self).position() as int])
            } else {
                None
            },
            final(self).position() == if old(self).position() < old(self).ports()@.len() {
                old(self).position() + 1
            } else {
                old(self).position()
            },
    {
        let count = self.0.len();
        match self.0.get(self.1) {
            Some(port) => {
                assert(self.1 < count);
                self.1 = self.1 + 1;
                Some(port)
            },
            None => None,
        }
    }
}

} // verus!
