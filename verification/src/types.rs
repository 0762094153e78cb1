//! Core value types: address families, typed IP addresses, and the fixed
//! capacity shared by every decoded record set.

use vstd::prelude::*;

verus! {

/// The largest number of records a decoded record set keeps; answers with
/// more records are truncated to this many, never overflowing.
pub const MAX_ADDRTTLS: usize = 32;

/// The address families the engine resolves to.
#[derive(Clone, Copy, Debug, PartialEq, Eq, Structural)]
pub enum AddressFamily {
    INET,
    INET6,
}

impl AddressFamily {
    /// The number of raw bytes one address of this family occupies.
    pub open spec fn spec_width(self) -> int {
        match self {
            AddressFamily::INET => 4,
            AddressFamily::INET6 => 16,
        }
    }

    /// Executable counterpart of [`AddressFamily::spec_width`].
    pub fn width(self) -> (w: usize)
        ensures
            w as int == self.spec_width(),
    {
        match self {
            AddressFamily::INET => 4,
            AddressFamily::INET6 => 16,
        }
    }
}

/// An IPv4 address held as its four raw octets.
#[derive(Clone, Copy, Debug, PartialEq, Eq)]
pub struct Ipv4Address {
    pub octets: [u8; 4],
}

/// An IPv6 address held as its sixteen raw octets.
#[derive(Clone, Copy, Debug, PartialEq, Eq)]
pub struct Ipv6Address {
    pub octets: [u8; 16],
}

/// An address of either family.
#[derive(Clone, Copy, Debug, PartialEq, Eq)]
pub enum IpAddress {
    V4(Ipv4Address),
    V6(Ipv6Address),
}

impl IpAddress {
    /// The raw octets of the address, whatever its family.
    pub open spec fn spec_octets(self) -> Seq<u8> {
        match self {
            IpAddress::V4(a) => a.octets@,
            IpAddress::V6(a) => a.octets@,
        }
    }
}

} // verus!
