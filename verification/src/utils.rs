//! Mapping from a native address-family code to the typed enumeration.

use vstd::prelude::*;
use crate::types::AddressFamily;

verus! {

/// The native code for the IPv4 family.
pub const AF_INET: i32 = 2;

/// The native code for the IPv6 family.
pub const AF_INET6: i32 = 10;

/// The typed family a native family code stands for, if any.
pub open spec fn spec_address_family(family: int) -> Option<AddressFamily> {
    if family == AF_INET as int {
        Some(AddressFamily::INET)
    } else if family == AF_INET6 as int {
        Some(AddressFamily::INET6)
    } else {
        None
    }
}

/// Maps a native address-family code to the typed enumeration; codes for
/// families the engine does not resolve to map to `None`.
pub fn address_family(family: i32) -> (r: Option<AddressFamily>)
    ensures
        r == spec_address_family(family as int),
{
    if family == AF_INET {
        Some(AddressFamily::INET)
    } else if family == AF_INET6 {
        Some(AddressFamily::INET6)
    } else {
        None
    }
}

} // verus!
