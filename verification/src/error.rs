//! The closed set of errors a query can complete with, mirroring the
//! resolution engine's native status codes one to one.

use vstd::prelude::*;

verus! {

/// One error per native engine status code, plus `UNKNOWN` for any code
/// outside the documented range and `EENCODING` for name data that is not
/// valid text at the embedding boundary.
#[derive(Clone, Copy, Debug, PartialEq, Eq, Structural)]
pub enum AresError {
    ENODATA,
    EFORMERR,
    ESERVFAIL,
    ENOTFOUND,
    ENOTIMP,
    EREFUSED,
    EBADQUERY,
    EBADNAME,
    EBADFAMILY,
    EBADRESP,
    ECONNREFUSED,
    ETIMEOUT,
    EOF,
    EFILE,
    ENOMEM,
    EDESTRUCTION,
    EBADSTR,
    EBADFLAGS,
    ENONAME,
    EBADHINTS,
    ENOTINITIALIZED,
    ELOADIPHLPAPI,
    EADDRGETNETWORKPARAMS,
    ECANCELLED,
    EENCODING,
    UNKNOWN,
}

/// The engine status code that reports success; every other code maps to an
/// `AresError`.
pub const ARES_SUCCESS: i32 = 0;

/// The error that a native engine status code stands for.
pub open spec fn spec_error_of_status(status: int) -> AresError {
    if status == 1 { AresError::ENODATA }
    else if status == 2 { AresError::EFORMERR }
    else if status == 3 { AresError::ESERVFAIL }
    else if status == 4 { AresError::ENOTFOUND }
    else if status == 5 { AresError::ENOTIMP }
    else if status == 6 { AresError::EREFUSED }
    else if status == 7 { AresError::EBADQUERY }
    else if status == 8 { AresError::EBADNAME }
    else if status == 9 { AresError::EBADFAMILY }
    else if status == 10 { AresError::EBADRESP }
    else if status == 11 { AresError::ECONNREFUSED }
    else if status == 12 { AresError::ETIMEOUT }
    else if status == 13 { AresError::EOF }
    else if status == 14 { AresError::EFILE }
    else if status == 15 { AresError::ENOMEM }
    else if status == 16 { AresError::EDESTRUCTION }
    else if status == 17 { AresError::EBADSTR }
    else if status == 18 { AresError::EBADFLAGS }
    else if status == 19 { AresError::ENONAME }
    else if status == 20 { AresError::EBADHINTS }
    else if status == 21 { AresError::ENOTINITIALIZED }
    else if status == 22 { AresError::ELOADIPHLPAPI }
    else if status == 23 { AresError::EADDRGETNETWORKPARAMS }
    else if status == 24 { AresError::ECANCELLED }
    else { AresError::UNKNOWN }
}

impl AresError {
    /// Maps a native engine status code to its error.
    pub fn from_status(status: i32) -> (e: AresError)
        ensures
            e == spec_error_of_status(status as int),
    {
        if status == 1 { AresError::ENODATA }
        else if status == 2 { AresError::EFORMERR }
        else if status == 3 { AresError::ESERVFAIL }
        else if status == 4 { AresError::ENOTFOUND }
        else if status == 5 { AresError::ENOTIMP }
        else if status == 6 { AresError::EREFUSED }
        else if status == 7 { AresError::EBADQUERY }
        else if status == 8 { AresError::EBADNAME }
        else if status == 9 { AresError::EBADFAMILY }
        else if status == 10 { AresError::EBADRESP }
        else if status == 11 { AresError::ECONNREFUSED }
        else if status == 12 { AresError::ETIMEOUT }
        else if status == 13 { AresError::EOF }
        else if status == 14 { AresError::EFILE }
        else if status == 15 { AresError::ENOMEM }
        else if status == 16 { AresError::EDESTRUCTION }
        else if status == 17 { AresError::EBADSTR }
        else if status == 18 { AresError::EBADFLAGS }
        else if status == 19 { AresError::ENONAME }
        else if status == 20 { AresError::EBADHINTS }
        else if status == 21 { AresError::ENOTINITIALIZED }
        else if status == 22 { AresError::ELOADIPHLPAPI }
        else if status == 23 { AresError::EADDRGETNETWORKPARAMS }
        else if status == 24 { AresError::ECANCELLED }
        else { AresError::UNKNOWN }
    }
}

} // verus!
