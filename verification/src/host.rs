//! Results of a whole host lookup, delivered as a borrowed host entry.

use vstd::prelude::*;
use crate::error::{ARES_SUCCESS, AresError};
use crate::error::spec_error_of_status;
use crate::hostent::{
    HasHostent,
    HostAddressResultsIter,
    HostAliasResultsIter,
    Hostent,
    HostentBorrowed,
};

verus! {

/// The result of a successful host lookup. It borrows entry data owned by
/// the engine for the duration of one callback, so it cannot outlive the
/// callback's scope.
#[derive(Clone, Copy, Debug)]
pub struct HostResults<'a> {
    pub hostent: HostentBorrowed<'a>,
}

impl<'a> HostResults<'a> {
    /// The entry data these results expose.
    pub open spec fn hview(self) -> Hostent {
        *self.hostent.inner
    }

    fn new(hostent: &'a Hostent) -> (r: HostResults<'a>)
        ensures
            r.hview() == *hostent,
    {
        HostResults { hostent: HostentBorrowed::new(hostent) }
    }

    /// Returns the hostname from this `HostResults`.
    pub fn hostname(&self) -> (n: &str)
        ensures
            n@ == self.hview().name@,
    {
        self.hostent.hostname()
    }

    /// Returns an iterator over the `IpAddress` values in this
    /// `HostResults`.
    pub fn addresses(&self) -> (it: HostAddressResultsIter<'_>)
        requires
            self.hview().wf(),
        ensures
            it.wf(),
            it.family == self.hview().spec_family(),
            it.remaining() == self.hview().spec_addresses(),
    {
        self.hostent.addresses()
    }

    /// Returns an iterator over the host aliases in this `HostResults`.
    pub fn aliases(&self) -> (it: HostAliasResultsIter<'_>)
        requires
            self.hview().wf(),
        ensures
            it.remaining() == self.hview().spec_aliases(),
    {
        self.hostent.aliases()
    }
}

/// The completion decision for a host lookup: a success status wraps the
/// entry the engine delivered, any other status maps to its error. The
/// engine hands an entry whenever it reports success.
pub fn get_host_callback<'a>(status: i32, hostent: Option<&'a Hostent>) -> (r: Result<
    HostResults<'a>,
    AresError,
>)
    requires
        status == ARES_SUCCESS ==> hostent is Some,
    ensures
        status == ARES_SUCCESS ==> (r matches Ok(h) && h.hview() == *hostent.unwrap()),
        status != ARES_SUCCESS ==> r == Err::<HostResults<'a>, AresError>(
            spec_error_of_status(status as int),
        ),
{
    if status == ARES_SUCCESS {
        match hostent {
            Some(h) => Ok(HostResults::new(h)),
            None => {
                proof {
                    assert(false);
                }
                Err(AresError::EBADRESP)
            },
        }
    } else {
        Err(AresError::from_status(status))
    }
}

} // verus!
