use c_ares::error::{ARES_SUCCESS, AresError};
use c_ares::types::AddressFamily;
use c_ares::utils::{AF_INET, AF_INET6, address_family};

#[test]
fn status_codes_map_one_to_one() {
    assert_eq!(AresError::from_status(1), AresError::ENODATA);
    assert_eq!(AresError::from_status(2), AresError::EFORMERR);
    assert_eq!(AresError::from_status(3), AresError::ESERVFAIL);
    assert_eq!(AresError::from_status(4), AresError::ENOTFOUND);
    assert_eq!(AresError::from_status(5), AresError::ENOTIMP);
    assert_eq!(AresError::from_status(6), AresError::EREFUSED);
    assert_eq!(AresError::from_status(7), AresError::EBADQUERY);
    assert_eq!(AresError::from_status(8), AresError::EBADNAME);
    assert_eq!(AresError::from_status(9), AresError::EBADFAMILY);
    assert_eq!(AresError::from_status(10), AresError::EBADRESP);
    assert_eq!(AresError::from_status(11), AresError::ECONNREFUSED);
    assert_eq!(AresError::from_status(12), AresError::ETIMEOUT);
    assert_eq!(AresError::from_status(13), AresError::EOF);
    assert_eq!(AresError::from_status(14), AresError::EFILE);
    assert_eq!(AresError::from_status(15), AresError::ENOMEM);
    assert_eq!(AresError::from_status(16), AresError::EDESTRUCTION);
    assert_eq!(AresError::from_status(17), AresError::EBADSTR);
    assert_eq!(AresError::from_status(18), AresError::EBADFLAGS);
    assert_eq!(AresError::from_status(19), AresError::ENONAME);
    assert_eq!(AresError::from_status(20), AresError::EBADHINTS);
    assert_eq!(AresError::from_status(21), AresError::ENOTINITIALIZED);
    assert_eq!(AresError::from_status(22), AresError::ELOADIPHLPAPI);
    assert_eq!(AresError::from_status(23), AresError::EADDRGETNETWORKPARAMS);
    assert_eq!(AresError::from_status(24), AresError::ECANCELLED);
}

#[test]
fn out_of_range_status_is_unknown() {
    assert_eq!(AresError::from_status(ARES_SUCCESS), AresError::UNKNOWN);
    assert_eq!(AresError::from_status(25), AresError::UNKNOWN);
    assert_eq!(AresError::from_status(-1), AresError::UNKNOWN);
    assert_eq!(AresError::from_status(i32::MAX), AresError::UNKNOWN);
}

#[test]
fn address_family_codes_map_to_typed_families() {
    assert_eq!(address_family(AF_INET), Some(AddressFamily::INET));
    assert_eq!(address_family(AF_INET6), Some(AddressFamily::INET6));
    assert_eq!(address_family(0), None);
    assert_eq!(address_family(23), None);
}

#[test]
fn family_widths() {
    assert_eq!(AddressFamily::INET.width(), 4);
    assert_eq!(AddressFamily::INET6.width(), 16);
}
