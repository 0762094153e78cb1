use c_ares::hostent::{HasHostent, Hostent, HostentBorrowed, HostentOwned};
use c_ares::host::get_host_callback;
use c_ares::error::AresError;
use c_ares::types::{IpAddress, Ipv4Address, Ipv6Address};

fn sample_v4_entry() -> Hostent {
    Hostent {
        name: String::from("example.com"),
        addrtype: 2,
        addr_list: vec![
            Some(vec![93, 184, 216, 34]),
            Some(vec![10, 0, 0, 7]),
            None,
            // past the sentinel: must never be read
            Some(vec![99, 99, 99, 99]),
        ],
        alias_list: vec![
            Some(String::from("www.example.com")),
            Some(String::from("w2.example.com")),
            None,
        ],
    }
}

#[test]
fn owned_and_borrowed_read_identically() {
    let data = sample_v4_entry();
    let borrowed = HostentBorrowed::new(&data);
    let b_host = borrowed.hostname().to_string();
    let b_addrs = borrowed.addresses().to_vec();
    let b_aliases: Vec<String> = borrowed.aliases().to_vec().iter().map(|s| s.to_string()).collect();
    let owned = HostentOwned::new(sample_v4_entry());
    assert_eq!(owned.hostname(), b_host);
    assert_eq!(owned.addresses().to_vec(), b_addrs);
    let o_aliases: Vec<String> = owned.aliases().to_vec().iter().map(|s| s.to_string()).collect();
    assert_eq!(o_aliases, b_aliases);
}

#[test]
fn address_iterator_stops_at_sentinel() {
    let data = sample_v4_entry();
    let entry = HostentBorrowed::new(&data);
    let mut it = entry.addresses();
    assert_eq!(
        it.next(),
        Some(IpAddress::V4(Ipv4Address { octets: [93, 184, 216, 34] }))
    );
    assert_eq!(it.next(), Some(IpAddress::V4(Ipv4Address { octets: [10, 0, 0, 7] })));
    // the sentinel ends the sequence permanently; the entry past it is
    // never yielded
    assert_eq!(it.next(), None);
    assert_eq!(it.next(), None);
}

#[test]
fn alias_iterator_stops_at_sentinel() {
    let data = sample_v4_entry();
    let entry = HostentBorrowed::new(&data);
    let mut it = entry.aliases();
    assert_eq!(it.next(), Some("www.example.com"));
    assert_eq!(it.next(), Some("w2.example.com"));
    assert_eq!(it.next(), None);
    assert_eq!(it.next(), None);
}

#[test]
fn iterators_rederive_from_the_entry() {
    let data = sample_v4_entry();
    let entry = HostentOwned::new(data);
    let first = entry.addresses().to_vec();
    let second = entry.addresses().to_vec();
    assert_eq!(first, second);
    assert_eq!(first.len(), 2);
}

#[test]
fn ipv6_entry_yields_v6_addresses() {
    let ip = [0x20, 0x01, 0x0d, 0xb8, 0, 0, 0, 0, 0, 0, 0, 0, 0, 0, 0, 1];
    let data = Hostent {
        name: String::from("example.com"),
        addrtype: 10,
        addr_list: vec![Some(ip.to_vec()), None],
        alias_list: vec![None],
    };
    let entry = HostentBorrowed::new(&data);
    let addrs = entry.addresses().to_vec();
    assert_eq!(addrs, vec![IpAddress::V6(Ipv6Address { octets: ip })]);
    assert!(entry.aliases().to_vec().is_empty());
}

#[test]
fn unknown_family_yields_no_addresses() {
    let data = Hostent {
        name: String::from("example.com"),
        addrtype: 999,
        addr_list: vec![Some(vec![1, 2, 3, 4]), None],
        alias_list: vec![None],
    };
    let entry = HostentBorrowed::new(&data);
    assert!(entry.addresses().to_vec().is_empty());
}

#[test]
fn host_callback_success_wraps_entry() {
    let data = sample_v4_entry();
    let results = get_host_callback(0, Some(&data)).unwrap();
    assert_eq!(results.hostname(), "example.com");
    let addrs = results.addresses().to_vec();
    assert_eq!(addrs.len(), 2);
    assert_eq!(addrs[0], IpAddress::V4(Ipv4Address { octets: [93, 184, 216, 34] }));
    let aliases = results.aliases().to_vec();
    assert_eq!(aliases, vec!["www.example.com", "w2.example.com"]);
}

#[test]
fn host_callback_error_status_maps_to_error() {
    match get_host_callback(4, None) {
        Err(e) => assert_eq!(e, AresError::ENOTFOUND),
        Ok(_) => panic!("error status accepted"),
    }
}
