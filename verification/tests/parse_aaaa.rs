use c_ares::aaaa::AAAAResults;
use c_ares::aaaa::query_aaaa_callback;
use c_ares::error::AresError;

fn push16(buf: &mut Vec<u8>, v: u16) {
    buf.push((v >> 8) as u8);
    buf.push((v & 0xff) as u8);
}

fn push32(buf: &mut Vec<u8>, v: u32) {
    buf.push((v >> 24) as u8);
    buf.push((v >> 16) as u8);
    buf.push((v >> 8) as u8);
    buf.push((v & 0xff) as u8);
}

fn answer_header(buf: &mut Vec<u8>, ancount: u16) {
    push16(buf, 0);
    push16(buf, 0x8180);
    push16(buf, 1);
    push16(buf, ancount);
    push16(buf, 0);
    push16(buf, 0);
    buf.push(7);
    buf.extend_from_slice(b"example");
    buf.push(3);
    buf.extend_from_slice(b"com");
    buf.push(0);
    push16(buf, 28);
    push16(buf, 1);
}

fn aaaa_record(buf: &mut Vec<u8>, ip: [u8; 16], ttl: u32) {
    push16(buf, 0xC00C);
    push16(buf, 28); // type AAAA
    push16(buf, 1);
    push32(buf, ttl);
    push16(buf, 16);
    buf.extend_from_slice(&ip);
}

#[test]
fn single_aaaa_record() {
    let ip = [0x20, 0x01, 0x0d, 0xb8, 0, 0, 0, 0, 0, 0, 0, 0, 0, 0, 0, 0x01];
    let mut buf = Vec::new();
    answer_header(&mut buf, 1);
    aaaa_record(&mut buf, ip, 3600);
    let results = AAAAResults::parse_from(&buf).unwrap();
    assert_eq!(results.records.len(), 1);
    assert_eq!(results.records[0].ipv6().octets, ip);
    assert_eq!(results.records[0].ttl(), 3600);
}

#[test]
fn aaaa_records_in_wire_order() {
    let mut buf = Vec::new();
    answer_header(&mut buf, 2);
    let mut ip1 = [0u8; 16];
    ip1[15] = 1;
    let mut ip2 = [0u8; 16];
    ip2[15] = 2;
    aaaa_record(&mut buf, ip1, 10);
    aaaa_record(&mut buf, ip2, 20);
    let results = AAAAResults::parse_from(&buf).unwrap();
    assert_eq!(results.records.len(), 2);
    assert_eq!(results.records[0].ipv6().octets, ip1);
    assert_eq!(results.records[0].ttl(), 10);
    assert_eq!(results.records[1].ipv6().octets, ip2);
    assert_eq!(results.records[1].ttl(), 20);
}

#[test]
fn aaaa_records_capped_at_fixed_capacity() {
    let mut buf = Vec::new();
    answer_header(&mut buf, 35);
    for k in 0..35u8 {
        let mut ip = [0u8; 16];
        ip[15] = k;
        aaaa_record(&mut buf, ip, 300);
    }
    let results = AAAAResults::parse_from(&buf).unwrap();
    assert_eq!(results.records.len(), 32);
    for (k, r) in results.records.iter().enumerate() {
        assert_eq!(r.ipv6().octets[15], k as u8);
    }
}

#[test]
fn aaaa_iter_stops_after_records() {
    let mut buf = Vec::new();
    answer_header(&mut buf, 1);
    aaaa_record(&mut buf, [9; 16], 7);
    let results = AAAAResults::parse_from(&buf).unwrap();
    let mut it = results.iter();
    let first = it.next().unwrap();
    assert_eq!(first.ipv6().octets, [9; 16]);
    assert_eq!(first.ttl(), 7);
    assert!(it.next().is_none());
}

#[test]
fn aaaa_answer_without_records_is_no_data() {
    let mut buf = Vec::new();
    answer_header(&mut buf, 0);
    match AAAAResults::parse_from(&buf) {
        Err(e) => assert_eq!(e, AresError::ENODATA),
        Ok(_) => panic!("empty answer accepted"),
    }
}

#[test]
fn aaaa_truncated_buffer_is_bad_response() {
    let mut buf = Vec::new();
    answer_header(&mut buf, 2);
    aaaa_record(&mut buf, [1; 16], 300);
    // second record promised but absent
    match AAAAResults::parse_from(&buf) {
        Err(e) => assert_eq!(e, AresError::EBADRESP),
        Ok(_) => panic!("truncated buffer accepted"),
    }
}

#[test]
fn aaaa_callback_error_status_maps_to_error() {
    match query_aaaa_callback(4, &[]) {
        Err(e) => assert_eq!(e, AresError::ENOTFOUND),
        Ok(_) => panic!("error status accepted"),
    }
}
