use c_ares::a::AResults;
use c_ares::a::query_a_callback;
use c_ares::error::AresError;
use c_ares::types::Ipv4Address;

fn push16(buf: &mut Vec<u8>, v: u16) {
    buf.push((v >> 8) as u8);
    buf.push((v & 0xff) as u8);
}

fn push32(buf: &mut Vec<u8>, v: u32) {
    buf.push((v >> 24) as u8);
    buf.push((v >> 16) as u8);
    buf.push((v >> 8) as u8);
    buf.push((v & 0xff) as u8);
}

fn answer_header(buf: &mut Vec<u8>, ancount: u16) {
    push16(buf, 0); // id
    push16(buf, 0x8180); // flags: response, recursion
    push16(buf, 1); // one question
    push16(buf, ancount);
    push16(buf, 0);
    push16(buf, 0);
    // question: example.com, type A, class IN
    buf.push(7);
    buf.extend_from_slice(b"example");
    buf.push(3);
    buf.extend_from_slice(b"com");
    buf.push(0);
    push16(buf, 1);
    push16(buf, 1);
}

fn a_record(buf: &mut Vec<u8>, ip: [u8; 4], ttl: u32) {
    push16(buf, 0xC00C); // name: pointer to the question name
    push16(buf, 1); // type A
    push16(buf, 1); // class IN
    push32(buf, ttl);
    push16(buf, 4);
    buf.extend_from_slice(&ip);
}

#[test]
fn single_a_record() {
    let mut buf = Vec::new();
    answer_header(&mut buf, 1);
    a_record(&mut buf, [93, 184, 216, 34], 300);
    let results = AResults::parse_from(&buf).unwrap();
    assert_eq!(results.records.len(), 1);
    let r = &results.records[0];
    assert_eq!(r.ipv4(), Ipv4Address { octets: [93, 184, 216, 34] });
    assert_eq!(r.ttl(), 300);
}

#[test]
fn a_records_in_wire_order() {
    let mut buf = Vec::new();
    answer_header(&mut buf, 3);
    a_record(&mut buf, [10, 0, 0, 1], 60);
    a_record(&mut buf, [10, 0, 0, 2], 120);
    a_record(&mut buf, [10, 0, 0, 3], 180);
    let results = AResults::parse_from(&buf).unwrap();
    assert_eq!(results.records.len(), 3);
    for (k, r) in results.records.iter().enumerate() {
        assert_eq!(r.ipv4().octets, [10, 0, 0, (k + 1) as u8]);
        assert_eq!(r.ttl(), 60 * (k as u32 + 1));
    }
}

#[test]
fn a_records_capped_at_fixed_capacity() {
    let mut buf = Vec::new();
    answer_header(&mut buf, 40);
    for k in 0..40u8 {
        a_record(&mut buf, [10, 0, 0, k], 300);
    }
    let results = AResults::parse_from(&buf).unwrap();
    assert_eq!(results.records.len(), 32);
    // the kept records are the first thirty-two, in wire order
    for (k, r) in results.records.iter().enumerate() {
        assert_eq!(r.ipv4().octets, [10, 0, 0, k as u8]);
    }
}

#[test]
fn a_iter_yields_all_records_then_stops() {
    let mut buf = Vec::new();
    answer_header(&mut buf, 2);
    a_record(&mut buf, [1, 1, 1, 1], 5);
    a_record(&mut buf, [2, 2, 2, 2], 6);
    let results = AResults::parse_from(&buf).unwrap();
    let mut it = results.iter();
    assert_eq!(it.next().unwrap().ipv4().octets, [1, 1, 1, 1]);
    assert_eq!(it.next().unwrap().ipv4().octets, [2, 2, 2, 2]);
    assert!(it.next().is_none());
    assert!(it.next().is_none());
}

#[test]
fn truncated_buffer_is_bad_response() {
    let mut buf = Vec::new();
    answer_header(&mut buf, 1);
    a_record(&mut buf, [1, 2, 3, 4], 300);
    buf.pop(); // cut the last rdata byte
    match AResults::parse_from(&buf) {
        Err(e) => assert_eq!(e, AresError::EBADRESP),
        Ok(_) => panic!("truncated buffer accepted"),
    }
}

#[test]
fn short_header_is_bad_response() {
    let buf = vec![0u8; 11];
    match AResults::parse_from(&buf) {
        Err(e) => assert_eq!(e, AresError::EBADRESP),
        Ok(_) => panic!("short buffer accepted"),
    }
}

#[test]
fn wrong_rdata_length_is_bad_response() {
    let mut buf = Vec::new();
    answer_header(&mut buf, 1);
    push16(&mut buf, 0xC00C);
    push16(&mut buf, 1);
    push16(&mut buf, 1);
    push32(&mut buf, 300);
    push16(&mut buf, 5); // an A record with five bytes of data
    buf.extend_from_slice(&[1, 2, 3, 4, 5]);
    match AResults::parse_from(&buf) {
        Err(e) => assert_eq!(e, AresError::EBADRESP),
        Ok(_) => panic!("bad rdata length accepted"),
    }
}

#[test]
fn answer_without_a_records_is_no_data() {
    let mut buf = Vec::new();
    answer_header(&mut buf, 1);
    // a AAAA record in an A answer
    push16(&mut buf, 0xC00C);
    push16(&mut buf, 28);
    push16(&mut buf, 1);
    push32(&mut buf, 300);
    push16(&mut buf, 16);
    buf.extend_from_slice(&[0; 16]);
    match AResults::parse_from(&buf) {
        Err(e) => assert_eq!(e, AresError::ENODATA),
        Ok(_) => panic!("empty record set accepted"),
    }
}

#[test]
fn a_callback_error_status_maps_to_error() {
    match query_a_callback(12, &[]) {
        Err(e) => assert_eq!(e, AresError::ETIMEOUT),
        Ok(_) => panic!("error status accepted"),
    }
}

#[test]
fn a_callback_success_status_parses() {
    let mut buf = Vec::new();
    answer_header(&mut buf, 1);
    a_record(&mut buf, [93, 184, 216, 34], 300);
    let results = query_a_callback(0, &buf).unwrap();
    assert_eq!(results.records.len(), 1);
    assert_eq!(results.records[0].ipv4().octets, [93, 184, 216, 34]);
    assert_eq!(results.records[0].ttl(), 300);
}
