use c_ares::a::query_a_callback;
use c_ares::channel::Channel;
use c_ares::error::AresError;

#[test]
fn empty_channel_has_empty_interest_set() {
    let ch = Channel::new();
    assert!(ch.get_sock().is_empty());
}

#[test]
fn interest_set_is_complete_and_read_oriented() {
    let mut ch = Channel::new();
    ch.submit(5);
    ch.submit(9);
    let socks = ch.get_sock();
    assert_eq!(socks.len(), 2);
    assert_eq!(socks[0].fd, 5);
    assert!(socks[0].readable);
    assert!(!socks[0].writable);
    assert_eq!(socks[1].fd, 9);
}

#[test]
fn interest_set_empties_once_queries_complete() {
    let mut ch = Channel::new();
    let id = ch.submit(5);
    assert!(!ch.get_sock().is_empty());
    assert!(ch.complete(id));
    assert!(ch.get_sock().is_empty());
}

#[test]
fn handler_fires_exactly_once() {
    let mut ch = Channel::new();
    let id = ch.submit(3);
    assert!(ch.complete(id));
    // a second delivery for the same query fires nothing
    assert!(!ch.complete(id));
    // an identity never issued fires nothing
    assert!(!ch.complete(id + 1000));
}

#[test]
fn completions_do_not_disturb_other_queries() {
    let mut ch = Channel::new();
    let a = ch.submit(3);
    let b = ch.submit(4);
    let c = ch.submit(5);
    assert!(ch.complete(b));
    assert_eq!(ch.get_sock().len(), 2);
    assert!(ch.complete(a));
    assert!(ch.complete(c));
    assert!(ch.get_sock().is_empty());
}

#[test]
fn destroy_completes_all_pending_with_destruction() {
    let mut ch = Channel::new();
    let a = ch.submit(3);
    let b = ch.submit(4);
    let c = ch.submit(5);
    assert!(ch.complete(b));
    let completions = ch.destroy();
    assert_eq!(completions.len(), 2);
    assert_eq!(completions[0], (a, AresError::EDESTRUCTION));
    assert_eq!(completions[1], (c, AresError::EDESTRUCTION));
    assert!(ch.get_sock().is_empty());
    // nothing fires after teardown
    assert!(!ch.complete(a));
    assert!(!ch.complete(c));
}

#[test]
fn a_query_round_trip_delivers_one_outcome() {
    // submit an A query; the engine answers with one address and the
    // handler fires exactly once with it
    let mut ch = Channel::new();
    let id = ch.submit(6);
    let mut buf: Vec<u8> = vec![
        0, 0, 0x81, 0x80, 0, 1, 0, 1, 0, 0, 0, 0, // header
    ];
    buf.push(7);
    buf.extend_from_slice(b"example");
    buf.push(3);
    buf.extend_from_slice(b"com");
    buf.extend_from_slice(&[0, 0, 1, 0, 1]); // end of question
    buf.extend_from_slice(&[0xC0, 0x0C, 0, 1, 0, 1]); // answer name, type, class
    buf.extend_from_slice(&[0, 0, 1, 44]); // ttl 300
    buf.extend_from_slice(&[0, 4, 93, 184, 216, 34]); // rdlen, address
    assert!(ch.complete(id));
    let results = query_a_callback(0, &buf).unwrap();
    assert_eq!(results.records.len(), 1);
    assert_eq!(results.records[0].ipv4().octets, [93, 184, 216, 34]);
    assert_eq!(results.records[0].ttl(), 300);
    // the engine never fires the same query again
    assert!(!ch.complete(id));
    assert!(ch.get_sock().is_empty());
}

#[test]
fn destroy_of_idle_channel_completes_nothing() {
    let mut ch = Channel::new();
    let id = ch.submit(7);
    assert!(ch.complete(id));
    let completions = ch.destroy();
    assert!(completions.is_empty());
}
