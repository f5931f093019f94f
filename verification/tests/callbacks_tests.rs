use c_ares::callbacks::{query_a_callback, query_aaaa_callback, socket_callback};
use c_ares::channel::EngineEvent;
use c_ares::error::{AresError, LookupFailure};
use c_ares::types::{AAAAResult, AResult, Ipv4Address, Ipv6Address};

#[test]
fn a_addresses_come_in_the_order_of_the_engine() {
    let list: Vec<Vec<u8>> = vec![vec![93, 184, 216, 34], vec![10, 0, 0, 1], vec![192, 0, 2, 7]];
    assert_eq!(
        query_a_callback(0, 0, &list),
        Ok(AResult {
            ip_addrs: vec![
                Ipv4Address { octets: [93, 184, 216, 34] },
                Ipv4Address { octets: [10, 0, 0, 1] },
                Ipv4Address { octets: [192, 0, 2, 7] },
            ],
        })
    );
}

#[test]
fn a_list_ends_at_its_first_entry_that_is_no_address() {
    let list: Vec<Vec<u8>> = vec![vec![1, 2, 3, 4], vec![], vec![5, 6, 7, 8]];
    assert_eq!(
        query_a_callback(0, 0, &list),
        Ok(AResult { ip_addrs: vec![Ipv4Address { octets: [1, 2, 3, 4] }] })
    );
    let list: Vec<Vec<u8>> = vec![vec![1, 2, 3]];
    assert_eq!(query_a_callback(0, 0, &list), Ok(AResult { ip_addrs: vec![] }));
}

#[test]
fn a_failed_query_gives_its_failure() {
    let list: Vec<Vec<u8>> = vec![vec![1, 2, 3, 4]];
    assert_eq!(query_a_callback(4, 0, &list), Err(AresError::Lookup(LookupFailure::NoSuchName)));
    assert_eq!(query_a_callback(12, 10, &list), Err(AresError::Lookup(LookupFailure::Timeout)));
    assert_eq!(query_aaaa_callback(3, 0, &list), Err(AresError::Lookup(LookupFailure::ServerFailure)));
}

#[test]
fn a_failed_parse_gives_its_failure() {
    let list: Vec<Vec<u8>> = Vec::new();
    assert_eq!(query_a_callback(0, 10, &list), Err(AresError::ParseFailure));
    assert_eq!(query_a_callback(0, 1, &list), Err(AresError::Lookup(LookupFailure::NoData)));
    assert_eq!(query_aaaa_callback(0, 10, &list), Err(AresError::ParseFailure));
}

#[test]
fn aaaa_addresses_are_read_segment_by_segment() {
    let list: Vec<Vec<u8>> = vec![
        vec![0x20, 0x01, 0x0d, 0xb8, 0, 0, 0, 0, 0, 0, 0, 0, 0, 0, 0, 1],
        vec![0xfe, 0x80, 0, 0, 0, 0, 0, 0, 0x02, 0x00, 0x5e, 0xff, 0xfe, 0x00, 0x53, 0x01],
    ];
    assert_eq!(
        query_aaaa_callback(0, 0, &list),
        Ok(AAAAResult {
            ip_addrs: vec![
                Ipv6Address { segments: [0x2001, 0x0db8, 0, 0, 0, 0, 0, 1] },
                Ipv6Address { segments: [0xfe80, 0, 0, 0, 0x0200, 0x5eff, 0xfe00, 0x5301] },
            ],
        })
    );
}

#[test]
fn aaaa_list_ends_at_an_entry_of_another_length() {
    let list: Vec<Vec<u8>> = vec![vec![0; 16], vec![1, 2, 3, 4], vec![0; 16]];
    assert_eq!(
        query_aaaa_callback(0, 0, &list),
        Ok(AAAAResult { ip_addrs: vec![Ipv6Address { segments: [0; 8] }] })
    );
}

#[test]
fn socket_reports_are_handed_on() {
    assert_eq!(
        socket_callback(7, 0, 0),
        EngineEvent::SocketState { fd: 7, readable: false, writable: false }
    );
    assert_eq!(
        socket_callback(9, 1, 0),
        EngineEvent::SocketState { fd: 9, readable: true, writable: false }
    );
    assert_eq!(
        socket_callback(-1, 0, 5),
        EngineEvent::SocketState { fd: -1, readable: false, writable: true }
    );
}
