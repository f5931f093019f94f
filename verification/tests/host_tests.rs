use c_ares::error::{AresError, LookupFailure};
use c_ares::host::get_host_callback;
use c_ares::hostent::{read_address, read_addresses, read_ipv4, read_ipv6, Hostent};
use c_ares::types::{AddressFamily, IpAddress, Ipv4Address, Ipv6Address};

fn entry() -> Hostent {
    Hostent {
        name: b"example.com\0".to_vec(),
        family: Some(AddressFamily::INET),
        aliases: vec![b"www.example.com\0".to_vec(), b"web.example.com\0".to_vec()],
        addr_list: vec![vec![93, 184, 216, 34], vec![93, 184, 216, 35]],
    }
}

#[test]
fn a_host_entry_is_read_whole() {
    let host = get_host_callback(0, Some(entry())).unwrap();
    assert_eq!(host.hostname(), "example.com");
    assert_eq!(
        host.addresses(),
        &[
            IpAddress::V4(Ipv4Address { octets: [93, 184, 216, 34] }),
            IpAddress::V4(Ipv4Address { octets: [93, 184, 216, 35] }),
        ][..]
    );
    assert_eq!(
        host.aliases(),
        &["www.example.com".to_string(), "web.example.com".to_string()][..]
    );
}

#[test]
fn a_failed_host_lookup_gives_its_failure() {
    assert_eq!(
        get_host_callback(4, None).err(),
        Some(AresError::Lookup(LookupFailure::NoSuchName))
    );
    assert_eq!(
        get_host_callback(11, Some(entry())).err(),
        Some(AresError::Lookup(LookupFailure::ConnectionRefused))
    );
}

#[test]
fn a_success_without_an_entry_is_no_data() {
    assert_eq!(get_host_callback(0, None).err(), Some(AresError::Lookup(LookupFailure::NoData)));
}

#[test]
fn a_name_that_is_not_utf8_fails_the_entry() {
    let mut hostent = entry();
    hostent.name = vec![0xff, 0];
    assert_eq!(get_host_callback(0, Some(hostent)).err(), Some(AresError::ParseFailure));
    let mut hostent = entry();
    hostent.aliases = vec![b"fine\0".to_vec(), vec![0xe2, 0x82]];
    assert_eq!(get_host_callback(0, Some(hostent)).err(), Some(AresError::ParseFailure));
}

#[test]
fn ipv6_entries_are_read_as_ipv6() {
    let mut hostent = entry();
    hostent.family = Some(AddressFamily::INET6);
    hostent.addr_list = vec![vec![0x20, 0x01, 0x0d, 0xb8, 0, 0, 0, 0, 0, 0, 0, 0, 0, 0, 0xab, 0xcd]];
    let host = get_host_callback(0, Some(hostent)).unwrap();
    assert_eq!(
        host.addresses(),
        &[IpAddress::V6(Ipv6Address { segments: [0x2001, 0x0db8, 0, 0, 0, 0, 0, 0xabcd] })][..]
    );
}

#[test]
fn addresses_end_at_the_first_entry_of_another_family() {
    let list: Vec<Vec<u8>> = vec![vec![1, 1, 1, 1], vec![2; 16], vec![3, 3, 3, 3]];
    assert_eq!(
        read_addresses(Some(AddressFamily::INET), &list),
        vec![IpAddress::V4(Ipv4Address { octets: [1, 1, 1, 1] })]
    );
    assert_eq!(read_addresses(Some(AddressFamily::INET6), &list), Vec::<IpAddress>::new());
}

#[test]
fn an_unknown_family_has_no_addresses() {
    let list: Vec<Vec<u8>> = vec![vec![1, 1, 1, 1], vec![2; 16]];
    assert_eq!(read_addresses(None, &list), Vec::<IpAddress>::new());
    assert_eq!(read_addresses(Some(AddressFamily::UNSPEC), &list), Vec::<IpAddress>::new());
    let mut hostent = entry();
    hostent.family = None;
    let host = get_host_callback(0, Some(hostent)).unwrap();
    assert_eq!(host.addresses(), &[][..]);
    assert_eq!(host.hostname(), "example.com");
}

#[test]
fn an_entry_without_aliases_or_addresses_is_fine() {
    let hostent = Hostent {
        name: b"lonely".to_vec(),
        family: Some(AddressFamily::INET),
        aliases: Vec::new(),
        addr_list: Vec::new(),
    };
    let host = get_host_callback(0, Some(hostent)).unwrap();
    assert_eq!(host.hostname(), "lonely");
    assert_eq!(host.addresses().len(), 0);
    assert_eq!(host.aliases().len(), 0);
}

#[test]
fn single_entries_are_read_by_length() {
    assert_eq!(read_ipv4(&[127, 0, 0, 1]), Some(Ipv4Address { octets: [127, 0, 0, 1] }));
    assert_eq!(read_ipv4(&[127, 0, 0]), None);
    assert_eq!(read_ipv4(&[127, 0, 0, 1, 0]), None);
    assert_eq!(read_ipv6(&[0xff; 16]), Some(Ipv6Address { segments: [0xffff; 8] }));
    assert_eq!(read_ipv6(&[0xff; 15]), None);
    assert_eq!(
        read_address(Some(AddressFamily::INET), &[8, 8, 4, 4]),
        Some(IpAddress::V4(Ipv4Address { octets: [8, 8, 4, 4] }))
    );
    assert_eq!(read_address(Some(AddressFamily::INET6), &[8, 8, 4, 4]), None);
    assert_eq!(read_address(Some(AddressFamily::UNSPEC), &[8, 8, 4, 4]), None);
}
