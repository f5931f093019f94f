//! Host entries as the engine hands them over, and the reading of the
//! addresses in them.

use vstd::prelude::*;
use crate::types::{AddressFamily, IpAddress, Ipv4Address, Ipv6Address};
use crate::utils::spec_ipv6_bytes;

verus! {

/// A host entry of the engine in plain values. Each name is the bytes that
/// the engine holds for it and ends at its first zero byte. Each entry of
/// the address list is the bytes of one address in network order; the list
/// ends at its first entry that is not an address of the family.
#[derive(Debug)]
pub struct Hostent {
    pub name: Vec<u8>,
    pub family: Option<AddressFamily>,
    pub aliases: Vec<Vec<u8>>,
    pub addr_list: Vec<Vec<u8>>,
}

/// The bytes of an address in network order.
pub open spec fn address_bytes(address: IpAddress) -> Seq<u8> {
    match address {
        IpAddress::V4(ipv4) => ipv4.octets@,
        IpAddress::V6(ipv6) => spec_ipv6_bytes(ipv6),
    }
}

/// Whether an entry is an address of the family: four bytes for IPv4,
/// sixteen for IPv6, and nothing for any other family.
pub open spec fn readable(family: Option<AddressFamily>, entry: Seq<u8>) -> bool {
    ||| family == Some(AddressFamily::INET) && entry.len() == 4
    ||| family == Some(AddressFamily::INET6) && entry.len() == 16
}

/// Whether `addresses` is what a list of entries holds for a family: the
/// entries up to the first that is not an address of the family, each
/// read as an address of that family, in the order of the list.
pub open spec fn holds_addresses(
    family: Option<AddressFamily>,
    list: Seq<Vec<u8>>,
    addresses: Seq<IpAddress>,
) -> bool {
    &&& addresses.len() <= list.len()
    &&& forall|k: int|
        0 <= k < addresses.len() ==> readable(family, #[trigger] list[k]@) && address_bytes(
            addresses[k],
        ) == list[k]@ && (addresses[k] is V4 <==> family == Some(AddressFamily::INET))
    &&& addresses.len() < list.len() ==> !readable(family, list[addresses.len() as int]@)
}

/// Whether `addresses` is what a list of entries holds of IPv4 addresses.
pub open spec fn holds_ipv4(list: Seq<Vec<u8>>, addresses: Seq<Ipv4Address>) -> bool {
    &&& addresses.len() <= list.len()
    &&& forall|k: int| 0 <= k < addresses.len() ==> addresses[k].octets@ == #[trigger] list[k]@
    &&& forall|k: int| 0 <= k < addresses.len() ==> (#[trigger] list[k]@).len() == 4
    &&& addresses.len() < list.len() ==> list[addresses.len() as int]@.len() != 4
}

/// Whether `addresses` is what a list of entries holds of IPv6 addresses.
pub open spec fn holds_ipv6(list: Seq<Vec<u8>>, addresses: Seq<Ipv6Address>) -> bool {
    &&& addresses.len() <= list.len()
    &&& forall|k: int|
        0 <= k < addresses.len() ==> spec_ipv6_bytes(addresses[k]) == #[trigger] list[k]@
    &&& addresses.len() < list.len() ==> list[addresses.len() as int]@.len() != 16
}

/// Reads an entry as an IPv4 address, if it has the length of one.
pub fn read_ipv4(entry: &[u8]) -> (r: Option<Ipv4Address>)
    ensures
        r is Some <==> entry@.len() == 4,
        r matches Some(ipv4) ==> ipv4.octets@ == entry@,
{
    if entry.len() != 4 {
        return None;
    }
    let ipv4 = Ipv4Address { octets: [entry[0], entry[1], entry[2], entry[3]] };
    assert(ipv4.octets@ =~= entry@);
    Some(ipv4)
}

/// Reads an entry as an IPv6 address, if it has the length of one.
pub fn read_ipv6(entry: &[u8]) -> (r: Option<Ipv6Address>)
    ensures
        r is Some <==> entry@.len() == 16,
        r matches Some(ipv6) ==> spec_ipv6_bytes(ipv6) == entry@,
{
    if entry.len() != 16 {
        return None;
    }
    let mut segments: [u16; 8] = [0u16; 8];
    let mut i: usize = 0;
    while i < 8
        invariant
            i <= 8,
            entry@.len() == 16,
            forall|k: int|
                0 <= k < i ==> segments@[k] == entry@[2 * k] * 256 + entry@[2 * k + 1],
        decreases 8 - i,
    {
        let high: u16 = entry[2 * i] as u16;
        let low: u16 = entry[2 * i + 1] as u16;
        segments[i] = high * 256 + low;
        i = i + 1;
    }
    let ipv6 = Ipv6Address { segments };
    proof {
        assert forall|k: int| 0 <= k < 16 implies spec_ipv6_bytes(ipv6)[k] == entry@[k] by {
            let j = k / 2;
            assert(segments@[j] == entry@[2 * j] * 256 + entry@[2 * j + 1]);
        }
        assert(spec_ipv6_bytes(ipv6) =~= entry@);
    }
    Some(ipv6)
}

/// Reads an entry as an address of the family, if it is one.
pub fn read_address(family: Option<AddressFamily>, entry: &[u8]) -> (r: Option<IpAddress>)
    ensures
        r is Some <==> readable(family, entry@),
        r matches Some(address) ==> address_bytes(address) == entry@ && (address is V4 <==> family
            == Some(AddressFamily::INET)),
{
    match family {
        Some(AddressFamily::INET) => match read_ipv4(entry) {
            Some(ipv4) => Some(IpAddress::V4(ipv4)),
            None => None,
        },
        Some(AddressFamily::INET6) => match read_ipv6(entry) {
            Some(ipv6) => Some(IpAddress::V6(ipv6)),
            None => None,
        },
        _ => None,
    }
}

/// Reads the addresses that a list of entries holds for a family.
pub fn read_addresses(family: Option<AddressFamily>, list: &Vec<Vec<u8>>) -> (r: Vec<IpAddress>)
    ensures
        holds_addresses(family, list@, r@),
{
    let mut out: Vec<IpAddress> = Vec::new();
    let mut i: usize = 0;
    while i < list.len()
        invariant
            i <= list@.len(),
            out@.len() == i,
            forall|k: int| 0 <= k < i ==> readable(family, #[trigger] list@[k]@),
            forall|k: int| 0 <= k < i ==> address_bytes(#[trigger] out@[k]) == list@[k]@,
            forall|k: int|
                0 <= k < i ==> (#[trigger] out@[k] is V4 <==> family == Some(
                    AddressFamily::INET,
                )),
        decreases list@.len() - i,
    {
        match read_address(family, list[i].as_slice()) {
            Some(address) => {
                out.push(address);
            },
            None => {
                return out;
            },
        }
        i = i + 1;
    }
    out
}

/// Reads the IPv4 addresses that a list of entries holds.
pub fn read_ipv4_list(list: &Vec<Vec<u8>>) -> (r: Vec<Ipv4Address>)
    ensures
        holds_ipv4(list@, r@),
{
    let mut out: Vec<Ipv4Address> = Vec::new();
    let mut i: usize = 0;
    while i < list.len()
        invariant
            i <= list@.len(),
            out@.len() == i,
            forall|k: int| 0 <= k < i ==> out@[k].octets@ == #[trigger] list@[k]@,
            forall|k: int| 0 <= k < i ==> (#[trigger] list@[k]@).len() == 4,
        decreases list@.len() - i,
    {
        match read_ipv4(list[i].as_slice()) {
            Some(ipv4) => {
                out.push(ipv4);
            },
            None => {
                return out;
            },
        }
        i = i + 1;
    }
    out
}

/// Reads the IPv6 addresses that a list of entries holds.
pub fn read_ipv6_list(list: &Vec<Vec<u8>>) -> (r: Vec<Ipv6Address>)
    ensures
        holds_ipv6(list@, r@),
{
    let mut out: Vec<Ipv6Address> = Vec::new();
    let mut i: usize = 0;
    while i < list.len()
        invariant
            i <= list@.len(),
            out@.len() == i,
            forall|k: int| 0 <= k < i ==> spec_ipv6_bytes(out@[k]) == #[trigger] list@[k]@,
        decreases list@.len() - i,
    {
        match read_ipv6(list[i].as_slice()) {
            Some(ipv6) => {
                out.push(ipv6);
            },
            None => {
                return out;
            },
        }
        i = i + 1;
    }
    out
}

/// A list of which every entry has the length of an IPv4 address is read
/// whole: as many addresses as entries, each with the octets of its
/// entry, in the order of the list.
pub proof fn lemma_ipv4_list_read_whole(list: Seq<Vec<u8>>, addresses: Seq<Ipv4Address>)
    requires
        holds_ipv4(list, addresses),
        forall|k: int| 0 <= k < list.len() ==> (#[trigger] list[k]@).len() == 4,
    ensures
        addresses.len() == list.len(),
        forall|k: int| 0 <= k < list.len() ==> (#[trigger] addresses[k]).octets@ == list[k]@,
{
    if addresses.len() < list.len() {
        assert(list[addresses.len() as int]@.len() == 4);
    }
}

/// A list of which every entry has the length of an IPv6 address is read
/// whole: as many addresses as entries, each with the bytes of its entry,
/// in the order of the list.
pub proof fn lemma_ipv6_list_read_whole(list: Seq<Vec<u8>>, addresses: Seq<Ipv6Address>)
    requires
        holds_ipv6(list, addresses),
        forall|k: int| 0 <= k < list.len() ==> (#[trigger] list[k]@).len() == 16,
    ensures
        addresses.len() == list.len(),
        forall|k: int|
            0 <= k < list.len() ==> spec_ipv6_bytes(#[trigger] addresses[k]) == list[k]@,
{
    if addresses.len() < list.len() {
        assert(list[addresses.len() as int]@.len() == 16);
    }
}

/// A list holds one run of addresses and no other: two runs that it holds
/// have the same length, and the same bytes at each place.
pub proof fn lemma_addresses_determined(
    family: Option<AddressFamily>,
    list: Seq<Vec<u8>>,
    first: Seq<IpAddress>,
    second: Seq<IpAddress>,
)
    requires
        holds_addresses(family, list, first),
        holds_addresses(family, list, second),
    ensures
        first.len() == second.len(),
        forall|k: int|
            0 <= k < first.len() ==> address_bytes(#[trigger] first[k]) == address_bytes(
                second[k],
            ) && (first[k] is V4 <==> second[k] is V4),
{
    if first.len() < second.len() {
        assert(readable(family, list[first.len() as int]@));
    }
    if second.len() < first.len() {
        assert(readable(family, list[second.len() as int]@));
    }
    assert forall|k: int| 0 <= k < first.len() implies address_bytes(#[trigger] first[k])
        == address_bytes(second[k]) && (first[k] is V4 <==> second[k] is V4) by {
        assert(readable(family, list[k]@));
    }
}

} // verus!
