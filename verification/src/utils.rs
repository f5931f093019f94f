//! Conversions between the library's addresses and the forms that the
//! system's socket interface holds them in.

use vstd::prelude::*;
use vstd::arithmetic::div_mod::lemma_fundamental_div_mod_converse;
use crate::types::{
    AddressFamily, FamilyCodes, In6Addr, InAddr, Ipv4Address, Ipv6Address, SockaddrIn,
    SockaddrIn6, SocketV4, SocketV6,
};

verus! {

/// Reads `c_types::AF_UNSPEC`, `c_types::AF_INET` and `c_types::AF_INET6`.
/// Their numbers differ from system to system. What is claimed holds on
/// each of them: the unspecified family is zero, the three are told
/// apart, and the numbers of the two real families fit in sixteen bits.
#[verifier::external_body]
fn family_codes() -> (codes: FamilyCodes)
    ensures
        codes.usable(),
{
    FamilyCodes {
        unspec: c_types::AF_UNSPEC as i32,
        inet: c_types::AF_INET as i32,
        inet6: c_types::AF_INET6 as i32,
    }
}

/// Calls `u16::to_be` on the number one. Nothing is claimed of the
/// result, which depends on the byte order of the machine.
#[verifier::external_body]
fn one_in_network_order() -> (r: u16) {
    1u16.to_be()
}

/// Whether this machine stores numbers in network order: it does when
/// putting a number into network order leaves it as it is.
fn network_order_is_native() -> (big_endian: bool) {
    one_in_network_order() == 1
}

/// The family that a number stands for, given the system's numbers.
pub open spec fn spec_address_family(family: i32, codes: FamilyCodes) -> Option<AddressFamily> {
    if family == codes.inet {
        Some(AddressFamily::INET)
    } else if family == codes.inet6 {
        Some(AddressFamily::INET6)
    } else if family == codes.unspec {
        Some(AddressFamily::UNSPEC)
    } else {
        None
    }
}

/// Converts an address family number into an `AddressFamily`, given the
/// system's numbers.
pub fn address_family_among(family: i32, codes: FamilyCodes) -> (r: Option<AddressFamily>)
    ensures
        r == spec_address_family(family, codes),
{
    if family == codes.inet {
        Some(AddressFamily::INET)
    } else if family == codes.inet6 {
        Some(AddressFamily::INET6)
    } else if family == codes.unspec {
        Some(AddressFamily::UNSPEC)
    } else {
        None
    }
}

/// Converts an address family number into an `AddressFamily`, by the
/// numbers of the system this runs on. Zero is the unspecified family
/// everywhere; which numbers stand for the other two is the system's to
/// say, and no number stands for both.
pub fn address_family(family: i32) -> (r: Option<AddressFamily>)
    ensures
        r == Some(AddressFamily::UNSPEC) <==> family == 0,
        exists|codes: FamilyCodes| codes.usable() && r == spec_address_family(family, codes),
{
    let codes = family_codes();
    address_family_among(family, codes)
}

/// The number whose bytes in memory, on a machine of the given byte
/// order, are `b0 b1 b2 b3` from the lowest address up.
pub open spec fn u32_of_memory(b0: u8, b1: u8, b2: u8, b3: u8, big_endian: bool) -> u32 {
    if big_endian {
        (b0 * 16777216 + b1 * 65536 + b2 * 256 + b3) as u32
    } else {
        (b3 * 16777216 + b2 * 65536 + b1 * 256 + b0) as u32
    }
}

/// The bytes that a number has in memory on a machine of the given byte
/// order, from the lowest address up.
pub open spec fn memory_of_u32(x: u32, big_endian: bool) -> Seq<u8> {
    if big_endian {
        seq![
            (x / 16777216) as u8,
            (x / 65536 % 256) as u8,
            (x / 256 % 256) as u8,
            (x % 256) as u8,
        ]
    } else {
        seq![
            (x % 256) as u8,
            (x / 256 % 256) as u8,
            (x / 65536 % 256) as u8,
            (x / 16777216) as u8,
        ]
    }
}

/// The number whose bytes in memory, on a machine of the given byte
/// order, are `b0 b1` from the lowest address up.
pub open spec fn u16_of_memory(b0: u8, b1: u8, big_endian: bool) -> u16 {
    if big_endian {
        (b0 * 256 + b1) as u16
    } else {
        (b1 * 256 + b0) as u16
    }
}

/// The bytes that a number has in memory on a machine of the given byte
/// order, from the lowest address up.
pub open spec fn memory_of_u16(x: u16, big_endian: bool) -> Seq<u8> {
    if big_endian {
        seq![(x / 256) as u8, (x % 256) as u8]
    } else {
        seq![(x % 256) as u8, (x / 256) as u8]
    }
}

/// The number that holds a port in network order on a machine of the
/// given byte order.
pub open spec fn spec_port_to_network(port: u16, big_endian: bool) -> u16 {
    u16_of_memory((port / 256) as u8, (port % 256) as u8, big_endian)
}

/// Puts a port into network order on a machine of the given byte order.
pub fn port_to_network(port: u16, big_endian: bool) -> (r: u16)
    ensures
        r == spec_port_to_network(port, big_endian),
{
    if big_endian {
        port
    } else {
        (port % 256) * 256 + port / 256
    }
}

/// What `ipv4_as_in_addr` gives on a machine of the given byte order.
pub open spec fn spec_ipv4_as_in_addr(ipv4: Ipv4Address, big_endian: bool) -> InAddr {
    InAddr {
        s_addr: u32_of_memory(
            ipv4.octets[0],
            ipv4.octets[1],
            ipv4.octets[2],
            ipv4.octets[3],
            big_endian,
        ),
    }
}

/// Gets an `InAddr` from an `Ipv4Address` on a machine of the given byte
/// order.
pub fn ipv4_as_in_addr_on(ipv4: &Ipv4Address, big_endian: bool) -> (r: InAddr)
    ensures
        r == spec_ipv4_as_in_addr(*ipv4, big_endian),
{
    let b0: u32 = ipv4.octets[0] as u32;
    let b1: u32 = ipv4.octets[1] as u32;
    let b2: u32 = ipv4.octets[2] as u32;
    let b3: u32 = ipv4.octets[3] as u32;
    if big_endian {
        InAddr { s_addr: b0 * 16777216 + b1 * 65536 + b2 * 256 + b3 }
    } else {
        InAddr { s_addr: b3 * 16777216 + b2 * 65536 + b1 * 256 + b0 }
    }
}

/// Gets an `InAddr` from an `Ipv4Address`, for the machine this runs on.
/// Whichever byte order that machine has, the octets lie in memory in
/// network order.
pub fn ipv4_as_in_addr(ipv4: &Ipv4Address) -> (r: InAddr)
    ensures
        r == spec_ipv4_as_in_addr(*ipv4, true) || r == spec_ipv4_as_in_addr(*ipv4, false),
{
    let big_endian = network_order_is_native();
    ipv4_as_in_addr_on(ipv4, big_endian)
}

/// The octets that `ipv4_from_in_addr` gives on a machine of the given
/// byte order.
pub open spec fn spec_ipv4_from_in_addr(in_addr: InAddr, big_endian: bool) -> Seq<u8> {
    memory_of_u32(in_addr.s_addr, big_endian)
}

/// Gets an `Ipv4Address` from an `InAddr` on a machine of the given byte
/// order.
pub fn ipv4_from_in_addr_on(in_addr: &InAddr, big_endian: bool) -> (r: Ipv4Address)
    ensures
        r.octets@ == spec_ipv4_from_in_addr(*in_addr, big_endian),
{
    let x: u32 = in_addr.s_addr;
    let high: u8 = (x / 16777216) as u8;
    let upper: u8 = (x / 65536 % 256) as u8;
    let lower: u8 = (x / 256 % 256) as u8;
    let low: u8 = (x % 256) as u8;
    let r = if big_endian {
        Ipv4Address { octets: [high, upper, lower, low] }
    } else {
        Ipv4Address { octets: [low, lower, upper, high] }
    };
    assert(r.octets@ =~= spec_ipv4_from_in_addr(*in_addr, big_endian));
    r
}

/// Gets an `Ipv4Address` from an `InAddr`, for the machine this runs on.
pub fn ipv4_from_in_addr(in_addr: &InAddr) -> (r: Ipv4Address)
    ensures
        r.octets@ == spec_ipv4_from_in_addr(*in_addr, true) || r.octets@
            == spec_ipv4_from_in_addr(*in_addr, false),
{
    let big_endian = network_order_is_native();
    ipv4_from_in_addr_on(in_addr, big_endian)
}

/// On a machine of either byte order an address that is turned into an
/// `InAddr` lies in memory octet by octet, in the order it is written, and
/// turning the `InAddr` back gives the same octets.
pub proof fn lemma_ipv4_round_trip(ipv4: Ipv4Address, big_endian: bool)
    ensures
        memory_of_u32(spec_ipv4_as_in_addr(ipv4, big_endian).s_addr, big_endian) == ipv4.octets@,
        spec_ipv4_from_in_addr(spec_ipv4_as_in_addr(ipv4, big_endian), big_endian)
            == ipv4.octets@,
{
    let o = ipv4.octets;
    if big_endian {
        lemma_bytes_of_sum(o[0], o[1], o[2], o[3]);
    } else {
        lemma_bytes_of_sum(o[3], o[2], o[1], o[0]);
    }
    let x = spec_ipv4_as_in_addr(ipv4, big_endian).s_addr;
    assert(memory_of_u32(x, big_endian) =~= ipv4.octets@);
}

/// Four bytes put together from the highest down can be read back one by
/// one.
proof fn lemma_bytes_of_sum(b3: u8, b2: u8, b1: u8, b0: u8)
    ensures
        ({
            let x = b3 * 16777216 + b2 * 65536 + b1 * 256 + b0;
            &&& 0 <= x <= u32::MAX
            &&& x / 16777216 == b3
            &&& x / 65536 % 256 == b2
            &&& x / 256 % 256 == b1
            &&& x % 256 == b0
        }),
{
    let x: int = b3 * 16777216 + b2 * 65536 + b1 * 256 + b0;
    let top: int = b3 as int;
    let upper: int = b3 * 256 + b2;
    let lower: int = b3 * 65536 + b2 * 256 + b1;
    lemma_fundamental_div_mod_converse(x, 16777216, top, b2 * 65536 + b1 * 256 + b0);
    lemma_fundamental_div_mod_converse(x, 65536, upper, b1 * 256 + b0);
    lemma_fundamental_div_mod_converse(upper, 256, top, b2 as int);
    lemma_fundamental_div_mod_converse(x, 256, lower, b0 as int);
    lemma_fundamental_div_mod_converse(lower, 256, upper, b1 as int);
}

/// A number is its four bytes put together from the highest down.
proof fn lemma_sum_of_bytes(x: u32)
    ensures
        x == (x / 16777216) * 16777216 + (x / 65536 % 256) * 65536 + (x / 256 % 256) * 256 + x
            % 256,
        x / 16777216 < 256,
{
    let lower: int = x as int / 256;
    let upper: int = lower / 256;
    let top: int = upper / 256;
    assert(x == lower * 256 + x % 256);
    assert(lower == upper * 256 + lower % 256);
    assert(upper == top * 256 + upper % 256);
    lemma_fundamental_div_mod_converse(
        x as int,
        65536,
        upper,
        (lower % 256) * 256 + x % 256,
    );
    lemma_fundamental_div_mod_converse(
        x as int,
        16777216,
        top,
        (upper % 256) * 65536 + (lower % 256) * 256 + x % 256,
    );
}

/// On a machine of either byte order an `InAddr` that is turned into an
/// address and back is the same number.
pub proof fn lemma_in_addr_round_trip(in_addr: InAddr, ipv4: Ipv4Address, big_endian: bool)
    requires
        ipv4.octets@ == spec_ipv4_from_in_addr(in_addr, big_endian),
    ensures
        spec_ipv4_as_in_addr(ipv4, big_endian) == in_addr,
{
    let m = memory_of_u32(in_addr.s_addr, big_endian);
    lemma_sum_of_bytes(in_addr.s_addr);
    assert(ipv4.octets[0] == m[0]);
    assert(ipv4.octets[1] == m[1]);
    assert(ipv4.octets[2] == m[2]);
    assert(ipv4.octets[3] == m[3]);
}

/// On a machine of either byte order a port that is put into network
/// order lies in memory with its high byte first.
pub proof fn lemma_port_in_network_order(port: u16, big_endian: bool)
    ensures
        memory_of_u16(spec_port_to_network(port, big_endian), big_endian) == seq![
            (port / 256) as u8,
            (port % 256) as u8,
        ],
{
    assert(memory_of_u16(spec_port_to_network(port, big_endian), big_endian) =~= seq![
        (port / 256) as u8,
        (port % 256) as u8,
    ]);
}

/// The sixteen bytes of an IPv6 address in network order: each segment
/// gives two, the high byte first.
pub open spec fn spec_ipv6_bytes(ipv6: Ipv6Address) -> Seq<u8> {
    Seq::new(
        16,
        |i: int|
            if i % 2 == 0 {
                (ipv6.segments[i / 2] / 256) as u8
            } else {
                (ipv6.segments[i / 2] % 256) as u8
            },
    )
}

/// Gets an `In6Addr` from an `Ipv6Address`.
pub fn ipv6_as_in6_addr(ipv6: &Ipv6Address) -> (r: In6Addr)
    ensures
        r.s6_addr@ == spec_ipv6_bytes(*ipv6),
{
    let mut bytes: [u8; 16] = [0u8; 16];
    let mut i: usize = 0;
    while i < 8
        invariant
            i <= 8,
            forall|k: int| 0 <= k < 2 * i ==> bytes@[k] == spec_ipv6_bytes(*ipv6)[k],
        decreases 8 - i,
    {
        let segment: u16 = ipv6.segments[i];
        bytes[2 * i] = (segment / 256) as u8;
        bytes[2 * i + 1] = (segment % 256) as u8;
        i = i + 1;
    }
    assert(bytes@ =~= spec_ipv6_bytes(*ipv6));
    In6Addr { s6_addr: bytes }
}

/// Each segment of an IPv6 address can be read back from the two bytes it
/// gave.
pub proof fn lemma_ipv6_bytes_hold_segments(ipv6: Ipv6Address, i: int)
    requires
        0 <= i < 8,
    ensures
        ipv6.segments[i] == spec_ipv6_bytes(ipv6)[2 * i] * 256 + spec_ipv6_bytes(ipv6)[2 * i
            + 1],
{
}

/// Gets a `SockaddrIn` from a `SocketV4` on a machine of the given byte
/// order, where `inet` is the system's number for IPv4.
pub fn socket_addrv4_as_sockaddr_in_on(sock_v4: &SocketV4, inet: i32, big_endian: bool) -> (r:
    SockaddrIn)
    ensures
        r.sin_family == inet as u16,
        r.sin_port == spec_port_to_network(sock_v4.port, big_endian),
        r.sin_addr == spec_ipv4_as_in_addr(sock_v4.ip, big_endian),
        r.sin_zero@ == Seq::new(8, |i: int| 0u8),
{
    let in_addr = ipv4_as_in_addr_on(&sock_v4.ip, big_endian);
    let zero: [u8; 8] = [0u8; 8];
    assert(zero@ =~= Seq::new(8, |i: int| 0u8));
    SockaddrIn {
        sin_family: #[verifier::truncate]
        (inet as u16),
        sin_port: port_to_network(sock_v4.port, big_endian),
        sin_addr: in_addr,
        sin_zero: zero,
    }
}

/// Gets a `SockaddrIn` from a `SocketV4`, for the machine this runs on:
/// the port and the address lie in memory in network order, and the
/// padding is zero.
pub fn socket_addrv4_as_sockaddr_in(sock_v4: &SocketV4) -> (r: SockaddrIn)
    ensures
        r.sin_family != 0,
        exists|codes: FamilyCodes| codes.usable() && r.sin_family == codes.inet,
        r.sin_zero@ == Seq::new(8, |i: int| 0u8),
        exists|big_endian: bool|
            r.sin_port == spec_port_to_network(sock_v4.port, big_endian) && r.sin_addr
                == spec_ipv4_as_in_addr(sock_v4.ip, big_endian),
{
    let codes = family_codes();
    let big_endian = network_order_is_native();
    socket_addrv4_as_sockaddr_in_on(sock_v4, codes.inet, big_endian)
}

/// Gets a `SockaddrIn6` from a `SocketV6` on a machine of the given byte
/// order, where `inet6` is the system's number for IPv6. The flow and the
/// scope are handed on as they are.
pub fn socket_addrv6_as_sockaddr_in6_on(sock_v6: &SocketV6, inet6: i32, big_endian: bool) -> (r:
    SockaddrIn6)
    ensures
        r.sin6_family == inet6 as u16,
        r.sin6_port == spec_port_to_network(sock_v6.port, big_endian),
        r.sin6_addr.s6_addr@ == spec_ipv6_bytes(sock_v6.ip),
        r.sin6_flowinfo == sock_v6.flowinfo,
        r.sin6_scope_id == sock_v6.scope_id,
{
    let in6_addr = ipv6_as_in6_addr(&sock_v6.ip);
    SockaddrIn6 {
        sin6_family: #[verifier::truncate]
        (inet6 as u16),
        sin6_port: port_to_network(sock_v6.port, big_endian),
        sin6_addr: in6_addr,
        sin6_flowinfo: sock_v6.flowinfo,
        sin6_scope_id: sock_v6.scope_id,
    }
}

/// Gets a `SockaddrIn6` from a `SocketV6`, for the machine this runs on:
/// the port and the address are in network order, the flow and the scope
/// are handed on as they are.
pub fn socket_addrv6_as_sockaddr_in6(sock_v6: &SocketV6) -> (r: SockaddrIn6)
    ensures
        r.sin6_family != 0,
        exists|codes: FamilyCodes| codes.usable() && r.sin6_family == codes.inet6,
        r.sin6_addr.s6_addr@ == spec_ipv6_bytes(sock_v6.ip),
        r.sin6_flowinfo == sock_v6.flowinfo,
        r.sin6_scope_id == sock_v6.scope_id,
        r.sin6_port == spec_port_to_network(sock_v6.port, true) || r.sin6_port
            == spec_port_to_network(sock_v6.port, false),
{
    let codes = family_codes();
    let big_endian = network_order_is_native();
    socket_addrv6_as_sockaddr_in6_on(sock_v6, codes.inet6, big_endian)
}

} // verus!
