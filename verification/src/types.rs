//! The small closed sets that queries and results are described with.

use vstd::prelude::*;

verus! {

/// An address family.
#[allow(non_camel_case_types)]
#[derive(Clone, Copy, Debug, PartialEq, Eq, Structural)]
pub enum AddressFamily {
    /// IPv4.
    INET,
    /// IPv6.
    INET6,
    /// No family in particular.
    UNSPEC,
}

/// A DNS class. Queries are always made in the Internet class.
#[derive(Clone, Copy, Debug, PartialEq, Eq, Structural)]
pub enum DnsClass {
    /// The Internet class.
    IN,
}

/// A DNS record type that a query can ask for.
#[derive(Clone, Copy, Debug, PartialEq, Eq, Structural)]
pub enum QueryType {
    /// An IPv4 address.
    A,
    /// An authoritative name server.
    NS,
    /// The canonical name of an alias.
    CNAME,
    /// The start of a zone of authority.
    SOA,
    /// A domain name pointer.
    PTR,
    /// A mail exchange.
    MX,
    /// Text.
    TXT,
    /// An IPv6 address.
    AAAA,
    /// The location of a service.
    SRV,
    /// A naming authority pointer.
    NAPTR,
}

impl DnsClass {
    /// The number that stands for this class on the wire.
    pub open spec fn spec_code(self) -> i32 {
        1
    }

    /// The number that stands for this class on the wire.
    #[verifier::when_used_as_spec(spec_code)]
    pub fn code(self) -> (c: i32)
        ensures
            c == self.spec_code(),
    {
        1
    }

    /// The class that a wire number stands for, if it is one that queries use.
    pub fn from_code(code: i32) -> (r: Option<DnsClass>)
        ensures
            r == (if code == 1 {
                Some(DnsClass::IN)
            } else {
                None
            }),
    {
        if code == 1 {
            Some(DnsClass::IN)
        } else {
            None
        }
    }
}

impl QueryType {
    /// The number that stands for this record type on the wire.
    pub open spec fn spec_code(self) -> i32 {
        match self {
            QueryType::A => 1,
            QueryType::NS => 2,
            QueryType::CNAME => 5,
            QueryType::SOA => 6,
            QueryType::PTR => 12,
            QueryType::MX => 15,
            QueryType::TXT => 16,
            QueryType::AAAA => 28,
            QueryType::SRV => 33,
            QueryType::NAPTR => 35,
        }
    }

    /// The record type that a wire number stands for, if any.
    pub open spec fn spec_from_code(code: i32) -> Option<QueryType> {
        if code == 1 {
            Some(QueryType::A)
        } else if code == 2 {
            Some(QueryType::NS)
        } else if code == 5 {
            Some(QueryType::CNAME)
        } else if code == 6 {
            Some(QueryType::SOA)
        } else if code == 12 {
            Some(QueryType::PTR)
        } else if code == 15 {
            Some(QueryType::MX)
        } else if code == 16 {
            Some(QueryType::TXT)
        } else if code == 28 {
            Some(QueryType::AAAA)
        } else if code == 33 {
            Some(QueryType::SRV)
        } else if code == 35 {
            Some(QueryType::NAPTR)
        } else {
            None
        }
    }

    /// The number that stands for this record type on the wire.
    #[verifier::when_used_as_spec(spec_code)]
    pub fn code(self) -> (c: i32)
        ensures
            c == self.spec_code(),
    {
        match self {
            QueryType::A => 1,
            QueryType::NS => 2,
            QueryType::CNAME => 5,
            QueryType::SOA => 6,
            QueryType::PTR => 12,
            QueryType::MX => 15,
            QueryType::TXT => 16,
            QueryType::AAAA => 28,
            QueryType::SRV => 33,
            QueryType::NAPTR => 35,
        }
    }

    /// The record type that a wire number stands for, if any.
    pub fn from_code(code: i32) -> (r: Option<QueryType>)
        ensures
            r == Self::spec_from_code(code),
    {
        if code == 1 {
            Some(QueryType::A)
        } else if code == 2 {
            Some(QueryType::NS)
        } else if code == 5 {
            Some(QueryType::CNAME)
        } else if code == 6 {
            Some(QueryType::SOA)
        } else if code == 12 {
            Some(QueryType::PTR)
        } else if code == 15 {
            Some(QueryType::MX)
        } else if code == 16 {
            Some(QueryType::TXT)
        } else if code == 28 {
            Some(QueryType::AAAA)
        } else if code == 33 {
            Some(QueryType::SRV)
        } else if code == 35 {
            Some(QueryType::NAPTR)
        } else {
            None
        }
    }
}

/// Record types and wire numbers correspond one to one: reading back the
/// number of a type gives that type, and a number that is read as a type is
/// the number of that type.
pub proof fn lemma_query_type_codes(t: QueryType, code: i32)
    ensures
        QueryType::spec_from_code(t.spec_code()) == Some(t),
        QueryType::spec_from_code(code) matches Some(u) ==> u.spec_code() == code,
{
}

/// An IPv4 address: its four octets in the order they are written.
#[derive(Clone, Copy, Debug, PartialEq, Eq)]
pub struct Ipv4Address {
    pub octets: [u8; 4],
}

/// An IPv6 address: its eight 16-bit segments in the order they are written.
#[derive(Clone, Copy, Debug, PartialEq, Eq)]
pub struct Ipv6Address {
    pub segments: [u16; 8],
}

/// An address of either family.
#[derive(Clone, Copy, Debug, PartialEq, Eq)]
pub enum IpAddress {
    V4(Ipv4Address),
    V6(Ipv6Address),
}

/// An IPv4 address and a port.
#[derive(Clone, Copy, Debug, PartialEq, Eq)]
pub struct SocketV4 {
    pub ip: Ipv4Address,
    pub port: u16,
}

/// An IPv6 address, a port, and the flow and scope that go with them.
#[derive(Clone, Copy, Debug, PartialEq, Eq)]
pub struct SocketV6 {
    pub ip: Ipv6Address,
    pub port: u16,
    pub flowinfo: u32,
    pub scope_id: u32,
}

/// An IPv4 address as the system's socket interface holds it: one 32-bit
/// number whose bytes in memory are the octets in network order.
#[derive(Clone, Copy, Debug, PartialEq, Eq)]
pub struct InAddr {
    pub s_addr: u32,
}

/// An IPv6 address as the system's socket interface holds it: sixteen
/// bytes in network order.
#[derive(Clone, Copy, Debug, PartialEq, Eq)]
pub struct In6Addr {
    pub s6_addr: [u8; 16],
}

/// An IPv4 socket address as the system's socket interface holds it.
#[derive(Clone, Copy, Debug, PartialEq, Eq)]
pub struct SockaddrIn {
    pub sin_family: u16,
    /// The port, its bytes in memory in network order.
    pub sin_port: u16,
    pub sin_addr: InAddr,
    pub sin_zero: [u8; 8],
}

/// An IPv6 socket address as the system's socket interface holds it.
#[derive(Clone, Copy, Debug, PartialEq, Eq)]
pub struct SockaddrIn6 {
    pub sin6_family: u16,
    /// The port, its bytes in memory in network order.
    pub sin6_port: u16,
    pub sin6_addr: In6Addr,
    pub sin6_flowinfo: u32,
    pub sin6_scope_id: u32,
}

/// The result of a successful lookup of A records: the addresses in the
/// order the engine gave them.
#[derive(Debug, PartialEq, Eq)]
pub struct AResult {
    pub ip_addrs: Vec<Ipv4Address>,
}

/// The result of a successful lookup of AAAA records: the addresses in the
/// order the engine gave them.
#[derive(Debug, PartialEq, Eq)]
pub struct AAAAResult {
    pub ip_addrs: Vec<Ipv6Address>,
}

/// The numbers that the system gives to the address families.
#[derive(Clone, Copy, Debug, PartialEq, Eq, Structural)]
pub struct FamilyCodes {
    pub unspec: i32,
    pub inet: i32,
    pub inet6: i32,
}

impl FamilyCodes {
    /// Whether the three numbers tell the families apart.
    pub open spec fn distinct(self) -> bool {
        self.unspec != self.inet && self.unspec != self.inet6 && self.inet != self.inet6
    }

    /// Whether the numbers can be those of a system: zero stands for the
    /// unspecified family, the three are told apart, and the numbers of
    /// IPv4 and IPv6 fit in the sixteen bits of a socket address's family.
    pub open spec fn usable(self) -> bool {
        &&& self.unspec == 0
        &&& self.distinct()
        &&& 0 < self.inet <= 65535
        &&& 0 < self.inet6 <= 65535
    }
}

} // verus!
