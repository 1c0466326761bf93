use vstd::prelude::*;

verus! {

/// An IPv4 address as four octets. Address values are carried as plain
/// numbers; the protocol engine's own address types are built from them at
/// the engine boundary.
#[derive(Clone, Copy, PartialEq, Eq, Structural, Debug)]
pub struct Ipv4Addr {
    pub a: u8,
    pub b: u8,
    pub c: u8,
    pub d: u8,
}

/// An IPv6 address as eight 16-bit segments.
#[derive(Clone, Copy, PartialEq, Eq, Structural, Debug)]
pub struct Ipv6Addr {
    pub s0: u16,
    pub s1: u16,
    pub s2: u16,
    pub s3: u16,
    pub s4: u16,
    pub s5: u16,
    pub s6: u16,
    pub s7: u16,
}

/// An IPv4 network prefix: an address plus a prefix length.
#[derive(Clone, Copy, PartialEq, Eq, Structural, Debug)]
pub struct Ipv4Cidr {
    pub address: Ipv4Addr,
    pub prefix: u8,
}

/// An IPv6 network prefix: an address plus a prefix length.
#[derive(Clone, Copy, PartialEq, Eq, Structural, Debug)]
pub struct Ipv6Cidr {
    pub address: Ipv6Addr,
    pub prefix: u8,
}

/// A local network prefix of either family, as accumulated before finalize.
#[derive(Clone, Copy, PartialEq, Eq, Structural, Debug)]
pub enum CidrRepr {
    V4(Ipv4Cidr),
    V6(Ipv6Cidr),
}

/// An IP address of either family.
#[derive(Clone, Copy, PartialEq, Eq, Structural, Debug)]
pub enum AddressRepr {
    V4(Ipv4Addr),
    V6(Ipv6Addr),
}

/// A destination endpoint: an address and a port. Connectionless socket
/// kinds require one on every send.
#[derive(Clone, Copy, PartialEq, Eq, Structural, Debug)]
pub struct Endpoint {
    pub addr: AddressRepr,
    pub port: u16,
}

} // verus!
