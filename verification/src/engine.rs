//! Trusted boundary to the protocol engine (the `smoltcp` crate).
//!
//! The engine's per-socket state lives in a `smoltcp` socket set owned by the
//! stack. Everything the library's logic needs from the engine goes through
//! the wrappers below; their contracts state only what `smoltcp`'s source
//! shows. The engine's interface/device side (polling) is driven by the
//! embedder, which reaches the same socket set through the public field.

use vstd::prelude::*;

verus! {

#[verifier::external_type_specification]
#[verifier::external_body]
pub struct ExSocketHandle(smoltcp::socket::SocketHandle);

#[verifier::external_type_specification]
#[verifier::external_body]
pub struct ExError(smoltcp::Error);

#[verifier::external_type_specification]
#[verifier::external_body]
pub struct ExSocketSet<'a>(smoltcp::socket::SocketSet<'a>);

/// The handles of the TCP sockets contained in an engine socket set.
pub uninterp spec fn tcp_handles(s: smoltcp::socket::SocketSet<'static>) -> Set<
    smoltcp::socket::SocketHandle,
>;

/// Relies on `smoltcp::socket::SocketSet::new`: a set created from empty
/// storage contains no sockets.
#[verifier::external_body]
pub fn new_socket_set() -> (s: smoltcp::socket::SocketSet<'static>)
    ensures
        tcp_handles(s) == Set::<smoltcp::socket::SocketHandle>::empty(),
{
    smoltcp::socket::SocketSet::new(Vec::new())
}

/// Relies on `smoltcp::socket::SocketSet::add` (with a `TcpSocket`): adds the
/// socket to the set and returns its handle. Vec-backed storage, so `add`
/// does not panic; `TcpSocket::new` panics when the receive buffer exceeds
/// one gibibyte, which the bound on `rx_capacity` rules out.
#[verifier::external_body]
pub fn add_tcp_socket(set: &mut smoltcp::socket::SocketSet<'static>, rx_capacity: usize, tx_capacity: usize) -> (h:
    smoltcp::socket::SocketHandle)
    requires
        rx_capacity <= 0x4000_0000,
    ensures
        tcp_handles(*final(set)) == tcp_handles(*old(set)).insert(h),
{
    let rx = smoltcp::socket::TcpSocketBuffer::new(vec![0u8; rx_capacity]);
    let tx = smoltcp::socket::TcpSocketBuffer::new(vec![0u8; tx_capacity]);
    set.add(smoltcp::socket::TcpSocket::new(rx, tx))
}

/// Relies on `smoltcp::socket::SocketSet::add` (with a `UdpSocket`): adds a
/// UDP socket, which is not a TCP socket, so the TCP handles are unchanged.
#[verifier::external_body]
pub fn add_udp_socket(
    set: &mut smoltcp::socket::SocketSet<'static>,
    meta_capacity: usize,
    rx_capacity: usize,
    tx_capacity: usize,
) -> (h: smoltcp::socket::SocketHandle)
    ensures
        tcp_handles(*final(set)) == tcp_handles(*old(set)),
{
    let rx = smoltcp::socket::UdpSocketBuffer::new(
        vec![smoltcp::socket::UdpPacketMetadata::EMPTY; meta_capacity],
        vec![0u8; rx_capacity],
    );
    let tx = smoltcp::socket::UdpSocketBuffer::new(
        vec![smoltcp::socket::UdpPacketMetadata::EMPTY; meta_capacity],
        vec![0u8; tx_capacity],
    );
    set.add(smoltcp::socket::UdpSocket::new(rx, tx))
}

/// Relies on `smoltcp::socket::TcpSocket::connect` over an IPv4 remote
/// endpoint: errors if the socket is open or an address or port is invalid,
/// returning before anything is assigned, and the TCP session finalizer run
/// when the socket reference drops is a no-op, so on an error the whole set
/// is exactly as it was; the set's membership is untouched either way.
#[verifier::external_body]
pub fn tcp_connect_v4(
    set: &mut smoltcp::socket::SocketSet<'static>,
    handle: smoltcp::socket::SocketHandle,
    a: u8,
    b: u8,
    c: u8,
    d: u8,
    remote_port: u16,
    local_port: u16,
) -> (r: Result<(), smoltcp::Error>)
    requires
        tcp_handles(*old(set)).contains(handle),
    ensures
        tcp_handles(*final(set)) == tcp_handles(*old(set)),
        r is Err ==> *final(set) == *old(set),
{
    let mut socket = set.get::<smoltcp::socket::TcpSocket>(handle);
    socket.connect((smoltcp::wire::Ipv4Address::new(a, b, c, d), remote_port), local_port)
}

/// Relies on `smoltcp::socket::TcpSocket::connect` over an IPv6 remote
/// endpoint; as the IPv4 variant.
#[verifier::external_body]
pub fn tcp_connect_v6(
    set: &mut smoltcp::socket::SocketSet<'static>,
    handle: smoltcp::socket::SocketHandle,
    segments: &Vec<u16>,
    remote_port: u16,
    local_port: u16,
) -> (r: Result<(), smoltcp::Error>)
    requires
        tcp_handles(*old(set)).contains(handle),
        segments@.len() == 8,
    ensures
        tcp_handles(*final(set)) == tcp_handles(*old(set)),
        r is Err ==> *final(set) == *old(set),
{
    let a = smoltcp::wire::Ipv6Address::new(
        segments[0], segments[1], segments[2], segments[3],
        segments[4], segments[5], segments[6], segments[7],
    );
    let mut socket = set.get::<smoltcp::socket::TcpSocket>(handle);
    socket.connect((a, remote_port), local_port)
}

/// Relies on `smoltcp::socket::TcpSocket::may_send`: whether the transmit
/// half of the connection is open; reading it changes nothing in the set.
#[verifier::external_body]
pub fn tcp_may_send(set: &mut smoltcp::socket::SocketSet<'static>, handle: smoltcp::socket::SocketHandle) -> (r: bool)
    requires
        tcp_handles(*old(set)).contains(handle),
    ensures
        tcp_handles(*final(set)) == tcp_handles(*old(set)),
{
    set.get::<smoltcp::socket::TcpSocket>(handle).may_send()
}

/// Relies on `smoltcp::socket::TcpSocket::send_slice`: enqueues a prefix of
/// `data` into the transmit buffer and returns how many octets it took,
/// limited by the free buffer space, down to zero.
#[verifier::external_body]
pub fn tcp_send_slice(
    set: &mut smoltcp::socket::SocketSet<'static>,
    handle: smoltcp::socket::SocketHandle,
    data: &[u8],
) -> (r: Result<usize, smoltcp::Error>)
    requires
        tcp_handles(*old(set)).contains(handle),
    ensures
        tcp_handles(*final(set)) == tcp_handles(*old(set)),
        (match r {
            Ok(n) => n <= data@.len(),
            Err(_) => true,
        }),
{
    let mut socket = set.get::<smoltcp::socket::TcpSocket>(handle);
    socket.send_slice(data)
}

/// Relies on `smoltcp::socket::TcpSocket::can_recv`: whether received data is
/// waiting in the receive buffer; reading it changes nothing in the set.
#[verifier::external_body]
pub fn tcp_can_recv(set: &mut smoltcp::socket::SocketSet<'static>, handle: smoltcp::socket::SocketHandle) -> (r: bool)
    requires
        tcp_handles(*old(set)).contains(handle),
    ensures
        tcp_handles(*final(set)) == tcp_handles(*old(set)),
{
    set.get::<smoltcp::socket::TcpSocket>(handle).can_recv()
}

/// Relies on `smoltcp::socket::TcpSocket::recv`: dequeues the largest
/// contiguous chunk of received octets and hands it out; errors if the
/// receive half of the connection is not open.
#[verifier::external_body]
pub fn tcp_recv_chunk(set: &mut smoltcp::socket::SocketSet<'static>, handle: smoltcp::socket::SocketHandle) -> (r: Result<
    Vec<u8>,
    smoltcp::Error,
>)
    requires
        tcp_handles(*old(set)).contains(handle),
    ensures
        tcp_handles(*final(set)) == tcp_handles(*old(set)),
{
    let mut socket = set.get::<smoltcp::socket::TcpSocket>(handle);
    socket.recv(|buf| (buf.len(), buf.to_vec()))
}

} // verus!
