use virtual_tun::addr::{AddressRepr, Endpoint, Ipv4Addr, Ipv4Cidr, Ipv6Addr};
use virtual_tun::blob::{Blob, ForeignOwner, Packet};
use virtual_tun::device::VirtualTunInterface;
use virtual_tun::error::StackError;
use virtual_tun::socket::SocketType;
use virtual_tun::stack::SmolStack;

fn addr_192_168_1_2() -> Ipv4Cidr {
    Ipv4Cidr { address: Ipv4Addr { a: 192, b: 168, c: 1, d: 2 }, prefix: 24 }
}

#[test]
fn handle_keys_are_monotonic_and_unique() {
    let mut st = SmolStack::new();
    let k1 = st.new_socket_handle_key();
    let k2 = st.new_socket_handle_key();
    let k3 = st.new_socket_handle_key();
    assert_eq!(k1, 1);
    assert_eq!(k2, 2);
    assert_eq!(k3, 3);
}

#[test]
fn unsupported_socket_kinds_are_reported() {
    let mut st = SmolStack::new();
    let k = st.new_socket_handle_key();
    assert_eq!(st.add_socket(SocketType::ICMP, k), Err(StackError::UnsupportedSocketKind));
    assert_eq!(st.add_socket(SocketType::RAW_IPV4, k), Err(StackError::UnsupportedSocketKind));
    assert_eq!(st.add_socket(SocketType::RAW_IPV6, k), Err(StackError::UnsupportedSocketKind));
    assert!(!st.has_socket(k));
    assert_eq!(st.add_socket(SocketType::TCP, k), Ok(()));
    assert!(st.has_socket(k));
}

#[test]
fn finalize_without_address_or_gateway_reports_config_error() {
    let mut st = SmolStack::new();
    // no local address at all
    assert_eq!(st.finalize(), Err(StackError::MissingLocalAddress));
    assert!(!st.is_finalized());
    // an address but no gateway of either family: a configuration error,
    // and the stack stays un-finalized, hence not poll-able
    st.add_ipv4_address(addr_192_168_1_2());
    assert_eq!(st.finalize(), Err(StackError::MissingGateway));
    assert!(!st.is_finalized());
    // correcting the configuration lets finalize succeed
    st.add_default_v4_gateway(Ipv4Addr { a: 192, b: 168, c: 1, d: 1 });
    assert_eq!(st.finalize(), Ok(()));
    assert!(st.is_finalized());
    // finalize is one-shot
    assert_eq!(st.finalize(), Err(StackError::AlreadyFinalized));
    assert!(st.is_finalized());
}

#[test]
fn v6_only_configuration_finalizes() {
    let mut st = SmolStack::new();
    st.add_ipv6_address(virtual_tun::addr::Ipv6Cidr {
        address: Ipv6Addr { s0: 0xfdaa, s1: 0, s2: 0, s3: 0, s4: 0, s5: 0, s6: 0, s7: 2 },
        prefix: 64,
    });
    st.add_default_v6_gateway(Ipv6Addr { s0: 0xfdaa, s1: 0, s2: 0, s3: 0, s4: 0, s5: 0, s6: 0, s7: 1 });
    assert_eq!(st.finalize(), Ok(()));
}

#[test]
fn operations_on_unknown_handles_report_handle_not_found() {
    let mut st = SmolStack::new();
    assert!(matches!(
        st.socket_send(77, Packet { blob: Blob::wrap_local(vec![1]), endpoint: None }),
        Err((StackError::HandleNotFound, _))
    ));
    assert_eq!(st.socket_receive(77), Err(StackError::HandleNotFound));
    assert_eq!(st.spin(77), Err(StackError::HandleNotFound));
    assert_eq!(
        st.tcp_connect_ipv4(77, Ipv4Addr { a: 10, b: 0, c: 0, d: 1 }, 49500, 80),
        Err(StackError::HandleNotFound)
    );
    assert!(st.get_smol_socket(77).is_none());
}

#[test]
fn udp_socket_send_without_endpoint_reports_endpoint_required() {
    let mut st = SmolStack::new();
    let k = st.new_socket_handle_key();
    assert_eq!(st.add_socket(SocketType::UDP, k), Ok(()));
    let r = st.socket_send(k, Packet { blob: Blob::wrap_local(vec![1, 2]), endpoint: None });
    match r {
        Err((e, p)) => {
            assert_eq!(e, StackError::EndpointRequired);
            assert_eq!(p.blob.data, vec![1, 2]);
        }
        Ok(_) => panic!("endpoint-less UDP send must be rejected"),
    }
    // nothing was enqueued on the socket
    let sock = st.get_smol_socket(k).expect("socket exists");
    assert_eq!(sock.to_send.len(), 0);
}

#[test]
fn udp_socket_send_with_endpoint_is_accepted() {
    let mut st = SmolStack::new();
    let k = st.new_socket_handle_key();
    assert_eq!(st.add_socket(SocketType::UDP, k), Ok(()));
    let endpoint = Endpoint {
        addr: AddressRepr::V4(Ipv4Addr { a: 10, b: 0, c: 0, d: 9 }),
        port: 5353,
    };
    let r = st.socket_send(
        k,
        Packet { blob: Blob::wrap_local(vec![3, 4]), endpoint: Some(endpoint) },
    );
    assert!(r.is_ok());
    let sock = st.get_smol_socket(k).expect("socket exists");
    assert_eq!(sock.to_send.len(), 1);
}

#[test]
fn socket_receive_on_empty_queue_reports_no_data_twice() {
    let mut st = SmolStack::new();
    let k = st.new_socket_handle_key();
    assert_eq!(st.add_socket(SocketType::TCP, k), Ok(()));
    assert_eq!(st.socket_receive(k), Err(StackError::NoData));
    assert_eq!(st.socket_receive(k), Err(StackError::NoData));
}

#[test]
fn spin_on_non_tcp_socket_reports_not_implemented() {
    let mut st = SmolStack::new();
    let k = st.new_socket_handle_key();
    assert_eq!(st.add_socket(SocketType::UDP, k), Ok(()));
    assert_eq!(st.spin(k), Err(StackError::NotImplemented));
}

#[test]
fn spin_on_idle_tcp_socket_is_ok_and_sends_nothing() {
    let mut st = SmolStack::new();
    let k = st.new_socket_handle_key();
    assert_eq!(st.add_socket(SocketType::TCP, k), Ok(()));
    // the socket is closed: the engine will not accept data, and the queued
    // packet must be preserved for a later pump
    let r = st.socket_send(k, Packet { blob: Blob::wrap_local(vec![1, 2, 3]), endpoint: None });
    assert!(r.is_ok());
    assert_eq!(st.spin(k), Ok(None));
    let sock = st.get_smol_socket(k).expect("socket exists");
    assert_eq!(sock.to_send.len(), 1);
}

#[test]
fn tcp_connect_succeeds_once_then_reports_connect_failed() {
    let mut st = SmolStack::new();
    let k = st.new_socket_handle_key();
    assert_eq!(st.add_socket(SocketType::TCP, k), Ok(()));
    let remote = Ipv4Addr { a: 10, b: 0, c: 0, d: 1 };
    assert_eq!(st.tcp_connect_ipv4(k, remote, 49500, 80), Ok(()));
    // the engine refuses to connect an already-open socket
    assert_eq!(st.tcp_connect_ipv4(k, remote, 49501, 80), Err(StackError::ConnectFailed));
}

#[test]
fn tcp_connect_with_zero_port_reports_connect_failed() {
    let mut st = SmolStack::new();
    let k = st.new_socket_handle_key();
    assert_eq!(st.add_socket(SocketType::TCP, k), Ok(()));
    let remote = Ipv4Addr { a: 10, b: 0, c: 0, d: 1 };
    assert_eq!(st.tcp_connect_ipv4(k, remote, 0, 80), Err(StackError::ConnectFailed));
}

#[test]
fn tcp_connect_on_udp_socket_reports_wrong_socket_type() {
    let mut st = SmolStack::new();
    let k = st.new_socket_handle_key();
    assert_eq!(st.add_socket(SocketType::UDP, k), Ok(()));
    let remote = Ipv4Addr { a: 10, b: 0, c: 0, d: 1 };
    assert_eq!(st.tcp_connect_ipv4(k, remote, 49500, 80), Err(StackError::WrongSocketType));
}

#[test]
fn tcp_connect_ipv6_succeeds() {
    let mut st = SmolStack::new();
    let k = st.new_socket_handle_key();
    assert_eq!(st.add_socket(SocketType::TCP, k), Ok(()));
    let remote = Ipv6Addr { s0: 0xfdaa, s1: 0, s2: 0, s3: 0, s4: 0, s5: 0, s6: 0, s7: 1 };
    assert_eq!(st.tcp_connect_ipv6(k, remote, 49500, 80), Ok(()));
}

#[test]
fn device_queues_are_fifo_and_nonblocking_take_returns_exact_frame() {
    let mut dev = VirtualTunInterface::new();
    assert_eq!(dev.mtu(), 1500);
    // engine-side: nothing injected yet, the device receive would block
    assert!(dev.recv().is_none());
    // caller injects two raw frames toward the engine
    dev.send(Blob::wrap_local(vec![0xAA]));
    dev.send(Blob::wrap_local(vec![0xBB]));
    let first = dev.recv().expect("frame available");
    assert_eq!(first.data, vec![0xAA]);
    let second = dev.recv().expect("frame available");
    assert_eq!(second.data, vec![0xBB]);
    assert!(dev.recv().is_none());
    // engine-side: committed frames come back to the caller in order,
    // and the non-blocking take reports no data on an empty queue
    assert!(dev.receive_instantly().is_none());
    dev.transmit_commit(vec![1, 2, 3]);
    assert_eq!(dev.receive_instantly(), Some(vec![1, 2, 3]));
    assert!(dev.receive_instantly().is_none());
}

#[test]
fn teardown_drain_returns_pending_owners_in_registry_order() {
    let mut st = SmolStack::new();
    let k1 = st.new_socket_handle_key();
    assert_eq!(st.add_socket(SocketType::TCP, k1), Ok(()));
    let k2 = st.new_socket_handle_key();
    assert_eq!(st.add_socket(SocketType::UDP, k2), Ok(()));
    let foreign = |token: u64, bytes: Vec<u8>| Packet {
        blob: Blob::wrap_foreign(bytes, ForeignOwner { token }),
        endpoint: None,
    };
    assert!(st.socket_send(k1, foreign(1, vec![1])).is_ok());
    assert!(st.socket_send(k1, Packet { blob: Blob::wrap_local(vec![9]), endpoint: None }).is_ok());
    assert!(st
        .socket_send(
            k2,
            Packet {
                blob: Blob::wrap_foreign(vec![2], ForeignOwner { token: 2 }),
                endpoint: Some(Endpoint {
                    addr: AddressRepr::V4(Ipv4Addr { a: 10, b: 0, c: 0, d: 9 }),
                    port: 53,
                }),
            },
        )
        .is_ok());
    let owners = st.drain_send_owners();
    assert_eq!(owners, vec![ForeignOwner { token: 1 }, ForeignOwner { token: 2 }]);
    let s1 = st.get_smol_socket(k1).expect("socket exists");
    assert_eq!(s1.to_send.len(), 0);
    let s2 = st.get_smol_socket(k2).expect("socket exists");
    assert_eq!(s2.to_send.len(), 0);
}

#[test]
fn device_drain_returns_frame_owners_in_order() {
    let mut dev = VirtualTunInterface::new();
    dev.send(Blob::wrap_foreign(vec![1], ForeignOwner { token: 9 }));
    dev.send(Blob::wrap_local(vec![2]));
    dev.send(Blob::wrap_foreign(vec![3], ForeignOwner { token: 8 }));
    let owners = dev.drain_frame_owners();
    assert_eq!(owners, vec![ForeignOwner { token: 9 }, ForeignOwner { token: 8 }]);
    assert!(dev.recv().is_none());
}
