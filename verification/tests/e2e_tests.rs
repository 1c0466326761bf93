//! End-to-end scenario: a real protocol-engine interface runs on top of the
//! library's virtual device queues. The test plays the remote peer by
//! parsing the raw frames the engine emits and injecting handcrafted
//! replies (ARP reply, TCP SYN-ACK), then checks that application bytes
//! submitted through the stack come out as a raw TCP frame.

use std::cell::RefCell;
use std::collections::BTreeMap;
use std::rc::Rc;

use smoltcp::iface::{EthernetInterfaceBuilder, NeighborCache, Routes};
use smoltcp::phy::{ChecksumCapabilities, Device, DeviceCapabilities, RxToken, TxToken};
use smoltcp::time::Instant;
use smoltcp::wire::{
    ArpOperation, ArpPacket, ArpRepr, EthernetAddress, EthernetFrame, EthernetProtocol,
    EthernetRepr, IpAddress, IpCidr, IpProtocol, Ipv4Address, Ipv4Packet, Ipv4Repr, TcpControl,
    TcpPacket, TcpRepr, TcpSeqNumber,
};

use virtual_tun::addr::{Ipv4Addr, Ipv4Cidr};
use virtual_tun::blob::{Blob, Packet};
use virtual_tun::device::VirtualTunInterface;
use virtual_tun::socket::SocketType;
use virtual_tun::stack::SmolStack;

struct TestDevice {
    dev: Rc<RefCell<VirtualTunInterface>>,
}

struct TestRxToken {
    buffer: Vec<u8>,
}

struct TestTxToken {
    dev: Rc<RefCell<VirtualTunInterface>>,
}

impl<'a> Device<'a> for TestDevice {
    type RxToken = TestRxToken;
    type TxToken = TestTxToken;

    fn receive(&'a mut self) -> Option<(TestRxToken, TestTxToken)> {
        let popped = self.dev.borrow_mut().recv();
        match popped {
            Some(blob) => {
                let buffer = blob.copy_remaining();
                let _ = blob.into_owner();
                Some((TestRxToken { buffer }, TestTxToken { dev: self.dev.clone() }))
            }
            None => None,
        }
    }

    fn transmit(&'a mut self) -> Option<TestTxToken> {
        Some(TestTxToken { dev: self.dev.clone() })
    }

    fn capabilities(&self) -> DeviceCapabilities {
        let mut caps = DeviceCapabilities::default();
        caps.max_transmission_unit = 1514;
        caps
    }
}

impl RxToken for TestRxToken {
    fn consume<R, F>(mut self, _timestamp: Instant, f: F) -> smoltcp::Result<R>
    where
        F: FnOnce(&mut [u8]) -> smoltcp::Result<R>,
    {
        f(&mut self.buffer)
    }
}

impl TxToken for TestTxToken {
    fn consume<R, F>(self, _timestamp: Instant, len: usize, f: F) -> smoltcp::Result<R>
    where
        F: FnOnce(&mut [u8]) -> smoltcp::Result<R>,
    {
        let mut buffer = vec![0u8; len];
        let result = f(&mut buffer);
        if result.is_ok() {
            self.dev.borrow_mut().transmit_commit(buffer);
        }
        result
    }
}

fn build_tcp_frame(
    src_mac: EthernetAddress,
    dst_mac: EthernetAddress,
    src_ip: Ipv4Address,
    dst_ip: Ipv4Address,
    tcp: &TcpRepr,
) -> Vec<u8> {
    let caps = ChecksumCapabilities::default();
    let ip = Ipv4Repr {
        src_addr: src_ip,
        dst_addr: dst_ip,
        protocol: IpProtocol::Tcp,
        payload_len: tcp.buffer_len(),
        hop_limit: 64,
    };
    let mut bytes = vec![0u8; 14 + ip.buffer_len() + tcp.buffer_len()];
    let mut eth = EthernetFrame::new_unchecked(&mut bytes[..]);
    EthernetRepr { src_addr: src_mac, dst_addr: dst_mac, ethertype: EthernetProtocol::Ipv4 }
        .emit(&mut eth);
    let mut ipp = Ipv4Packet::new_unchecked(eth.payload_mut());
    ip.emit(&mut ipp, &caps);
    let mut tcpp = TcpPacket::new_unchecked(ipp.payload_mut());
    tcp.emit(&mut tcpp, &IpAddress::Ipv4(src_ip), &IpAddress::Ipv4(dst_ip), &caps);
    bytes
}

fn build_arp_reply(
    remote_mac: EthernetAddress,
    our_mac: EthernetAddress,
    remote_ip: Ipv4Address,
    our_ip: Ipv4Address,
) -> Vec<u8> {
    let arp = ArpRepr::EthernetIpv4 {
        operation: ArpOperation::Reply,
        source_hardware_addr: remote_mac,
        source_protocol_addr: remote_ip,
        target_hardware_addr: our_mac,
        target_protocol_addr: our_ip,
    };
    let mut bytes = vec![0u8; 14 + arp.buffer_len()];
    let mut eth = EthernetFrame::new_unchecked(&mut bytes[..]);
    EthernetRepr { src_addr: remote_mac, dst_addr: our_mac, ethertype: EthernetProtocol::Arp }
        .emit(&mut eth);
    let mut arpp = ArpPacket::new_unchecked(eth.payload_mut());
    arp.emit(&mut arpp);
    bytes
}

#[test]
fn tcp_payload_reaches_the_wire() {
    let our_mac = EthernetAddress([0x02, 0, 0, 0, 0, 1]);
    let remote_mac = EthernetAddress([0x02, 0, 0, 0, 0, 2]);
    let our_ip = Ipv4Address::new(192, 168, 1, 2);
    let remote_ip = Ipv4Address::new(192, 168, 1, 1);

    // configure the stack: one TCP socket, one local address, a gateway
    let mut stack = SmolStack::new();
    let handle = stack.new_socket_handle_key();
    assert_eq!(stack.add_socket(SocketType::TCP, handle), Ok(()));
    stack.add_ipv4_address(Ipv4Cidr {
        address: Ipv4Addr { a: 192, b: 168, c: 1, d: 2 },
        prefix: 24,
    });
    stack.add_default_v4_gateway(Ipv4Addr { a: 192, b: 168, c: 1, d: 1 });
    assert_eq!(stack.finalize(), Ok(()));

    // the engine's interface over the library's virtual device queues
    let dev_state = Rc::new(RefCell::new(VirtualTunInterface::new()));
    let mut routes = Routes::new(BTreeMap::new());
    routes.add_default_ipv4_route(remote_ip).unwrap();
    let mut iface = EthernetInterfaceBuilder::new(TestDevice { dev: dev_state.clone() })
        .ethernet_addr(our_mac)
        .neighbor_cache(NeighborCache::new(BTreeMap::new()))
        .ip_addrs(vec![IpCidr::new(IpAddress::Ipv4(our_ip), 24)])
        .routes(routes)
        .finalize();

    assert_eq!(stack.tcp_connect_ipv4(handle, Ipv4Addr { a: 192, b: 168, c: 1, d: 1 }, 49500, 80), Ok(()));

    let mut payload_submitted = false;
    let mut payload_seen_at_offset = false;
    let mut synack_sent = false;
    let mut pong_sent = false;
    let mut pong_received = false;

    for tick in 0..60i64 {
        let timestamp = Instant::from_millis(tick * 500);
        let _ = iface.poll(&mut stack.sockets, timestamp);
        assert!(stack.spin(handle).is_ok());

        // once the engine will accept data, submit the payload
        if synack_sent && !payload_submitted {
            let r = stack.socket_send(
                handle,
                Packet { blob: Blob::wrap_local(b"ping".to_vec()), endpoint: None },
            );
            assert!(r.is_ok());
            payload_submitted = true;
        }

        // play the remote peer: drain outbound frames, craft replies
        let mut frames: Vec<Vec<u8>> = Vec::new();
        loop {
            let f = dev_state.borrow_mut().receive_instantly();
            match f {
                Some(frame) => frames.push(frame),
                None => break,
            }
        }
        let mut replies: Vec<Vec<u8>> = Vec::new();
        for frame in frames {
            let eth = EthernetFrame::new_checked(&frame[..]).expect("valid ethernet frame");
            match eth.ethertype() {
                EthernetProtocol::Arp => {
                    let arp = ArpPacket::new_checked(eth.payload()).expect("valid arp");
                    if let ArpRepr::EthernetIpv4 {
                        operation: ArpOperation::Request,
                        target_protocol_addr,
                        ..
                    } = ArpRepr::parse(&arp).expect("parsed arp")
                    {
                        if target_protocol_addr == remote_ip {
                            replies.push(build_arp_reply(remote_mac, our_mac, remote_ip, our_ip));
                        }
                    }
                }
                EthernetProtocol::Ipv4 => {
                    let ip = Ipv4Packet::new_checked(eth.payload()).expect("valid ipv4");
                    if ip.protocol() != IpProtocol::Tcp {
                        continue;
                    }
                    let tcp = TcpPacket::new_checked(ip.payload()).expect("valid tcp");
                    if tcp.syn() && !tcp.ack() {
                        // three-way handshake response
                        let synack = TcpRepr {
                            src_port: 80,
                            dst_port: 49500,
                            control: TcpControl::Syn,
                            seq_number: TcpSeqNumber(10000),
                            ack_number: Some(tcp.seq_number() + 1),
                            window_len: 64000,
                            window_scale: None,
                            max_seg_size: Some(1460),
                            sack_permitted: false,
                            sack_ranges: [None, None, None],
                            payload: &[],
                        };
                        replies.push(build_tcp_frame(
                            remote_mac, our_mac, remote_ip, our_ip, &synack,
                        ));
                        synack_sent = true;
                    } else if payload_submitted {
                        // a data segment: Ethernet (14) + IPv4 (20) + TCP (20)
                        // headers put the payload at byte offset 54
                        let header_len = 14 + 20 + (tcp.header_len() as usize);
                        if frame.len() >= header_len + 4 && &frame[header_len..header_len + 4] == b"ping" {
                            assert_eq!(header_len, 54);
                            payload_seen_at_offset = true;
                            if !pong_sent {
                                // acknowledge the data and answer with a
                                // payload of our own
                                let reply = TcpRepr {
                                    src_port: 80,
                                    dst_port: 49500,
                                    control: TcpControl::None,
                                    seq_number: TcpSeqNumber(10001),
                                    ack_number: Some(tcp.seq_number() + 4),
                                    window_len: 64000,
                                    window_scale: None,
                                    max_seg_size: None,
                                    sack_permitted: false,
                                    sack_ranges: [None, None, None],
                                    payload: b"pong",
                                };
                                replies.push(build_tcp_frame(
                                    remote_mac, our_mac, remote_ip, our_ip, &reply,
                                ));
                                pong_sent = true;
                            }
                        }
                    }
                }
                _ => {}
            }
        }
        for reply in replies {
            dev_state.borrow_mut().send(Blob::wrap_local(reply));
        }

        // the pump drains what the engine received; the remote's payload
        // then comes out of the socket's inbound queue
        if let Ok(bytes) = stack.socket_receive(handle) {
            assert_eq!(bytes, b"pong".to_vec());
            pong_received = true;
        }
        if payload_seen_at_offset && pong_received {
            break;
        }
    }
    assert!(payload_seen_at_offset, "payload frame never appeared on the wire");
    assert!(pong_received, "remote payload never reached the socket");
}
