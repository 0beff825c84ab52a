use uefi_net::arp;
use uefi_net::demux::{Delivery, QueueFull};
use uefi_net::ethernet::{self, MacAddress};
use uefi_net::icmp;
use uefi_net::ip::{self, Address, Protocol};

const HOST_MAC: [u8; 6] = [0x02, 0, 0, 0, 0, 0x01];
const PEER_MAC: [u8; 6] = [0x02, 0, 0, 0, 0, 0x02];
const GATEWAY_MAC: [u8; 6] = [0x02, 0, 0, 0, 0, 0x03];
const HOST_IP: [u8; 4] = [172, 23, 71, 108];
const PEER_IP: [u8; 4] = [172, 23, 71, 14];
const GATEWAY_IP: [u8; 4] = [172, 23, 71, 1];
const NETMASK: [u8; 4] = [255, 255, 255, 0];

struct Stack {
    eth: ethernet::Service,
    arp: arp::Service,
    ip: ip::Service,
    icmp: icmp::Service,
}

fn stack() -> Stack {
    let mut eth = ethernet::Service::new(MacAddress(HOST_MAC));
    let arp = arp::Service::new(Address(HOST_IP), MacAddress(HOST_MAC), &mut eth);
    let mut ip = ip::Service::new(&mut eth, Address(HOST_IP), Address(NETMASK), Address(GATEWAY_IP));
    let icmp = icmp::Service::new(&mut ip);
    Stack { eth, arp, ip, icmp }
}

/// An ARP message from `sha`/`spa` to `tha`/`tpa`, as it arrives on the wire.
fn arp_frame(op: u16, sha: [u8; 6], spa: [u8; 4], tha: [u8; 6], tpa: [u8; 4]) -> ethernet::Packet {
    let mut raw = vec![0xffu8, 0xff, 0xff, 0xff, 0xff, 0xff];
    raw.extend_from_slice(&sha);
    raw.extend_from_slice(&[0x08, 0x06, 0, 1, 0x08, 0x00, 6, 4]);
    raw.extend_from_slice(&op.to_be_bytes());
    raw.extend_from_slice(&sha);
    raw.extend_from_slice(&spa);
    raw.extend_from_slice(&tha);
    raw.extend_from_slice(&tpa);
    ethernet::Packet::from_wire(&raw)
}

/// Drains the transmit queue.
fn sent(eth: &mut ethernet::Service) -> Vec<ethernet::Packet> {
    let mut out = Vec::new();
    while let Some(p) = eth.next_outgoing() {
        out.push(p);
    }
    out
}

fn arp_view(p: ethernet::Packet) -> arp::Packet {
    arp::Packet { eth: p }
}

/// Teaches the host's ARP cache the given mapping through an inbound reply.
fn teach(s: &mut Stack, mac: [u8; 6], addr: [u8; 4]) {
    let f = arp_frame(2, mac, addr, HOST_MAC, HOST_IP);
    assert_eq!(s.arp.handle(&mut s.eth, f), Ok(()));
}

#[test]
fn ethernet_header_fields() {
    let mut p = ethernet::Packet::new();
    assert_eq!(p.size(), 0);
    assert_eq!(p.header_size(), 14);
    p.set_mac_destination(MacAddress(PEER_MAC));
    p.set_mac_source(MacAddress(HOST_MAC));
    p.set_ether_type(ethernet::Type::Arp);
    p.set_size(4);
    assert_eq!(p.mac_destination(), MacAddress(PEER_MAC));
    assert_eq!(p.mac_source(), MacAddress(HOST_MAC));
    assert_eq!(p.ether_type(), ethernet::Type::Arp);
    assert_eq!(p.data(), &[0, 0, 0, 0]);
    let wire = p.wire_bytes();
    assert_eq!(wire.len(), 18);
    assert_eq!(&wire[12..14], &[0x08, 0x06]);
}

#[test]
fn ethernet_frame_from_wire() {
    let raw = [1u8, 2, 3, 4, 5, 6, 7, 8, 9, 10, 11, 12, 0x86, 0xdd, 42, 43];
    let p = ethernet::Packet::from_wire(&raw);
    assert_eq!(p.size(), 2);
    assert_eq!(p.data(), &[42, 43]);
    assert_eq!(p.ether_type(), ethernet::Type::Other(0x86dd));
    assert_eq!(p.mac_source(), MacAddress([7, 8, 9, 10, 11, 12]));
    assert_eq!(ethernet::Packet::from_wire(&raw[..5]).size(), 0);
}

#[test]
fn wire_codes_round_trip() {
    assert_eq!(ethernet::Type::from_code(0x0800), ethernet::Type::Ipv4);
    assert_eq!(ethernet::Type::Wol.code(), 0x0842);
    assert_eq!(Protocol::from_code(17), Protocol::Udp);
    assert_eq!(Protocol::Other(99).code(), 99);
    assert_eq!(arp::Operation::from_code(2), arp::Operation::Response);
    assert_eq!(arp::HardwareType::from_code(6), arp::HardwareType::Other(6));
    assert_eq!(icmp::Type::from_code(43), icmp::Type::ExtendedEchoReply);
    assert_eq!(icmp::Type::TimeExceeded.code(), 11);
}

#[test]
fn wire_codes_compare_by_code() {
    assert_eq!(ethernet::Type::Other(0x0800), ethernet::Type::Ipv4);
    assert_ne!(ethernet::Type::Other(0x0801), ethernet::Type::Ipv4);
    assert_eq!(Protocol::Other(1), Protocol::Icmp);
    assert_eq!(arp::Operation::Other(2), arp::Operation::Response);
    assert_eq!(arp::HardwareType::Other(1), arp::HardwareType::Ethernet);
    assert_eq!(icmp::Type::Other(8), icmp::Type::EchoRequest);
    let mut p = ethernet::Packet::new();
    p.set_ether_type(ethernet::Type::Other(0x0806));
    assert_eq!(p.ether_type(), ethernet::Type::Arp);
}

#[test]
fn mac_address_number_round_trip() {
    let m = MacAddress([0x12, 0x34, 0x56, 0x78, 0x9a, 0xbc]);
    assert_eq!(m.number(), 0x123456789abc);
    assert_eq!(MacAddress::from_number(0x123456789abc), m);
    assert_eq!(MacAddress::broadcast(), MacAddress([0xff; 6]));
}

#[test]
fn address_masking() {
    let a = Address([172, 23, 71, 108]).bitand(Address(NETMASK));
    assert_eq!(a, Address([172, 23, 71, 0]));
    assert_eq!(Address([1, 2, 3, 4]).number(), 0x01020304);
}

#[test]
fn arp_packet_fields() {
    let p = arp_view(arp_frame(1, PEER_MAC, PEER_IP, [0; 6], HOST_IP));
    assert_eq!(p.hardware_type(), arp::HardwareType::Ethernet);
    assert_eq!(p.protocol_type(), ethernet::Type::Ipv4);
    assert_eq!(p.hardware_len(), 6);
    assert_eq!(p.protocol_len(), 4);
    assert_eq!(p.operation(), arp::Operation::Request);
    assert_eq!(p.sender_hardware_address(), MacAddress(PEER_MAC));
    assert_eq!(p.sender_protocol_address(), Address(PEER_IP));
    assert_eq!(p.target_hardware_address(), MacAddress([0; 6]));
    assert_eq!(p.target_protocol_address(), Address(HOST_IP));
}

#[test]
fn arp_request_for_host_is_answered_and_learned() {
    let mut s = stack();
    let f = arp_frame(1, PEER_MAC, PEER_IP, [0; 6], HOST_IP);
    assert_eq!(s.arp.handle(&mut s.eth, f), Ok(()));
    let out = sent(&mut s.eth);
    assert_eq!(out.len(), 1);
    let reply = arp_view(out.into_iter().next().unwrap());
    assert_eq!(reply.eth.mac_destination(), MacAddress(PEER_MAC));
    assert_eq!(reply.eth.mac_source(), MacAddress(HOST_MAC));
    assert_eq!(reply.eth.ether_type(), ethernet::Type::Arp);
    assert_eq!(reply.eth.size(), 28);
    assert_eq!(reply.operation(), arp::Operation::Response);
    assert_eq!(reply.sender_hardware_address(), MacAddress(HOST_MAC));
    assert_eq!(reply.sender_protocol_address(), Address(HOST_IP));
    assert_eq!(reply.target_hardware_address(), MacAddress(PEER_MAC));
    assert_eq!(reply.target_protocol_address(), Address(PEER_IP));
    // The request also taught the cache.
    assert_eq!(s.arp.lookup(&mut s.eth, &Address(PEER_IP)), Ok(Some(MacAddress(PEER_MAC))));
    assert!(sent(&mut s.eth).is_empty());
}

#[test]
fn arp_request_for_another_host_is_learned_not_answered() {
    let mut s = stack();
    let f = arp_frame(1, PEER_MAC, PEER_IP, [0; 6], [172, 23, 71, 99]);
    assert_eq!(s.arp.handle(&mut s.eth, f), Ok(()));
    assert!(sent(&mut s.eth).is_empty());
    assert_eq!(s.arp.lookup(&mut s.eth, &Address(PEER_IP)), Ok(Some(MacAddress(PEER_MAC))));
}

#[test]
fn arp_learned_mapping_resolves_without_request() {
    let mut s = stack();
    teach(&mut s, PEER_MAC, PEER_IP);
    assert!(sent(&mut s.eth).is_empty());
    assert_eq!(s.arp.lookup(&mut s.eth, &Address(PEER_IP)), Ok(Some(MacAddress(PEER_MAC))));
    assert!(sent(&mut s.eth).is_empty());
    // Last observation wins.
    teach(&mut s, GATEWAY_MAC, PEER_IP);
    assert_eq!(s.arp.lookup(&mut s.eth, &Address(PEER_IP)), Ok(Some(MacAddress(GATEWAY_MAC))));
}

#[test]
fn arp_lookup_of_unknown_address_broadcasts_request() {
    let mut s = stack();
    assert_eq!(s.arp.lookup(&mut s.eth, &Address(PEER_IP)), Ok(None));
    let out = sent(&mut s.eth);
    assert_eq!(out.len(), 1);
    let req = arp_view(out.into_iter().next().unwrap());
    assert_eq!(req.eth.mac_destination(), MacAddress::broadcast());
    assert_eq!(req.eth.ether_type(), ethernet::Type::Arp);
    assert_eq!(req.operation(), arp::Operation::Request);
    assert_eq!(req.sender_hardware_address(), MacAddress(HOST_MAC));
    assert_eq!(req.sender_protocol_address(), Address(HOST_IP));
    assert_eq!(req.target_protocol_address(), Address(PEER_IP));
}

#[test]
fn arp_frame_of_other_protocol_is_dropped() {
    let mut s = stack();
    let mut f = arp_frame(1, PEER_MAC, PEER_IP, [0; 6], HOST_IP);
    f.write_u16(2, 0x86dd);
    assert_eq!(s.arp.handle(&mut s.eth, f), Ok(()));
    assert!(sent(&mut s.eth).is_empty());
    assert_eq!(s.arp.lookup(&mut s.eth, &Address(PEER_IP)), Ok(None));
}

#[test]
fn arp_poll_takes_frames_from_its_socket() {
    let mut s = stack();
    assert_eq!(s.arp.poll(&mut s.eth), Ok(false));
    let f = arp_frame(2, PEER_MAC, PEER_IP, HOST_MAC, HOST_IP);
    assert_eq!(s.eth.deliver(f), Delivery::Queued);
    assert_eq!(s.arp.poll(&mut s.eth), Ok(true));
    assert_eq!(s.arp.lookup(&mut s.eth, &Address(PEER_IP)), Ok(Some(MacAddress(PEER_MAC))));
}

#[test]
fn routing_decision_picks_direct_or_gateway() {
    let s = stack();
    assert_eq!(s.ip.route(&Address(PEER_IP)), Address(PEER_IP));
    assert_eq!(s.ip.route(&Address([8, 8, 8, 8])), Address(GATEWAY_IP));
}

fn ip_packet_to(dest: [u8; 4]) -> ip::Packet {
    let mut p = ip::Packet::new();
    p.set_protocol(Protocol::Icmp);
    p.set_destination_address(&Address(dest));
    p.set_size(4);
    p
}

#[test]
fn routing_resolves_local_destination_directly() {
    let mut s = stack();
    assert_eq!(s.ip.send(&s.arp, &mut s.eth, ip_packet_to(PEER_IP)), Ok(false));
    let out = sent(&mut s.eth);
    assert_eq!(out.len(), 1);
    assert_eq!(arp_view(out.into_iter().next().unwrap()).target_protocol_address(), Address(PEER_IP));
}

#[test]
fn routing_resolves_remote_destination_through_gateway() {
    let mut s = stack();
    assert_eq!(s.ip.send(&s.arp, &mut s.eth, ip_packet_to([8, 8, 8, 8])), Ok(false));
    let out = sent(&mut s.eth);
    assert_eq!(out.len(), 1);
    assert_eq!(arp_view(out.into_iter().next().unwrap()).target_protocol_address(), Address(GATEWAY_IP));
}

#[test]
fn ip_send_fills_source_and_checksum() {
    let mut s = stack();
    teach(&mut s, GATEWAY_MAC, GATEWAY_IP);
    assert_eq!(s.ip.send(&s.arp, &mut s.eth, ip_packet_to([8, 8, 8, 8])), Ok(true));
    let out = sent(&mut s.eth);
    assert_eq!(out.len(), 1);
    let p = ip::Packet { eth: out.into_iter().next().unwrap() };
    assert_eq!(p.eth.mac_destination(), MacAddress(GATEWAY_MAC));
    assert_eq!(p.eth.ether_type(), ethernet::Type::Ipv4);
    assert_eq!(p.source_address(), Address(HOST_IP));
    assert_eq!(p.destination_address(), Address([8, 8, 8, 8]));
    assert_eq!(p.version(), 4);
    assert_eq!(p.header_len(), 20);
    assert_eq!(p.total_len(), 24);
    assert_eq!(p.size(), 4);
    assert_eq!(p.ttl(), 255);
    assert_eq!(p.identification(), 0);
    assert_eq!(p.protocol(), Protocol::Icmp);
    assert_ne!(p.header_checksum(), 0);
    assert_eq!(ip::checksum(p.header()), 0);
    assert_eq!(p.data(), &[0, 0, 0, 0]);
}

#[test]
fn ip_send_keeps_a_set_source_and_destination_mac() {
    let mut s = stack();
    let mut p = ip_packet_to(PEER_IP);
    p.set_source_address(&Address([10, 0, 0, 1]));
    p.eth.set_mac_destination(MacAddress(PEER_MAC));
    assert_eq!(s.ip.send(&s.arp, &mut s.eth, p), Ok(true));
    let out = sent(&mut s.eth);
    let q = ip::Packet { eth: out.into_iter().next().unwrap() };
    assert_eq!(q.source_address(), Address([10, 0, 0, 1]));
    assert_eq!(q.eth.mac_destination(), MacAddress(PEER_MAC));
}

#[test]
fn ip_packet_header_setters() {
    let mut p = ip::Packet::new();
    p.set_version(6);
    p.set_identification(0x1234);
    p.set_ttl(7);
    p.set_header_checksum(0xabcd);
    p.set_total_len(40);
    assert_eq!(p.version(), 6);
    assert_eq!(p.header_len(), 20);
    assert_eq!(p.identification(), 0x1234);
    assert_eq!(p.ttl(), 7);
    assert_eq!(p.header_checksum(), 0xabcd);
    assert_eq!(p.total_len(), 40);
    assert_eq!(p.eth.size(), 40);
    assert_eq!(p.header().len(), 20);
    assert_eq!(p.data().len(), 20);
    p.set_header_len(24);
    assert_eq!(p.header_len(), 24);
}

/// An inbound IPv4 frame from the peer carrying an ICMP echo message.
fn inbound_echo(t: icmp::Type, id: u16, seq: u16, data: &[u8]) -> ethernet::Packet {
    let mut m = match t {
        icmp::Type::EchoRequest => icmp::echo_request(id, seq, &Address(HOST_IP), data),
        _ => {
            let mut m = icmp::echo_request(id, seq, &Address(HOST_IP), data);
            m.set_type(t);
            m.set_checksum(0);
            let c = ip::checksum(m.ip.data());
            m.set_checksum(c);
            m
        }
    };
    m.ip.set_protocol(Protocol::Icmp);
    m.ip.set_source_address(&Address(PEER_IP));
    m.ip.set_header_checksum(0);
    let c = ip::checksum(m.ip.header());
    m.ip.set_header_checksum(c);
    m.ip.eth.set_mac_destination(MacAddress(HOST_MAC));
    m.ip.eth.set_mac_source(MacAddress(PEER_MAC));
    ethernet::Packet::from_wire(m.ip.eth.wire_bytes())
}

#[test]
fn icmp_echo_reply_copies_request() {
    let frame = inbound_echo(icmp::Type::EchoRequest, 5, 1, &[1, 2, 3]);
    let request = icmp::Packet { ip: ip::Packet { eth: frame } };
    let reply = icmp::echo_reply(&request);
    assert_eq!(reply.typ(), icmp::Type::EchoReply);
    assert_eq!(reply.code(), 0);
    assert_eq!(reply.identifier(), 5);
    assert_eq!(reply.sequence_number(), 1);
    assert_eq!(reply.data(), &[1, 2, 3]);
    assert_eq!(reply.ip.destination_address(), Address(PEER_IP));
    assert_eq!(ip::checksum(reply.ip.data()), 0);
}

#[test]
fn icmp_echo_round_trip() {
    let mut s = stack();
    teach(&mut s, PEER_MAC, PEER_IP);
    let frame = inbound_echo(icmp::Type::EchoRequest, 5, 1, &[1, 2, 3]);
    assert_eq!(s.eth.deliver(frame), Delivery::Queued);
    assert_eq!(s.ip.poll(&mut s.eth), Some(Delivery::Queued));
    assert_eq!(s.icmp.poll(&mut s.ip, &s.arp, &mut s.eth), Ok(Some(icmp::Handled::Replied(true))));
    let out = sent(&mut s.eth);
    assert_eq!(out.len(), 1);
    let reply = icmp::Packet { ip: ip::Packet { eth: out.into_iter().next().unwrap() } };
    assert_eq!(reply.ip.eth.mac_destination(), MacAddress(PEER_MAC));
    assert_eq!(reply.ip.destination_address(), Address(PEER_IP));
    assert_eq!(reply.ip.source_address(), Address(HOST_IP));
    assert_eq!(reply.ip.protocol(), Protocol::Icmp);
    assert_eq!(ip::checksum(reply.ip.header()), 0);
    assert_eq!(reply.typ(), icmp::Type::EchoReply);
    assert_eq!(reply.identifier(), 5);
    assert_eq!(reply.sequence_number(), 1);
    assert_eq!(reply.data(), &[1, 2, 3]);
    assert_eq!(ip::checksum(reply.ip.data()), 0);
}

#[test]
fn icmp_echo_request_with_unresolved_source_asks_arp() {
    let mut s = stack();
    let frame = inbound_echo(icmp::Type::EchoRequest, 5, 1, &[1, 2, 3]);
    let p = icmp::Packet { ip: ip::Packet { eth: frame } };
    assert_eq!(s.icmp.handle(&s.ip, &s.arp, &mut s.eth, p), Ok(icmp::Handled::Replied(false)));
    let out = sent(&mut s.eth);
    assert_eq!(out.len(), 1);
    assert_eq!(arp_view(out.into_iter().next().unwrap()).target_protocol_address(), Address(PEER_IP));
}

#[test]
fn icmp_poll_handles_the_waiting_packet() {
    let mut s = stack();
    assert_eq!(s.icmp.poll(&mut s.ip, &s.arp, &mut s.eth), Ok(None));
    let mut frame = inbound_echo(icmp::Type::EchoRequest, 5, 1, &[1, 2, 3]);
    frame.write_u8(20 + 8, 9);
    assert_eq!(s.ip.handle(frame), Delivery::Queued);
    assert_eq!(s.icmp.poll(&mut s.ip, &s.arp, &mut s.eth), Ok(Some(icmp::Handled::Rejected)));
    assert_eq!(s.icmp.poll(&mut s.ip, &s.arp, &mut s.eth), Ok(None));
}

#[test]
fn icmp_reply_reaches_its_ping_socket() {
    let mut s = stack();
    let pinger = s.icmp.open(Address(PEER_IP));
    assert_eq!(pinger.identifier(), 0);
    assert_eq!(pinger.ip_address(), Address(PEER_IP));
    let other = s.icmp.open(Address([8, 8, 8, 8]));
    assert_eq!(other.identifier(), 1);
    assert!(pinger.receive(&mut s.icmp).is_none());
    let frame = inbound_echo(icmp::Type::EchoReply, 0, 0, &[1, 2, 3]);
    let p = icmp::Packet { ip: ip::Packet { eth: frame } };
    assert_eq!(s.icmp.handle(&s.ip, &s.arp, &mut s.eth, p), Ok(icmp::Handled::Delivered));
    let got = pinger.receive(&mut s.icmp).unwrap();
    assert_eq!(got.data(), &[1, 2, 3]);
    assert_eq!(got.ip.source_address(), Address(PEER_IP));
    assert!(other.receive(&mut s.icmp).is_none());
}

#[test]
fn icmp_reply_without_socket_is_unrequested() {
    let mut s = stack();
    let frame = inbound_echo(icmp::Type::EchoReply, 9, 0, &[1]);
    let p = icmp::Packet { ip: ip::Packet { eth: frame } };
    assert_eq!(s.icmp.handle(&s.ip, &s.arp, &mut s.eth, p), Ok(icmp::Handled::Unrequested));
}

#[test]
fn icmp_bad_checksum_is_rejected() {
    let mut s = stack();
    let mut frame = inbound_echo(icmp::Type::EchoRequest, 5, 1, &[1, 2, 3]);
    frame.write_u8(20 + 8, 9);
    let p = icmp::Packet { ip: ip::Packet { eth: frame } };
    assert_eq!(s.icmp.handle(&s.ip, &s.arp, &mut s.eth, p), Ok(icmp::Handled::Rejected));
    assert!(sent(&mut s.eth).is_empty());
}

#[test]
fn icmp_other_type_is_ignored() {
    let mut s = stack();
    let frame = inbound_echo(icmp::Type::TimeExceeded, 5, 1, &[1, 2, 3]);
    let p = icmp::Packet { ip: ip::Packet { eth: frame } };
    assert_eq!(s.icmp.handle(&s.ip, &s.arp, &mut s.eth, p), Ok(icmp::Handled::Ignored));
}

#[test]
fn ping_socket_sends_echo_request() {
    let mut s = stack();
    teach(&mut s, PEER_MAC, PEER_IP);
    let pinger = s.icmp.open(Address(PEER_IP));
    assert_eq!(pinger.send(&s.icmp, &s.ip, &s.arp, &mut s.eth, &[1, 2, 3]), Ok(true));
    let out = sent(&mut s.eth);
    let m = icmp::Packet { ip: ip::Packet { eth: out.into_iter().next().unwrap() } };
    assert_eq!(m.typ(), icmp::Type::EchoRequest);
    assert_eq!(m.identifier(), 0);
    assert_eq!(m.sequence_number(), 0);
    assert_eq!(m.data(), &[1, 2, 3]);
    assert_eq!(m.ip.protocol(), Protocol::Icmp);
    assert_eq!(m.ip.destination_address(), Address(PEER_IP));
    assert_eq!(m.ip.eth.mac_destination(), MacAddress(PEER_MAC));
    assert_eq!(ip::checksum(m.ip.data()), 0);
}

#[test]
fn icmp_packet_setters() {
    let mut m = icmp::Packet::new();
    m.set_data(&[9, 8]);
    m.set_type(icmp::Type::Timestamp);
    m.set_code(3);
    m.set_identifier(0x0102);
    m.set_sequence_number(0x0304);
    m.set_checksum(0x0506);
    assert_eq!(m.typ(), icmp::Type::Timestamp);
    assert_eq!(m.code(), 3);
    assert_eq!(m.identifier(), 0x0102);
    assert_eq!(m.sequence_number(), 0x0304);
    assert_eq!(m.checksum(), 0x0506);
    assert_eq!(m.data(), &[9, 8]);
    assert_eq!(m.ip.total_len(), 30);
}

#[test]
fn ip_rejects_bad_header_checksum() {
    let mut s = stack();
    let mut frame = inbound_echo(icmp::Type::EchoRequest, 5, 1, &[1]);
    frame.write_u8(8, 1);
    assert_eq!(s.ip.handle(frame), Delivery::Rejected);
}

#[test]
fn ip_unclaimed_protocol_is_dropped() {
    let mut eth = ethernet::Service::new(MacAddress(HOST_MAC));
    let mut ip = ip::Service::new(&mut eth, Address(HOST_IP), Address(NETMASK), Address(GATEWAY_IP));
    let frame = inbound_echo(icmp::Type::EchoRequest, 5, 1, &[1]);
    assert_eq!(ip.handle(frame), Delivery::Unclaimed);
}

#[test]
fn ethernet_unclaimed_ethertype_is_dropped() {
    let mut eth = ethernet::Service::new(MacAddress(HOST_MAC));
    let frame = arp_frame(1, PEER_MAC, PEER_IP, [0; 6], HOST_IP);
    assert_eq!(eth.deliver(frame), Delivery::Unclaimed);
}

#[test]
fn receive_queue_full_drops_frame() {
    let mut eth = ethernet::Service::new(MacAddress(HOST_MAC));
    let socket = eth.open(ethernet::Type::Arp);
    for _ in 0..16 {
        assert_eq!(eth.deliver(arp_frame(1, PEER_MAC, PEER_IP, [0; 6], HOST_IP)), Delivery::Queued);
    }
    assert_eq!(eth.deliver(arp_frame(1, PEER_MAC, PEER_IP, [0; 6], HOST_IP)), Delivery::QueueFull);
    let mut n = 0;
    while socket.receive(&mut eth).is_some() {
        n += 1;
    }
    assert_eq!(n, 16);
}

#[test]
fn later_open_of_an_ethertype_wins() {
    let mut eth = ethernet::Service::new(MacAddress(HOST_MAC));
    let first = eth.open(ethernet::Type::Arp);
    let second = eth.open(ethernet::Type::Arp);
    assert_eq!(eth.deliver(arp_frame(1, PEER_MAC, PEER_IP, [0; 6], HOST_IP)), Delivery::Queued);
    assert!(first.receive(&mut eth).is_none());
    assert!(second.receive(&mut eth).is_some());
}

#[test]
fn transmit_queue_full_is_an_error() {
    let mut eth = ethernet::Service::new(MacAddress(HOST_MAC));
    let socket = eth.open(ethernet::Type::Ipv4);
    for _ in 0..16 {
        assert!(socket.send(&mut eth, ethernet::Packet::new()).is_ok());
    }
    assert!(socket.send(&mut eth, ethernet::Packet::new()).is_err());
    let out = sent(&mut eth);
    assert_eq!(out.len(), 16);
    assert_eq!(out[0].ether_type(), ethernet::Type::Ipv4);
}

#[test]
fn arp_lookup_with_full_transmit_queue_is_an_error() {
    let mut s = stack();
    let socket = s.eth.open(ethernet::Type::Wol);
    for _ in 0..16 {
        assert!(socket.send(&mut s.eth, ethernet::Packet::new()).is_ok());
    }
    assert_eq!(s.arp.lookup(&mut s.eth, &Address(PEER_IP)), Err(QueueFull));
}

#[test]
fn arp_frame_too_short_is_dropped() {
    let mut s = stack();
    let mut f = arp_frame(1, PEER_MAC, PEER_IP, [0; 6], HOST_IP);
    f.set_size(27);
    assert_eq!(s.arp.handle(&mut s.eth, f), Ok(()));
    assert!(sent(&mut s.eth).is_empty());
    assert_eq!(s.arp.lookup(&mut s.eth, &Address(PEER_IP)), Ok(None));
}

#[test]
fn ip_header_longer_than_frame_is_rejected() {
    let mut s = stack();
    let mut frame = inbound_echo(icmp::Type::EchoRequest, 5, 1, &[1]);
    frame.set_size(19);
    assert_eq!(s.ip.handle(frame), Delivery::Rejected);
}

#[test]
fn ip_send_drops_packet_whose_header_does_not_fit() {
    let mut s = stack();
    let mut p = ip_packet_to(PEER_IP);
    p.eth.set_size(10);
    assert_eq!(s.ip.send(&s.arp, &mut s.eth, p), Ok(false));
    assert!(sent(&mut s.eth).is_empty());
}

#[test]
fn ip_socket_stamps_its_protocol() {
    let mut s = stack();
    teach(&mut s, PEER_MAC, PEER_IP);
    let udp = s.ip.open(Protocol::Udp);
    let mut p = ip::Packet::new();
    p.set_destination_address(&Address(PEER_IP));
    p.set_size(2);
    assert_eq!(udp.send(&s.ip, &s.arp, &mut s.eth, p), Ok(true));
    let q = ip::Packet { eth: sent(&mut s.eth).into_iter().next().unwrap() };
    assert_eq!(q.protocol(), Protocol::Udp);
    // An inbound UDP packet now reaches the socket.
    assert_eq!(s.ip.handle(q.eth), Delivery::Queued);
    assert!(udp.receive(&mut s.ip).is_some());
    assert!(udp.receive(&mut s.ip).is_none());
}

#[test]
fn fresh_ip_packet_has_header_length_as_total_length() {
    let p = ip::Packet::new();
    assert_eq!(p.header_len(), 20);
    assert_eq!(p.total_len(), 20);
    assert_eq!(p.size(), 0);
    assert_eq!(p.eth.size(), 20);
    assert!(p.data().is_empty());
    assert_eq!(icmp::Packet::new().ip.total_len(), 20);
}

#[test]
fn ping_request_has_ip_lengths_of_its_data() {
    let mut s = stack();
    teach(&mut s, PEER_MAC, PEER_IP);
    let pinger = s.icmp.open(Address(PEER_IP));
    assert_eq!(pinger.send(&s.icmp, &s.ip, &s.arp, &mut s.eth, &[1, 2, 3, 4, 5]), Ok(true));
    let q = ip::Packet { eth: sent(&mut s.eth).into_iter().next().unwrap() };
    assert_eq!(q.header_len(), 20);
    assert_eq!(q.total_len(), 28 + 5);
}
