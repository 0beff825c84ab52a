use super::kind::{Type, ECHO_HEADER_LEN};
use super::packet::Packet;
use crate::arp;
use crate::demux::{Delivery, Demux, QueueFull};
use crate::ethernet;
use crate::ethernet::MAX_PAYLOAD;
use crate::ip;
use crate::ip::{address_number, checksum, internet_checksum, lemma_filled_checksum_is_valid, with_checksum, Address};
use vstd::prelude::*;

verus! {

/// The demultiplexing key of replies from `addr` with identifier `id`.
pub open spec fn reply_key(addr: Seq<u8>, id: u16) -> u64 {
    (address_number(addr) as u64 * 0x10000 + id as u64) as u64
}

/// The data of an echo message fits in a fresh packet.
pub open spec fn data_fits(len: nat) -> bool {
    20 + ECHO_HEADER_LEN + len <= MAX_PAYLOAD
}

/// `r` is an echo message of type `t` with the given identifier, sequence
/// number and data, addressed to `dest`, with a valid checksum, in a fresh
/// IPv4 packet whose source is still unset.
pub open spec fn echo_message(r: Packet, t: u8, id: u16, seq: u16, data: Seq<u8>, dest: Seq<u8>) -> bool {
    &&& r.wf()
    &&& r.spans_ok()
    &&& r.ip.spec_header_len() == 20
    &&& r.ip.spec_total_len() == 20 + ECHO_HEADER_LEN + data.len()
    &&& r.ip.spec_ttl() == 255
    &&& r.ip.spec_source() == Seq::new(4, |i: int| 0u8)
    &&& r.ip.spec_destination() == dest
    &&& r.ip.eth.bytes().subrange(0, 6) == Seq::new(6, |i: int| 0u8)
    &&& r.spec_type() == t
    &&& r.spec_code() == 0
    &&& r.spec_identifier() == id
    &&& r.spec_sequence_number() == seq
    &&& r.spec_data() == data
    &&& internet_checksum(r.spec_message()) == 0
}

/// Builds an echo message of type `t` in a fresh packet.
fn echo(t: Type, identifier: u16, sequence: u16, dest: &Address, data: &[u8]) -> (r: Packet)
    requires
        data_fits(data@.len()),
    ensures
        echo_message(r, t.spec_code(), identifier, sequence, data@, dest.bytes()),
{
    let mut m = Packet::new();
    m.set_data(data);
    m.set_type(t);
    m.set_code(0);
    m.set_identifier(identifier);
    m.set_sequence_number(sequence);
    let ghost unsummed = m.spec_message();
    assert(unsummed[2] == 0 && unsummed[3] == 0);
    let c = checksum(m.ip.data());
    m.set_checksum(c);
    proof {
        assert(unsummed.update(2, 0).update(3, 0) =~= unsummed);
        assert(m.spec_message() =~= with_checksum(unsummed, 2));
        lemma_filled_checksum_is_valid(unsummed, 2);
    }
    let ghost summed = m.spec_message();
    m.ip.set_destination_address(dest);
    proof {
        assert(m.spec_message() =~= summed);
        assert(m.spec_data() =~= data@);
        assert(m.ip.spec_source() =~= Seq::new(4, |i: int| 0u8));
        assert(m.ip.spec_destination() =~= dest.bytes());
        assert(m.ip.eth.bytes().subrange(0, 6) =~= Seq::new(6, |i: int| 0u8));
    }
    m
}

/// The echo reply to an echo request: same identifier, sequence number and
/// data, addressed to the request's source, with a fresh valid checksum.
pub fn echo_reply(received: &Packet) -> (r: Packet)
    requires
        received.wf(),
        received.spans_ok(),
        data_fits(received.spec_data().len()),
    ensures
        echo_message(r, 0, received.spec_identifier(), received.spec_sequence_number(), received.spec_data(), received.ip.spec_source()),
{
    let source = received.ip.source_address();
    echo(Type::EchoReply, received.identifier(), received.sequence_number(), &source, received.data())
}

/// An echo request with the given identifier, sequence number and data,
/// addressed to `dest`.
pub fn echo_request(identifier: u16, sequence: u16, dest: &Address, data: &[u8]) -> (r: Packet)
    requires
        data_fits(data@.len()),
    ensures
        echo_message(r, 8, identifier, sequence, data@, dest.bytes()),
{
    echo(Type::EchoRequest, identifier, sequence, dest, data)
}

/// What became of an inbound ICMP message.
#[derive(Clone, Copy, Debug, PartialEq, Eq, Structural)]
pub enum Handled {
    /// An echo request was answered; `false` when the reply was dropped
    /// because the next hop is not resolved yet.
    Replied(bool),
    /// An echo reply was queued for the ping socket that waits for it.
    Delivered,
    /// An echo reply that no ping socket waits for: dropped.
    Unrequested,
    /// A message of another type: dropped.
    Ignored,
    /// A malformed message or one with an invalid checksum: dropped.
    Rejected,
}

/// The message is whole, small enough to answer, and its checksum is valid.
pub open spec fn message_valid(p: Packet) -> bool {
    &&& p.spans_ok()
    &&& data_fits(p.spec_data().len())
    &&& internet_checksum(p.spec_message()) == 0
}

/// `f` carries the echo reply to `request`: an ICMP message back to the
/// request's source with the same identifier, sequence number and data, and
/// a valid checksum.
pub open spec fn is_reply_to(f: ethernet::Packet, request: Packet) -> bool {
    let q = Packet { ip: ip::Packet { eth: f } };
    &&& q.ip.spec_protocol() == 1
    &&& q.ip.spec_header_len() == 20
    &&& q.ip.spec_total_len() == 20 + ECHO_HEADER_LEN + request.spec_data().len()
    &&& q.ip.spec_destination() == request.ip.spec_source()
    &&& q.spec_type() == 0
    &&& q.spec_code() == 0
    &&& q.spec_identifier() == request.spec_identifier()
    &&& q.spec_sequence_number() == request.spec_sequence_number()
    &&& q.spec_data() == request.spec_data()
    &&& internet_checksum(q.spec_message()) == 0
}

/// Two packets with the same IP lengths and the same bytes after a 20-byte
/// IP header hold the same ICMP message.
proof fn lemma_same_message(q: Packet, p: Packet)
    requires
        q.wf(),
        p.wf(),
        q.ip.spec_header_len() == 20,
        p.ip.spec_header_len() == 20,
        q.ip.spec_total_len() == p.ip.spec_total_len(),
        q.ip.eth.payload_len() == p.ip.eth.payload_len(),
        p.ip.spans_ok(),
        q.bytes().subrange(ip::ip_start() + 20, ethernet::FRAME_CAPACITY as int) == p.bytes().subrange(ip::ip_start() + 20, ethernet::FRAME_CAPACITY as int),
    ensures
        q.start() == p.start(),
        q.spec_type() == p.spec_type(),
        q.spec_code() == p.spec_code(),
        q.spec_identifier() == p.spec_identifier(),
        q.spec_sequence_number() == p.spec_sequence_number(),
        q.spec_message() == p.spec_message(),
        q.spec_data() == p.spec_data(),
{
    let a = q.bytes().subrange(ip::ip_start() + 20, ethernet::FRAME_CAPACITY as int);
    let b = p.bytes().subrange(ip::ip_start() + 20, ethernet::FRAME_CAPACITY as int);
    assert forall|k: int| ip::ip_start() + 20 <= k < ethernet::FRAME_CAPACITY implies q.bytes()[k] == p.bytes()[k] by {
        assert(a[k - ip::ip_start() - 20] == b[k - ip::ip_start() - 20]);
    }
    assert(q.spec_message() =~= p.spec_message());
    assert(q.spec_data() =~= p.spec_data());
}

/// The outcome of handling, from the outcome of a poll that found a message.
pub open spec fn unpolled(r: Result<Option<Handled>, QueueFull>) -> Result<Handled, QueueFull> {
    match r {
        Ok(Some(h)) => Ok(h),
        _ => Err(QueueFull),
    }
}

/// The ICMP service: answers echo requests, and hands echo replies to the
/// ping socket keyed by their source address and identifier.
pub struct Service {
    next_request_identifier: u16,
    ip_socket: ip::Socket,
    sockets: Demux,
}

/// A ping socket: sends echo requests to one address under one identifier
/// and collects the matching replies.
pub struct Socket {
    identifier: u16,
    sequence: u16,
    ip_address: Address,
    slot: usize,
}

impl Socket {
    pub closed spec fn spec_identifier(&self) -> u16 {
        self.identifier
    }

    pub closed spec fn spec_sequence(&self) -> u16 {
        self.sequence
    }

    pub closed spec fn spec_ip_address(&self) -> Address {
        self.ip_address
    }

    pub closed spec fn spec_slot(&self) -> nat {
        self.slot as nat
    }

    /// The address this socket pings.
    pub fn ip_address(&self) -> (r: Address)
        ensures
            r == self.spec_ip_address(),
    {
        self.ip_address
    }

    /// The identifier of this socket's requests.
    pub fn identifier(&self) -> (r: u16)
        ensures
            r == self.spec_identifier(),
    {
        self.identifier
    }

    /// The echo request that `send` submits for `data`.
    pub fn request(&self, data: &[u8]) -> (r: Packet)
        requires
            data_fits(data@.len()),
        ensures
            echo_message(r, 8, self.spec_identifier(), self.spec_sequence(), data@, self.spec_ip_address().bytes()),
    {
        echo_request(self.identifier, self.sequence, &self.ip_address, data)
    }

    /// Sends an echo request carrying `data` to this socket's address.
    /// `Ok(false)` when it was dropped because the next hop is not resolved
    /// yet; a resolution request is then on its way.
    pub fn send(&self, icmp: &Service, ip: &ip::Service, arp: &arp::Service, eth: &mut ethernet::Service, data: &[u8]) -> (r: Result<bool, QueueFull>)
        requires
            icmp.wf(),
            ip.wf(),
            arp.wf(),
            old(eth).wf(),
            data_fits(data@.len()),
        ensures
            final(eth).wf(),
            final(eth).sockets() == old(eth).sockets(),
            final(eth).spec_mac() == old(eth).spec_mac(),
            old(eth).outgoing().len() < ethernet::SEND_QUEUE_CAPACITY ==> r is Ok,
            r is Err ==> final(eth).outgoing() == old(eth).outgoing(),
            arp::resolve(arp.cache(), ip.hop(self.spec_ip_address().bytes())) is None ==> (r is Ok ==> (r == Ok::<bool, QueueFull>(false) && final(eth).outgoing().drop_last() == old(eth).outgoing() && final(eth).outgoing().len() == old(eth).outgoing().len() + 1 && arp.is_request_for(final(eth).outgoing().last(), ip.hop(self.spec_ip_address().bytes())))),
            arp::resolve(arp.cache(), ip.hop(self.spec_ip_address().bytes())) is Some && arp::resolve(arp.cache(), ip.hop(self.spec_ip_address().bytes()))->Some_0 != Seq::new(6, |i: int| 0u8) && old(eth).outgoing().len() < ethernet::SEND_QUEUE_CAPACITY ==> (r == Ok::<bool, QueueFull>(true) && final(eth).outgoing().last().bytes().subrange(0, 6) == arp::resolve(arp.cache(), ip.hop(self.spec_ip_address().bytes()))->Some_0),
            r == Ok::<bool, QueueFull>(true) ==> (final(eth).outgoing().drop_last() == old(eth).outgoing() && final(eth).outgoing().len() == old(eth).outgoing().len() + 1 && self.is_request(final(eth).outgoing().last(), data@)),
            r == Ok::<bool, QueueFull>(false) ==> (final(eth).outgoing() == old(eth).outgoing() || (final(eth).outgoing().drop_last() == old(eth).outgoing() && final(eth).outgoing().len() == old(eth).outgoing().len() + 1 && arp.is_request_for(final(eth).outgoing().last(), ip.hop(self.spec_ip_address().bytes())))),
    {
        let request = self.request(data);
        proof {
            assert(request.ip.spec_header_len() <= request.ip.eth.payload_len());
        }
        let r = icmp.ip_socket.send(ip, arp, eth, request.ip);
        proof {
            if r == Ok::<bool, QueueFull>(true) {
                lemma_same_message(Packet { ip: ip::Packet { eth: eth.outgoing().last() } }, request);
            }
        }
        r
    }

    /// `f` is an echo request of this socket carrying `data`: addressed to
    /// its address, under its identifier and sequence number, after a 20-byte
    /// IP header, with a total length of header, echo header and data.
    pub open spec fn is_request(&self, f: ethernet::Packet, data: Seq<u8>) -> bool {
        let q = Packet { ip: ip::Packet { eth: f } };
        &&& q.ip.spec_protocol() == 1
        &&& q.ip.spec_header_len() == 20
        &&& q.ip.spec_total_len() == 20 + ECHO_HEADER_LEN + data.len()
        &&& q.ip.spec_destination() == self.spec_ip_address().bytes()
        &&& q.spec_type() == 8
        &&& q.spec_code() == 0
        &&& q.spec_identifier() == self.spec_identifier()
        &&& q.spec_sequence_number() == self.spec_sequence()
        &&& q.spec_data() == data
        &&& internet_checksum(q.spec_message()) == 0
    }

    /// Takes the oldest reply that arrived for this socket.
    pub fn receive(&self, icmp: &mut Service) -> (r: Option<Packet>)
        requires
            old(icmp).wf(),
            self.spec_slot() < old(icmp).sockets().queue_count(),
        ensures
            final(icmp).wf(),
            final(icmp).sockets().slots() == old(icmp).sockets().slots(),
            final(icmp).sockets().others_unchanged(&old(icmp).sockets(), self.spec_slot() as int),
            old(icmp).sockets().queue(self.spec_slot() as int).len() == 0 ==> r is None,
            old(icmp).sockets().queue(self.spec_slot() as int).len() > 0 ==> (r matches Some(p) && p.ip.eth == old(icmp).sockets().queue(self.spec_slot() as int)[0] && final(icmp).sockets().queue(self.spec_slot() as int) == old(icmp).sockets().queue(self.spec_slot() as int).drop_first()),
            r matches Some(p) ==> p.wf(),
    {
        match icmp.sockets.take(self.slot) {
            Some(eth) => Some(Packet { ip: ip::Packet { eth } }),
            None => None,
        }
    }
}

impl Service {
    /// The identifier that the next ping socket gets.
    pub closed spec fn spec_next_identifier(&self) -> u16 {
        self.next_request_identifier
    }

    /// The IP socket for ICMP.
    pub closed spec fn spec_ip_socket(&self) -> ip::Socket {
        self.ip_socket
    }

    /// The reply queues and which (address, identifier) key feeds which.
    pub closed spec fn sockets(&self) -> Demux {
        self.sockets
    }

    pub closed spec fn wf(&self) -> bool {
        &&& self.sockets.wf()
        &&& self.ip_socket.spec_protocol() == ip::Protocol::Icmp
    }

    /// A service on top of `ip`; it opens the ICMP socket of `ip`.
    pub fn new(ip: &mut ip::Service) -> (r: Service)
        requires
            old(ip).wf(),
            old(ip).sockets().queue_count() < usize::MAX,
        ensures
            r.wf(),
            final(ip).wf(),
            r.spec_next_identifier() == 0,
            r.sockets().slots().dom() == Set::<u64>::empty(),
            r.sockets().queue_count() == 0,
            r.spec_ip_socket().spec_slot() == old(ip).sockets().queue_count(),
            final(ip).sockets().queue_count() == old(ip).sockets().queue_count() + 1,
            final(ip).sockets().feeds(1, r.spec_ip_socket().spec_slot() as int),
    {
        let ip_socket = ip.open(ip::Protocol::Icmp);
        Service { next_request_identifier: 0, ip_socket, sockets: Demux::new() }
    }

    /// Opens a ping socket for `ip_address` under the next identifier; the
    /// identifiers count up from zero, wrapping after the largest.
    pub fn open(&mut self, ip_address: Address) -> (s: Socket)
        requires
            old(self).wf(),
            old(self).sockets().queue_count() < usize::MAX,
        ensures
            final(self).wf(),
            final(self).spec_ip_socket() == old(self).spec_ip_socket(),
            s.spec_identifier() == old(self).spec_next_identifier(),
            s.spec_sequence() == 0,
            s.spec_ip_address() == ip_address,
            final(self).spec_next_identifier() == (old(self).spec_next_identifier() + 1) % 0x10000,
            s.spec_slot() == old(self).sockets().queue_count(),
            final(self).sockets().queue_count() == old(self).sockets().queue_count() + 1,
            final(self).sockets().slots() == old(self).sockets().slots().insert(reply_key(ip_address.bytes(), s.spec_identifier()), s.spec_slot() as u64),
            final(self).sockets().queue(s.spec_slot() as int) == Seq::<ethernet::Packet>::empty(),
            forall|t: int| 0 <= t < old(self).sockets().queue_count() ==> final(self).sockets().queue(t) == old(self).sockets().queue(t),
    {
        let identifier = self.next_request_identifier;
        let key = (ip_address.number() as u64) * 0x10000 + identifier as u64;
        let slot = self.sockets.open(key);
        self.next_request_identifier = identifier.wrapping_add(1);
        Socket { identifier, sequence: 0, ip_address, slot }
    }

    /// What handling message `m` does: `before` and `eth_before` become
    /// `after` and `eth_after`, with outcome `r`.
    pub open spec fn handled(
        before: Service,
        after: Service,
        ip: ip::Service,
        arp: arp::Service,
        eth_before: ethernet::Service,
        eth_after: ethernet::Service,
        m: Packet,
        r: Result<Handled, QueueFull>,
    ) -> bool {
        &&& !message_valid(m) ==> (r == Ok::<Handled, QueueFull>(Handled::Rejected) && after.sockets() == before.sockets() && eth_after.outgoing() == eth_before.outgoing())
        &&& message_valid(m) && m.spec_type() == 8 ==> (after.sockets() == before.sockets() && (r is Ok ==> r matches Ok(Handled::Replied(_))))
        &&& message_valid(m) && m.spec_type() == 8 && eth_before.outgoing().len() < ethernet::SEND_QUEUE_CAPACITY ==> r is Ok
        &&& message_valid(m) && m.spec_type() == 8 && r == Ok::<Handled, QueueFull>(Handled::Replied(true)) ==> (eth_after.outgoing().drop_last() == eth_before.outgoing() && eth_after.outgoing().len() == eth_before.outgoing().len() + 1 && is_reply_to(eth_after.outgoing().last(), m))
        &&& message_valid(m) && m.spec_type() == 8 && arp::resolve(arp.cache(), ip.hop(m.ip.spec_source())) is None ==> (r is Ok ==> (r == Ok::<Handled, QueueFull>(Handled::Replied(false)) && eth_after.outgoing().drop_last() == eth_before.outgoing() && eth_after.outgoing().len() == eth_before.outgoing().len() + 1 && arp.is_request_for(eth_after.outgoing().last(), ip.hop(m.ip.spec_source()))))
        &&& message_valid(m) && m.spec_type() == 0 ==> (eth_after.outgoing() == eth_before.outgoing() && exists|d: Delivery| Demux::delivery(before.sockets(), after.sockets(), reply_key(m.ip.spec_source(), m.spec_identifier()), m.ip.eth, d) && (d == Delivery::Queued ==> r == Ok::<Handled, QueueFull>(Handled::Delivered)) && (d == Delivery::Unclaimed ==> r == Ok::<Handled, QueueFull>(Handled::Unrequested)) && (d == Delivery::QueueFull ==> r is Err))
        &&& message_valid(m) && m.spec_type() != 8 && m.spec_type() != 0 ==> (r == Ok::<Handled, QueueFull>(Handled::Ignored) && after.sockets() == before.sockets() && eth_after.outgoing() == eth_before.outgoing())
        &&& message_valid(m) && m.spec_type() == 8 && arp::resolve(arp.cache(), ip.hop(m.ip.spec_source())) is Some && arp::resolve(arp.cache(), ip.hop(m.ip.spec_source()))->Some_0 != Seq::new(6, |i: int| 0u8) && eth_before.outgoing().len() < ethernet::SEND_QUEUE_CAPACITY ==> r == Ok::<Handled, QueueFull>(Handled::Replied(true))
        &&& message_valid(m) && m.spec_type() == 8 && r == Ok::<Handled, QueueFull>(Handled::Replied(false)) ==> (eth_after.outgoing() == eth_before.outgoing() || (eth_after.outgoing().drop_last() == eth_before.outgoing() && eth_after.outgoing().len() == eth_before.outgoing().len() + 1 && arp.is_request_for(eth_after.outgoing().last(), ip.hop(m.ip.spec_source()))))
    }

    /// Handles one inbound ICMP message. A malformed message, or one whose
    /// checksum is not valid, is rejected. An echo request is answered with
    /// an echo reply; an echo reply goes to the ping socket for its source
    /// address and identifier; other messages are ignored. A full reply queue,
    /// or a full transmit queue, is an error.
    pub fn handle(&mut self, ip: &ip::Service, arp: &arp::Service, eth: &mut ethernet::Service, received: Packet) -> (r: Result<Handled, QueueFull>)
        requires
            old(self).wf(),
            ip.wf(),
            arp.wf(),
            old(eth).wf(),
            received.wf(),
        ensures
            final(self).wf(),
            final(self).spec_ip_socket() == old(self).spec_ip_socket(),
            final(self).spec_next_identifier() == old(self).spec_next_identifier(),
            final(eth).wf(),
            final(eth).sockets() == old(eth).sockets(),
            Service::handled(*old(self), *final(self), *ip, *arp, *old(eth), *final(eth), received, r),
    {
        let header_len = received.ip.header_len() as usize;
        let end = received.ip.total_len() as usize;
        if end > received.ip.eth.size() || header_len + ECHO_HEADER_LEN > end {
            return Ok(Handled::Rejected);
        }
        if received.data().len() + 20 + ECHO_HEADER_LEN > MAX_PAYLOAD {
            return Ok(Handled::Rejected);
        }
        if checksum(received.ip.data()) != 0 {
            return Ok(Handled::Rejected);
        }
        match received.typ() {
            Type::EchoRequest => {
                let reply = echo_reply(&received);
                proof {
                    assert(reply.ip.spec_header_len() <= reply.ip.eth.payload_len());
                }
                let sent = self.ip_socket.send(ip, arp, eth, reply.ip);
                proof {
                    if sent == Ok::<bool, QueueFull>(true) {
                        lemma_same_message(Packet { ip: ip::Packet { eth: eth.outgoing().last() } }, reply);
                    }
                }
                match sent {
                    Ok(sent) => Ok(Handled::Replied(sent)),
                    Err(e) => Err(e),
                }
            },
            Type::EchoReply => {
                let source = received.ip.source_address();
                let key = (source.number() as u64) * 0x10000 + received.identifier() as u64;
                assert(key == reply_key(received.ip.spec_source(), received.spec_identifier()));
                let d = self.sockets.deliver(key, received.ip.eth);
                assert(Demux::delivery(old(self).sockets(), self.sockets(), key, received.ip.eth, d));
                match d {
                    Delivery::Queued => Ok(Handled::Delivered),
                    Delivery::QueueFull => Err(QueueFull),
                    _ => Ok(Handled::Unrequested),
                }
            },
            _ => Ok(Handled::Ignored),
        }
    }

    /// Takes the oldest packet from the ICMP socket of `ip` and handles it;
    /// `None` when none was waiting.
    pub fn poll(&mut self, ip: &mut ip::Service, arp: &arp::Service, eth: &mut ethernet::Service) -> (r: Result<Option<Handled>, QueueFull>)
        requires
            old(self).wf(),
            old(ip).wf(),
            arp.wf(),
            old(eth).wf(),
            old(self).spec_ip_socket().spec_slot() < old(ip).sockets().queue_count(),
        ensures
            final(self).wf(),
            final(self).spec_ip_socket() == old(self).spec_ip_socket(),
            final(ip).wf(),
            final(ip).sockets().queue_count() == old(ip).sockets().queue_count(),
            final(eth).wf(),
            final(eth).sockets() == old(eth).sockets(),
            old(ip).sockets().queue(old(self).spec_ip_socket().spec_slot() as int).len() == 0 ==> r == Ok::<Option<Handled>, QueueFull>(None),
            old(ip).sockets().queue(old(self).spec_ip_socket().spec_slot() as int).len() > 0 ==> ({
                let f = old(ip).sockets().queue(old(self).spec_ip_socket().spec_slot() as int)[0];
                &&& final(ip).sockets().queue(old(self).spec_ip_socket().spec_slot() as int) == old(ip).sockets().queue(old(self).spec_ip_socket().spec_slot() as int).drop_first()
                &&& r != Ok::<Option<Handled>, QueueFull>(None)
                &&& Service::handled(*old(self), *final(self), *final(ip), *arp, *old(eth), *final(eth), Packet { ip: ip::Packet { eth: f } }, unpolled(r))
            }),
    {
        match self.ip_socket.receive(ip) {
            None => Ok(None),
            Some(p) => {
                match self.handle(ip, arp, eth, Packet { ip: p }) {
                    Ok(h) => Ok(Some(h)),
                    Err(e) => Err(e),
                }
            },
        }
    }
}

} // verus!
