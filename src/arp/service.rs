use super::packet::{arp_start, HardwareType, Operation, Packet, MESSAGE_LEN};
use crate::demux::{table_entries, QueueFull, Table};
use crate::ethernet;
use crate::ethernet::{mac_number, mac_of_number, stamped, MacAddress};
use crate::ip::{address_number, Address};
use crate::wire::be16;
use vstd::prelude::*;

verus! {

/// `f` is an ARP message for Ethernet and IPv4 from hardware address `src`
/// to `dest`, with operation `op` and the four addresses given.
pub open spec fn arp_frame(
    f: ethernet::Packet,
    dest: Seq<u8>,
    src: Seq<u8>,
    op: u16,
    sha: Seq<u8>,
    spa: Seq<u8>,
    tha: Seq<u8>,
    tpa: Seq<u8>,
) -> bool {
    let b = f.bytes();
    &&& f.wf()
    &&& f.payload_len() == MESSAGE_LEN
    &&& b.subrange(0, 6) == dest
    &&& b.subrange(6, 12) == src
    &&& be16(b, arp_start()) == 1
    &&& be16(b, arp_start() + 2) == 0x0800
    &&& b[arp_start() + 4] == 6
    &&& b[arp_start() + 5] == 4
    &&& be16(b, arp_start() + 6) == op
    &&& b.subrange(arp_start() + 8, arp_start() + 14) == sha
    &&& b.subrange(arp_start() + 14, arp_start() + 18) == spa
    &&& b.subrange(arp_start() + 18, arp_start() + 24) == tha
    &&& b.subrange(arp_start() + 24, arp_start() + 28) == tpa
}

/// The cache key of an IP address.
pub open spec fn cache_key(a: Seq<u8>) -> u64 {
    address_number(a) as u64
}

/// What a cache says of address `a`: the hardware address it maps to, if any.
pub open spec fn resolve(cache: Map<u64, u64>, a: Seq<u8>) -> Option<Seq<u8>> {
    if cache.contains_key(cache_key(a)) {
        Some(mac_of_number(cache[cache_key(a)]))
    } else {
        None
    }
}

/// The cache after learning that `a` has hardware address `m`.
pub open spec fn learn(cache: Map<u64, u64>, a: Seq<u8>, m: Seq<u8>) -> Map<u64, u64> {
    cache.insert(cache_key(a), mac_number(m))
}

/// Learning a mapping makes it resolve: once the cache has learned that `a`
/// has hardware address `m`, resolving `a` gives `m`, whatever the cache held.
pub proof fn lemma_learned_mapping_resolves(cache: Map<u64, u64>, a: Seq<u8>, m: Seq<u8>)
    requires
        m.len() == 6,
    ensures
        resolve(learn(cache, a, m), a) == Some(m),
{
    ethernet::lemma_mac_number_round_trip(m);
}

/// The frame carries an ARP message for Ethernet and IPv4.
pub open spec fn is_ipv4_over_ethernet(f: ethernet::Packet) -> bool {
    &&& f.payload_len() >= MESSAGE_LEN
    &&& be16(f.bytes(), arp_start()) == 1
    &&& be16(f.bytes(), arp_start() + 2) == 0x0800
}

/// The sender hardware address of an ARP message.
pub open spec fn sender_hardware(f: ethernet::Packet) -> Seq<u8> {
    f.bytes().subrange(arp_start() + 8, arp_start() + 14)
}

/// The sender protocol address of an ARP message.
pub open spec fn sender_protocol(f: ethernet::Packet) -> Seq<u8> {
    f.bytes().subrange(arp_start() + 14, arp_start() + 18)
}

/// The message is a request for the hardware address of `ip`.
pub open spec fn asks_for(f: ethernet::Packet, ip: Seq<u8>) -> bool {
    &&& be16(f.bytes(), arp_start() + 6) == 1
    &&& f.bytes().subrange(arp_start() + 24, arp_start() + 28) == ip
}

/// The outcome of handling, from the outcome of a poll that found a frame.
pub open spec fn unpolled(r: Result<bool, QueueFull>) -> Result<(), QueueFull> {
    match r {
        Ok(_) => Ok(()),
        Err(e) => Err(e),
    }
}

/// The ARP service: resolves IP addresses to hardware addresses, learns
/// mappings from every ARP message it sees, and answers requests for its own
/// address.
pub struct Service {
    ip: Address,
    socket: ethernet::Socket,
    mac: MacAddress,
    table: Table,
}

impl Service {
    /// The IP address of this host.
    pub closed spec fn spec_ip(&self) -> Address {
        self.ip
    }

    /// The hardware address of this host.
    pub closed spec fn spec_mac(&self) -> MacAddress {
        self.mac
    }

    /// The socket on which ARP messages come and go.
    pub closed spec fn spec_socket(&self) -> ethernet::Socket {
        self.socket
    }

    /// The socket is the one for ARP messages.
    pub closed spec fn wf(&self) -> bool {
        self.socket.spec_protocol() == ethernet::Type::Arp
    }

    /// The cache: address keys to hardware addresses as numbers.
    pub closed spec fn cache(&self) -> Map<u64, u64> {
        table_entries(self.table)
    }

    /// A service for a host with addresses `ip` and `mac`; it opens the ARP
    /// socket of `service`.
    pub fn new(ip: Address, mac: MacAddress, service: &mut ethernet::Service) -> (r: Service)
        requires
            old(service).wf(),
            old(service).sockets().queue_count() < usize::MAX,
        ensures
            final(service).wf(),
            r.wf(),
            r.spec_ip() == ip,
            r.spec_mac() == mac,
            r.cache().dom() == Set::<u64>::empty(),
            r.spec_socket().spec_protocol() == ethernet::Type::Arp,
            r.spec_socket().spec_slot() == old(service).sockets().queue_count(),
            final(service).sockets().queue_count() == old(service).sockets().queue_count() + 1,
            final(service).sockets().feeds(0x0806, r.spec_socket().spec_slot() as int),
            final(service).outgoing() == old(service).outgoing(),
            final(service).spec_mac() == old(service).spec_mac(),
    {
        let socket = service.open(ethernet::Type::Arp);
        Service { ip, socket, mac, table: Table::new() }
    }

    /// Resolves `addr`. A cached mapping is returned at once and nothing is
    /// sent. Otherwise a broadcast request for `addr` is queued and the answer
    /// is `None`: the caller asks again once the reply has been learned.
    pub fn lookup(&self, eth: &mut ethernet::Service, addr: &Address) -> (r: Result<Option<MacAddress>, QueueFull>)
        requires
            self.wf(),
            old(eth).wf(),
        ensures
            final(eth).wf(),
            final(eth).sockets() == old(eth).sockets(),
            final(eth).spec_mac() == old(eth).spec_mac(),
            resolve(self.cache(), addr.bytes()) matches Some(m) ==> (r matches Ok(Some(a)) && a.bytes() == m && final(eth).outgoing() == old(eth).outgoing()),
            resolve(self.cache(), addr.bytes()) is None && old(eth).outgoing().len() < ethernet::SEND_QUEUE_CAPACITY ==> (r == Ok::<Option<MacAddress>, QueueFull>(None) && final(eth).outgoing().drop_last() == old(eth).outgoing() && final(eth).outgoing().len() == old(eth).outgoing().len() + 1 && self.is_request_for(final(eth).outgoing().last(), addr.bytes())),
            resolve(self.cache(), addr.bytes()) is None && old(eth).outgoing().len() >= ethernet::SEND_QUEUE_CAPACITY ==> (r is Err && final(eth).outgoing() == old(eth).outgoing()),
    {
        match self.table.get(addr.number() as u64) {
            Some(n) => Ok(Some(MacAddress::from_number(n))),
            None => {
                let broadcast = MacAddress::broadcast();
                let request = build_message(broadcast, self.mac, Operation::Request, &self.mac, &self.ip, &broadcast, addr);
                match self.socket.send(eth, request) {
                    Ok(()) => {
                        proof {
                            lemma_stamp_keeps_message(eth.outgoing().last(), request, self.socket.spec_protocol(), broadcast.bytes(), self.mac.bytes(), 1, self.mac.bytes(), self.ip.bytes(), broadcast.bytes(), addr.bytes());
                        }
                        Ok(None)
                    },
                    Err(_) => Err(QueueFull),
                }
            },
        }
    }

    /// What handling frame `f` does: `before` and `eth_before` become `after`
    /// and `eth_after`, with outcome `r`.
    pub open spec fn handled(
        before: Service,
        after: Service,
        eth_before: ethernet::Service,
        eth_after: ethernet::Service,
        f: ethernet::Packet,
        r: Result<(), QueueFull>,
    ) -> bool {
        &&& !is_ipv4_over_ethernet(f) ==> (r is Ok && after.cache() == before.cache() && eth_after.outgoing() == eth_before.outgoing())
        &&& is_ipv4_over_ethernet(f) ==> after.cache() == learn(before.cache(), sender_protocol(f), sender_hardware(f))
        &&& is_ipv4_over_ethernet(f) && !asks_for(f, before.spec_ip().bytes()) ==> (r is Ok && eth_after.outgoing() == eth_before.outgoing())
        &&& is_ipv4_over_ethernet(f) && asks_for(f, before.spec_ip().bytes()) && eth_before.outgoing().len() < ethernet::SEND_QUEUE_CAPACITY ==> (r is Ok && eth_after.outgoing().drop_last() == eth_before.outgoing() && eth_after.outgoing().len() == eth_before.outgoing().len() + 1 && before.is_reply_to(eth_after.outgoing().last(), sender_hardware(f), sender_protocol(f)))
        &&& is_ipv4_over_ethernet(f) && asks_for(f, before.spec_ip().bytes()) && eth_before.outgoing().len() >= ethernet::SEND_QUEUE_CAPACITY ==> (r is Err && eth_after.outgoing() == eth_before.outgoing())
    }

    /// Handles one inbound ARP frame. A message for Ethernet and IPv4 teaches
    /// the cache its sender's mapping, overwriting what was there; if it is a
    /// request for this host's address, a reply goes back to the sender.
    /// Anything else, and a frame too short for a message, is dropped.
    pub fn handle(&mut self, eth: &mut ethernet::Service, received: ethernet::Packet) -> (r: Result<(), QueueFull>)
        requires
            old(self).wf(),
            old(eth).wf(),
            received.wf(),
        ensures
            final(self).wf(),
            final(self).spec_ip() == old(self).spec_ip(),
            final(self).spec_mac() == old(self).spec_mac(),
            final(self).spec_socket() == old(self).spec_socket(),
            final(eth).wf(),
            final(eth).sockets() == old(eth).sockets(),
            final(eth).spec_mac() == old(eth).spec_mac(),
            Service::handled(*old(self), *final(self), *old(eth), *final(eth), received, r),
    {
        if received.size() < MESSAGE_LEN {
            return Ok(());
        }
        let m = Packet { eth: received };
        if m.hardware_type() != HardwareType::Ethernet {
            return Ok(());
        }
        if m.protocol_type() != ethernet::Type::Ipv4 {
            return Ok(());
        }
        let sha = m.sender_hardware_address();
        let spa = m.sender_protocol_address();
        self.table.insert(spa.number() as u64, sha.number());
        if m.operation() != Operation::Request {
            return Ok(());
        }
        if m.target_protocol_address() != self.ip {
            return Ok(());
        }
        let reply = build_message(sha, self.mac, Operation::Response, &self.mac, &self.ip, &sha, &spa);
        match self.socket.send(eth, reply) {
            Ok(()) => {
                proof {
                    lemma_stamp_keeps_message(eth.outgoing().last(), reply, self.socket.spec_protocol(), sha.bytes(), self.mac.bytes(), 2, self.mac.bytes(), self.ip.bytes(), sha.bytes(), spa.bytes());
                }
                Ok(())
            },
            Err(_) => Err(QueueFull),
        }
    }

    /// Takes the oldest frame from the ARP socket and handles it; `Ok(false)`
    /// when none was waiting.
    pub fn poll(&mut self, eth: &mut ethernet::Service) -> (r: Result<bool, QueueFull>)
        requires
            old(self).wf(),
            old(eth).wf(),
            old(self).spec_socket().spec_slot() < old(eth).sockets().queue_count(),
        ensures
            final(self).wf(),
            final(self).spec_ip() == old(self).spec_ip(),
            final(self).spec_mac() == old(self).spec_mac(),
            final(self).spec_socket() == old(self).spec_socket(),
            final(eth).wf(),
            final(eth).sockets().queue_count() == old(eth).sockets().queue_count(),
            old(eth).sockets().queue(old(self).spec_socket().spec_slot() as int).len() == 0 ==> (r == Ok::<bool, QueueFull>(false) && final(self).cache() == old(self).cache() && final(eth).outgoing() == old(eth).outgoing()),
            old(eth).sockets().queue(old(self).spec_socket().spec_slot() as int).len() > 0 ==> ({
                let f = old(eth).sockets().queue(old(self).spec_socket().spec_slot() as int)[0];
                &&& final(eth).sockets().queue(old(self).spec_socket().spec_slot() as int) == old(eth).sockets().queue(old(self).spec_socket().spec_slot() as int).drop_first()
                &&& Service::handled(*old(self), *final(self), *old(eth), *final(eth), f, unpolled(r))
                &&& r is Ok ==> r == Ok::<bool, QueueFull>(true)
            }),
    {
        match self.socket.receive(eth) {
            None => Ok(false),
            Some(f) => {
                match self.handle(eth, f) {
                    Ok(()) => Ok(true),
                    Err(e) => Err(e),
                }
            },
        }
    }

    /// `f` is the broadcast request that this host sends for address `tpa`.
    pub open spec fn is_request_for(&self, f: ethernet::Packet, tpa: Seq<u8>) -> bool {
        &&& arp_frame(f, Seq::new(6, |i: int| 0xffu8), self.spec_mac().bytes(), 1, self.spec_mac().bytes(), self.spec_ip().bytes(), Seq::new(6, |i: int| 0xffu8), tpa)
        &&& be16(f.bytes(), 12) == 0x0806
    }

    /// `f` is the reply of this host to a request from `sha`/`spa`.
    pub open spec fn is_reply_to(&self, f: ethernet::Packet, sha: Seq<u8>, spa: Seq<u8>) -> bool {
        &&& arp_frame(f, sha, self.spec_mac().bytes(), 2, self.spec_mac().bytes(), self.spec_ip().bytes(), sha, spa)
        &&& be16(f.bytes(), 12) == 0x0806
    }
}

/// Stamping an ARP message with an ethertype leaves the message as it was.
proof fn lemma_stamp_keeps_message(
    q: ethernet::Packet,
    p: ethernet::Packet,
    t: ethernet::Type,
    dest: Seq<u8>,
    src: Seq<u8>,
    op: u16,
    sha: Seq<u8>,
    spa: Seq<u8>,
    tha: Seq<u8>,
    tpa: Seq<u8>,
)
    requires
        stamped(q, p, t),
        arp_frame(p, dest, src, op, sha, spa, tha, tpa),
    ensures
        arp_frame(q, dest, src, op, sha, spa, tha, tpa),
        be16(q.bytes(), 12) == t.spec_code(),
{
    let b = q.bytes();
    let c = p.bytes();
    assert(b.subrange(0, 6) =~= c.subrange(0, 6));
    assert(b.subrange(6, 12) =~= c.subrange(6, 12));
    assert(b.subrange(arp_start() + 8, arp_start() + 14) =~= c.subrange(arp_start() + 8, arp_start() + 14));
    assert(b.subrange(arp_start() + 14, arp_start() + 18) =~= c.subrange(arp_start() + 14, arp_start() + 18));
    assert(b.subrange(arp_start() + 18, arp_start() + 24) =~= c.subrange(arp_start() + 18, arp_start() + 24));
    assert(b.subrange(arp_start() + 24, arp_start() + 28) =~= c.subrange(arp_start() + 24, arp_start() + 28));
}

/// Builds an ARP message for Ethernet and IPv4 in a fresh frame.
fn build_message(
    dest: MacAddress,
    src: MacAddress,
    op: Operation,
    sha: &MacAddress,
    spa: &Address,
    tha: &MacAddress,
    tpa: &Address,
) -> (r: ethernet::Packet)
    ensures
        arp_frame(r, dest.bytes(), src.bytes(), op.spec_code(), sha.bytes(), spa.bytes(), tha.bytes(), tpa.bytes()),
{
    let mut raw = ethernet::Packet::new();
    raw.set_mac_destination(dest);
    raw.set_mac_source(src);
    raw.set_size(MESSAGE_LEN);
    let mut m = Packet { eth: raw };
    m.set_hardware_type(HardwareType::Ethernet);
    m.set_protocol_type(ethernet::Type::Ipv4);
    m.set_hardware_len(6);
    m.set_protocol_len(4);
    m.set_operation(op);
    m.set_sender_hardware_address(sha);
    m.set_sender_protocol_address(spa);
    m.set_target_hardware_address(tha);
    m.set_target_protocol_address(tpa);
    let r = m.eth;
    let ghost b = r.bytes();
    assert(b.subrange(0, 6) =~= dest.bytes());
    assert(b.subrange(6, 12) =~= src.bytes());
    assert(b.subrange(arp_start() + 8, arp_start() + 14) =~= sha.bytes());
    assert(b.subrange(arp_start() + 14, arp_start() + 18) =~= spa.bytes());
    assert(b.subrange(arp_start() + 18, arp_start() + 24) =~= tha.bytes());
    assert(b.subrange(arp_start() + 24, arp_start() + 28) =~= tpa.bytes());
    r
}

} // verus!
