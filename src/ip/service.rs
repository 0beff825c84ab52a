use super::checksum::{checksum, internet_checksum, lemma_filled_checksum_is_valid, with_checksum};
use super::{and_bytes, ip_start, Address, Packet, Protocol};
use crate::arp;
use crate::demux::{Delivery, Demux, QueueFull};
use crate::ethernet;
use crate::ethernet::MacAddress;
use crate::wire::be16;
use vstd::prelude::*;

verus! {

/// The address that a packet for `dest` is first sent to: `dest` itself when
/// it lies in the local network, the gateway otherwise.
pub open spec fn next_hop(dest: Seq<u8>, local: Seq<u8>, netmask: Seq<u8>, gateway: Seq<u8>) -> Seq<u8> {
    if and_bytes(dest, netmask) == and_bytes(local, netmask) {
        dest
    } else {
        gateway
    }
}

/// The header of `p` is whole within its frame and its checksum is valid.
pub open spec fn header_valid(p: Packet) -> bool {
    &&& p.spec_header_len() <= p.eth.payload_len()
    &&& internet_checksum(p.spec_header()) == 0
}

/// The IP service: checks inbound packets and hands them to the socket of
/// their protocol; routes and sends outbound ones.
pub struct Service {
    ethernet: ethernet::Socket,
    sockets: Demux,
    address: Address,
    netmask: Address,
    gateway: Address,
}

/// A handle on the receive queue opened for one IP protocol.
pub struct Socket {
    protocol: Protocol,
    slot: usize,
}

impl Socket {
    pub closed spec fn spec_protocol(&self) -> Protocol {
        self.protocol
    }

    pub closed spec fn spec_slot(&self) -> nat {
        self.slot as nat
    }

    /// Takes the oldest packet that arrived for this socket.
    pub fn receive(&self, ip: &mut Service) -> (r: Option<Packet>)
        requires
            old(ip).wf(),
            self.spec_slot() < old(ip).sockets().queue_count(),
        ensures
            final(ip).wf(),
            final(ip).same_config(old(ip)),
            final(ip).sockets().slots() == old(ip).sockets().slots(),
            final(ip).sockets().others_unchanged(&old(ip).sockets(), self.spec_slot() as int),
            old(ip).sockets().queue(self.spec_slot() as int).len() == 0 ==> r is None,
            old(ip).sockets().queue(self.spec_slot() as int).len() > 0 ==> (r matches Some(p) && p.eth == old(ip).sockets().queue(self.spec_slot() as int)[0] && final(ip).sockets().queue(self.spec_slot() as int) == old(ip).sockets().queue(self.spec_slot() as int).drop_first()),
            r matches Some(p) ==> p.wf(),
    {
        match ip.sockets.take(self.slot) {
            Some(eth) => Some(Packet { eth }),
            None => None,
        }
    }

    /// Stamps the packet with this socket's protocol and sends it (see
    /// `Service::send`).
    pub fn send(&self, ip: &Service, arp: &arp::Service, eth: &mut ethernet::Service, p: Packet) -> (r: Result<bool, QueueFull>)
        requires
            ip.wf(),
            arp.wf(),
            old(eth).wf(),
            p.wf(),
        ensures
            final(eth).wf(),
            final(eth).sockets() == old(eth).sockets(),
            final(eth).spec_mac() == old(eth).spec_mac(),
            old(eth).outgoing().len() < ethernet::SEND_QUEUE_CAPACITY ==> r is Ok,
            r is Err ==> final(eth).outgoing() == old(eth).outgoing(),
            p.spec_header_len() > p.eth.payload_len() ==> (r == Ok::<bool, QueueFull>(false) && final(eth).outgoing() == old(eth).outgoing()),
            p.spec_header_len() <= p.eth.payload_len() && p.bytes().subrange(0, 6) == Seq::new(6, |i: int| 0u8) && arp::resolve(arp.cache(), ip.hop(p.spec_destination())) is None ==> (r is Ok ==> (r == Ok::<bool, QueueFull>(false) && final(eth).outgoing().drop_last() == old(eth).outgoing() && final(eth).outgoing().len() == old(eth).outgoing().len() + 1 && arp.is_request_for(final(eth).outgoing().last(), ip.hop(p.spec_destination())))),
            r == Ok::<bool, QueueFull>(true) ==> (final(eth).outgoing().drop_last() == old(eth).outgoing() && final(eth).outgoing().len() == old(eth).outgoing().len() + 1 && (Packet { eth: final(eth).outgoing().last() }).spec_protocol() == self.spec_protocol().spec_code() && (Packet { eth: final(eth).outgoing().last() }).spec_destination() == p.spec_destination() && (Packet { eth: final(eth).outgoing().last() }).spec_header_len() == p.spec_header_len() && (Packet { eth: final(eth).outgoing().last() }).spec_total_len() == p.spec_total_len() && final(eth).outgoing().last().wf() && final(eth).outgoing().last().payload_len() == p.eth.payload_len() && final(eth).outgoing().last().bytes().subrange(ip_start() + 20, ethernet::FRAME_CAPACITY as int) == p.bytes().subrange(ip_start() + 20, ethernet::FRAME_CAPACITY as int)),
            r == Ok::<bool, QueueFull>(false) ==> (final(eth).outgoing() == old(eth).outgoing() || (final(eth).outgoing().drop_last() == old(eth).outgoing() && final(eth).outgoing().len() == old(eth).outgoing().len() + 1 && arp.is_request_for(final(eth).outgoing().last(), ip.hop(p.spec_destination())))),
            p.spec_header_len() <= p.eth.payload_len() && p.bytes().subrange(0, 6) == Seq::new(6, |i: int| 0u8) && arp::resolve(arp.cache(), ip.hop(p.spec_destination())) is Some && arp::resolve(arp.cache(), ip.hop(p.spec_destination()))->Some_0 != Seq::new(6, |i: int| 0u8) ==> (r is Ok ==> (r == Ok::<bool, QueueFull>(true) && final(eth).outgoing().last().bytes().subrange(0, 6) == arp::resolve(arp.cache(), ip.hop(p.spec_destination()))->Some_0)),
    {
        let mut p = p;
        let ghost given = p;
        p.set_protocol(self.protocol);
        proof {
            assert(p.bytes().subrange(0, 6) =~= given.bytes().subrange(0, 6));
            assert(p.spec_destination() =~= given.spec_destination());
            assert(p.bytes().subrange(ip_start() + 20, ethernet::FRAME_CAPACITY as int) =~= given.bytes().subrange(ip_start() + 20, ethernet::FRAME_CAPACITY as int));
        }
        ip.send(arp, eth, p)
    }
}

impl Service {
    pub closed spec fn spec_address(&self) -> Address {
        self.address
    }

    pub closed spec fn spec_netmask(&self) -> Address {
        self.netmask
    }

    pub closed spec fn spec_gateway(&self) -> Address {
        self.gateway
    }

    /// The Ethernet socket for IPv4 frames.
    pub closed spec fn spec_ethernet(&self) -> ethernet::Socket {
        self.ethernet
    }

    /// The receive queues and which protocol feeds which.
    pub closed spec fn sockets(&self) -> Demux {
        self.sockets
    }

    pub closed spec fn wf(&self) -> bool {
        &&& self.sockets.wf()
        &&& self.ethernet.spec_protocol() == ethernet::Type::Ipv4
    }

    /// Addresses and the Ethernet socket are those of `other`.
    pub open spec fn same_config(&self, other: &Service) -> bool {
        &&& self.spec_address() == other.spec_address()
        &&& self.spec_netmask() == other.spec_netmask()
        &&& self.spec_gateway() == other.spec_gateway()
        &&& self.spec_ethernet() == other.spec_ethernet()
    }

    /// The next hop for `dest` under this service's addresses.
    pub open spec fn hop(&self, dest: Seq<u8>) -> Seq<u8> {
        next_hop(dest, self.spec_address().bytes(), self.spec_netmask().bytes(), self.spec_gateway().bytes())
    }

    /// A service for a host with address `address` in the network given by
    /// `netmask`, reaching other networks through `gateway`; it opens the IPv4
    /// socket of `eth`.
    pub fn new(eth: &mut ethernet::Service, address: Address, netmask: Address, gateway: Address) -> (r: Service)
        requires
            old(eth).wf(),
            old(eth).sockets().queue_count() < usize::MAX,
        ensures
            r.wf(),
            final(eth).wf(),
            r.spec_address() == address,
            r.spec_netmask() == netmask,
            r.spec_gateway() == gateway,
            r.sockets().slots().dom() == Set::<u64>::empty(),
            r.sockets().queue_count() == 0,
            r.spec_ethernet().spec_slot() == old(eth).sockets().queue_count(),
            final(eth).sockets().queue_count() == old(eth).sockets().queue_count() + 1,
            final(eth).sockets().feeds(0x0800, r.spec_ethernet().spec_slot() as int),
            final(eth).outgoing() == old(eth).outgoing(),
    {
        let ethernet = eth.open(ethernet::Type::Ipv4);
        Service { ethernet, sockets: Demux::new(), address, netmask, gateway }
    }

    /// Opens a socket for protocol `p`; inbound packets of that protocol go
    /// to its queue from now on.
    pub fn open(&mut self, p: Protocol) -> (s: Socket)
        requires
            old(self).wf(),
            old(self).sockets().queue_count() < usize::MAX,
        ensures
            final(self).wf(),
            final(self).same_config(old(self)),
            s.spec_protocol() == p,
            s.spec_slot() == old(self).sockets().queue_count(),
            final(self).sockets().queue_count() == old(self).sockets().queue_count() + 1,
            final(self).sockets().slots() == old(self).sockets().slots().insert(p.spec_code() as u64, s.spec_slot() as u64),
            final(self).sockets().queue(s.spec_slot() as int) == Seq::<ethernet::Packet>::empty(),
            forall|t: int| 0 <= t < old(self).sockets().queue_count() ==> final(self).sockets().queue(t) == old(self).sockets().queue(t),
    {
        let slot = self.sockets.open(p.code() as u64);
        Socket { protocol: p, slot }
    }

    /// The next hop for `dest`: `dest` itself in the local network, the
    /// gateway otherwise.
    pub fn route(&self, dest: &Address) -> (r: Address)
        ensures
            r.bytes() == self.hop(dest.bytes()),
    {
        let d = dest.bitand(self.netmask);
        let l = self.address.bitand(self.netmask);
        if d == l {
            *dest
        } else {
            self.gateway
        }
    }

    /// Fills in the source address when it is unset, and the header checksum.
    pub fn prepare(&self, p: &mut Packet)
        requires
            old(p).wf(),
            old(p).spec_header_len() <= old(p).eth.payload_len(),
        ensures
            final(p).wf(),
            final(p).eth.payload_len() == old(p).eth.payload_len(),
            final(p).spec_header_len() == old(p).spec_header_len(),
            final(p).spec_source() == (if old(p).spec_source() == Seq::new(4, |i: int| 0u8) { self.spec_address().bytes() } else { old(p).spec_source() }),
            final(p).spec_destination() == old(p).spec_destination(),
            final(p).spec_ttl() == old(p).spec_ttl(),
            final(p).spec_protocol() == old(p).spec_protocol(),
            final(p).spec_total_len() == old(p).spec_total_len(),
            final(p).eth.bytes().subrange(0, ip_start()) == old(p).eth.bytes().subrange(0, ip_start()),
            final(p).eth.bytes().subrange(ip_start() + 20, ethernet::FRAME_CAPACITY as int) == old(p).eth.bytes().subrange(ip_start() + 20, ethernet::FRAME_CAPACITY as int),
            12 <= old(p).spec_header_len() ==> header_valid(*final(p)),
    {
        let unspecified = Address::unspecified();
        if p.source_address() == unspecified {
            p.set_source_address(&self.address);
        }
        let ghost filled = p.bytes();
        p.set_header_checksum(0);
        let ghost zeroed = p.spec_header();
        let c = checksum(p.header());
        p.set_header_checksum(c);
        proof {
            let hl = p.spec_header_len() as int;
            assert(final(p).spec_source() =~= (if old(p).spec_source() == Seq::new(4, |i: int| 0u8) { self.spec_address().bytes() } else { old(p).spec_source() }));
            assert(p.spec_destination() =~= old(p).spec_destination());
            assert(p.eth.bytes().subrange(0, ip_start()) =~= old(p).eth.bytes().subrange(0, ip_start()));
            assert(p.eth.bytes().subrange(ip_start() + 20, ethernet::FRAME_CAPACITY as int) =~= old(p).eth.bytes().subrange(ip_start() + 20, ethernet::FRAME_CAPACITY as int));
            if 12 <= hl {
                let h0 = filled.subrange(ip_start(), ip_start() + hl);
                assert(zeroed =~= h0.update(10, 0).update(11, 0));
                assert(p.spec_header() =~= zeroed.update(10, (c / 256) as u8).update(11, (c % 256) as u8));
                assert(p.spec_header() == with_checksum(h0, 10));
                lemma_filled_checksum_is_valid(h0, 10);
            }
        }
    }

    /// `q` is the frame that carries `p` once sent from this host: the
    /// source address filled in if it was unset, the header checksum made
    /// valid, ethertype IPv4, and all else as in `p` but the hardware
    /// destination.
    pub open spec fn carries(&self, q: ethernet::Packet, p: Packet) -> bool {
        let s = Packet { eth: q };
        &&& q.wf()
        &&& q.payload_len() == p.eth.payload_len()
        &&& q.bytes().subrange(6, 12) == p.bytes().subrange(6, 12)
        &&& be16(q.bytes(), 12) == 0x0800
        &&& s.spec_header_len() == p.spec_header_len()
        &&& s.spec_source() == (if p.spec_source() == Seq::new(4, |i: int| 0u8) { self.spec_address().bytes() } else { p.spec_source() })
        &&& s.spec_destination() == p.spec_destination()
        &&& s.spec_protocol() == p.spec_protocol()
        &&& s.spec_ttl() == p.spec_ttl()
        &&& s.spec_total_len() == p.spec_total_len()
        &&& q.bytes().subrange(ip_start() + 20, ethernet::FRAME_CAPACITY as int) == p.bytes().subrange(ip_start() + 20, ethernet::FRAME_CAPACITY as int)
        &&& 12 <= p.spec_header_len() ==> header_valid(s)
    }

    /// Sends `p`: fills in the source address and header checksum, and, when
    /// the frame has no destination hardware address yet, resolves the next
    /// hop through ARP. `Ok(true)` when the frame was queued for transmission;
    /// `Ok(false)` when it was dropped: its header does not fit in the frame,
    /// or the next hop is not resolved yet (a resolution request is then on
    /// its way). A full transmit queue is an error.
    pub fn send(&self, arp: &arp::Service, eth: &mut ethernet::Service, p: Packet) -> (r: Result<bool, QueueFull>)
        requires
            self.wf(),
            arp.wf(),
            old(eth).wf(),
            p.wf(),
        ensures
            final(eth).wf(),
            final(eth).sockets() == old(eth).sockets(),
            final(eth).spec_mac() == old(eth).spec_mac(),
            old(eth).outgoing().len() < ethernet::SEND_QUEUE_CAPACITY ==> r is Ok,
            r is Err ==> final(eth).outgoing() == old(eth).outgoing(),
            r == Ok::<bool, QueueFull>(true) ==> (final(eth).outgoing().drop_last() == old(eth).outgoing() && final(eth).outgoing().len() == old(eth).outgoing().len() + 1 && self.carries(final(eth).outgoing().last(), p)),
            r == Ok::<bool, QueueFull>(false) ==> (final(eth).outgoing() == old(eth).outgoing() || (final(eth).outgoing().drop_last() == old(eth).outgoing() && final(eth).outgoing().len() == old(eth).outgoing().len() + 1 && arp.is_request_for(final(eth).outgoing().last(), self.hop(p.spec_destination())))),
            p.spec_header_len() > p.eth.payload_len() ==> (r == Ok::<bool, QueueFull>(false) && final(eth).outgoing() == old(eth).outgoing()),
            p.spec_header_len() <= p.eth.payload_len() && p.bytes().subrange(0, 6) != Seq::new(6, |i: int| 0u8) ==> (r is Ok ==> (r == Ok::<bool, QueueFull>(true) && final(eth).outgoing().drop_last() == old(eth).outgoing() && final(eth).outgoing().len() == old(eth).outgoing().len() + 1 && final(eth).outgoing().last().bytes().subrange(0, 6) == p.bytes().subrange(0, 6) && self.carries(final(eth).outgoing().last(), p))),
            p.spec_header_len() <= p.eth.payload_len() && p.bytes().subrange(0, 6) == Seq::new(6, |i: int| 0u8) && arp::resolve(arp.cache(), self.hop(p.spec_destination())) is None ==> (r is Ok ==> (r == Ok::<bool, QueueFull>(false) && final(eth).outgoing().drop_last() == old(eth).outgoing() && final(eth).outgoing().len() == old(eth).outgoing().len() + 1 && arp.is_request_for(final(eth).outgoing().last(), self.hop(p.spec_destination())))),
            p.spec_header_len() <= p.eth.payload_len() && p.bytes().subrange(0, 6) == Seq::new(6, |i: int| 0u8) && arp::resolve(arp.cache(), self.hop(p.spec_destination())) is Some && arp::resolve(arp.cache(), self.hop(p.spec_destination()))->Some_0 != Seq::new(6, |i: int| 0u8) ==> (r is Ok ==> (r == Ok::<bool, QueueFull>(true) && final(eth).outgoing().drop_last() == old(eth).outgoing() && final(eth).outgoing().len() == old(eth).outgoing().len() + 1 && final(eth).outgoing().last().bytes().subrange(0, 6) == arp::resolve(arp.cache(), self.hop(p.spec_destination()))->Some_0 && self.carries(final(eth).outgoing().last(), p))),
    {
        let mut p = p;
        if p.header_len() as usize > p.eth.size() {
            return Ok(false);
        }
        let ghost given = p;
        self.prepare(&mut p);
        proof {
            let a = p.bytes().subrange(0, ip_start());
            let b = given.bytes().subrange(0, ip_start());
            assert forall|k: int| 0 <= k < ip_start() implies p.bytes()[k] == given.bytes()[k] by {
                assert(a[k] == b[k]);
            }
            let c = p.bytes().subrange(ip_start() + 20, ethernet::FRAME_CAPACITY as int);
            let d = given.bytes().subrange(ip_start() + 20, ethernet::FRAME_CAPACITY as int);
            assert forall|k: int| ip_start() + 20 <= k < ethernet::FRAME_CAPACITY implies p.bytes()[k] == given.bytes()[k] by {
                assert(c[k - ip_start() - 20] == d[k - ip_start() - 20]);
            }
        }
        let ghost prepared = p;
        assert(prepared.bytes().subrange(0, 6) =~= given.bytes().subrange(0, 6));
        let unset = MacAddress::unset();
        if p.eth.mac_destination() == unset {
            let hop = self.route(&p.destination_address());
            match arp.lookup(eth, &hop) {
                Ok(Some(a)) => {
                    p.eth.set_mac_destination(a);
                    assert(p.bytes().subrange(0, 6) =~= a.bytes());
                },
                Ok(None) => {},
                Err(e) => return Err(e),
            }
        }
        let ghost ready = p;
        if p.eth.mac_destination() != unset {
            match self.ethernet.send(eth, p.eth) {
                Ok(()) => {
                    proof {
                        let q = eth.outgoing().last();
                        assert forall|k: int| 6 <= k < 12 || ip_start() <= k < ethernet::FRAME_CAPACITY implies #[trigger] ready.bytes()[k] == prepared.bytes()[k] by {}
                        assert(q.bytes().subrange(0, 6) =~= ready.bytes().subrange(0, 6));
                        assert(ready.bytes().subrange(6, 12) =~= given.bytes().subrange(6, 12));
                        assert(q.bytes().subrange(6, 12) =~= given.bytes().subrange(6, 12));
                        assert(q.bytes().subrange(ip_start() + 20, ethernet::FRAME_CAPACITY as int) =~= given.bytes().subrange(ip_start() + 20, ethernet::FRAME_CAPACITY as int));
                        let s = Packet { eth: q };
                        assert(s.spec_header() =~= ready.spec_header());
                        assert(s.spec_source() =~= ready.spec_source());
                        assert(s.spec_destination() =~= ready.spec_destination());
                        assert(q.wf());
                        assert(q.payload_len() == given.eth.payload_len());
                        assert(be16(q.bytes(), 12) == 0x0800);
                        assert(s.spec_header_len() == given.spec_header_len());
                        assert(s.spec_source() == (if given.spec_source() == Seq::new(4, |i: int| 0u8) { self.spec_address().bytes() } else { given.spec_source() }));
                        assert(s.spec_destination() == given.spec_destination());
                        assert(s.spec_protocol() == ready.spec_protocol());
                        assert(s.spec_ttl() == ready.spec_ttl());
                        assert(s.spec_total_len() == given.spec_total_len());
                        assert(ready.spec_header() =~= prepared.spec_header());
                        assert(12 <= given.spec_header_len() ==> header_valid(s));
                        assert(self.carries(q, given));
                    }
                    Ok(true)
                },
                Err(_) => Err(QueueFull),
            }
        } else {
            Ok(false)
        }
    }

    /// Checks an inbound frame and hands it to the socket of its protocol.
    /// A frame whose header does not fit, or whose header checksum is not
    /// valid, is rejected.
    pub fn handle(&mut self, frame: ethernet::Packet) -> (r: Delivery)
        requires
            old(self).wf(),
            frame.wf(),
        ensures
            final(self).wf(),
            final(self).same_config(old(self)),
            !header_valid(Packet { eth: frame }) ==> (r == Delivery::Rejected && final(self).sockets() == old(self).sockets()),
            header_valid(Packet { eth: frame }) ==> Demux::delivery(old(self).sockets(), final(self).sockets(), (Packet { eth: frame }).spec_protocol() as u64, frame, r),
    {
        let p = Packet { eth: frame };
        if p.header_len() as usize > p.eth.size() {
            return Delivery::Rejected;
        }
        if checksum(p.header()) != 0 {
            return Delivery::Rejected;
        }
        let key = p.protocol().code() as u64;
        self.sockets.deliver(key, p.eth)
    }

    /// Takes the oldest frame from the IPv4 socket and handles it; `None`
    /// when none was waiting.
    pub fn poll(&mut self, eth: &mut ethernet::Service) -> (r: Option<Delivery>)
        requires
            old(self).wf(),
            old(eth).wf(),
            old(self).spec_ethernet().spec_slot() < old(eth).sockets().queue_count(),
        ensures
            final(self).wf(),
            final(self).same_config(old(self)),
            final(eth).wf(),
            final(eth).sockets().queue_count() == old(eth).sockets().queue_count(),
            final(eth).outgoing() == old(eth).outgoing(),
            old(eth).sockets().queue(old(self).spec_ethernet().spec_slot() as int).len() == 0 <==> r is None,
            old(eth).sockets().queue(old(self).spec_ethernet().spec_slot() as int).len() > 0 ==> ({
                let f = old(eth).sockets().queue(old(self).spec_ethernet().spec_slot() as int)[0];
                &&& header_valid(Packet { eth: f }) ==> (r matches Some(d) && Demux::delivery(old(self).sockets(), final(self).sockets(), (Packet { eth: f }).spec_protocol() as u64, f, d))
                &&& !header_valid(Packet { eth: f }) ==> r == Some(Delivery::Rejected)
            }),
    {
        match self.ethernet.receive(eth) {
            None => None,
            Some(f) => Some(self.handle(f)),
        }
    }
}

} // verus!
