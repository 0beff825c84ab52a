use super::{MacAddress, Packet, Type};
use crate::demux::{
    new_frame_queue, pop_frame, push_frame, queue_capacity, queued_frames, Delivery, Demux,
    QueueFull,
};
use crate::wire::{be16, be_bytes, splice};
use crossbeam_queue::ArrayQueue;
use vstd::prelude::*;

verus! {

/// The bound of the transmit queue.
pub const SEND_QUEUE_CAPACITY: usize = 16;

/// The Ethernet service: one receive queue per ethertype, fed from the
/// network interface, and one transmit queue that every socket feeds.
pub struct Service {
    mac: MacAddress,
    sockets: Demux,
    send_queue: ArrayQueue<Packet>,
}

/// A handle on the receive queue opened for one ethertype.
pub struct Socket {
    protocol: Type,
    slot: usize,
}

impl Socket {
    /// The ethertype this socket stamps on what it sends.
    pub closed spec fn spec_protocol(&self) -> Type {
        self.protocol
    }

    /// The receive queue of this socket.
    pub closed spec fn spec_slot(&self) -> nat {
        self.slot as nat
    }

    pub fn protocol(&self) -> (r: Type)
        ensures
            r == self.spec_protocol(),
    {
        self.protocol
    }

    /// Takes the oldest frame that arrived for this socket.
    pub fn receive(&self, eth: &mut Service) -> (r: Option<Packet>)
        requires
            old(eth).wf(),
            self.spec_slot() < old(eth).sockets().queue_count(),
        ensures
            final(eth).wf(),
            final(eth).outgoing() == old(eth).outgoing(),
            final(eth).spec_mac() == old(eth).spec_mac(),
            final(eth).sockets().slots() == old(eth).sockets().slots(),
            final(eth).sockets().others_unchanged(&old(eth).sockets(), self.spec_slot() as int),
            old(eth).sockets().queue(self.spec_slot() as int).len() == 0 ==> (r is None && final(eth).sockets().queue(self.spec_slot() as int) == old(eth).sockets().queue(self.spec_slot() as int)),
            old(eth).sockets().queue(self.spec_slot() as int).len() > 0 ==> (r == Some(old(eth).sockets().queue(self.spec_slot() as int)[0]) && final(eth).sockets().queue(self.spec_slot() as int) == old(eth).sockets().queue(self.spec_slot() as int).drop_first()),
            r matches Some(p) ==> p.wf(),
    {
        let r = eth.sockets.take(self.slot);
        assert(eth.outgoing() == old(eth).outgoing());
        r
    }

    /// Stamps the frame with this socket's ethertype and queues it for
    /// transmission; a full transmit queue hands the frame back.
    pub fn send(&self, eth: &mut Service, p: Packet) -> (r: Result<(), Packet>)
        requires
            old(eth).wf(),
            p.wf(),
        ensures
            final(eth).wf(),
            final(eth).sockets() == old(eth).sockets(),
            final(eth).spec_mac() == old(eth).spec_mac(),
            old(eth).outgoing().len() < SEND_QUEUE_CAPACITY ==> (r is Ok && final(eth).outgoing().len() == old(eth).outgoing().len() + 1 && final(eth).outgoing().drop_last() == old(eth).outgoing() && stamped(final(eth).outgoing().last(), p, self.spec_protocol())),
            old(eth).outgoing().len() >= SEND_QUEUE_CAPACITY ==> (r is Err && final(eth).outgoing() == old(eth).outgoing()),
    {
        let mut p = p;
        p.set_ether_type(self.protocol);
        let r = push_frame(&mut eth.send_queue, p);
        proof {
            if old(eth).outgoing().len() < SEND_QUEUE_CAPACITY {
                assert(final(eth).outgoing().drop_last() =~= old(eth).outgoing());
            }
        }
        r
    }
}

/// `q` is `p` with the ethertype `t` written into its header.
pub open spec fn stamped(q: Packet, p: Packet, t: Type) -> bool {
    &&& q.wf()
    &&& q.bytes() == splice(p.bytes(), 12, be_bytes(t.spec_code()))
    &&& q.payload_len() == p.payload_len()
}

impl Service {
    pub closed spec fn spec_mac(&self) -> MacAddress {
        self.mac
    }

    /// The receive queues and which ethertype feeds which.
    pub closed spec fn sockets(&self) -> Demux {
        self.sockets
    }

    /// The frames waiting for transmission, oldest first.
    pub closed spec fn outgoing(&self) -> Seq<Packet> {
        queued_frames(self.send_queue)
    }

    pub closed spec fn wf(&self) -> bool {
        &&& self.sockets.wf()
        &&& queue_capacity(self.send_queue) == SEND_QUEUE_CAPACITY
        &&& forall|i: int| 0 <= i < self.outgoing().len() ==> (#[trigger] self.outgoing()[i]).wf()
    }

    /// A service for the interface with hardware address `mac`.
    pub fn new(mac: MacAddress) -> (r: Service)
        ensures
            r.wf(),
            r.spec_mac() == mac,
            r.sockets().slots().dom() == Set::<u64>::empty(),
            r.sockets().queue_count() == 0,
            r.outgoing() == Seq::<Packet>::empty(),
    {
        Service { mac, sockets: Demux::new(), send_queue: new_frame_queue(SEND_QUEUE_CAPACITY) }
    }

    /// The hardware address of the interface.
    pub fn mac_address(&self) -> (r: MacAddress)
        ensures
            r == self.spec_mac(),
    {
        self.mac
    }

    /// Opens a socket for ethertype `p`; inbound frames of that type go to its
    /// queue from now on.
    pub fn open(&mut self, p: Type) -> (s: Socket)
        requires
            old(self).wf(),
            old(self).sockets().queue_count() < usize::MAX,
        ensures
            final(self).wf(),
            final(self).spec_mac() == old(self).spec_mac(),
            final(self).outgoing() == old(self).outgoing(),
            s.spec_protocol() == p,
            s.spec_slot() == old(self).sockets().queue_count(),
            final(self).sockets().queue_count() == old(self).sockets().queue_count() + 1,
            final(self).sockets().slots() == old(self).sockets().slots().insert(p.spec_code() as u64, s.spec_slot() as u64),
            final(self).sockets().queue(s.spec_slot() as int) == Seq::<Packet>::empty(),
            forall|t: int| 0 <= t < old(self).sockets().queue_count() ==> final(self).sockets().queue(t) == old(self).sockets().queue(t),
    {
        let slot = self.sockets.open(p.code() as u64);
        assert(self.outgoing() == old(self).outgoing());
        Socket { protocol: p, slot }
    }

    /// Hands an inbound frame to the socket registered for its ethertype;
    /// a frame that no socket claims is dropped.
    pub fn deliver(&mut self, p: Packet) -> (r: Delivery)
        requires
            old(self).wf(),
            p.wf(),
        ensures
            final(self).wf(),
            final(self).spec_mac() == old(self).spec_mac(),
            final(self).outgoing() == old(self).outgoing(),
            Demux::delivery(old(self).sockets(), final(self).sockets(), be16(p.bytes(), 12) as u64, p, r),
    {
        let key = p.ether_type().code() as u64;
        let r = self.sockets.deliver(key, p);
        assert(self.outgoing() == old(self).outgoing());
        r
    }

    /// Takes the oldest frame waiting for transmission.
    pub fn next_outgoing(&mut self) -> (r: Option<Packet>)
        requires
            old(self).wf(),
        ensures
            final(self).wf(),
            final(self).spec_mac() == old(self).spec_mac(),
            final(self).sockets() == old(self).sockets(),
            old(self).outgoing().len() == 0 ==> (r is None && final(self).outgoing() == old(self).outgoing()),
            old(self).outgoing().len() > 0 ==> (r == Some(old(self).outgoing()[0]) && final(self).outgoing() == old(self).outgoing().drop_first()),
            r matches Some(p) ==> p.wf(),
    {
        let r = pop_frame(&mut self.send_queue);
        proof {
            if old(self).outgoing().len() > 0 {
                assert(old(self).outgoing()[0].wf());
                assert forall|i: int| 0 <= i < self.outgoing().len() implies (#[trigger] self.outgoing()[i]).wf() by {
                    assert(old(self).outgoing()[i + 1].wf());
                }
            }
        }
        r
    }
}

} // verus!
