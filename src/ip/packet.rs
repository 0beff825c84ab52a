use super::Address;
use crate::ethernet;
use crate::ethernet::{HEADER_SIZE, MAX_PAYLOAD};
use crate::wire::{be16, be_bytes, splice};
use vstd::prelude::*;

verus! {

/// The IP protocol number: which protocol an IP packet carries.
#[derive(Clone, Copy, Debug, Eq)]
pub enum Protocol {
    Icmp,
    Igmp,
    Tcp,
    Udp,
    /// Any other number, as it stands on the wire.
    Other(u8),
}

/// The protocol with number `c`; numbers without a name become `Other`.
pub open spec fn protocol_of(c: u8) -> Protocol {
    if c == 1 {
        Protocol::Icmp
    } else if c == 2 {
        Protocol::Igmp
    } else if c == 6 {
        Protocol::Tcp
    } else if c == 17 {
        Protocol::Udp
    } else {
        Protocol::Other(c)
    }
}

impl Protocol {
    /// The protocol number.
    pub open spec fn spec_code(self) -> u8 {
        match self {
            Protocol::Icmp => 1,
            Protocol::Igmp => 2,
            Protocol::Tcp => 6,
            Protocol::Udp => 17,
            Protocol::Other(c) => c,
        }
    }

    /// The protocol number.
    pub fn code(&self) -> (r: u8)
        ensures
            r == self.spec_code(),
    {
        match self {
            Protocol::Icmp => 1,
            Protocol::Igmp => 2,
            Protocol::Tcp => 6,
            Protocol::Udp => 17,
            Protocol::Other(c) => *c,
        }
    }

    /// The protocol with number `c`.
    pub fn from_code(c: u8) -> (r: Protocol)
        ensures
            r == protocol_of(c),
            r.spec_code() == c,
    {
        if c == 1 {
            Protocol::Icmp
        } else if c == 2 {
            Protocol::Igmp
        } else if c == 6 {
            Protocol::Tcp
        } else if c == 17 {
            Protocol::Udp
        } else {
            Protocol::Other(c)
        }
    }
}

/// Two values are equal when their wire codes are: `Other` with a named code
/// equals the named variant.
impl PartialEq for Protocol {
    fn eq(&self, o: &Protocol) -> (r: bool)
        ensures
            r == (self.spec_code() == o.spec_code()),
    {
        self.code() == o.code()
    }
}

impl vstd::std_specs::cmp::PartialEqSpecImpl for Protocol {
    open spec fn obeys_eq_spec() -> bool {
        true
    }

    open spec fn eq_spec(&self, o: &Protocol) -> bool {
        self.spec_code() == o.spec_code()
    }
}

/// Position of the IP header in the frame buffer.
pub open spec fn ip_start() -> int {
    HEADER_SIZE as int
}

/// The buffer of a fresh IPv4 packet: ethertype IPv4, version 4 with a
/// 20-byte header and a total length of 20, TTL 255, every other byte zero.
pub open spec fn fresh_ip_frame() -> Seq<u8> {
    Seq::new(
        ethernet::FRAME_CAPACITY as nat,
        |i: int|
            if i == 12 {
                0x08u8
            } else if i == ip_start() {
                0x45u8
            } else if i == ip_start() + 3 {
                20u8
            } else if i == ip_start() + 8 {
                255u8
            } else {
                0u8
            },
    )
}

/// An IP packet: an Ethernet frame whose payload starts with an IP header
/// (version and header length, total length at 2, identification at 4, TTL
/// at 8, protocol at 9, header checksum at 10, source at 12, destination at 16).
pub struct Packet {
    pub eth: ethernet::Packet,
}

impl Packet {
    pub open spec fn wf(&self) -> bool {
        self.eth.wf()
    }

    /// The frame buffer.
    pub open spec fn bytes(&self) -> Seq<u8> {
        self.eth.bytes()
    }

    pub open spec fn spec_version(&self) -> u8 {
        self.bytes()[ip_start()] / 16
    }

    pub open spec fn spec_header_len(&self) -> nat {
        ((self.bytes()[ip_start()] % 16) * 4) as nat
    }

    pub open spec fn spec_total_len(&self) -> u16 {
        be16(self.bytes(), ip_start() + 2)
    }

    pub open spec fn spec_identification(&self) -> u16 {
        be16(self.bytes(), ip_start() + 4)
    }

    pub open spec fn spec_ttl(&self) -> u8 {
        self.bytes()[ip_start() + 8]
    }

    pub open spec fn spec_protocol(&self) -> u8 {
        self.bytes()[ip_start() + 9]
    }

    pub open spec fn spec_header_checksum(&self) -> u16 {
        be16(self.bytes(), ip_start() + 10)
    }

    pub open spec fn spec_source(&self) -> Seq<u8> {
        self.bytes().subrange(ip_start() + 12, ip_start() + 16)
    }

    pub open spec fn spec_destination(&self) -> Seq<u8> {
        self.bytes().subrange(ip_start() + 16, ip_start() + 20)
    }

    /// The header bytes, as far as the header length says.
    pub open spec fn spec_header(&self) -> Seq<u8> {
        self.eth.payload().subrange(0, self.spec_header_len() as int)
    }

    /// The data that follows the header, up to the total length.
    pub open spec fn spec_data(&self) -> Seq<u8> {
        self.eth.payload().subrange(self.spec_header_len() as int, self.spec_total_len() as int)
    }

    /// The header and data lie within the frame's payload.
    pub open spec fn spans_ok(&self) -> bool {
        self.spec_header_len() <= self.spec_total_len() <= self.eth.payload_len()
    }

    /// A fresh IPv4 packet: a 20-byte header with version 4, identification 0
    /// and TTL 255, all else zero, in a frame of ethertype IPv4.
    pub fn new() -> (r: Packet)
        ensures
            r.wf(),
            r.spec_version() == 4,
            r.spec_header_len() == 20,
            r.spec_total_len() == 20,
            r.spec_identification() == 0,
            r.spec_ttl() == 255,
            r.spec_protocol() == 0,
            r.spec_header_checksum() == 0,
            r.spec_source() == Seq::new(4, |i: int| 0u8),
            r.spec_destination() == Seq::new(4, |i: int| 0u8),
            r.eth.payload_len() == 20,
            r.bytes() == fresh_ip_frame(),
    {
        let mut p = Packet { eth: ethernet::Packet::new() };
        p.set_header_len(20);
        p.set_total_len(20);
        p.set_version(4);
        p.set_identification(0);
        p.set_ttl(255);
        p.eth.set_ether_type(ethernet::Type::Ipv4);
        assert(p.spec_source() =~= Seq::new(4, |i: int| 0u8));
        assert(p.spec_destination() =~= Seq::new(4, |i: int| 0u8));
        assert(p.bytes() =~= fresh_ip_frame());
        p
    }

    pub fn version(&self) -> (r: u8)
        requires
            self.wf(),
        ensures
            r == self.spec_version(),
    {
        let b = self.eth.read_u8(0);
        assert((b & 0xf0) >> 4 == b / 16) by (bit_vector);
        (b & 0xf0) >> 4
    }

    /// Sets the version nibble; only the low four bits of `v` are kept.
    pub fn set_version(&mut self, v: u8)
        requires
            old(self).wf(),
        ensures
            final(self).wf(),
            final(self).bytes() == old(self).bytes().update(
                ip_start(),
                (old(self).bytes()[ip_start()] % 16 + (v % 16) * 16) as u8,
            ),
            final(self).eth.payload_len() == old(self).eth.payload_len(),
    {
        let b = self.eth.read_u8(0);
        let n = (b & 0xf) | (v << 4);
        assert((b & 0xf) | (v << 4) == (b % 16 + (v % 16) * 16) as u8) by (bit_vector);
        self.eth.write_u8(0, n);
    }

    pub fn header_len(&self) -> (r: u8)
        requires
            self.wf(),
        ensures
            r == self.spec_header_len(),
    {
        let b = self.eth.read_u8(0);
        assert((b & 0xf) * 4 == (b % 16) * 4) by (bit_vector);
        (b & 0xf) * 4
    }

    /// Sets the header length, in bytes (stored as a count of 4-byte words),
    /// and widens the frame's payload to hold the header.
    pub fn set_header_len(&mut self, l: u8)
        requires
            old(self).wf(),
        ensures
            final(self).wf(),
            final(self).bytes() == old(self).bytes().update(
                ip_start(),
                ((old(self).bytes()[ip_start()] / 16) * 16 + (l / 4) % 16) as u8,
            ),
            final(self).eth.payload_len() == if old(self).eth.payload_len() < l {
                l as nat
            } else {
                old(self).eth.payload_len()
            },
    {
        if self.eth.size() < l as usize {
            self.eth.set_size(l as usize);
        }
        let b = self.eth.read_u8(0);
        let n = (b & 0xf0) | ((l / 4) & 0xf);
        assert((b & 0xf0) | ((l / 4) & 0xf) == ((b / 16) * 16 + (l / 4) % 16) as u8)
            by (bit_vector);
        self.eth.write_u8(0, n);
    }

    pub fn total_len(&self) -> (r: u16)
        requires
            self.wf(),
        ensures
            r == self.spec_total_len(),
    {
        self.eth.read_u16(2)
    }

    /// Sets the total length and makes it the frame's payload length.
    pub fn set_total_len(&mut self, l: u16)
        requires
            old(self).wf(),
            l <= MAX_PAYLOAD,
        ensures
            final(self).wf(),
            final(self).bytes() == splice(old(self).bytes(), ip_start() + 2, be_bytes(l)),
            final(self).eth.payload_len() == l,
    {
        self.eth.set_size(l as usize);
        self.eth.write_u16(2, l);
    }

    pub fn identification(&self) -> (r: u16)
        requires
            self.wf(),
        ensures
            r == self.spec_identification(),
    {
        self.eth.read_u16(4)
    }

    pub fn set_identification(&mut self, l: u16)
        requires
            old(self).wf(),
        ensures
            final(self).wf(),
            final(self).bytes() == splice(old(self).bytes(), ip_start() + 4, be_bytes(l)),
            final(self).eth.payload_len() == old(self).eth.payload_len(),
    {
        self.eth.write_u16(4, l);
    }

    pub fn ttl(&self) -> (r: u8)
        requires
            self.wf(),
        ensures
            r == self.spec_ttl(),
    {
        self.eth.read_u8(8)
    }

    pub fn set_ttl(&mut self, ttl: u8)
        requires
            old(self).wf(),
        ensures
            final(self).wf(),
            final(self).bytes() == old(self).bytes().update(ip_start() + 8, ttl),
            final(self).eth.payload_len() == old(self).eth.payload_len(),
    {
        self.eth.write_u8(8, ttl);
    }

    pub fn protocol(&self) -> (r: Protocol)
        requires
            self.wf(),
        ensures
            r == protocol_of(self.spec_protocol()),
    {
        Protocol::from_code(self.eth.read_u8(9))
    }

    pub fn set_protocol(&mut self, p: Protocol)
        requires
            old(self).wf(),
        ensures
            final(self).wf(),
            final(self).bytes() == old(self).bytes().update(ip_start() + 9, p.spec_code()),
            final(self).eth.payload_len() == old(self).eth.payload_len(),
    {
        self.eth.write_u8(9, p.code());
    }

    pub fn header_checksum(&self) -> (r: u16)
        requires
            self.wf(),
        ensures
            r == self.spec_header_checksum(),
    {
        self.eth.read_u16(10)
    }

    pub fn set_header_checksum(&mut self, s: u16)
        requires
            old(self).wf(),
        ensures
            final(self).wf(),
            final(self).bytes() == splice(old(self).bytes(), ip_start() + 10, be_bytes(s)),
            final(self).eth.payload_len() == old(self).eth.payload_len(),
    {
        self.eth.write_u16(10, s);
    }

    pub fn source_address(&self) -> (r: Address)
        requires
            self.wf(),
        ensures
            r.bytes() == self.spec_source(),
    {
        self.address_at(12)
    }

    pub fn set_source_address(&mut self, a: &Address)
        requires
            old(self).wf(),
        ensures
            final(self).wf(),
            final(self).bytes() == splice(old(self).bytes(), ip_start() + 12, a.bytes()),
            final(self).eth.payload_len() == old(self).eth.payload_len(),
    {
        self.eth.write_slice(12, a.0.as_slice());
    }

    pub fn destination_address(&self) -> (r: Address)
        requires
            self.wf(),
        ensures
            r.bytes() == self.spec_destination(),
    {
        self.address_at(16)
    }

    pub fn set_destination_address(&mut self, a: &Address)
        requires
            old(self).wf(),
        ensures
            final(self).wf(),
            final(self).bytes() == splice(old(self).bytes(), ip_start() + 16, a.bytes()),
            final(self).eth.payload_len() == old(self).eth.payload_len(),
    {
        self.eth.write_slice(16, a.0.as_slice());
    }

    /// The length of the data: total length less header length.
    pub fn size(&self) -> (r: u16)
        requires
            self.wf(),
            self.spec_header_len() <= self.spec_total_len(),
        ensures
            r == self.spec_total_len() - self.spec_header_len(),
    {
        let header_len = self.header_len() as u16;
        self.total_len() - header_len
    }

    /// Sets the length of the data, through the total length.
    pub fn set_size(&mut self, size: u16)
        requires
            old(self).wf(),
            size + old(self).spec_header_len() <= MAX_PAYLOAD,
        ensures
            final(self).wf(),
            final(self).bytes() == splice(
                old(self).bytes(),
                ip_start() + 2,
                be_bytes((size + old(self).spec_header_len()) as u16),
            ),
            final(self).eth.payload_len() == size + old(self).spec_header_len(),
    {
        let header_len = self.header_len() as u16;
        self.set_total_len(size + header_len);
    }

    /// The header bytes.
    pub fn header(&self) -> (r: &[u8])
        requires
            self.wf(),
            self.spec_header_len() <= self.eth.payload_len(),
        ensures
            r@ == self.spec_header(),
    {
        let header_len = self.header_len() as usize;
        &self.eth.data()[0..header_len]
    }

    /// The data that follows the header.
    pub fn data(&self) -> (r: &[u8])
        requires
            self.wf(),
            self.spans_ok(),
        ensures
            r@ == self.spec_data(),
    {
        let header_len = self.header_len() as usize;
        let total_len = self.total_len() as usize;
        &self.eth.data()[header_len..total_len]
    }

    fn address_at(&self, off: usize) -> (r: Address)
        requires
            self.wf(),
            off + 4 <= 20,
        ensures
            r.bytes() == self.bytes().subrange(ip_start() + off, ip_start() + off + 4),
    {
        let r = Address(
            [
                self.eth.read_u8(off),
                self.eth.read_u8(off + 1),
                self.eth.read_u8(off + 2),
                self.eth.read_u8(off + 3),
            ],
        );
        assert(r.bytes() =~= self.bytes().subrange(ip_start() + off, ip_start() + off + 4));
        r
    }
}

} // verus!
