use super::kind::{icmp_type_of, Type, ECHO_HEADER_LEN};
use crate::ethernet::{HEADER_SIZE, MAX_PAYLOAD};
use crate::ip;
use crate::wire::{be16, be_bytes, splice};
use vstd::prelude::*;

verus! {

/// An ICMP message carried as the data of an IP packet: type, code,
/// checksum, identifier and sequence number, then the application data.
pub struct Packet {
    pub ip: ip::Packet,
}

impl Packet {
    pub open spec fn wf(&self) -> bool {
        self.ip.wf()
    }

    /// The frame buffer.
    pub open spec fn bytes(&self) -> Seq<u8> {
        self.ip.bytes()
    }

    /// Position of the ICMP message in the frame buffer.
    pub open spec fn start(&self) -> int {
        HEADER_SIZE + self.ip.spec_header_len()
    }

    pub open spec fn spec_type(&self) -> u8 {
        self.bytes()[self.start()]
    }

    pub open spec fn spec_code(&self) -> u8 {
        self.bytes()[self.start() + 1]
    }

    pub open spec fn spec_checksum(&self) -> u16 {
        be16(self.bytes(), self.start() + 2)
    }

    pub open spec fn spec_identifier(&self) -> u16 {
        be16(self.bytes(), self.start() + 4)
    }

    pub open spec fn spec_sequence_number(&self) -> u16 {
        be16(self.bytes(), self.start() + 6)
    }

    /// The whole message: the data of the IP packet.
    pub open spec fn spec_message(&self) -> Seq<u8> {
        self.ip.spec_data()
    }

    /// The application data after the 8-byte header.
    pub open spec fn spec_data(&self) -> Seq<u8> {
        self.spec_message().subrange(ECHO_HEADER_LEN as int, self.spec_message().len() as int)
    }

    /// The message lies within the frame and holds at least a header.
    pub open spec fn spans_ok(&self) -> bool {
        &&& self.ip.spans_ok()
        &&& self.ip.spec_header_len() + ECHO_HEADER_LEN <= self.ip.spec_total_len()
    }

    /// A fresh message in a fresh IP packet (see `ip::Packet::new`).
    pub fn new() -> (r: Packet)
        ensures
            r.wf(),
            r.ip.spec_version() == 4,
            r.ip.spec_header_len() == 20,
            r.ip.spec_total_len() == 20,
            r.ip.spec_ttl() == 255,
            r.ip.spec_source() == Seq::new(4, |i: int| 0u8),
            r.ip.spec_destination() == Seq::new(4, |i: int| 0u8),
            r.ip.eth.payload_len() == 20,
            r.bytes() == ip::fresh_ip_frame(),
    {
        Packet { ip: ip::Packet::new() }
    }

    pub fn typ(&self) -> (r: Type)
        requires
            self.wf(),
        ensures
            r == icmp_type_of(self.spec_type()),
    {
        let start = self.ip.header_len() as usize;
        Type::from_code(self.ip.eth.read_u8(start))
    }

    pub fn set_type(&mut self, t: Type)
        requires
            old(self).wf(),
        ensures
            final(self).wf(),
            final(self).bytes() == old(self).bytes().update(old(self).start(), t.spec_code()),
            final(self).ip.eth.payload_len() == old(self).ip.eth.payload_len(),
    {
        let start = self.ip.header_len() as usize;
        self.ip.eth.write_u8(start, t.code());
    }

    pub fn code(&self) -> (r: u8)
        requires
            self.wf(),
        ensures
            r == self.spec_code(),
    {
        let start = self.ip.header_len() as usize;
        self.ip.eth.read_u8(start + 1)
    }

    pub fn set_code(&mut self, c: u8)
        requires
            old(self).wf(),
        ensures
            final(self).wf(),
            final(self).bytes() == old(self).bytes().update(old(self).start() + 1, c),
            final(self).ip.eth.payload_len() == old(self).ip.eth.payload_len(),
    {
        let start = self.ip.header_len() as usize;
        self.ip.eth.write_u8(start + 1, c);
    }

    pub fn checksum(&self) -> (r: u16)
        requires
            self.wf(),
        ensures
            r == self.spec_checksum(),
    {
        let start = self.ip.header_len() as usize;
        self.ip.eth.read_u16(start + 2)
    }

    pub fn set_checksum(&mut self, s: u16)
        requires
            old(self).wf(),
        ensures
            final(self).wf(),
            final(self).bytes() == splice(old(self).bytes(), old(self).start() + 2, be_bytes(s)),
            final(self).ip.eth.payload_len() == old(self).ip.eth.payload_len(),
    {
        let start = self.ip.header_len() as usize;
        self.ip.eth.write_u16(start + 2, s);
    }

    pub fn identifier(&self) -> (r: u16)
        requires
            self.wf(),
        ensures
            r == self.spec_identifier(),
    {
        let start = self.ip.header_len() as usize;
        self.ip.eth.read_u16(start + 4)
    }

    pub fn set_identifier(&mut self, i: u16)
        requires
            old(self).wf(),
        ensures
            final(self).wf(),
            final(self).bytes() == splice(old(self).bytes(), old(self).start() + 4, be_bytes(i)),
            final(self).ip.eth.payload_len() == old(self).ip.eth.payload_len(),
    {
        let start = self.ip.header_len() as usize;
        self.ip.eth.write_u16(start + 4, i);
    }

    pub fn sequence_number(&self) -> (r: u16)
        requires
            self.wf(),
        ensures
            r == self.spec_sequence_number(),
    {
        let start = self.ip.header_len() as usize;
        self.ip.eth.read_u16(start + 6)
    }

    pub fn set_sequence_number(&mut self, n: u16)
        requires
            old(self).wf(),
        ensures
            final(self).wf(),
            final(self).bytes() == splice(old(self).bytes(), old(self).start() + 6, be_bytes(n)),
            final(self).ip.eth.payload_len() == old(self).ip.eth.payload_len(),
    {
        let start = self.ip.header_len() as usize;
        self.ip.eth.write_u16(start + 6, n);
    }

    /// The application data.
    pub fn data(&self) -> (r: &[u8])
        requires
            self.wf(),
            self.spans_ok(),
        ensures
            r@ == self.spec_data(),
    {
        let message = self.ip.data();
        &message[ECHO_HEADER_LEN..message.len()]
    }

    /// Replaces the application data and sets the IP lengths to match.
    pub fn set_data(&mut self, data: &[u8])
        requires
            old(self).wf(),
            old(self).ip.spec_header_len() + ECHO_HEADER_LEN + data@.len() <= MAX_PAYLOAD,
        ensures
            final(self).wf(),
            final(self).bytes() == splice(
                splice(
                    old(self).bytes(),
                    ip::ip_start() + 2,
                    be_bytes((old(self).ip.spec_header_len() + ECHO_HEADER_LEN + data@.len()) as u16),
                ),
                old(self).start() + ECHO_HEADER_LEN,
                data@,
            ),
            final(self).ip.eth.payload_len() == old(self).ip.spec_header_len() + ECHO_HEADER_LEN
                + data@.len(),
    {
        let data_len = data.len() as u16;
        self.ip.set_size(ECHO_HEADER_LEN as u16 + data_len);
        let start = self.ip.header_len() as usize;
        self.ip.eth.write_slice(start + ECHO_HEADER_LEN, data);
    }
}

} // verus!
