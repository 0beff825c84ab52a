use crate::ethernet;
use crate::ethernet::{ether_type_of, MacAddress, HEADER_SIZE};
use crate::ip::Address;
use crate::wire::{be16, be_bytes, splice};
use vstd::prelude::*;

verus! {

/// The ARP operation.
#[derive(Clone, Copy, Debug, Eq)]
pub enum Operation {
    Request,
    Response,
    /// Any other code, as it stands on the wire.
    Other(u16),
}

/// The operation with wire code `c`.
pub open spec fn operation_of(c: u16) -> Operation {
    if c == 1 {
        Operation::Request
    } else if c == 2 {
        Operation::Response
    } else {
        Operation::Other(c)
    }
}

impl Operation {
    pub open spec fn spec_code(self) -> u16 {
        match self {
            Operation::Request => 1,
            Operation::Response => 2,
            Operation::Other(c) => c,
        }
    }

    pub fn code(&self) -> (r: u16)
        ensures
            r == self.spec_code(),
    {
        match self {
            Operation::Request => 1,
            Operation::Response => 2,
            Operation::Other(c) => *c,
        }
    }

    pub fn from_code(c: u16) -> (r: Operation)
        ensures
            r == operation_of(c),
    {
        if c == 1 {
            Operation::Request
        } else if c == 2 {
            Operation::Response
        } else {
            Operation::Other(c)
        }
    }
}

/// Two values are equal when their wire codes are: `Other` with a named code
/// equals the named variant.
impl PartialEq for Operation {
    fn eq(&self, o: &Operation) -> (r: bool)
        ensures
            r == (self.spec_code() == o.spec_code()),
    {
        self.code() == o.code()
    }
}

impl vstd::std_specs::cmp::PartialEqSpecImpl for Operation {
    open spec fn obeys_eq_spec() -> bool {
        true
    }

    open spec fn eq_spec(&self, o: &Operation) -> bool {
        self.spec_code() == o.spec_code()
    }
}

/// The ARP hardware type.
#[derive(Clone, Copy, Debug, Eq)]
pub enum HardwareType {
    Ethernet,
    /// Any other code, as it stands on the wire.
    Other(u16),
}

/// The hardware type with wire code `c`.
pub open spec fn hardware_type_of(c: u16) -> HardwareType {
    if c == 1 {
        HardwareType::Ethernet
    } else {
        HardwareType::Other(c)
    }
}

impl HardwareType {
    pub open spec fn spec_code(self) -> u16 {
        match self {
            HardwareType::Ethernet => 1,
            HardwareType::Other(c) => c,
        }
    }

    pub fn code(&self) -> (r: u16)
        ensures
            r == self.spec_code(),
    {
        match self {
            HardwareType::Ethernet => 1,
            HardwareType::Other(c) => *c,
        }
    }

    pub fn from_code(c: u16) -> (r: HardwareType)
        ensures
            r == hardware_type_of(c),
    {
        if c == 1 {
            HardwareType::Ethernet
        } else {
            HardwareType::Other(c)
        }
    }
}

/// Two values are equal when their wire codes are: `Other` with a named code
/// equals the named variant.
impl PartialEq for HardwareType {
    fn eq(&self, o: &HardwareType) -> (r: bool)
        ensures
            r == (self.spec_code() == o.spec_code()),
    {
        self.code() == o.code()
    }
}

impl vstd::std_specs::cmp::PartialEqSpecImpl for HardwareType {
    open spec fn obeys_eq_spec() -> bool {
        true
    }

    open spec fn eq_spec(&self, o: &HardwareType) -> bool {
        self.spec_code() == o.spec_code()
    }
}

/// The length of an ARP message for Ethernet and IPv4.
pub const MESSAGE_LEN: usize = 28;

/// Position of the ARP message in the frame buffer.
pub open spec fn arp_start() -> int {
    HEADER_SIZE as int
}

/// An ARP message in the payload of an Ethernet frame: hardware type,
/// protocol type, the two address lengths, operation, then sender and target
/// hardware and protocol addresses.
pub struct Packet {
    pub eth: ethernet::Packet,
}

impl Packet {
    pub open spec fn wf(&self) -> bool {
        self.eth.wf()
    }

    /// The frame buffer.
    pub open spec fn bytes(&self) -> Seq<u8> {
        self.eth.bytes()
    }

    pub open spec fn spec_hardware_type(&self) -> u16 {
        be16(self.bytes(), arp_start())
    }

    pub open spec fn spec_protocol_type(&self) -> u16 {
        be16(self.bytes(), arp_start() + 2)
    }

    pub open spec fn spec_operation(&self) -> u16 {
        be16(self.bytes(), arp_start() + 6)
    }

    pub open spec fn spec_sender_hardware_address(&self) -> Seq<u8> {
        self.bytes().subrange(arp_start() + 8, arp_start() + 14)
    }

    pub open spec fn spec_sender_protocol_address(&self) -> Seq<u8> {
        self.bytes().subrange(arp_start() + 14, arp_start() + 18)
    }

    pub open spec fn spec_target_hardware_address(&self) -> Seq<u8> {
        self.bytes().subrange(arp_start() + 18, arp_start() + 24)
    }

    pub open spec fn spec_target_protocol_address(&self) -> Seq<u8> {
        self.bytes().subrange(arp_start() + 24, arp_start() + 28)
    }

    pub fn hardware_type(&self) -> (r: HardwareType)
        requires
            self.wf(),
        ensures
            r == hardware_type_of(self.spec_hardware_type()),
    {
        HardwareType::from_code(self.eth.read_u16(0))
    }

    pub fn set_hardware_type(&mut self, ht: HardwareType)
        requires
            old(self).wf(),
        ensures
            final(self).wf(),
            final(self).bytes() == splice(old(self).bytes(), arp_start(), be_bytes(ht.spec_code())),
            final(self).eth.payload_len() == old(self).eth.payload_len(),
    {
        self.eth.write_u16(0, ht.code());
    }

    pub fn protocol_type(&self) -> (r: ethernet::Type)
        requires
            self.wf(),
        ensures
            r == ether_type_of(self.spec_protocol_type()),
    {
        ethernet::Type::from_code(self.eth.read_u16(2))
    }

    pub fn set_protocol_type(&mut self, pt: ethernet::Type)
        requires
            old(self).wf(),
        ensures
            final(self).wf(),
            final(self).bytes() == splice(
                old(self).bytes(),
                arp_start() + 2,
                be_bytes(pt.spec_code()),
            ),
            final(self).eth.payload_len() == old(self).eth.payload_len(),
    {
        self.eth.write_u16(2, pt.code());
    }

    pub fn hardware_len(&self) -> (r: u8)
        requires
            self.wf(),
        ensures
            r == self.bytes()[arp_start() + 4],
    {
        self.eth.read_u8(4)
    }

    pub fn set_hardware_len(&mut self, l: u8)
        requires
            old(self).wf(),
        ensures
            final(self).wf(),
            final(self).bytes() == old(self).bytes().update(arp_start() + 4, l),
            final(self).eth.payload_len() == old(self).eth.payload_len(),
    {
        self.eth.write_u8(4, l);
    }

    pub fn protocol_len(&self) -> (r: u8)
        requires
            self.wf(),
        ensures
            r == self.bytes()[arp_start() + 5],
    {
        self.eth.read_u8(5)
    }

    pub fn set_protocol_len(&mut self, l: u8)
        requires
            old(self).wf(),
        ensures
            final(self).wf(),
            final(self).bytes() == old(self).bytes().update(arp_start() + 5, l),
            final(self).eth.payload_len() == old(self).eth.payload_len(),
    {
        self.eth.write_u8(5, l);
    }

    pub fn operation(&self) -> (r: Operation)
        requires
            self.wf(),
        ensures
            r == operation_of(self.spec_operation()),
    {
        Operation::from_code(self.eth.read_u16(6))
    }

    pub fn set_operation(&mut self, o: Operation)
        requires
            old(self).wf(),
        ensures
            final(self).wf(),
            final(self).bytes() == splice(old(self).bytes(), arp_start() + 6, be_bytes(o.spec_code())),
            final(self).eth.payload_len() == old(self).eth.payload_len(),
    {
        self.eth.write_u16(6, o.code());
    }

    pub fn sender_hardware_address(&self) -> (r: MacAddress)
        requires
            self.wf(),
        ensures
            r.bytes() == self.spec_sender_hardware_address(),
    {
        self.mac_at(8)
    }

    pub fn set_sender_hardware_address(&mut self, a: &MacAddress)
        requires
            old(self).wf(),
        ensures
            final(self).wf(),
            final(self).bytes() == splice(old(self).bytes(), arp_start() + 8, a.bytes()),
            final(self).eth.payload_len() == old(self).eth.payload_len(),
    {
        self.eth.write_slice(8, a.0.as_slice());
    }

    pub fn sender_protocol_address(&self) -> (r: Address)
        requires
            self.wf(),
        ensures
            r.bytes() == self.spec_sender_protocol_address(),
    {
        self.address_at(14)
    }

    pub fn set_sender_protocol_address(&mut self, a: &Address)
        requires
            old(self).wf(),
        ensures
            final(self).wf(),
            final(self).bytes() == splice(old(self).bytes(), arp_start() + 14, a.bytes()),
            final(self).eth.payload_len() == old(self).eth.payload_len(),
    {
        self.eth.write_slice(14, a.0.as_slice());
    }

    pub fn target_hardware_address(&self) -> (r: MacAddress)
        requires
            self.wf(),
        ensures
            r.bytes() == self.spec_target_hardware_address(),
    {
        self.mac_at(18)
    }

    pub fn set_target_hardware_address(&mut self, a: &MacAddress)
        requires
            old(self).wf(),
        ensures
            final(self).wf(),
            final(self).bytes() == splice(old(self).bytes(), arp_start() + 18, a.bytes()),
            final(self).eth.payload_len() == old(self).eth.payload_len(),
    {
        self.eth.write_slice(18, a.0.as_slice());
    }

    pub fn target_protocol_address(&self) -> (r: Address)
        requires
            self.wf(),
        ensures
            r.bytes() == self.spec_target_protocol_address(),
    {
        self.address_at(24)
    }

    pub fn set_target_protocol_address(&mut self, a: &Address)
        requires
            old(self).wf(),
        ensures
            final(self).wf(),
            final(self).bytes() == splice(old(self).bytes(), arp_start() + 24, a.bytes()),
            final(self).eth.payload_len() == old(self).eth.payload_len(),
    {
        self.eth.write_slice(24, a.0.as_slice());
    }

    fn mac_at(&self, off: usize) -> (r: MacAddress)
        requires
            self.wf(),
            off + 6 <= MESSAGE_LEN,
        ensures
            r.bytes() == self.bytes().subrange(arp_start() + off, arp_start() + off + 6),
    {
        let r = MacAddress(
            [
                self.eth.read_u8(off),
                self.eth.read_u8(off + 1),
                self.eth.read_u8(off + 2),
                self.eth.read_u8(off + 3),
                self.eth.read_u8(off + 4),
                self.eth.read_u8(off + 5),
            ],
        );
        assert(r.bytes() =~= self.bytes().subrange(arp_start() + off, arp_start() + off + 6));
        r
    }

    fn address_at(&self, off: usize) -> (r: Address)
        requires
            self.wf(),
            off + 4 <= MESSAGE_LEN,
        ensures
            r.bytes() == self.bytes().subrange(arp_start() + off, arp_start() + off + 4),
    {
        let r = Address(
            [
                self.eth.read_u8(off),
                self.eth.read_u8(off + 1),
                self.eth.read_u8(off + 2),
                self.eth.read_u8(off + 3),
            ],
        );
        assert(r.bytes() =~= self.bytes().subrange(arp_start() + off, arp_start() + off + 4));
        r
    }
}

} // verus!
