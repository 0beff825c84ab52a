//! The Ethernet layer: hardware addresses, frame layout, and the service that
//! sorts inbound frames by ethertype and gathers outbound ones.

mod mac_address;
mod packet;
mod service;

pub use mac_address::{lemma_mac_number_round_trip, mac_number, mac_of_number, MacAddress};
pub use packet::{Packet, FRAME_CAPACITY, HEADER_SIZE, MAX_PAYLOAD};
pub use service::{stamped, Service, Socket, SEND_QUEUE_CAPACITY};

use vstd::prelude::*;

verus! {

/// The ethertype of a frame: which protocol its payload carries.
#[derive(Clone, Copy, Debug, Eq)]
pub enum Type {
    Ipv4,
    Arp,
    Wol,
    /// Any other code, as it stands on the wire.
    Other(u16),
}

/// The ethertype with wire code `c`; codes without a name become `Other`.
pub open spec fn ether_type_of(c: u16) -> Type {
    if c == 0x0800 {
        Type::Ipv4
    } else if c == 0x0806 {
        Type::Arp
    } else if c == 0x0842 {
        Type::Wol
    } else {
        Type::Other(c)
    }
}

impl Type {
    /// The wire code of this ethertype.
    pub open spec fn spec_code(self) -> u16 {
        match self {
            Type::Ipv4 => 0x0800,
            Type::Arp => 0x0806,
            Type::Wol => 0x0842,
            Type::Other(c) => c,
        }
    }

    /// The wire code of this ethertype.
    pub fn code(&self) -> (r: u16)
        ensures
            r == self.spec_code(),
    {
        match self {
            Type::Ipv4 => 0x0800,
            Type::Arp => 0x0806,
            Type::Wol => 0x0842,
            Type::Other(c) => *c,
        }
    }

    /// The ethertype with wire code `c`.
    pub fn from_code(c: u16) -> (r: Type)
        ensures
            r == ether_type_of(c),
            r.spec_code() == c,
    {
        if c == 0x0800 {
            Type::Ipv4
        } else if c == 0x0806 {
            Type::Arp
        } else if c == 0x0842 {
            Type::Wol
        } else {
            Type::Other(c)
        }
    }
}

/// Two values are equal when their wire codes are: `Other` with a named code
/// equals the named variant.
impl PartialEq for Type {
    fn eq(&self, o: &Type) -> (r: bool)
        ensures
            r == (self.spec_code() == o.spec_code()),
    {
        self.code() == o.code()
    }
}

impl vstd::std_specs::cmp::PartialEqSpecImpl for Type {
    open spec fn obeys_eq_spec() -> bool {
        true
    }

    open spec fn eq_spec(&self, o: &Type) -> bool {
        self.spec_code() == o.spec_code()
    }
}

} // verus!
