use vstd::prelude::*;

verus! {

/// A 4-byte IP address.
#[derive(Clone, Copy, Debug, Eq, Hash)]
pub struct Address(pub [u8; 4]);

impl PartialEq for Address {
    fn eq(&self, o: &Address) -> (r: bool)
        ensures
            r == (self.bytes() == o.bytes()),
    {
        let r = self.0[0] == o.0[0] && self.0[1] == o.0[1] && self.0[2] == o.0[2] && self.0[3]
            == o.0[3];
        assert(r ==> self.bytes() =~= o.bytes());
        r
    }
}

impl vstd::std_specs::cmp::PartialEqSpecImpl for Address {
    open spec fn obeys_eq_spec() -> bool {
        true
    }

    open spec fn eq_spec(&self, o: &Address) -> bool {
        self.bytes() == o.bytes()
    }
}

/// The bitwise AND of two addresses, byte by byte.
pub open spec fn and_bytes(a: Seq<u8>, b: Seq<u8>) -> Seq<u8> {
    Seq::new(4, |i: int| a[i] & b[i])
}

/// The address read as one big-endian 32-bit number.
pub open spec fn address_number(a: Seq<u8>) -> u32 {
    ((a[0] as nat) * 0x1000000 + (a[1] as nat) * 0x10000 + (a[2] as nat) * 0x100
        + (a[3] as nat)) as u32
}

impl Address {
    /// The address as a sequence of its four bytes.
    pub open spec fn bytes(&self) -> Seq<u8> {
        self.0@
    }

    /// The address `0.0.0.0`, which marks a source not yet filled in.
    pub fn unspecified() -> (r: Address)
        ensures
            r.bytes() == Seq::new(4, |i: int| 0u8),
    {
        let r = Address([0u8; 4]);
        assert(r.bytes() =~= Seq::new(4, |i: int| 0u8));
        r
    }

    /// The bitwise AND of two addresses: an address masked by a netmask.
    pub fn bitand(self, rhs: Address) -> (r: Address)
        ensures
            r.bytes() == and_bytes(self.bytes(), rhs.bytes()),
    {
        let mut result = Address([0u8; 4]);
        let mut i: usize = 0;
        while i < 4
            invariant
                i <= 4,
                forall|j: int| 0 <= j < i ==> result.0@[j] == self.0@[j] & rhs.0@[j],
            decreases 4 - i,
        {
            result.0[i] = self.0[i] & rhs.0[i];
            i = i + 1;
        }
        assert(result.bytes() =~= and_bytes(self.bytes(), rhs.bytes()));
        result
    }

    /// The address as one big-endian 32-bit number, which keys the tables.
    pub fn number(&self) -> (r: u32)
        ensures
            r == address_number(self.bytes()),
    {
        let r = (self.0[0] as u32) * 0x1000000 + (self.0[1] as u32) * 0x10000 + (self.0[2] as u32)
            * 0x100 + self.0[3] as u32;
        r
    }
}

} // verus!
