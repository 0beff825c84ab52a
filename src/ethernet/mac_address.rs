use vstd::prelude::*;

verus! {

/// A 6-byte hardware address.
#[derive(Clone, Copy, Debug, Eq, Hash)]
pub struct MacAddress(pub [u8; 6]);

impl PartialEq for MacAddress {
    fn eq(&self, o: &MacAddress) -> (r: bool)
        ensures
            r == (self.bytes() == o.bytes()),
    {
        let r = self.0[0] == o.0[0] && self.0[1] == o.0[1] && self.0[2] == o.0[2] && self.0[3]
            == o.0[3] && self.0[4] == o.0[4] && self.0[5] == o.0[5];
        assert(r ==> self.bytes() =~= o.bytes());
        r
    }
}

impl vstd::std_specs::cmp::PartialEqSpecImpl for MacAddress {
    open spec fn obeys_eq_spec() -> bool {
        true
    }

    open spec fn eq_spec(&self, o: &MacAddress) -> bool {
        self.bytes() == o.bytes()
    }
}

/// The address read as one big-endian 48-bit number.
pub open spec fn mac_number(m: Seq<u8>) -> u64 {
    ((m[0] as u64) << 40u64) | ((m[1] as u64) << 32u64) | ((m[2] as u64) << 24u64) | ((m[3] as u64)
        << 16u64) | ((m[4] as u64) << 8u64) | (m[5] as u64)
}

/// The six bytes of a 48-bit number, most significant first.
pub open spec fn mac_of_number(n: u64) -> Seq<u8> {
    seq![(n >> 40u64) as u8, (n >> 32u64) as u8, (n >> 24u64) as u8, (n >> 16u64) as u8, (n >> 8u64) as u8, n as u8]
}

/// Reading an address as a number and back gives the same address.
pub proof fn lemma_mac_number_round_trip(m: Seq<u8>)
    requires
        m.len() == 6,
    ensures
        mac_of_number(mac_number(m)) == m,
{
    let (b0, b1, b2, b3, b4, b5) = (m[0], m[1], m[2], m[3], m[4], m[5]);
    let n = mac_number(m);
    assert(n == ((b0 as u64) << 40u64) | ((b1 as u64) << 32u64) | ((b2 as u64) << 24u64) | ((b3 as u64) << 16u64) | ((b4 as u64) << 8u64) | (b5 as u64));
    assert((n >> 40u64) as u8 == b0 && (n >> 32u64) as u8 == b1 && (n >> 24u64) as u8 == b2 && (n >> 16u64) as u8 == b3 && (n >> 8u64) as u8 == b4 && n as u8 == b5) by (bit_vector)
        requires
            n == ((b0 as u64) << 40u64) | ((b1 as u64) << 32u64) | ((b2 as u64) << 24u64) | ((b3 as u64) << 16u64) | ((b4 as u64) << 8u64) | (b5 as u64);
    assert(mac_of_number(n) =~= m);
}

impl MacAddress {
    /// The address as one big-endian 48-bit number, which the cache stores.
    pub fn number(&self) -> (r: u64)
        ensures
            r == mac_number(self.bytes()),
    {
        ((self.0[0] as u64) << 40u64) | ((self.0[1] as u64) << 32u64) | ((self.0[2] as u64) << 24u64)
            | ((self.0[3] as u64) << 16u64) | ((self.0[4] as u64) << 8u64) | (self.0[5] as u64)
    }

    /// The address whose six bytes are the low 48 bits of `n`.
    pub fn from_number(n: u64) -> (r: MacAddress)
        ensures
            r.bytes() == mac_of_number(n),
    {
        let r = MacAddress(
            [(n >> 40u64) as u8, (n >> 32u64) as u8, (n >> 24u64) as u8, (n >> 16u64) as u8, (n >> 8u64) as u8, n as u8],
        );
        assert(r.bytes() =~= mac_of_number(n));
        r
    }

    /// The address as a sequence of its six bytes.
    pub open spec fn bytes(&self) -> Seq<u8> {
        self.0@
    }

    /// The all-ones address that every station receives.
    pub fn broadcast() -> (r: MacAddress)
        ensures
            r.bytes() == Seq::new(6, |i: int| 0xffu8),
    {
        let r = MacAddress([0xffu8; 6]);
        assert(r.bytes() =~= Seq::new(6, |i: int| 0xffu8));
        r
    }

    /// The all-zero address, which marks a destination not yet known.
    pub fn unset() -> (r: MacAddress)
        ensures
            r.bytes() == Seq::new(6, |i: int| 0u8),
    {
        let r = MacAddress([0u8; 6]);
        assert(r.bytes() =~= Seq::new(6, |i: int| 0u8));
        r
    }
}

} // verus!
