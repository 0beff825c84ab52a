use super::{ether_type_of, MacAddress, Type};
use crate::wire::{be16, be_bytes, read_be16, read_bytes, splice, write_be16, write_bytes};
use vstd::prelude::*;

verus! {

/// The size of every frame buffer, header included.
pub const FRAME_CAPACITY: usize = 3000;

/// The size of the Ethernet header: destination, source and ethertype.
pub const HEADER_SIZE: usize = 14;

/// The largest payload that fits in a frame buffer.
pub const MAX_PAYLOAD: usize = 2986;

/// A frame in a fixed-capacity buffer: the 14-byte header, then a payload
/// whose logical length is kept beside the buffer.
pub struct Packet {
    data: Vec<u8>,
    size: usize,
}

impl Packet {
    /// All bytes of the buffer, header and payload.
    pub closed spec fn bytes(&self) -> Seq<u8> {
        self.data@
    }

    /// The logical length of the payload.
    pub closed spec fn payload_len(&self) -> nat {
        self.size as nat
    }

    /// The buffer has its fixed capacity and the payload fits in it.
    pub open spec fn wf(&self) -> bool {
        &&& self.bytes().len() == FRAME_CAPACITY
        &&& self.payload_len() <= MAX_PAYLOAD
    }

    /// The payload: the `payload_len()` bytes after the header.
    pub open spec fn payload(&self) -> Seq<u8> {
        self.bytes().subrange(HEADER_SIZE as int, HEADER_SIZE + self.payload_len())
    }

    /// The frame as it goes on the wire: the header and the payload.
    pub open spec fn frame(&self) -> Seq<u8> {
        self.bytes().subrange(0, HEADER_SIZE + self.payload_len())
    }

    /// A zero-filled frame with an empty payload.
    pub fn new() -> (r: Packet)
        ensures
            r.wf(),
            r.bytes() == Seq::new(FRAME_CAPACITY as nat, |i: int| 0u8),
            r.payload_len() == 0,
    {
        let data = vec![0u8; FRAME_CAPACITY];
        let r = Packet { data, size: 0 };
        assert(r.bytes() =~= Seq::new(FRAME_CAPACITY as nat, |i: int| 0u8));
        r
    }

    /// A frame holding the bytes `raw` as received from the wire; the payload
    /// is what follows the header, and is empty if `raw` is shorter than a header.
    pub fn from_wire(raw: &[u8]) -> (r: Packet)
        requires
            raw@.len() <= FRAME_CAPACITY,
        ensures
            r.wf(),
            r.bytes().subrange(0, raw@.len() as int) == raw@,
            r.payload_len() == if raw@.len() >= HEADER_SIZE {
                raw@.len() - HEADER_SIZE
            } else {
                0
            },
    {
        let mut data = vec![0u8; FRAME_CAPACITY];
        write_bytes(&mut data, 0, raw);
        let size = if raw.len() >= HEADER_SIZE {
            raw.len() - HEADER_SIZE
        } else {
            0
        };
        let r = Packet { data, size };
        assert(r.bytes().subrange(0, raw@.len() as int) =~= raw@);
        r
    }

    pub fn mac_destination(&self) -> (r: MacAddress)
        requires
            self.wf(),
        ensures
            r.bytes() == self.bytes().subrange(0, 6),
    {
        self.mac_at(0)
    }

    pub fn set_mac_destination(&mut self, d: MacAddress)
        requires
            old(self).wf(),
        ensures
            final(self).wf(),
            final(self).bytes() == splice(old(self).bytes(), 0, d.bytes()),
            final(self).payload_len() == old(self).payload_len(),
    {
        write_bytes(&mut self.data, 0, d.0.as_slice());
    }

    pub fn mac_source(&self) -> (r: MacAddress)
        requires
            self.wf(),
        ensures
            r.bytes() == self.bytes().subrange(6, 12),
    {
        self.mac_at(6)
    }

    pub fn set_mac_source(&mut self, s: MacAddress)
        requires
            old(self).wf(),
        ensures
            final(self).wf(),
            final(self).bytes() == splice(old(self).bytes(), 6, s.bytes()),
            final(self).payload_len() == old(self).payload_len(),
    {
        write_bytes(&mut self.data, 6, s.0.as_slice());
    }

    pub fn ether_type(&self) -> (r: Type)
        requires
            self.wf(),
        ensures
            r == ether_type_of(be16(self.bytes(), 12)),
    {
        Type::from_code(read_be16(&self.data, 12))
    }

    pub fn set_ether_type(&mut self, t: Type)
        requires
            old(self).wf(),
        ensures
            final(self).wf(),
            final(self).bytes() == splice(old(self).bytes(), 12, be_bytes(t.spec_code())),
            final(self).payload_len() == old(self).payload_len(),
    {
        write_be16(&mut self.data, 12, t.code());
    }

    /// The logical length of the payload.
    pub fn size(&self) -> (r: usize)
        ensures
            r == self.payload_len(),
    {
        self.size
    }

    /// The length of the Ethernet header.
    pub fn header_size(&self) -> (r: usize)
        ensures
            r == HEADER_SIZE,
    {
        HEADER_SIZE
    }

    /// Sets the logical length of the payload; the bytes stay as they are.
    pub fn set_size(&mut self, s: usize)
        requires
            s <= MAX_PAYLOAD,
        ensures
            final(self).bytes() == old(self).bytes(),
            final(self).payload_len() == s,
    {
        self.size = s;
    }

    /// The payload.
    pub fn data(&self) -> (r: &[u8])
        requires
            self.wf(),
        ensures
            r@ == self.payload(),
    {
        &self.data.as_slice()[HEADER_SIZE..HEADER_SIZE + self.size]
    }

    /// The header and the payload, as they go on the wire.
    pub fn wire_bytes(&self) -> (r: &[u8])
        requires
            self.wf(),
        ensures
            r@ == self.frame(),
    {
        &self.data.as_slice()[0..HEADER_SIZE + self.size]
    }

    /// The byte at position `off` of the payload area.
    pub fn read_u8(&self, off: usize) -> (r: u8)
        requires
            self.wf(),
            off < MAX_PAYLOAD,
        ensures
            r == self.bytes()[HEADER_SIZE + off],
    {
        self.data[HEADER_SIZE + off]
    }

    /// The big-endian 16-bit value at position `off` of the payload area.
    pub fn read_u16(&self, off: usize) -> (r: u16)
        requires
            self.wf(),
            off + 1 < MAX_PAYLOAD,
        ensures
            r == be16(self.bytes(), HEADER_SIZE + off),
    {
        read_be16(&self.data, HEADER_SIZE + off)
    }

    /// `n` bytes from position `off` of the payload area.
    pub fn read_slice(&self, off: usize, n: usize) -> (r: Vec<u8>)
        requires
            self.wf(),
            off + n <= MAX_PAYLOAD,
        ensures
            r@ == self.bytes().subrange(HEADER_SIZE + off, HEADER_SIZE + off + n),
    {
        read_bytes(&self.data, HEADER_SIZE + off, n)
    }

    /// Writes the byte `v` at position `off` of the payload area.
    pub fn write_u8(&mut self, off: usize, v: u8)
        requires
            old(self).wf(),
            off < MAX_PAYLOAD,
        ensures
            final(self).wf(),
            final(self).bytes() == old(self).bytes().update(HEADER_SIZE + off, v),
            final(self).payload_len() == old(self).payload_len(),
    {
        self.data.set(HEADER_SIZE + off, v);
    }

    /// Writes `v` big-endian at position `off` of the payload area.
    pub fn write_u16(&mut self, off: usize, v: u16)
        requires
            old(self).wf(),
            off + 1 < MAX_PAYLOAD,
        ensures
            final(self).wf(),
            final(self).bytes() == splice(old(self).bytes(), HEADER_SIZE + off, be_bytes(v)),
            final(self).payload_len() == old(self).payload_len(),
    {
        write_be16(&mut self.data, HEADER_SIZE + off, v);
    }

    /// Copies `src` to position `off` of the payload area.
    pub fn write_slice(&mut self, off: usize, src: &[u8])
        requires
            old(self).wf(),
            off + src@.len() <= MAX_PAYLOAD,
        ensures
            final(self).wf(),
            final(self).bytes() == splice(old(self).bytes(), HEADER_SIZE + off, src@),
            final(self).payload_len() == old(self).payload_len(),
    {
        write_bytes(&mut self.data, HEADER_SIZE + off, src);
    }

    fn mac_at(&self, off: usize) -> (r: MacAddress)
        requires
            self.wf(),
            off + 6 <= HEADER_SIZE,
        ensures
            r.bytes() == self.bytes().subrange(off as int, off + 6),
    {
        let a = [
            self.data[off],
            self.data[off + 1],
            self.data[off + 2],
            self.data[off + 3],
            self.data[off + 4],
            self.data[off + 5],
        ];
        let r = MacAddress(a);
        assert(r.bytes() =~= self.bytes().subrange(off as int, off + 6));
        r
    }
}

} // verus!
