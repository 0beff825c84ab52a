//! Big-endian fields in byte buffers.

use vstd::prelude::*;

verus! {

/// The 16-bit big-endian value of the two bytes at `off`.
pub open spec fn be16(s: Seq<u8>, off: int) -> u16 {
    ((s[off] as nat) * 256 + (s[off + 1] as nat)) as u16
}

/// The two bytes of `v`, most significant first.
pub open spec fn be_bytes(v: u16) -> Seq<u8> {
    seq![(v / 256) as u8, (v % 256) as u8]
}

/// `s` with the bytes of `v` written from position `off` on.
pub open spec fn splice(s: Seq<u8>, off: int, v: Seq<u8>) -> Seq<u8> {
    Seq::new(s.len(), |i: int| if off <= i < off + v.len() { v[i - off] } else { s[i] })
}

/// Reads the 16-bit big-endian value at `off`.
pub fn read_be16(buf: &Vec<u8>, off: usize) -> (r: u16)
    requires
        off + 1 < buf@.len(),
    ensures
        r == be16(buf@, off as int),
{
    let _len = buf.len();
    (buf[off] as u16) * 256 + buf[off + 1] as u16
}

/// Writes `v` big-endian at `off`.
pub fn write_be16(buf: &mut Vec<u8>, off: usize, v: u16)
    requires
        off + 1 < old(buf)@.len(),
    ensures
        final(buf)@ == splice(old(buf)@, off as int, be_bytes(v)),
{
    let _len = buf.len();
    buf.set(off, (v / 256) as u8);
    buf.set(off + 1, (v % 256) as u8);
    assert(final(buf)@ =~= splice(old(buf)@, off as int, be_bytes(v)));
}

/// Copies `src` into `buf` from position `off` on.
pub fn write_bytes(buf: &mut Vec<u8>, off: usize, src: &[u8])
    requires
        off + src@.len() <= old(buf)@.len(),
    ensures
        final(buf)@ == splice(old(buf)@, off as int, src@),
{
    let ghost start = buf@;
    let len = buf.len();
    let mut i: usize = 0;
    while i < src.len()
        invariant
            off + src@.len() <= start.len(),
            len == start.len(),
            i <= src@.len(),
            buf@.len() == start.len(),
            forall|j: int| 0 <= j < buf@.len() ==> buf@[j] == (if off <= j < off + i {
                src@[j - off]
            } else {
                start[j]
            }),
        decreases src@.len() - i,
    {
        buf.set(off + i, src[i]);
        i = i + 1;
    }
    assert(buf@ =~= splice(start, off as int, src@));
}

/// The bytes of `buf` from `off` to `off + n`, as a new vector.
pub fn read_bytes(buf: &Vec<u8>, off: usize, n: usize) -> (r: Vec<u8>)
    requires
        off + n <= buf@.len(),
    ensures
        r@ == buf@.subrange(off as int, off + n),
{
    let mut r: Vec<u8> = Vec::new();
    let len = buf.len();
    let mut i: usize = 0;
    while i < n
        invariant
            off + n <= buf@.len(),
            len == buf@.len(),
            i <= n,
            r@ == buf@.subrange(off as int, off + i),
        decreases n - i,
    {
        r.push(buf[off + i]);
        i = i + 1;
        assert(r@ =~= buf@.subrange(off as int, off + i));
    }
    r
}

} // verus!
