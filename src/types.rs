use vstd::prelude::*;

verus! {

/// An integer stored twice on disk: once little-endian, once big-endian.
#[allow(non_camel_case_types)]
#[derive(Copy, Clone, Debug, Default)]
pub struct LSB_MSB<T> {
    pub lsb: T,
    pub msb: T,
}

impl LSB_MSB<u32> {
    /// Both members encode the same number, as on a well-formed volume.
    pub open spec fn is_consistent(&self) -> bool {
        self.lsb == self.msb
    }
}

impl LSB_MSB<u16> {
    /// Both members encode the same number, as on a well-formed volume.
    pub open spec fn is_consistent(&self) -> bool {
        self.lsb == self.msb
    }
}

/// The little-endian 16-bit integer at `i`.
pub open spec fn le_u16(s: Seq<u8>, i: int) -> u16 {
    (s[i] as int + s[i + 1] as int * 0x100) as u16
}

/// The big-endian 16-bit integer at `i`.
pub open spec fn be_u16(s: Seq<u8>, i: int) -> u16 {
    (s[i] as int * 0x100 + s[i + 1] as int) as u16
}

/// The little-endian 32-bit integer at `i`.
pub open spec fn le_u32(s: Seq<u8>, i: int) -> u32 {
    (s[i] as int + s[i + 1] as int * 0x100 + s[i + 2] as int * 0x10000 + s[i + 3] as int
        * 0x1000000) as u32
}

/// The big-endian 32-bit integer at `i`.
pub open spec fn be_u32(s: Seq<u8>, i: int) -> u32 {
    (s[i] as int * 0x1000000 + s[i + 1] as int * 0x10000 + s[i + 2] as int * 0x100 + s[i
        + 3] as int) as u32
}

/// The dual-endian 16-bit pair whose little-endian half starts at `i`.
pub open spec fn dual_u16(s: Seq<u8>, i: int) -> LSB_MSB<u16> {
    LSB_MSB { lsb: le_u16(s, i), msb: be_u16(s, i + 2) }
}

/// The dual-endian 32-bit pair whose little-endian half starts at `i`.
pub open spec fn dual_u32(s: Seq<u8>, i: int) -> LSB_MSB<u32> {
    LSB_MSB { lsb: le_u32(s, i), msb: be_u32(s, i + 4) }
}

/// Reads the little-endian 16-bit integer at `i`.
pub fn read_le_u16(s: &[u8], i: usize) -> (r: u16)
    requires
        i + 2 <= s@.len(),
    ensures
        r == le_u16(s@, i as int),
{
    s[i] as u16 + s[i + 1] as u16 * 0x100
}

/// Reads the big-endian 16-bit integer at `i`.
pub fn read_be_u16(s: &[u8], i: usize) -> (r: u16)
    requires
        i + 2 <= s@.len(),
    ensures
        r == be_u16(s@, i as int),
{
    s[i] as u16 * 0x100 + s[i + 1] as u16
}

/// Reads the little-endian 32-bit integer at `i`.
pub fn read_le_u32(s: &[u8], i: usize) -> (r: u32)
    requires
        i + 4 <= s@.len(),
    ensures
        r == le_u32(s@, i as int),
{
    s[i] as u32 + s[i + 1] as u32 * 0x100 + s[i + 2] as u32 * 0x10000 + s[i + 3] as u32
        * 0x1000000
}

/// Reads the big-endian 32-bit integer at `i`.
pub fn read_be_u32(s: &[u8], i: usize) -> (r: u32)
    requires
        i + 4 <= s@.len(),
    ensures
        r == be_u32(s@, i as int),
{
    s[i] as u32 * 0x1000000 + s[i + 1] as u32 * 0x10000 + s[i + 2] as u32 * 0x100 + s[i
        + 3] as u32
}

/// Decodes the dual-endian 16-bit pair at `i`.
pub fn read_dual_u16(s: &[u8], i: usize) -> (r: LSB_MSB<u16>)
    requires
        i + 4 <= s@.len(),
    ensures
        r == dual_u16(s@, i as int),
{
    let _len = s.len();
    LSB_MSB { lsb: read_le_u16(s, i), msb: read_be_u16(s, i + 2) }
}

/// Decodes the dual-endian 32-bit pair at `i`.
pub fn read_dual_u32(s: &[u8], i: usize) -> (r: LSB_MSB<u32>)
    requires
        i + 8 <= s@.len(),
    ensures
        r == dual_u32(s@, i as int),
{
    let _len = s.len();
    LSB_MSB { lsb: read_le_u32(s, i), msb: read_be_u32(s, i + 4) }
}

/// The little-endian bytes of `x`.
pub open spec fn le_bytes_u32(x: u32) -> Seq<u8> {
    seq![(x & 0xff) as u8, ((x >> 8) & 0xff) as u8, ((x >> 16) & 0xff) as u8, ((x >> 24) & 0xff) as u8]
}

/// The big-endian bytes of `x`.
pub open spec fn be_bytes_u32(x: u32) -> Seq<u8> {
    seq![((x >> 24) & 0xff) as u8, ((x >> 16) & 0xff) as u8, ((x >> 8) & 0xff) as u8, (x & 0xff) as u8]
}

/// The on-disk bytes of a dual-endian 32-bit pair.
pub open spec fn dual_bytes_u32(v: LSB_MSB<u32>) -> Seq<u8> {
    le_bytes_u32(v.lsb) + be_bytes_u32(v.msb)
}

/// Decoding the little-endian and big-endian bytes of `x` gives `x` back.
pub proof fn lemma_u32_bytes(x: u32)
    ensures
        le_u32(le_bytes_u32(x), 0) == x,
        be_u32(be_bytes_u32(x), 0) == x,
{
    let b0 = x & 0xff;
    let b1 = (x >> 8) & 0xff;
    let b2 = (x >> 16) & 0xff;
    let b3 = (x >> 24) & 0xff;
    assert(b0 < 256 && b1 < 256 && b2 < 256 && b3 < 256) by (bit_vector)
        requires
            b0 == x & 0xff,
            b1 == (x >> 8) & 0xff,
            b2 == (x >> 16) & 0xff,
            b3 == (x >> 24) & 0xff,
    ;
    assert(b0 + b1 * 0x100 + b2 * 0x10000 + b3 * 0x1000000 == x) by (bit_vector)
        requires
            b0 == x & 0xff,
            b1 == (x >> 8) & 0xff,
            b2 == (x >> 16) & 0xff,
            b3 == (x >> 24) & 0xff,
    ;
}

/// Appends the little-endian bytes of `x`.
pub fn push_le_u32(out: &mut Vec<u8>, x: u32)
    ensures
        final(out)@ == old(out)@ + le_bytes_u32(x),
{
    out.push((x & 0xff) as u8);
    out.push(((x >> 8) & 0xff) as u8);
    out.push(((x >> 16) & 0xff) as u8);
    out.push(((x >> 24) & 0xff) as u8);
    assert(out@ =~= old(out)@ + le_bytes_u32(x));
}

/// Appends the big-endian bytes of `x`.
pub fn push_be_u32(out: &mut Vec<u8>, x: u32)
    ensures
        final(out)@ == old(out)@ + be_bytes_u32(x),
{
    out.push(((x >> 24) & 0xff) as u8);
    out.push(((x >> 16) & 0xff) as u8);
    out.push(((x >> 8) & 0xff) as u8);
    out.push((x & 0xff) as u8);
    assert(out@ =~= old(out)@ + be_bytes_u32(x));
}

} // verus!
