use vstd::prelude::*;

verus! {

/// The little-endian bytes of a 16-bit value.
pub open spec fn le_u16(x: u16) -> Seq<u8> {
    seq![(x % 256) as u8, (x / 256) as u8]
}

/// The little-endian bytes of a 32-bit value.
pub open spec fn le_u32(x: u32) -> Seq<u8> {
    seq![(x % 256) as u8, ((x / 256) % 256) as u8, ((x / 65536) % 256) as u8, (x / 16777216) as u8]
}

/// The 16-bit value stored little-endian at `at`.
pub open spec fn read_le_u16(s: Seq<u8>, at: int) -> u16 {
    (s[at] + s[at + 1] * 256) as u16
}

/// The 32-bit value stored little-endian at `at`.
pub open spec fn read_le_u32(s: Seq<u8>, at: int) -> u32 {
    (s[at] + s[at + 1] * 256 + s[at + 2] * 65536 + s[at + 3] * 16777216) as u32
}

/// Appends the little-endian bytes of `x`.
pub fn push_u32_le(out: &mut Vec<u8>, x: u32)
    ensures
        final(out)@ == old(out)@ + le_u32(x),
{
    out.push((x % 256) as u8);
    out.push(((x / 256) % 256) as u8);
    out.push(((x / 65536) % 256) as u8);
    out.push((x / 16777216) as u8);
    assert(final(out)@ =~= old(out)@ + le_u32(x));
}

/// Appends all bytes of `data`.
pub fn push_bytes(out: &mut Vec<u8>, data: &[u8])
    ensures
        final(out)@ == old(out)@ + data@,
{
    let mut i: usize = 0;
    while i < data.len()
        invariant
            i <= data.len(),
            out@ == old(out)@ + data@.subrange(0, i as int),
        decreases data.len() - i,
    {
        out.push(data[i]);
        i = i + 1;
        assert(out@ =~= old(out)@ + data@.subrange(0, i as int));
    }
    assert(data@.subrange(0, data@.len() as int) =~= data@);
}

/// Reads a little-endian 16-bit value at `at`.
pub fn get_u16_le(data: &[u8], at: usize) -> (r: u16)
    requires
        at + 2 <= data@.len(),
    ensures
        r == read_le_u16(data@, at as int),
{
    data[at] as u16 + (data[at + 1] as u16) * 256
}

/// Reads a little-endian 32-bit value at `at`.
pub fn get_u32_le(data: &[u8], at: usize) -> (r: u32)
    requires
        at + 4 <= data@.len(),
    ensures
        r == read_le_u32(data@, at as int),
{
    data[at] as u32 + (data[at + 1] as u32) * 256 + (data[at + 2] as u32) * 65536
        + (data[at + 3] as u32) * 16777216
}

/// Reading back the bytes of a 32-bit value gives the value.
pub proof fn lemma_le_u32_roundtrip(x: u32)
    ensures
        read_le_u32(le_u32(x), 0) == x,
        le_u32(x).len() == 4,
{
}

} // verus!
