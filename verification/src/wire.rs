use vstd::prelude::*;

verus! {

/// The little-endian 16-bit value of the two bytes of `s` at `i`.
pub open spec fn spec_u16_le(s: Seq<u8>, i: int) -> int {
    s[i] + 256 * s[i + 1]
}

/// The little-endian 32-bit value of the four bytes of `s` at `i`.
pub open spec fn spec_u32_le(s: Seq<u8>, i: int) -> int {
    s[i] + 256 * s[i + 1] + 65536 * s[i + 2] + 16777216 * s[i + 3]
}

/// `s` read as little-endian 16-bit units; a trailing odd byte is dropped.
pub open spec fn spec_u16_units(s: Seq<u8>) -> Seq<u16> {
    Seq::new(s.len() / 2, |k: int| spec_u16_le(s, 2 * k) as u16)
}

/// Reads a little-endian `u16` at `pos`.
pub fn read_u16_le(buf: &[u8], pos: usize) -> (v: u16)
    requires
        pos + 2 <= buf@.len(),
    ensures
        v == spec_u16_le(buf@, pos as int),
{
    let b0 = buf[pos] as u16;
    let b1 = buf[pos + 1] as u16;
    b0 + b1 * 256
}

/// Reads a little-endian `u32` at `pos`.
pub fn read_u32_le(buf: &[u8], pos: usize) -> (v: u32)
    requires
        pos + 4 <= buf@.len(),
    ensures
        v == spec_u32_le(buf@, pos as int),
{
    let b0 = buf[pos] as u32;
    let b1 = buf[pos + 1] as u32;
    let b2 = buf[pos + 2] as u32;
    let b3 = buf[pos + 3] as u32;
    b0 + b1 * 256 + b2 * 65536 + b3 * 16777216
}

/// Copies `buf[start..end]` into a new vector.
pub fn copy_range(buf: &[u8], start: usize, end: usize) -> (v: Vec<u8>)
    requires
        start <= end <= buf@.len(),
    ensures
        v@ == buf@.subrange(start as int, end as int),
{
    let mut v: Vec<u8> = Vec::new();
    let mut i: usize = start;
    while i < end
        invariant
            start <= i <= end <= buf@.len(),
            v@ == buf@.subrange(start as int, i as int),
        decreases end - i,
    {
        v.push(buf[i]);
        i = i + 1;
    }
    v
}

/// Splits `bytes` into little-endian 16-bit units; a trailing odd byte is
/// dropped.
pub fn u16_units(bytes: &[u8]) -> (units: Vec<u16>)
    ensures
        units@ == spec_u16_units(bytes@),
{
    let n: usize = bytes.len();
    let count: usize = n / 2;
    let mut units: Vec<u16> = Vec::new();
    let mut k: usize = 0;
    while k < count
        invariant
            n == bytes@.len(),
            count == n / 2,
            k <= count,
            units@ == spec_u16_units(bytes@).take(k as int),
        decreases count - k,
    {
        assert(2 * k + 2 <= bytes@.len());
        let unit = read_u16_le(bytes, 2 * k);
        units.push(unit);
        k = k + 1;
        assert(units@ =~= spec_u16_units(bytes@).take(k as int));
    }
    assert(spec_u16_units(bytes@).take(count as int) =~= spec_u16_units(bytes@));
    units
}

} // verus!
