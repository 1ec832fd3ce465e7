//! Fixed-width integers read from byte buffers.
use vstd::prelude::*;

verus! {

/// Big-endian value of two bytes.
pub open spec fn be16(a: u8, b: u8) -> int {
    a * 256 + b
}

/// Big-endian value of four bytes.
pub open spec fn be32(a: u8, b: u8, c: u8, d: u8) -> int {
    a * 16777216 + b * 65536 + c * 256 + d
}

/// Little-endian value of two bytes.
pub open spec fn le16(a: u8, b: u8) -> int {
    be16(b, a)
}

/// Little-endian value of four bytes.
pub open spec fn le32(a: u8, b: u8, c: u8, d: u8) -> int {
    be32(d, c, b, a)
}

/// Little-endian value of the eight bytes at `i`.
pub open spec fn le64(s: Seq<u8>, i: int) -> int {
    le32(s[i], s[i + 1], s[i + 2], s[i + 3]) + le32(s[i + 4], s[i + 5], s[i + 6], s[i + 7])
        * 4294967296
}

/// Whether `s` starts with the bytes `p`.
pub open spec fn starts_with_bytes(s: Seq<u8>, p: Seq<u8>) -> bool {
    p.len() <= s.len() && s.subrange(0, p.len() as int) == p
}

/// `u16::from_be_bytes` of the two bytes at `i`.
pub fn be16_at(s: &[u8], i: usize) -> (r: u16)
    requires
        i + 2 <= s@.len(),
    ensures
        r == be16(s@[i as int], s@[i + 1]),
{
    (s[i] as u16) * 256 + (s[i + 1] as u16)
}

/// `u16::from_le_bytes` of the two bytes at `i`.
pub fn le16_at(s: &[u8], i: usize) -> (r: u16)
    requires
        i + 2 <= s@.len(),
    ensures
        r == le16(s@[i as int], s@[i + 1]),
{
    let _n = s.len();
    (s[i + 1] as u16) * 256 + (s[i] as u16)
}

/// `u32::from_be_bytes` of the four bytes at `i`.
pub fn be32_at(s: &[u8], i: usize) -> (r: u32)
    requires
        i + 4 <= s@.len(),
    ensures
        r == be32(s@[i as int], s@[i + 1], s@[i + 2], s@[i + 3]),
{
    (s[i] as u32) * 16777216 + (s[i + 1] as u32) * 65536 + (s[i + 2] as u32) * 256 + (s[i + 3] as u32)
}

/// `u32::from_le_bytes` of the four bytes at `i`.
pub fn le32_at(s: &[u8], i: usize) -> (r: u32)
    requires
        i + 4 <= s@.len(),
    ensures
        r == le32(s@[i as int], s@[i + 1], s@[i + 2], s@[i + 3]),
{
    let _n = s.len();
    (s[i + 3] as u32) * 16777216 + (s[i + 2] as u32) * 65536 + (s[i + 1] as u32) * 256 + (s[i] as u32)
}

/// `u64::from_le_bytes` of the eight bytes at `i`.
pub fn le64_at(s: &[u8], i: usize) -> (r: u64)
    requires
        i + 8 <= s@.len(),
    ensures
        r == le64(s@, i as int),
{
    let _n = s.len();
    let lo = le32_at(s, i) as u64;
    let hi = le32_at(s, i + 4) as u64;
    hi * 4294967296 + lo
}

/// Whether `s` starts with the bytes `p`.
pub fn starts_with_bytes_exec(s: &[u8], p: &[u8]) -> (r: bool)
    ensures
        r == starts_with_bytes(s@, p@),
{
    if p.len() > s.len() {
        return false;
    }
    let mut i: usize = 0;
    while i < p.len()
        invariant
            p@.len() <= s@.len(),
            i <= p@.len(),
            forall|j: int| 0 <= j < i ==> s@[j] == p@[j],
        decreases p@.len() - i,
    {
        if s[i] != p[i] {
            assert(s@.subrange(0, p@.len() as int)[i as int] != p@[i as int]);
            return false;
        }
        i += 1;
    }
    assert(s@.subrange(0, p@.len() as int) =~= p@);
    true
}

/// Whether two byte slices are equal (`<[u8]>::eq`, lengths included).
pub fn bytes_eq(a: &[u8], b: &[u8]) -> (r: bool)
    ensures
        r == (a@ == b@),
{
    if a.len() != b.len() {
        return false;
    }
    let r = starts_with_bytes_exec(a, b);
    assert(a@.subrange(0, b@.len() as int) == a@);
    r
}

} // verus!
