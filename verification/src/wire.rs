//! Byte-level building blocks of the wire formats: fixed-width integers in
//! big- and little-endian order, NUL-terminated strings, and byte appends.
use vstd::prelude::*;

verus! {

/// Unsigned big-endian value of the two bytes at `i`.
pub open spec fn be2(s: Seq<u8>, i: int) -> int {
    s[i] * 256 + s[i + 1]
}

/// Unsigned big-endian value of the four bytes at `i`.
pub open spec fn be4(s: Seq<u8>, i: int) -> int {
    s[i] * 0x100_0000 + s[i + 1] * 0x1_0000 + s[i + 2] * 0x100 + s[i + 3]
}

/// Unsigned big-endian value of the eight bytes at `i`.
pub open spec fn be8(s: Seq<u8>, i: int) -> int {
    be4(s, i) * 0x1_0000_0000 + be4(s, i + 4)
}

/// Unsigned little-endian value of the two bytes at `i`.
pub open spec fn le2(s: Seq<u8>, i: int) -> int {
    s[i] + s[i + 1] * 256
}

/// Unsigned little-endian value of the three bytes at `i`.
pub open spec fn le3(s: Seq<u8>, i: int) -> int {
    s[i] + s[i + 1] * 0x100 + s[i + 2] * 0x1_0000
}

/// Unsigned little-endian value of the four bytes at `i`.
pub open spec fn le4(s: Seq<u8>, i: int) -> int {
    s[i] + s[i + 1] * 0x100 + s[i + 2] * 0x1_0000 + s[i + 3] * 0x100_0000
}

/// Unsigned little-endian value of the eight bytes at `i`.
pub open spec fn le8(s: Seq<u8>, i: int) -> int {
    le4(s, i) + le4(s, i + 4) * 0x1_0000_0000
}

/// Two's-complement reading of a 16-bit unsigned value.
pub open spec fn signed16(x: int) -> int {
    if x >= 0x8000 {
        x - 0x1_0000
    } else {
        x
    }
}

/// Two's-complement reading of a 32-bit unsigned value.
pub open spec fn signed32(x: int) -> int {
    if x >= 0x8000_0000 {
        x - 0x1_0000_0000
    } else {
        x
    }
}

/// Two's-complement reading of a 64-bit unsigned value.
pub open spec fn signed64(x: int) -> int {
    if x >= 0x8000_0000_0000_0000 {
        x - 0x1_0000_0000_0000_0000
    } else {
        x
    }
}

/// Big-endian bytes of a 32-bit value.
pub open spec fn be4_bytes(x: u32) -> Seq<u8> {
    seq![
        (x / 0x100_0000) as u8,
        (x / 0x1_0000 % 0x100) as u8,
        (x / 0x100 % 0x100) as u8,
        (x % 0x100) as u8,
    ]
}

/// Little-endian bytes of a 32-bit value.
pub open spec fn le4_bytes(x: u32) -> Seq<u8> {
    seq![
        (x % 0x100) as u8,
        (x / 0x100 % 0x100) as u8,
        (x / 0x1_0000 % 0x100) as u8,
        (x / 0x100_0000) as u8,
    ]
}

/// The index of the first NUL byte at or after `i`, if any.
pub open spec fn nul_index(s: Seq<u8>, i: int) -> Option<int>
    decreases s.len() - i,
{
    if i < 0 || i >= s.len() {
        None
    } else if s[i] == 0 {
        Some(i)
    } else {
        nul_index(s, i + 1)
    }
}

/// What `nul_index` finds: a NUL with no NUL between `i` and it, or no NUL.
pub proof fn lemma_nul_index(s: Seq<u8>, i: int)
    requires
        0 <= i,
    ensures
        nul_index(s, i) matches Some(z) ==> i <= z < s.len() && s[z] == 0 && forall|k: int|
            i <= k < z ==> s[k] != 0,
        nul_index(s, i) is None ==> forall|k: int| i <= k < s.len() ==> s[k] != 0,
    decreases s.len() - i,
{
    if i < s.len() && s[i] != 0 {
        lemma_nul_index(s, i + 1);
    }
}

pub fn read_be_u16(p: &[u8], i: usize) -> (r: u16)
    requires
        i + 2 <= p@.len(),
    ensures
        r == be2(p@, i as int),
{
    p[i] as u16 * 256 + p[i + 1] as u16
}

pub fn read_be_u32(p: &[u8], i: usize) -> (r: u32)
    requires
        i + 4 <= p@.len(),
    ensures
        r == be4(p@, i as int),
{
    p[i] as u32 * 0x100_0000 + p[i + 1] as u32 * 0x1_0000 + p[i + 2] as u32 * 0x100 + p[i
        + 3] as u32
}

pub fn read_be_u64(p: &[u8], i: usize) -> (r: u64)
    requires
        i + 8 <= p@.len(),
    ensures
        r == be8(p@, i as int),
{
    let _n = p.len();
    let hi = read_be_u32(p, i);
    let lo = read_be_u32(p, i + 4);
    hi as u64 * 0x1_0000_0000 + lo as u64
}

pub fn read_le_u16(p: &[u8], i: usize) -> (r: u16)
    requires
        i + 2 <= p@.len(),
    ensures
        r == le2(p@, i as int),
{
    p[i] as u16 + p[i + 1] as u16 * 256
}

pub fn read_le_u24(p: &[u8], i: usize) -> (r: u32)
    requires
        i + 3 <= p@.len(),
    ensures
        r == le3(p@, i as int),
{
    p[i] as u32 + p[i + 1] as u32 * 0x100 + p[i + 2] as u32 * 0x1_0000
}

pub fn read_le_u32(p: &[u8], i: usize) -> (r: u32)
    requires
        i + 4 <= p@.len(),
    ensures
        r == le4(p@, i as int),
{
    p[i] as u32 + p[i + 1] as u32 * 0x100 + p[i + 2] as u32 * 0x1_0000 + p[i + 3] as u32
        * 0x100_0000
}

pub fn read_le_u64(p: &[u8], i: usize) -> (r: u64)
    requires
        i + 8 <= p@.len(),
    ensures
        r == le8(p@, i as int),
{
    let _n = p.len();
    let lo = read_le_u32(p, i);
    let hi = read_le_u32(p, i + 4);
    lo as u64 + hi as u64 * 0x1_0000_0000
}

/// Reinterprets a 16-bit unsigned value as two's-complement.
pub fn to_i16(x: u16) -> (r: i16)
    ensures
        r == signed16(x as int),
{
    if x >= 0x8000 {
        (x as i32 - 0x1_0000) as i16
    } else {
        x as i16
    }
}

/// Reinterprets a 32-bit unsigned value as two's-complement.
pub fn to_i32(x: u32) -> (r: i32)
    ensures
        r == signed32(x as int),
{
    if x >= 0x8000_0000 {
        (x as i64 - 0x1_0000_0000) as i32
    } else {
        x as i32
    }
}

/// Reinterprets a 64-bit unsigned value as two's-complement.
pub fn to_i64(x: u64) -> (r: i64)
    ensures
        r == signed64(x as int),
{
    if x >= 0x8000_0000_0000_0000 {
        (x as i128 - 0x1_0000_0000_0000_0000) as i64
    } else {
        x as i64
    }
}

/// The index of the first NUL byte at or after `start`.
pub fn find_nul(p: &[u8], start: usize) -> (r: Option<usize>)
    ensures
        r matches Some(z) ==> nul_index(p@, start as int) == Some(z as int),
        r is None ==> nul_index(p@, start as int) is None,
{
    let mut i = start;
    while i < p.len()
        invariant
            start <= i,
            nul_index(p@, start as int) == nul_index(p@, i as int),
        decreases p@.len() - i,
    {
        if p[i] == 0 {
            return Some(i);
        }
        i = i + 1;
    }
    None
}

/// Appends all bytes of `s` to `v`.
pub fn append_bytes(v: &mut Vec<u8>, s: &[u8])
    ensures
        final(v)@ == old(v)@ + s@,
{
    let ghost start = v@;
    let mut i: usize = 0;
    while i < s.len()
        invariant
            i <= s@.len(),
            v@ == start + s@.take(i as int),
        decreases s@.len() - i,
    {
        v.push(s[i]);
        assert(s@.take(i + 1) =~= s@.take(i as int).push(s@[i as int]));
        i = i + 1;
    }
    assert(s@.take(i as int) =~= s@);
}

/// Appends a 32-bit value in big-endian order.
pub fn push_be_u32(v: &mut Vec<u8>, x: u32)
    ensures
        final(v)@ == old(v)@ + be4_bytes(x),
{
    v.push((x / 0x100_0000) as u8);
    v.push((x / 0x1_0000 % 0x100) as u8);
    v.push((x / 0x100 % 0x100) as u8);
    v.push((x % 0x100) as u8);
    assert(v@ =~= old(v)@ + be4_bytes(x));
}

/// Appends a 32-bit value in little-endian order.
pub fn push_le_u32(v: &mut Vec<u8>, x: u32)
    ensures
        final(v)@ == old(v)@ + le4_bytes(x),
{
    v.push((x % 0x100) as u8);
    v.push((x / 0x100 % 0x100) as u8);
    v.push((x / 0x1_0000 % 0x100) as u8);
    v.push((x / 0x100_0000) as u8);
    assert(v@ =~= old(v)@ + le4_bytes(x));
}

/// Byte-wise XOR of two sequences, as long as the shorter one.
pub open spec fn xor_bytes(a: Seq<u8>, b: Seq<u8>) -> Seq<u8> {
    Seq::new(if a.len() < b.len() { a.len() } else { b.len() }, |i: int| a[i] ^ b[i])
}

/// Byte-wise XOR of two slices, as long as the shorter one.
pub fn xor_slices(a: &[u8], b: &[u8]) -> (r: Vec<u8>)
    ensures
        r@ == xor_bytes(a@, b@),
{
    let n = if a.len() < b.len() {
        a.len()
    } else {
        b.len()
    };
    let mut out: Vec<u8> = Vec::new();
    let mut i: usize = 0;
    while i < n
        invariant
            i <= n,
            n == if a@.len() < b@.len() {
                a@.len()
            } else {
                b@.len()
            },
            out@.len() == i,
            forall|k: int| 0 <= k < i ==> out@[k] == a@[k] ^ b@[k],
        decreases n - i,
    {
        out.push(a[i] ^ b[i]);
        i = i + 1;
    }
    assert(out@ =~= xor_bytes(a@, b@));
    out
}

/// Whether two byte slices hold the same bytes.
pub fn bytes_equal(a: &[u8], b: &[u8]) -> (r: bool)
    ensures
        r == (a@ == b@),
{
    if a.len() != b.len() {
        return false;
    }
    let mut i: usize = 0;
    while i < a.len()
        invariant
            i <= a@.len(),
            a@.len() == b@.len(),
            forall|k: int| 0 <= k < i ==> a@[k] == b@[k],
        decreases a@.len() - i,
    {
        if a[i] != b[i] {
            return false;
        }
        i = i + 1;
    }
    assert(a@ =~= b@);
    true
}

/// Big-endian decoding undoes big-endian encoding.
pub proof fn lemma_be4_roundtrip(x: u32)
    ensures
        be4(be4_bytes(x), 0) == x,
{
}

/// Little-endian decoding undoes little-endian encoding.
pub proof fn lemma_le4_roundtrip(x: u32)
    ensures
        le4(le4_bytes(x), 0) == x,
{
}

} // verus!
