//! Little-endian byte layout of 32-bit and 64-bit values: the byte-level
//! encoding that the kernel argument ABI and the kernel element accesses use.

use vstd::prelude::*;
use vstd::pervasive::VecAdditionalExecFns;

verus! {

/// The 32-bit value laid out little-endian as the four bytes `b0..b3`.
pub open spec fn u32_from_le_spec(b0: u8, b1: u8, b2: u8, b3: u8) -> u32 {
    (b0 as u32) | ((b1 as u32) << 8) | ((b2 as u32) << 16) | ((b3 as u32) << 24)
}

/// Byte `k` (0 = least significant) of the little-endian layout of `v`.
pub open spec fn u32_le_byte(v: u32, k: int) -> u8 {
    if k == 0 {
        (v & 0xff) as u8
    } else if k == 1 {
        ((v >> 8) & 0xff) as u8
    } else if k == 2 {
        ((v >> 16) & 0xff) as u8
    } else {
        ((v >> 24) & 0xff) as u8
    }
}

/// Decomposing a 32-bit value into its little-endian bytes and reassembling
/// them gives the value back.
pub proof fn lemma_u32_le_round_trip(v: u32)
    ensures
        u32_from_le_spec(u32_le_byte(v, 0), u32_le_byte(v, 1), u32_le_byte(v, 2), u32_le_byte(v, 3))
            == v,
{
    assert(((v & 0xff) as u8 as u32) | ((((v >> 8) & 0xff) as u8 as u32) << 8)
        | ((((v >> 16) & 0xff) as u8 as u32) << 16) | ((((v >> 24) & 0xff) as u8 as u32) << 24)
        == v) by (bit_vector);
}

/// Reassembling four bytes little-endian and extracting byte `k` gives the
/// byte back.
pub proof fn lemma_u32_le_bytes_of(b0: u8, b1: u8, b2: u8, b3: u8)
    ensures
        u32_le_byte(u32_from_le_spec(b0, b1, b2, b3), 0) == b0,
        u32_le_byte(u32_from_le_spec(b0, b1, b2, b3), 1) == b1,
        u32_le_byte(u32_from_le_spec(b0, b1, b2, b3), 2) == b2,
        u32_le_byte(u32_from_le_spec(b0, b1, b2, b3), 3) == b3,
{
    assert(((((b0 as u32) | ((b1 as u32) << 8) | ((b2 as u32) << 16) | ((b3 as u32) << 24)) & 0xff)
        as u8 == b0) && (((((b0 as u32) | ((b1 as u32) << 8) | ((b2 as u32) << 16) | ((b3 as u32)
        << 24)) >> 8) & 0xff) as u8 == b1) && (((((b0 as u32) | ((b1 as u32) << 8) | ((b2 as u32)
        << 16) | ((b3 as u32) << 24)) >> 16) & 0xff) as u8 == b2) && (((((b0 as u32) | ((b1 as u32)
        << 8) | ((b2 as u32) << 16) | ((b3 as u32) << 24)) >> 24) & 0xff) as u8 == b3)) by (bit_vector);
}

/// Assembles four bytes, little-endian, into a 32-bit value.
pub fn u32_from_le_bytes(b0: u8, b1: u8, b2: u8, b3: u8) -> (r: u32)
    ensures
        r == u32_from_le_spec(b0, b1, b2, b3),
{
    (b0 as u32) | ((b1 as u32) << 8) | ((b2 as u32) << 16) | ((b3 as u32) << 24)
}

/// Extracts byte `k` (0 = least significant) of the little-endian layout of
/// `v`.
pub fn u32_le_byte_at(v: u32, k: usize) -> (r: u8)
    requires
        k < 4,
    ensures
        r == u32_le_byte(v, k as int),
{
    if k == 0 {
        (v & 0xff) as u8
    } else if k == 1 {
        ((v >> 8) & 0xff) as u8
    } else if k == 2 {
        ((v >> 16) & 0xff) as u8
    } else {
        ((v >> 24) & 0xff) as u8
    }
}

/// Byte `k` (0 = least significant) of the little-endian layout of a 64-bit
/// value.
pub open spec fn u64_le_byte(v: u64, k: int) -> u8 {
    ((v >> (8 * k) as u64) & 0xff) as u8
}

/// Extracts byte `k` (0 = least significant) of the little-endian layout of
/// a 64-bit value.
pub fn u64_le_byte_at(v: u64, k: usize) -> (r: u8)
    requires
        k < 8,
    ensures
        r == u64_le_byte(v, k as int),
{
    ((v >> ((8 * k) as u64)) & 0xff) as u8
}

/// The 32-bit element at element index `i` of a little-endian byte buffer.
pub open spec fn elem_u32(s: Seq<u8>, i: int) -> u32
    recommends
        0 <= i,
        4 * i + 4 <= s.len(),
{
    u32_from_le_spec(s[4 * i], s[4 * i + 1], s[4 * i + 2], s[4 * i + 3])
}

/// Reads the 32-bit element at element index `i` of a little-endian byte
/// buffer.
pub fn read_elem_u32(v: &Vec<u8>, i: usize) -> (r: u32)
    requires
        4 * i + 4 <= v@.len(),
    ensures
        r == elem_u32(v@, i as int),
{
    let _n: usize = v.len();
    let base: usize = 4 * i;
    u32_from_le_bytes(v[base], v[base + 1], v[base + 2], v[base + 3])
}

/// Writes value `val` as the 32-bit little-endian element at element index
/// `i`, leaving every other byte unchanged.
pub fn write_elem_u32(v: &mut Vec<u8>, i: usize, val: u32)
    requires
        4 * i + 4 <= old(v)@.len(),
    ensures
        final(v)@.len() == old(v)@.len(),
        forall|j: int|
            0 <= j < old(v)@.len() ==> final(v)@[j] == if 4 * i <= j < 4 * i + 4 {
                u32_le_byte(val, j - 4 * i)
            } else {
                old(v)@[j]
            },
{
    let _n: usize = v.len();
    let base: usize = 4 * i;
    v.set(base, u32_le_byte_at(val, 0));
    v.set(base + 1, u32_le_byte_at(val, 1));
    v.set(base + 2, u32_le_byte_at(val, 2));
    v.set(base + 3, u32_le_byte_at(val, 3));
}

/// Lays a vector of 32-bit values out as a little-endian byte buffer, four
/// bytes per element, in order.
pub fn u32s_to_le_bytes(v: &Vec<u32>) -> (r: Vec<u8>)
    requires
        4 * v@.len() <= usize::MAX,
    ensures
        r@.len() == 4 * v@.len(),
        forall|i: int| 0 <= i < v@.len() ==> elem_u32(r@, i) == v@[i],
{
    let mut out: Vec<u8> = Vec::new();
    let mut i: usize = 0;
    while i < v.len()
        invariant
            i <= v@.len(),
            4 * v@.len() <= usize::MAX,
            out@.len() == 4 * i,
            forall|k: int| 0 <= k < i ==> elem_u32(out@, k) == v@[k],
        decreases v@.len() - i,
    {
        let ghost prior = out@;
        let w = v[i];
        out.push(u32_le_byte_at(w, 0));
        out.push(u32_le_byte_at(w, 1));
        out.push(u32_le_byte_at(w, 2));
        out.push(u32_le_byte_at(w, 3));
        proof {
            lemma_u32_le_round_trip(w);
            assert(forall|m: int| 0 <= m < prior.len() ==> out@[m] == prior[m]);
        }
        i = i + 1;
    }
    out
}

/// Reads the first `n` 32-bit little-endian elements of a byte buffer back
/// into a vector of values.
pub fn le_bytes_to_u32s(v: &Vec<u8>, n: usize) -> (r: Vec<u32>)
    requires
        4 * n <= v@.len(),
    ensures
        r@.len() == n,
        forall|i: int| 0 <= i < n ==> r@[i] == elem_u32(v@, i),
{
    let _len: usize = v.len();
    let mut out: Vec<u32> = Vec::new();
    let mut i: usize = 0;
    while i < n
        invariant
            i <= n,
            4 * n <= v@.len(),
            v@.len() <= usize::MAX,
            out@.len() == i,
            forall|k: int| 0 <= k < i ==> out@[k] == elem_u32(v@, k),
        decreases n - i,
    {
        out.push(read_elem_u32(v, i));
        i = i + 1;
    }
    out
}

/// Copies a byte slice into a fresh vector.
pub fn copy_bytes(src: &[u8]) -> (r: Vec<u8>)
    ensures
        r@ == src@,
{
    let mut out: Vec<u8> = Vec::new();
    let mut i: usize = 0;
    while i < src.len()
        invariant
            i <= src@.len(),
            out@ =~= src@.take(i as int),
        decreases src@.len() - i,
    {
        out.push(src[i]);
        i = i + 1;
        proof {
            assert(out@ =~= src@.take(i as int));
        }
    }
    proof {
        assert(out@ =~= src@);
    }
    out
}

/// Decides whether two byte slices hold the same bytes.
pub fn bytes_eq(a: &[u8], b: &[u8]) -> (r: bool)
    ensures
        r == (a@ == b@),
{
    if a.len() != b.len() {
        return false;
    }
    let mut i: usize = 0;
    while i < a.len()
        invariant
            i <= a@.len(),
            a@.len() == b@.len(),
            forall|j: int| 0 <= j < i ==> a@[j] == b@[j],
        decreases a@.len() - i,
    {
        if a[i] != b[i] {
            return false;
        }
        i = i + 1;
    }
    proof {
        assert(a@ =~= b@);
    }
    true
}

} // verus!
