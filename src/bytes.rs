//! Little-endian integer layout on byte sequences, read and written at
//! explicit offsets.
use vstd::prelude::*;

verus! {

/// The four bytes of `x`, least significant first.
pub open spec fn u32_le(x: u32) -> Seq<u8> {
    seq![
        (x & 0xff) as u8,
        ((x >> 8) & 0xff) as u8,
        ((x >> 16) & 0xff) as u8,
        ((x >> 24) & 0xff) as u8,
    ]
}

/// The eight bytes of `x`, least significant first.
pub open spec fn u64_le(x: u64) -> Seq<u8> {
    seq![
        (x & 0xff) as u8,
        ((x >> 8) & 0xff) as u8,
        ((x >> 16) & 0xff) as u8,
        ((x >> 24) & 0xff) as u8,
        ((x >> 32) & 0xff) as u8,
        ((x >> 40) & 0xff) as u8,
        ((x >> 48) & 0xff) as u8,
        ((x >> 56) & 0xff) as u8,
    ]
}

/// The little-endian `u32` held by bytes `at .. at + 4` of `b`.
pub open spec fn u32_at(b: Seq<u8>, at: int) -> u32 {
    (b[at] as u32) | (b[at + 1] as u32) << 8 | (b[at + 2] as u32) << 16 | (b[at + 3] as u32) << 24
}

/// The little-endian `u64` held by bytes `at .. at + 8` of `b`.
pub open spec fn u64_at(b: Seq<u8>, at: int) -> u64 {
    (b[at] as u64) | (b[at + 1] as u64) << 8 | (b[at + 2] as u64) << 16 | (b[at + 3] as u64) << 24
        | (b[at + 4] as u64) << 32 | (b[at + 5] as u64) << 40 | (b[at + 6] as u64) << 48 | (b[at
        + 7] as u64) << 56
}

/// Reading back the bytes of a `u32` gives the `u32`.
pub proof fn lemma_u32_round_trip(x: u32)
    ensures
        u32_le(x).len() == 4,
        u32_at(u32_le(x), 0) == x,
{
    let b = u32_le(x);
    let (b0, b1, b2, b3) = (b[0], b[1], b[2], b[3]);
    assert(b0 == (x & 0xff) as u8 && b1 == ((x >> 8) & 0xff) as u8 && b2 == ((x >> 16) & 0xff) as u8
        && b3 == ((x >> 24) & 0xff) as u8);
    assert((b0 == (x & 0xff) as u8 && b1 == ((x >> 8) & 0xff) as u8 && b2 == ((x >> 16) & 0xff) as u8
        && b3 == ((x >> 24) & 0xff) as u8) ==> (b0 as u32) | (b1 as u32) << 8 | (b2 as u32) << 16
        | (b3 as u32) << 24 == x) by (bit_vector);
}

/// Reading back the bytes of a `u64` gives the `u64`.
pub proof fn lemma_u64_round_trip(x: u64)
    ensures
        u64_le(x).len() == 8,
        u64_at(u64_le(x), 0) == x,
{
    let b = u64_le(x);
    let (b0, b1, b2, b3, b4, b5, b6, b7) = (b[0], b[1], b[2], b[3], b[4], b[5], b[6], b[7]);
    assert((b0 == (x & 0xff) as u8 && b1 == ((x >> 8) & 0xff) as u8 && b2 == ((x >> 16) & 0xff) as u8
        && b3 == ((x >> 24) & 0xff) as u8 && b4 == ((x >> 32) & 0xff) as u8 && b5 == ((x >> 40)
        & 0xff) as u8 && b6 == ((x >> 48) & 0xff) as u8 && b7 == ((x >> 56) & 0xff) as u8) ==> (b0
        as u64) | (b1 as u64) << 8 | (b2 as u64) << 16 | (b3 as u64) << 24 | (b4 as u64) << 32 | (b5
        as u64) << 40 | (b6 as u64) << 48 | (b7 as u64) << 56 == x) by (bit_vector);
}

/// What is read at an offset depends only on the bytes there.
pub proof fn lemma_u32_at_window(a: Seq<u8>, b: Seq<u8>, i: int, j: int)
    requires
        0 <= i && i + 4 <= a.len(),
        0 <= j && j + 4 <= b.len(),
        a.subrange(i, i + 4) == b.subrange(j, j + 4),
    ensures
        u32_at(a, i) == u32_at(b, j),
{
    assert(a[i] == a.subrange(i, i + 4)[0]);
    assert(a[i + 1] == a.subrange(i, i + 4)[1]);
    assert(a[i + 2] == a.subrange(i, i + 4)[2]);
    assert(a[i + 3] == a.subrange(i, i + 4)[3]);
}

/// What is read at an offset depends only on the bytes there.
pub proof fn lemma_u64_at_window(a: Seq<u8>, b: Seq<u8>, i: int, j: int)
    requires
        0 <= i && i + 8 <= a.len(),
        0 <= j && j + 8 <= b.len(),
        a.subrange(i, i + 8) == b.subrange(j, j + 8),
    ensures
        u64_at(a, i) == u64_at(b, j),
{
    assert(a[i] == a.subrange(i, i + 8)[0]);
    assert(a[i + 1] == a.subrange(i, i + 8)[1]);
    assert(a[i + 2] == a.subrange(i, i + 8)[2]);
    assert(a[i + 3] == a.subrange(i, i + 8)[3]);
    assert(a[i + 4] == a.subrange(i, i + 8)[4]);
    assert(a[i + 5] == a.subrange(i, i + 8)[5]);
    assert(a[i + 6] == a.subrange(i, i + 8)[6]);
    assert(a[i + 7] == a.subrange(i, i + 8)[7]);
}

/// Reads the little-endian `u32` at `at`, whatever the alignment.
pub fn read_u32_le(b: &[u8], at: usize) -> (r: u32)
    requires
        at + 4 <= b@.len(),
    ensures
        r == u32_at(b@, at as int),
{
    (b[at] as u32) | (b[at + 1] as u32) << 8 | (b[at + 2] as u32) << 16 | (b[at + 3] as u32) << 24
}

/// Reads the little-endian `u64` at `at`, whatever the alignment.
pub fn read_u64_le(b: &[u8], at: usize) -> (r: u64)
    requires
        at + 8 <= b@.len(),
    ensures
        r == u64_at(b@, at as int),
{
    (b[at] as u64) | (b[at + 1] as u64) << 8 | (b[at + 2] as u64) << 16 | (b[at + 3] as u64) << 24
        | (b[at + 4] as u64) << 32 | (b[at + 5] as u64) << 40 | (b[at + 6] as u64) << 48 | (b[at
        + 7] as u64) << 56
}

/// Writes `x` little-endian at `at`; the other bytes keep their values.
pub fn write_u32_le(b: &mut [u8], at: usize, x: u32)
    requires
        at + 4 <= old(b)@.len(),
    ensures
        final(b)@.len() == old(b)@.len(),
        final(b)@.subrange(at as int, at + 4) == u32_le(x),
        forall|k: int| 0 <= k < old(b)@.len() && !(at <= k < at + 4) ==> final(b)@[k] == old(b)@[k],
{
    b[at] = (x & 0xff) as u8;
    b[at + 1] = ((x >> 8) & 0xff) as u8;
    b[at + 2] = ((x >> 16) & 0xff) as u8;
    b[at + 3] = ((x >> 24) & 0xff) as u8;
    assert(b@.subrange(at as int, at + 4) =~= u32_le(x));
}

/// Writes `x` little-endian at `at`; the other bytes keep their values.
pub fn write_u64_le(b: &mut [u8], at: usize, x: u64)
    requires
        at + 8 <= old(b)@.len(),
    ensures
        final(b)@.len() == old(b)@.len(),
        final(b)@.subrange(at as int, at + 8) == u64_le(x),
        forall|k: int| 0 <= k < old(b)@.len() && !(at <= k < at + 8) ==> final(b)@[k] == old(b)@[k],
{
    b[at] = (x & 0xff) as u8;
    b[at + 1] = ((x >> 8) & 0xff) as u8;
    b[at + 2] = ((x >> 16) & 0xff) as u8;
    b[at + 3] = ((x >> 24) & 0xff) as u8;
    b[at + 4] = ((x >> 32) & 0xff) as u8;
    b[at + 5] = ((x >> 40) & 0xff) as u8;
    b[at + 6] = ((x >> 48) & 0xff) as u8;
    b[at + 7] = ((x >> 56) & 0xff) as u8;
    assert(b@.subrange(at as int, at + 8) =~= u64_le(x));
}

} // verus!
