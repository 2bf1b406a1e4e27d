//! Byte-level building blocks of the payload encodings: little-endian integers,
//! fixed-size byte arrays copied out of and into payloads, and array comparison.
use vstd::prelude::*;

verus! {

/// The four bytes of `v`, least significant first (what `u32::to_le_bytes` gives).
pub open spec fn u32_le_bytes(v: u32) -> Seq<u8> {
    seq![
        (v & 0xff) as u8,
        ((v >> 8u32) & 0xff) as u8,
        ((v >> 16u32) & 0xff) as u8,
        ((v >> 24u32) & 0xff) as u8,
    ]
}

/// The `u32` whose little-endian encoding is `b` (what `u32::from_le_bytes` gives).
pub open spec fn u32_from_le(b: Seq<u8>) -> u32
    recommends
        b.len() == 4,
{
    (b[0] as u32) | ((b[1] as u32) << 8u32) | ((b[2] as u32) << 16u32) | ((b[3] as u32) << 24u32)
}

/// The eight bytes of `v`, least significant first (what `u64::to_le_bytes` gives).
pub open spec fn u64_le_bytes(v: u64) -> Seq<u8> {
    seq![
        (v & 0xff) as u8,
        ((v >> 8u64) & 0xff) as u8,
        ((v >> 16u64) & 0xff) as u8,
        ((v >> 24u64) & 0xff) as u8,
        ((v >> 32u64) & 0xff) as u8,
        ((v >> 40u64) & 0xff) as u8,
        ((v >> 48u64) & 0xff) as u8,
        ((v >> 56u64) & 0xff) as u8,
    ]
}

/// The `u64` whose little-endian encoding is `b` (what `u64::from_le_bytes` gives).
pub open spec fn u64_from_le(b: Seq<u8>) -> u64
    recommends
        b.len() == 8,
{
    (b[0] as u64) | ((b[1] as u64) << 8u64) | ((b[2] as u64) << 16u64) | ((b[3] as u64) << 24u64)
        | ((b[4] as u64) << 32u64) | ((b[5] as u64) << 40u64) | ((b[6] as u64) << 48u64) | ((
    b[7] as u64) << 56u64)
}

/// Decoding the little-endian encoding of a `u32` gives the value back.
pub proof fn lemma_u32_le_roundtrip(v: u32)
    ensures
        u32_le_bytes(v).len() == 4,
        u32_from_le(u32_le_bytes(v)) == v,
{
    let b = u32_le_bytes(v);
    assert(b[0] == (v & 0xff) as u8);
    assert(b[1] == ((v >> 8u32) & 0xff) as u8);
    assert(b[2] == ((v >> 16u32) & 0xff) as u8);
    assert(b[3] == ((v >> 24u32) & 0xff) as u8);
    assert(((v & 0xff) as u8 as u32) | ((((v >> 8u32) & 0xff) as u8 as u32) << 8u32) | ((((v
        >> 16u32) & 0xff) as u8 as u32) << 16u32) | ((((v >> 24u32) & 0xff) as u8 as u32)
        << 24u32) == v) by (bit_vector);
}

/// Encoding the `u32` read from four bytes gives those bytes back.
pub proof fn lemma_u32_le_bytes_of(b: Seq<u8>)
    requires
        b.len() == 4,
    ensures
        u32_le_bytes(u32_from_le(b)) == b,
{
    let (b0, b1, b2, b3) = (b[0], b[1], b[2], b[3]);
    let v = u32_from_le(b);
    assert(v == (b0 as u32) | ((b1 as u32) << 8u32) | ((b2 as u32) << 16u32) | ((b3 as u32)
        << 24u32));
    assert({
        let w = (b0 as u32) | ((b1 as u32) << 8u32) | ((b2 as u32) << 16u32) | ((b3 as u32)
            << 24u32);
        &&& (w & 0xff) as u8 == b0
        &&& ((w >> 8u32) & 0xff) as u8 == b1
        &&& ((w >> 16u32) & 0xff) as u8 == b2
        &&& ((w >> 24u32) & 0xff) as u8 == b3
    }) by (bit_vector);
    assert(u32_le_bytes(v) =~= b);
}

/// Decoding the little-endian encoding of a `u64` gives the value back.
pub proof fn lemma_u64_le_roundtrip(v: u64)
    ensures
        u64_le_bytes(v).len() == 8,
        u64_from_le(u64_le_bytes(v)) == v,
{
    let b = u64_le_bytes(v);
    assert(b[0] == (v & 0xff) as u8);
    assert(b[1] == ((v >> 8u64) & 0xff) as u8);
    assert(b[2] == ((v >> 16u64) & 0xff) as u8);
    assert(b[3] == ((v >> 24u64) & 0xff) as u8);
    assert(b[4] == ((v >> 32u64) & 0xff) as u8);
    assert(b[5] == ((v >> 40u64) & 0xff) as u8);
    assert(b[6] == ((v >> 48u64) & 0xff) as u8);
    assert(b[7] == ((v >> 56u64) & 0xff) as u8);
    assert(((v & 0xff) as u8 as u64) | ((((v >> 8u64) & 0xff) as u8 as u64) << 8u64) | ((((v
        >> 16u64) & 0xff) as u8 as u64) << 16u64) | ((((v >> 24u64) & 0xff) as u8 as u64)
        << 24u64) | ((((v >> 32u64) & 0xff) as u8 as u64) << 32u64) | ((((v >> 40u64) & 0xff)
        as u8 as u64) << 40u64) | ((((v >> 48u64) & 0xff) as u8 as u64) << 48u64) | ((((v
        >> 56u64) & 0xff) as u8 as u64) << 56u64) == v) by (bit_vector);
}

/// Encoding the `u64` read from eight bytes gives those bytes back.
pub proof fn lemma_u64_le_bytes_of(b: Seq<u8>)
    requires
        b.len() == 8,
    ensures
        u64_le_bytes(u64_from_le(b)) == b,
{
    let (b0, b1, b2, b3, b4, b5, b6, b7) = (b[0], b[1], b[2], b[3], b[4], b[5], b[6], b[7]);
    let v = u64_from_le(b);
    assert(v == (b0 as u64) | ((b1 as u64) << 8u64) | ((b2 as u64) << 16u64) | ((b3 as u64)
        << 24u64) | ((b4 as u64) << 32u64) | ((b5 as u64) << 40u64) | ((b6 as u64) << 48u64) | ((
    b7 as u64) << 56u64));
    assert({
        let w = (b0 as u64) | ((b1 as u64) << 8u64) | ((b2 as u64) << 16u64) | ((b3 as u64)
            << 24u64) | ((b4 as u64) << 32u64) | ((b5 as u64) << 40u64) | ((b6 as u64)
            << 48u64) | ((b7 as u64) << 56u64);
        &&& (w & 0xff) as u8 == b0
        &&& ((w >> 8u64) & 0xff) as u8 == b1
        &&& ((w >> 16u64) & 0xff) as u8 == b2
        &&& ((w >> 24u64) & 0xff) as u8 == b3
        &&& ((w >> 32u64) & 0xff) as u8 == b4
        &&& ((w >> 40u64) & 0xff) as u8 == b5
        &&& ((w >> 48u64) & 0xff) as u8 == b6
        &&& ((w >> 56u64) & 0xff) as u8 == b7
    }) by (bit_vector);
    assert(u64_le_bytes(v) =~= b);
}

/// The array of `N` bytes that holds `s` (meaningful where `s.len() == N`).
pub open spec fn array_of<const N: usize>(s: Seq<u8>) -> [u8; N] {
    choose|a: [u8; N]| a@ == s
}

/// The array that holds the first `k` bytes of `s`, then zeros.
spec fn filled<const N: usize>(s: Seq<u8>, k: nat) -> [u8; N]
    decreases k,
{
    if k == 0 {
        vstd::array::spec_array_fill_for_copy_type::<u8, N>(0u8)
    } else {
        vstd::array::spec_array_update(filled::<N>(s, (k - 1) as nat), k - 1, s[k - 1])
    }
}

proof fn lemma_filled<const N: usize>(s: Seq<u8>, k: nat)
    requires
        s.len() == N,
        k <= N,
    ensures
        filled::<N>(s, k)@.len() == N,
        forall|i: int| 0 <= i < k ==> #[trigger] filled::<N>(s, k)@[i] == s[i],
    decreases k,
{
    if k > 0 {
        lemma_filled::<N>(s, (k - 1) as nat);
    }
}

/// Every sequence of `N` bytes is held by the array `array_of`.
pub proof fn lemma_array_of<const N: usize>(s: Seq<u8>)
    requires
        s.len() == N,
    ensures
        array_of::<N>(s)@ == s,
{
    lemma_filled::<N>(s, N as nat);
    assert(filled::<N>(s, N as nat)@ =~= s);
}

/// An array is determined by its bytes.
pub proof fn lemma_array_of_view<const N: usize>(a: [u8; N])
    ensures
        array_of::<N>(a@) == a,
{
    let b = array_of::<N>(a@);
    assert(b@ == a@);
    assert(b =~= a);
}

/// Reads the little-endian `u32` stored at `payload[off..off + 4]`.
pub fn read_u32_le(payload: &[u8], off: usize) -> (v: u32)
    requires
        off + 4 <= payload@.len(),
    ensures
        v == u32_from_le(payload@.subrange(off as int, off + 4)),
{
    let b0 = payload[off];
    let b1 = payload[off + 1];
    let b2 = payload[off + 2];
    let b3 = payload[off + 3];
    let v = (b0 as u32) | ((b1 as u32) << 8u32) | ((b2 as u32) << 16u32) | ((b3 as u32) << 24u32);
    assert(payload@.subrange(off as int, off + 4)[2] == b2);
    v
}

/// Appends the little-endian encoding of `v` to `out`.
pub fn write_u32_le(out: &mut Vec<u8>, v: u32)
    ensures
        final(out)@ == old(out)@ + u32_le_bytes(v),
{
    out.push((v & 0xff) as u8);
    out.push(((v >> 8u32) & 0xff) as u8);
    out.push(((v >> 16u32) & 0xff) as u8);
    out.push(((v >> 24u32) & 0xff) as u8);
    assert(out@ =~= old(out)@ + u32_le_bytes(v));
}

/// Appends the little-endian encoding of `v` to `out`.
pub fn write_u64_le(out: &mut Vec<u8>, v: u64)
    ensures
        final(out)@ == old(out)@ + u64_le_bytes(v),
{
    out.push((v & 0xff) as u8);
    out.push(((v >> 8u64) & 0xff) as u8);
    out.push(((v >> 16u64) & 0xff) as u8);
    out.push(((v >> 24u64) & 0xff) as u8);
    out.push(((v >> 32u64) & 0xff) as u8);
    out.push(((v >> 40u64) & 0xff) as u8);
    out.push(((v >> 48u64) & 0xff) as u8);
    out.push(((v >> 56u64) & 0xff) as u8);
    assert(out@ =~= old(out)@ + u64_le_bytes(v));
}

/// Copies `payload[off..off + N]` into a fresh array.
pub fn array_at<const N: usize>(payload: &[u8], off: usize) -> (a: [u8; N])
    requires
        off + N <= payload@.len(),
    ensures
        a@ == payload@.subrange(off as int, off + N),
{
    let mut a = [0u8; N];
    let len = payload.len();
    let mut i: usize = 0;
    while i < N
        invariant
            i <= N,
            len == payload@.len(),
            off + N <= payload@.len(),
            a@.len() == N,
            forall|k: int| 0 <= k < i ==> a@[k] == payload@[off + k],
        decreases N - i,
    {
        a[i] = payload[off + i];
        i = i + 1;
    }
    assert(a@ =~= payload@.subrange(off as int, off + N));
    a
}

/// Appends the bytes of `bytes` to `out`.
pub fn push_all(out: &mut Vec<u8>, bytes: &[u8])
    ensures
        final(out)@ == old(out)@ + bytes@,
{
    let mut i: usize = 0;
    while i < bytes.len()
        invariant
            i <= bytes@.len(),
            out@ == old(out)@ + bytes@.subrange(0, i as int),
        decreases bytes@.len() - i,
    {
        out.push(bytes[i]);
        i = i + 1;
        assert(out@ =~= old(out)@ + bytes@.subrange(0, i as int));
    }
    assert(bytes@.subrange(0, bytes@.len() as int) =~= bytes@);
}

/// Whether two byte arrays hold the same bytes.
pub fn arrays_equal<const N: usize>(a: &[u8; N], b: &[u8; N]) -> (r: bool)
    ensures
        r == (*a == *b),
{
    let mut i: usize = 0;
    while i < N
        invariant
            i <= N,
            forall|k: int| 0 <= k < i ==> a@[k] == b@[k],
        decreases N - i,
    {
        if a[i] != b[i] {
            return false;
        }
        i = i + 1;
    }
    assert(*a =~= *b);
    true
}

} // verus!
