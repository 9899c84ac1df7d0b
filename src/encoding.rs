use vstd::prelude::*;

verus! {

/// Little-endian bytes of a `u32`.
pub open spec fn le_u32(x: u32) -> Seq<u8> {
    Seq::new(4, |i: int| #[verifier::truncate] ((x >> ((8 * i) as u32)) as u8))
}

/// Little-endian bytes of a `u64`.
pub open spec fn le_u64(x: u64) -> Seq<u8> {
    Seq::new(8, |i: int| #[verifier::truncate] ((x >> ((8 * i) as u64)) as u8))
}

/// Bytes of an optional `u32`: a zero tag when absent, else a one tag and the value.
pub open spec fn option_u32_bytes(x: Option<u32>) -> Seq<u8> {
    match x {
        None => seq![0u8],
        Some(v) => seq![1u8] + le_u32(v),
    }
}

/// The `u32` whose little-endian bytes are the first four of `b`.
pub open spec fn u32_from_le(b: Seq<u8>) -> u32 {
    (b[0] + 256 * b[1] + 65536 * b[2] + 16777216 * b[3]) as u32
}

/// Appends the little-endian bytes of `x` to `out`.
pub fn push_u32_le(out: &mut Vec<u8>, x: u32)
    ensures
        final(out)@ == old(out)@ + le_u32(x),
{
    let ghost start = out@;
    let mut i: u32 = 0;
    while i < 4
        invariant
            i <= 4,
            out@.len() == start.len() + i,
            out@.subrange(0, start.len() as int) == start,
            forall|j: int| 0 <= j < i ==> out@[start.len() + j] == le_u32(x)[j],
        decreases 4 - i,
    {
        out.push((x >> (8 * i)) as u8);
        i = i + 1;
    }
    assert(out@ =~= start + le_u32(x));
}

/// Appends the little-endian bytes of `x` to `out`.
pub fn push_u64_le(out: &mut Vec<u8>, x: u64)
    ensures
        final(out)@ == old(out)@ + le_u64(x),
{
    let ghost start = out@;
    let mut i: u64 = 0;
    while i < 8
        invariant
            i <= 8,
            out@.len() == start.len() + i,
            out@.subrange(0, start.len() as int) == start,
            forall|j: int| 0 <= j < i ==> out@[start.len() + j] == le_u64(x)[j],
        decreases 8 - i,
    {
        out.push((x >> (8 * i)) as u8);
        i = i + 1;
    }
    assert(out@ =~= start + le_u64(x));
}

/// Reads a `u32` from its four little-endian bytes.
pub fn read_u32_le(b: &[u8]) -> (r: u32)
    requires
        b@.len() == 4,
    ensures
        r == u32_from_le(b@),
{
    b[0] as u32 + 256 * (b[1] as u32) + 65536 * (b[2] as u32) + 16777216 * (b[3] as u32)
}

/// Reading back the bytes of a `u32` gives the same value.
pub proof fn lemma_u32_round_trip(x: u32)
    ensures
        u32_from_le(le_u32(x)) == x,
{
    let b = le_u32(x);
    assert(b[0] == #[verifier::truncate] ((x >> 0u32) as u8));
    assert(b[1] == #[verifier::truncate] ((x >> 8u32) as u8));
    assert(b[2] == #[verifier::truncate] ((x >> 16u32) as u8));
    assert(b[3] == #[verifier::truncate] ((x >> 24u32) as u8));
    assert(((#[verifier::truncate] ((x >> 0u32) as u8)) as u32) + 256 * ((#[verifier::truncate] ((
    x >> 8u32) as u8)) as u32) + 65536 * ((#[verifier::truncate] ((x >> 16u32) as u8)) as u32)
        + 16777216 * ((#[verifier::truncate] ((x >> 24u32) as u8)) as u32) == x) by (bit_vector);
}

} // verus!
