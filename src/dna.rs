use vstd::prelude::*;

verus! {

/// One byte of a child genome: the bits of `a` where the mask is set, the
/// bits of `b` where it is clear.
pub open spec fn mix_byte(a: u8, b: u8, m: u8) -> u8 {
    (a & m) | (b & !m)
}

/// The genome that recombines `a` and `b` under mask `m`, byte by byte.
pub open spec fn combined(a: Seq<u8>, b: Seq<u8>, m: Seq<u8>) -> Seq<u8> {
    Seq::new(16, |i: int| mix_byte(a[i], b[i], m[i]))
}

/// Recombines two parent genomes under a mask.
pub fn combine_dna(one: &[u8; 16], two: &[u8; 16], mask: &[u8; 16]) -> (r: [u8; 16])
    ensures
        r@ == combined(one@, two@, mask@),
{
    let mut out: [u8; 16] = [0u8; 16];
    let mut i: usize = 0;
    while i < 16
        invariant
            i <= 16,
            out@.len() == 16,
            forall|j: int| 0 <= j < i ==> out@[j] == mix_byte(one@[j], two@[j], mask@[j]),
        decreases 16 - i,
    {
        out[i] = (one[i] & mask[i]) | (two[i] & !mask[i]);
        i = i + 1;
    }
    assert(out@ =~= combined(one@, two@, mask@));
    out
}

} // verus!
