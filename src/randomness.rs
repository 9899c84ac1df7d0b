use vstd::prelude::*;

use crate::encoding::{le_u64, option_u32_bytes, push_u32_le, push_u64_le};
use crate::types::AccountId;

verus! {

/// What the chain supplies towards one call's randomness: the beacon seed and
/// the index of the call within its block, when known.
#[derive(Clone, Copy, Debug, PartialEq, Eq)]
pub struct Entropy {
    pub seed: [u8; 32],
    pub extrinsic_index: Option<u32>,
}

/// The 16-byte BLAKE2b digest of `data`.
pub uninterp spec fn blake2_128_of(data: Seq<u8>) -> Seq<u8>;

/// Relies on sp_crypto_hashing::blake2_128: the 16-byte BLAKE2b digest of the
/// bytes, a function of the bytes alone.
#[verifier::external_body]
fn blake2_128(data: &Vec<u8>) -> (r: [u8; 16])
    ensures
        r@ == blake2_128_of(data@),
{
    sp_crypto_hashing::blake2_128(data.as_slice())
}

/// The bytes that are hashed into a caller's random value: the seed, the
/// caller and the call index.
pub open spec fn random_payload(entropy: Entropy, sender: AccountId) -> Seq<u8> {
    entropy.seed@ + le_u64(sender) + option_u32_bytes(entropy.extrinsic_index)
}

/// Encodes the seed, the caller and the call index.
pub fn encode_random_payload(entropy: &Entropy, sender: AccountId) -> (r: Vec<u8>)
    ensures
        r@ == random_payload(*entropy, sender),
{
    let mut out: Vec<u8> = Vec::new();
    let mut i: usize = 0;
    while i < 32
        invariant
            i <= 32,
            out@ == entropy.seed@.subrange(0, i as int),
        decreases 32 - i,
    {
        out.push(entropy.seed[i]);
        i = i + 1;
        assert(out@ =~= entropy.seed@.subrange(0, i as int));
    }
    assert(out@ =~= entropy.seed@);
    push_u64_le(&mut out, sender);
    match entropy.extrinsic_index {
        None => {
            out.push(0u8);
            assert(out@ =~= random_payload(*entropy, sender));
        },
        Some(v) => {
            out.push(1u8);
            push_u32_le(&mut out, v);
            assert(out@ =~= random_payload(*entropy, sender));
        },
    }
    out
}

/// A random 16-byte value for `sender`, tied to the chain's seed and to the call.
pub fn random_value(entropy: &Entropy, sender: AccountId) -> (r: [u8; 16])
    ensures
        r@ == blake2_128_of(random_payload(*entropy, sender)),
{
    let payload = encode_random_payload(entropy, sender);
    blake2_128(&payload)
}

} // verus!
