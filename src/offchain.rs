use vstd::prelude::*;

use crate::encoding::{le_u32, le_u64, push_u32_le, push_u64_le, read_u32_le, u32_from_le};
use crate::types::KittyIndex;

verus! {

/// The namespace of the records that creation and breeding leave for the
/// off-chain refresh, with its separator: `kitty_pallet::indexing/`.
pub open spec fn index_key_prefix() -> Seq<u8> {
    seq![
        107u8, 105u8, 116u8, 116u8, 121u8, 95u8, 112u8, 97u8, 108u8, 108u8, 101u8, 116u8, 58u8,
        58u8, 105u8, 110u8, 100u8, 101u8, 120u8, 105u8, 110u8, 103u8, 47u8,
    ]
}

/// The key of the record written at a block height.
pub open spec fn index_key(block_number: u64) -> Seq<u8> {
    index_key_prefix() + le_u64(block_number)
}

/// The key under which the record of `block_number` is stored.
pub fn derived_key(block_number: u64) -> (r: Vec<u8>)
    ensures
        r@ == index_key(block_number),
{
    let mut key: Vec<u8> = vec![
        107u8, 105u8, 116u8, 116u8, 121u8, 95u8, 112u8, 97u8, 108u8, 108u8, 101u8, 116u8, 58u8,
        58u8, 105u8, 110u8, 100u8, 101u8, 120u8, 105u8, 110u8, 103u8, 47u8,
    ];
    assert(key@ =~= index_key_prefix());
    push_u64_le(&mut key, block_number);
    key
}

/// The record that names a newly minted kitty.
pub fn encode_index_record(kitty_id: KittyIndex) -> (r: Vec<u8>)
    ensures
        r@ == le_u32(kitty_id),
{
    let mut out: Vec<u8> = Vec::new();
    push_u32_le(&mut out, kitty_id);
    assert(out@ =~= le_u32(kitty_id));
    out
}

/// The kitty that a stored record names, when the record is long enough to
/// hold one; bytes past the first four are ignored.
pub open spec fn record_kitty(b: Seq<u8>) -> Option<KittyIndex> {
    if b.len() >= 4 {
        Some(u32_from_le(b))
    } else {
        None
    }
}

/// Reads the kitty that a stored record names.
pub fn decode_index_record(b: &[u8]) -> (r: Option<KittyIndex>)
    ensures
        r == record_kitty(b@),
{
    if b.len() >= 4 {
        let v = read_u32_le(&b[0..4]);
        assert(b@.subrange(0, 4) =~= seq![b@[0], b@[1], b@[2], b@[3]]);
        Some(v)
    } else {
        None
    }
}

/// The metadata update that the off-chain refresh submits for a kitty.
#[derive(Clone, Copy, Debug, PartialEq, Eq, Structural)]
pub struct UpdateCall {
    pub kitty_id: KittyIndex,
    pub algebra: u32,
}

/// The generation that the refresh at `block_number` assigns: two at odd
/// heights, three at even ones.
pub open spec fn refresh_algebra(block_number: u64) -> u32 {
    if block_number % 2 != 0 {
        2
    } else {
        3
    }
}

/// What the off-chain refresh at `block_number` submits, given the record
/// stored under that height's key: nothing when there is none or it cannot be
/// read, else an update of the kitty it names.
pub fn refresh_call(block_number: u64, stored: Option<&[u8]>) -> (r: Option<UpdateCall>)
    ensures
        r == match stored {
            None => None,
            Some(b) => match record_kitty(b@) {
                None => None,
                Some(id) => Some(UpdateCall { kitty_id: id, algebra: refresh_algebra(block_number) }),
            },
        },
{
    match stored {
        None => None,
        Some(b) => match decode_index_record(b) {
            None => None,
            Some(id) => {
                let algebra: u32 = if block_number % 2 != 0 { 2 } else { 3 };
                Some(UpdateCall { kitty_id: id, algebra })
            },
        },
    }
}

} // verus!
