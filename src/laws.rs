use vstd::prelude::*;

use crate::dna::{combined, mix_byte};
use crate::encoding::{le_u32, lemma_u32_round_trip};
use crate::offchain::record_kitty;
use crate::pallet::{
    breed_error, bred, create_error, lemma_minted_consistent, minted, transfer_error, transferred,
    LedgerModel,
};
use crate::types::{AccountId, Error, Event, Kitty, KittyIndex};

verus! {

/// The state after `sender` creates one kitty for each genome of `dnas`, in order.
pub open spec fn after_creates(s: LedgerModel, sender: AccountId, dnas: Seq<[u8; 16]>) -> LedgerModel
    decreases dnas.len(),
{
    if dnas.len() == 0 {
        s
    } else {
        let p = after_creates(s, sender, dnas.drop_last());
        let k = Kitty { dna: dnas.last(), algebra: 1 };
        minted(p, sender, k, Event::KittyCreated(sender, p.next_kitty_id, k))
    }
}

/// What a run of successful creations by one account leaves.
proof fn lemma_after_creates(s: LedgerModel, sender: AccountId, dnas: Seq<[u8; 16]>)
    requires
        s.consistent(),
        s.owned(sender).len() == 0,
        s.account(sender).free >= s.config.kitty_price * s.config.max_kitty_index,
        s.next_kitty_id + s.config.max_kitty_index < KittyIndex::MAX,
        dnas.len() <= s.config.max_kitty_index,
    ensures
        after_creates(s, sender, dnas).consistent(),
        after_creates(s, sender, dnas).config == s.config,
        after_creates(s, sender, dnas).owned(sender).len() == dnas.len(),
        after_creates(s, sender, dnas).next_kitty_id == s.next_kitty_id + dnas.len(),
        after_creates(s, sender, dnas).account(sender).free == s.account(sender).free
            - s.config.kitty_price * dnas.len(),
    decreases dnas.len(),
{
    if dnas.len() > 0 {
        let d = dnas.drop_last();
        lemma_after_creates(s, sender, d);
        let p = after_creates(s, sender, d);
        let price = s.config.kitty_price;
        let max = s.config.max_kitty_index;
        let n = d.len();
        let f = s.account(sender).free;
        assert(f - price * n >= price) by (nonlinear_arith)
            requires
                f >= price * max,
                n < max,
        ;
        assert(price * (n + 1) == price * n + price) by (nonlinear_arith);
        let k = Kitty { dna: dnas.last(), algebra: 1 };
        lemma_minted_consistent(p, sender, k, Event::KittyCreated(sender, p.next_kitty_id, k));
    }
}

/// Starting from an empty inventory, with the funds for one kitty more than a
/// full inventory holds and identifiers to spare, each of up to the configured maximum of creations
/// by one account succeeds; once the inventory is full the next creation
/// fails with `OwnTooManyKitties`; genomes and owners cover the same kitties
/// throughout.
pub proof fn law_create_until_full(s: LedgerModel, sender: AccountId, dnas: Seq<[u8; 16]>)
    requires
        s.consistent(),
        s.owned(sender).len() == 0,
        s.account(sender).free >= s.config.kitty_price * (s.config.max_kitty_index + 1),
        s.next_kitty_id + s.config.max_kitty_index < KittyIndex::MAX,
        dnas.len() <= s.config.max_kitty_index,
    ensures
        forall|i: int|
            0 <= i < dnas.len() ==> #[trigger] create_error(after_creates(s, sender, dnas.take(i)), sender)
                is None,
        forall|i: int|
            0 <= i <= dnas.len() ==> #[trigger] after_creates(s, sender, dnas.take(i)).kitties.dom()
                == after_creates(s, sender, dnas.take(i)).kitty_owner.dom(),
        dnas.len() == s.config.max_kitty_index ==> create_error(after_creates(s, sender, dnas), sender)
            == Some(Error::OwnTooManyKitties),
{
    let price = s.config.kitty_price;
    let max = s.config.max_kitty_index;
    let f = s.account(sender).free;
    assert(f >= price * max) by (nonlinear_arith)
        requires
            f >= price * (max + 1),
    ;
    assert forall|i: int| 0 <= i <= dnas.len() implies #[trigger] after_creates(s, sender, dnas.take(i)).kitties.dom()
        == after_creates(s, sender, dnas.take(i)).kitty_owner.dom() by {
        lemma_after_creates(s, sender, dnas.take(i));
    }
    assert forall|i: int| 0 <= i < dnas.len() implies #[trigger] create_error(after_creates(s, sender, dnas.take(i)), sender)
        is None by {
        lemma_after_creates(s, sender, dnas.take(i));
        assert(f - price * i >= price) by (nonlinear_arith)
            requires
                f >= price * max,
                0 <= i < max,
        ;
    }
    lemma_after_creates(s, sender, dnas);
    assert(f - price * max >= price) by (nonlinear_arith)
        requires
            f >= price * (max + 1),
    ;
}

/// Breeding a kitty with itself fails with `SameKittyId`, whatever the state.
pub proof fn law_breed_same_parent(s: LedgerModel, sender: AccountId, id: KittyIndex)
    ensures
        breed_error(s, sender, id, id) == Some(Error::SameKittyId),
{
}

/// Breeding two different kitties fails with `NotExistKittyId` exactly when
/// one of them does not exist.
pub proof fn law_breed_missing_parent(s: LedgerModel, sender: AccountId, one: KittyIndex, two: KittyIndex)
    requires
        one != two,
    ensures
        (breed_error(s, sender, one, two) == Some(Error::NotExistKittyId)) <==> (
        !s.kitties.contains_key(one) || !s.kitties.contains_key(two)),
{
}

/// A successful creation advances the counter by exactly one and gives the
/// new kitty an identifier that was not in use.
pub proof fn law_create_fresh_id(s: LedgerModel, sender: AccountId, dna: [u8; 16])
    requires
        s.consistent(),
        create_error(s, sender) is None,
    ensures
        ({
            let k = Kitty { dna, algebra: 1 };
            let t = minted(s, sender, k, Event::KittyCreated(sender, s.next_kitty_id, k));
            &&& t.next_kitty_id == s.next_kitty_id + 1
            &&& !s.kitties.contains_key(s.next_kitty_id)
            &&& t.kitties.contains_key(s.next_kitty_id)
        }),
{
}

/// A successful breeding advances the counter by exactly one and gives the
/// child an identifier that was not in use.
pub proof fn law_breed_fresh_id(
    s: LedgerModel,
    t: LedgerModel,
    sender: AccountId,
    one: KittyIndex,
    two: KittyIndex,
    mask: Seq<u8>,
)
    requires
        s.consistent(),
        breed_error(s, sender, one, two) is None,
        bred(s, t, sender, one, two, mask),
    ensures
        t.next_kitty_id == s.next_kitty_id + 1,
        !s.kitties.contains_key(s.next_kitty_id),
        t.kitties.contains_key(s.next_kitty_id),
{
}

/// A successful transfer to another account makes the recipient the owner,
/// releases exactly the kitty price from the sender's reserve and adds exactly
/// the kitty price to the recipient's.
pub proof fn law_transfer_moves_collateral(
    s: LedgerModel,
    sender: AccountId,
    id: KittyIndex,
    new_owner: AccountId,
)
    requires
        s.consistent(),
        transfer_error(s, sender, id, new_owner) is None,
        sender != new_owner,
    ensures
        ({
            let t = transferred(s, sender, id, new_owner);
            let price = s.config.kitty_price;
            &&& t.kitty_owner[id] == new_owner
            &&& t.account(sender).reserved == s.account(sender).reserved - price
            &&& t.account(new_owner).reserved == s.account(new_owner).reserved + price
        }),
{
    let price = s.config.kitty_price;
    assert(s.owned(sender).contains(id));
    let n = s.owned(sender).len();
    assert(n >= 1) by {
        let j = choose|j: int| 0 <= j < n && s.owned(sender)[j] == id;
    }
    assert(s.account(sender).reserved == price * n);
    assert(price * n >= price) by (nonlinear_arith)
        requires
            n >= 1,
    ;
}

/// Each byte of a recombined genome takes the first parent's bits where the
/// mask is set and the second parent's where it is clear; the result depends
/// on the parents and the mask alone, so two genomes recombined from the same
/// inputs are equal.
pub proof fn law_combine_exact(a: Seq<u8>, b: Seq<u8>, m: Seq<u8>, r1: [u8; 16], r2: [u8; 16])
    requires
        r1@ == combined(a, b, m),
        r2@ == combined(a, b, m),
    ensures
        r1 == r2,
        forall|i: int| 0 <= i < 16 ==> #[trigger] r1@[i] == (a[i] & m[i]) | (b[i] & !m[i]),
{
    assert(r1 =~= r2);
}

/// A recombined genome holds no bit that neither parent has, and every bit
/// that both parents have.
pub proof fn law_combine_inherits(a: Seq<u8>, b: Seq<u8>, m: Seq<u8>, i: int)
    requires
        0 <= i < 16,
    ensures
        combined(a, b, m)[i] & !(a[i] | b[i]) == 0,
        (a[i] & b[i]) & !combined(a, b, m)[i] == 0,
{
    let (x, y, z) = (a[i], b[i], m[i]);
    assert((((x & z) | (y & !z)) & !(x | y)) == 0) by (bit_vector);
    assert(((x & y) & !((x & z) | (y & !z))) == 0) by (bit_vector);
}

/// Two masks that differ at a bit where the parents differ give children that
/// differ at that byte.
pub proof fn law_combine_mask_sensitive(a: Seq<u8>, b: Seq<u8>, m1: Seq<u8>, m2: Seq<u8>, i: int)
    requires
        0 <= i < 16,
        (a[i] ^ b[i]) & (m1[i] ^ m2[i]) != 0,
    ensures
        combined(a, b, m1)[i] != combined(a, b, m2)[i],
{
    let (x, y, p, q) = (a[i], b[i], m1[i], m2[i]);
    assert((x ^ y) & (p ^ q) != 0 ==> ((x & p) | (y & !p)) != ((x & q) | (y & !q))) by (bit_vector);
    assert(mix_byte(x, y, p) == (x & p) | (y & !p));
}

/// The record left for the off-chain refresh reads back as the kitty it was
/// written for.
pub proof fn law_index_record_round_trip(kitty_id: KittyIndex)
    ensures
        record_kitty(le_u32(kitty_id)) == Some(kitty_id),
{
    lemma_u32_round_trip(kitty_id);
}

} // verus!
