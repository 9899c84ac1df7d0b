use kitties::balances::Balances;
use kitties::dna::combine_dna;
use kitties::offchain::{decode_index_record, derived_key, encode_index_record, refresh_call, UpdateCall};
use kitties::pallet::Pallet;
use kitties::randomness::{encode_random_payload, random_value, Entropy};
use kitties::types::{Config, Error, Event, Kitty};

const PRICE: u128 = 500;

const ACCOUNTS: [u64; 3] = [10, 11, 12];

#[derive(Debug, PartialEq)]
struct Snapshot {
    next_kitty_id: u32,
    kitties: Vec<(Option<u64>, Option<Kitty>)>,
    accounts: Vec<(Vec<u32>, u128, u128)>,
    events: Vec<Event>,
    index_writes: Vec<(Vec<u8>, Vec<u8>)>,
}

fn snapshot(p: &Pallet) -> Snapshot {
    let next = p.next_kitty_id();
    let mut ids: Vec<u32> = (0..8).collect();
    ids.push(next);
    Snapshot {
        next_kitty_id: next,
        kitties: ids.iter().map(|&i| (p.kitty_owner(i), p.kitties(i))).collect(),
        accounts: ACCOUNTS
            .iter()
            .map(|&a| (p.owner_kitties(a), p.free_balance(a), p.reserved_balance(a)))
            .collect(),
        events: p.events().clone(),
        index_writes: p.index_writes().clone(),
    }
}

fn ledger(max: u32) -> Pallet {
    let mut p = Pallet::new(Config { kitty_price: PRICE, max_kitty_index: max });
    p.set_free_balance(10, 1_000_000);
    p.set_free_balance(11, 0);
    p.set_free_balance(12, 1_000_000);
    p.set_block_number(1);
    p
}

fn entropy(index: u32) -> Entropy {
    Entropy { seed: [3u8; 32], extrinsic_index: Some(index) }
}

fn mixes(child: &[u8; 16], a: &[u8; 16], b: &[u8; 16], m: &[u8; 16]) -> bool {
    (0..16).all(|i| child[i] == (a[i] & m[i]) | (b[i] & !m[i]))
}

#[test]
fn scenario_create_breed_until_full() {
    let a: u64 = 10;
    let mut p = ledger(4);
    assert_eq!(p.next_kitty_id(), 0);
    assert_eq!(p.create_with_dna(a, [0x11; 16]), Ok(()));
    assert_eq!(p.next_kitty_id(), 1);
    assert_eq!(p.kitty_owner(0), Some(a));
    assert_eq!(p.owner_kitties(a), vec![0]);
    assert_eq!(p.reserved_balance(a), PRICE);

    let g1: [u8; 16] = [0b1100_1010; 16];
    let g2: [u8; 16] = [0b0101_0110; 16];
    assert_eq!(p.create_with_dna(a, g1), Ok(()));
    assert_eq!(p.create_with_dna(a, g2), Ok(()));
    assert_eq!(p.owner_kitties(a), vec![0, 1, 2]);

    let mask: [u8; 16] = [0b1111_0000; 16];
    assert_eq!(p.breed_with_mask(a, 1, 2, mask), Ok(()));
    let child = p.kitties(3).unwrap();
    assert_eq!(child.algebra, 1);
    assert_eq!(child.dna, [0b1100_0110; 16]);
    assert!(mixes(&child.dna, &g1, &g2, &mask));
    assert_eq!(p.owner_kitties(a), vec![0, 1, 2, 3]);
    assert_eq!(p.reserved_balance(a), 4 * PRICE);

    let before = snapshot(&p);
    assert_eq!(p.create_with_dna(a, [0x22; 16]), Err(Error::OwnTooManyKitties));
    assert_eq!(snapshot(&p), before);
    assert_eq!(p.next_kitty_id(), 4);
}

#[test]
fn breed_with_a_full_inventory_of_three_fails() {
    let a: u64 = 10;
    let mut p = ledger(3);
    for _ in 0..3 {
        assert_eq!(p.create(a, &entropy(0)), Ok(()));
    }
    let before = snapshot(&p);
    assert_eq!(p.breed(a, 1, 2, &entropy(1)), Err(Error::OwnTooManyKitties));
    assert_eq!(snapshot(&p), before);
    let before = snapshot(&p);
    assert_eq!(p.create(a, &entropy(2)), Err(Error::OwnTooManyKitties));
    assert_eq!(snapshot(&p), before);
    assert_eq!(p.next_kitty_id(), 3);
}

#[test]
fn random_breed_recombines_parents() {
    let a: u64 = 10;
    let mut p = ledger(5);
    assert_eq!(p.create(a, &entropy(0)), Ok(()));
    assert_eq!(p.create(a, &entropy(1)), Ok(()));
    assert_eq!(p.breed(a, 0, 1, &entropy(2)), Ok(()));
    let one = p.kitties(0).unwrap().dna;
    let two = p.kitties(1).unwrap().dna;
    let child = p.kitties(2).unwrap().dna;
    let mask = random_value(&entropy(2), a);
    assert!(mixes(&child, &one, &two, &mask));
    assert_eq!(child, combine_dna(&one, &two, &mask));
}

#[test]
fn scenario_zero_balance_create_changes_nothing() {
    let b: u64 = 11;
    let mut p = ledger(3);
    let before = snapshot(&p);
    assert_eq!(p.create(b, &entropy(0)), Err(Error::NotEnoughBalance));
    assert_eq!(snapshot(&p), before);
    assert_eq!(p.next_kitty_id(), 0);
    assert_eq!(p.kitty_owner(0), None);
    assert_eq!(p.kitties(0), None);
    assert!(p.owner_kitties(b).is_empty());
    assert_eq!(p.reserved_balance(b), 0);
    assert!(p.events().is_empty());
    assert!(p.index_writes().is_empty());
}

#[test]
fn scenario_transfer_by_non_owner_changes_nothing() {
    let a: u64 = 10;
    let b: u64 = 12;
    let mut p = ledger(3);
    assert_eq!(p.create(a, &entropy(0)), Ok(()));
    let before = snapshot(&p);
    assert_eq!(p.transfer(b, 0, b), Err(Error::NotOwner));
    assert_eq!(snapshot(&p), before);
    assert_eq!(p.kitty_owner(0), Some(a));
    assert_eq!(p.owner_kitties(a), vec![0]);
    assert!(p.owner_kitties(b).is_empty());
    assert_eq!(p.reserved_balance(a), PRICE);
    assert_eq!(p.reserved_balance(b), 0);
    assert_eq!(p.events().len(), 1);
}

#[test]
fn breed_same_parent_fails_first() {
    let mut p = ledger(3);
    let before = snapshot(&p);
    assert_eq!(p.breed(11, 9, 9, &entropy(0)), Err(Error::SameKittyId));
    assert_eq!(snapshot(&p), before);
    let before = snapshot(&p);
    assert_eq!(p.breed_with_mask(10, 0, 0, [0; 16]), Err(Error::SameKittyId));
    assert_eq!(snapshot(&p), before);
}

#[test]
fn breed_missing_parent_checked_before_funds() {
    let mut p = ledger(3);
    assert_eq!(p.create(10, &entropy(0)), Ok(()));
    let before = snapshot(&p);
    assert_eq!(p.breed(11, 0, 5, &entropy(0)), Err(Error::NotExistKittyId));
    assert_eq!(snapshot(&p), before);
    let before = snapshot(&p);
    assert_eq!(p.breed(11, 5, 0, &entropy(0)), Err(Error::NotExistKittyId));
    assert_eq!(snapshot(&p), before);
    assert_eq!(p.create(10, &entropy(1)), Ok(()));
    let before = snapshot(&p);
    assert_eq!(p.breed(11, 0, 1, &entropy(0)), Err(Error::NotEnoughBalance));
    assert_eq!(snapshot(&p), before);
}

#[test]
fn successful_mints_advance_counter_by_one() {
    let mut p = ledger(5);
    assert_eq!(p.create(10, &entropy(0)), Ok(()));
    assert_eq!(p.next_kitty_id(), 1);
    assert_eq!(p.create(12, &entropy(0)), Ok(()));
    assert_eq!(p.next_kitty_id(), 2);
    assert_eq!(p.transfer(12, 1, 10), Ok(()));
    assert_eq!(p.breed(10, 0, 1, &entropy(1)), Ok(()));
    assert_eq!(p.next_kitty_id(), 3);
    assert_eq!(p.kitty_owner(2), Some(10));
}

#[test]
fn transfer_moves_collateral_and_inventory() {
    let a: u64 = 10;
    let b: u64 = 12;
    let mut p = ledger(3);
    assert_eq!(p.create(a, &entropy(0)), Ok(()));
    assert_eq!(p.create(a, &entropy(1)), Ok(()));
    let free_a = p.free_balance(a);
    let free_b = p.free_balance(b);
    assert_eq!(p.transfer(a, 0, b), Ok(()));
    assert_eq!(p.kitty_owner(0), Some(b));
    assert_eq!(p.reserved_balance(a), PRICE);
    assert_eq!(p.reserved_balance(b), PRICE);
    assert_eq!(p.free_balance(a), free_a + PRICE);
    assert_eq!(p.free_balance(b), free_b - PRICE);
    assert_eq!(p.owner_kitties(a), vec![1]);
    assert_eq!(p.owner_kitties(b), vec![0]);
    assert_eq!(p.events().last(), Some(&Event::KittyTransfer(a, 0, b)));
}

#[test]
fn transfer_to_self_keeps_one_entry() {
    let a: u64 = 10;
    let mut p = ledger(2);
    assert_eq!(p.create(a, &entropy(0)), Ok(()));
    assert_eq!(p.create(a, &entropy(1)), Ok(()));
    assert_eq!(p.transfer(a, 0, a), Ok(()));
    assert_eq!(p.owner_kitties(a), vec![1, 0]);
    assert_eq!(p.reserved_balance(a), 2 * PRICE);
}

#[test]
fn transfer_of_missing_kitty_fails() {
    let mut p = ledger(3);
    let before = snapshot(&p);
    assert_eq!(p.transfer(10, 0, 12), Err(Error::NotExistKittyId));
    assert_eq!(snapshot(&p), before);
}

#[test]
fn update_kitty_sets_generation_only() {
    let mut p = ledger(3);
    assert_eq!(p.create_with_dna(10, [9; 16]), Ok(()));
    assert_eq!(p.update_kitty(12, 0, 3), Ok(()));
    assert_eq!(p.kitties(0), Some(Kitty { dna: [9; 16], algebra: 3 }));
    let before = snapshot(&p);
    assert_eq!(p.update_kitty(12, 1, 3), Err(Error::NotExistKittyId));
    assert_eq!(snapshot(&p), before);
}

#[test]
fn create_records_event_and_index_entry() {
    let mut p = ledger(3);
    p.set_block_number(7);
    assert_eq!(p.create_with_dna(10, [5; 16]), Ok(()));
    assert_eq!(
        p.events(),
        &vec![Event::KittyCreated(10, 0, Kitty { dna: [5; 16], algebra: 1 })]
    );
    assert_eq!(p.index_writes(), &vec![(derived_key(7), vec![0, 0, 0, 0])]);
}

#[test]
fn combine_dna_exact_bytes() {
    let mut one = [0u8; 16];
    let mut two = [0u8; 16];
    let mut mask = [0u8; 16];
    for i in 0..16 {
        one[i] = i as u8 * 17;
        two[i] = 255 - i as u8;
        mask[i] = (i as u8) << 4;
    }
    let r = combine_dna(&one, &two, &mask);
    assert_eq!(r[0], 0xFF);
    assert_eq!(r[1], 0xFE);
    assert_eq!(r[15], 0xF0);
    assert!(mixes(&r, &one, &two, &mask));
    assert_eq!(r, combine_dna(&one, &two, &mask));
}

#[test]
fn combine_dna_depends_on_mask() {
    let one = [0xAAu8; 16];
    let two = [0x55u8; 16];
    let r1 = combine_dna(&one, &two, &[0xFF; 16]);
    let r2 = combine_dna(&one, &two, &[0x00; 16]);
    assert_eq!(r1, one);
    assert_eq!(r2, two);
    assert_ne!(r1, r2);
    assert_eq!(combine_dna(&one, &one, &[0x0F; 16]), one);
}

#[test]
fn derived_key_bytes() {
    let mut expected = b"kitty_pallet::indexing/".to_vec();
    expected.extend_from_slice(&[1, 2, 0, 0, 0, 0, 0, 0]);
    assert_eq!(derived_key(0x0201), expected);
}

#[test]
fn index_record_round_trip() {
    assert_eq!(encode_index_record(0x0102_0304), vec![4, 3, 2, 1]);
    assert_eq!(decode_index_record(&[4, 3, 2, 1]), Some(0x0102_0304));
    assert_eq!(decode_index_record(&[4, 3, 2, 1, 9]), Some(0x0102_0304));
    assert_eq!(decode_index_record(&[4, 3, 2]), None);
    let r = encode_index_record(u32::MAX);
    assert_eq!(decode_index_record(&r), Some(u32::MAX));
}

#[test]
fn refresh_call_by_parity() {
    let rec = encode_index_record(5);
    assert_eq!(refresh_call(3, Some(&rec)), Some(UpdateCall { kitty_id: 5, algebra: 2 }));
    assert_eq!(refresh_call(4, Some(&rec)), Some(UpdateCall { kitty_id: 5, algebra: 3 }));
    assert_eq!(refresh_call(4, None), None);
    assert_eq!(refresh_call(4, Some(&[1, 2])), None);
}

#[test]
fn random_payload_bytes() {
    let e = Entropy { seed: [1u8; 32], extrinsic_index: Some(0x0302) };
    let mut expected = vec![1u8; 32];
    expected.extend_from_slice(&[9, 0, 0, 0, 0, 0, 0, 0]);
    expected.extend_from_slice(&[1, 2, 3, 0, 0]);
    assert_eq!(encode_random_payload(&e, 9), expected);
    let none = Entropy { seed: [1u8; 32], extrinsic_index: None };
    assert_eq!(encode_random_payload(&none, 9).last(), Some(&0));
    assert_eq!(encode_random_payload(&none, 9).len(), 41);
}

#[test]
fn random_value_is_digest_of_payload() {
    let e = Entropy { seed: [1u8; 32], extrinsic_index: Some(2) };
    let payload = encode_random_payload(&e, 9);
    let r = random_value(&e, 9);
    assert_eq!(r, sp_crypto_hashing::blake2_128(&payload));
    assert_ne!(r.to_vec(), payload[..16].to_vec());
    assert_ne!(random_value(&e, 9), random_value(&e, 8));
}

#[test]
fn unreserve_releases_at_most_the_reserve() {
    let mut b = Balances::new();
    b.set_free_balance(1, 100);
    assert!(b.can_reserve(1, 100));
    assert!(!b.can_reserve(1, 101));
    b.reserve(1, 40);
    assert_eq!(b.free_balance(1), 60);
    assert_eq!(b.reserved_balance(1), 40);
    b.unreserve(1, 100);
    assert_eq!(b.free_balance(1), 100);
    assert_eq!(b.reserved_balance(1), 0);
}
