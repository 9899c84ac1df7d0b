use std::collections::HashMap;
use vstd::prelude::*;

use crate::balances::{account_in, AccountData, Balances};
use crate::dna::{combine_dna, combined};
use crate::encoding::le_u32;
use crate::offchain::{derived_key, encode_index_record, index_key};
use crate::randomness::{blake2_128_of, random_payload, random_value, Entropy};
use crate::types::{AccountId, Balance, Config, Error, Event, Kitty, KittyIndex};

verus! {

broadcast use vstd::std_specs::hash::group_hash_axioms;

/// The abstract state of the ledger.
pub struct LedgerModel {
    pub config: Config,
    /// The identifier that the next kitty will receive.
    pub next_kitty_id: KittyIndex,
    /// The genome of each existing kitty.
    pub kitties: Map<KittyIndex, Kitty>,
    /// The owner of each existing kitty.
    pub kitty_owner: Map<KittyIndex, AccountId>,
    /// Each account's inventory, in the order the kitties arrived.
    pub owner_kitties: Map<AccountId, Seq<KittyIndex>>,
    /// Each account's free and reserved funds.
    pub accounts: Map<AccountId, AccountData>,
    /// The current block height.
    pub block_number: u64,
    /// The announcements of the successful operations, oldest first.
    pub events: Seq<Event>,
    /// The records left for the off-chain refresh, oldest first: key and value.
    pub index_writes: Seq<(Seq<u8>, Seq<u8>)>,
}

/// The inventory of `who` in a map of inventories, empty when absent.
pub open spec fn owned_in(m: Map<AccountId, Seq<KittyIndex>>, who: AccountId) -> Seq<KittyIndex> {
    if m.contains_key(who) {
        m[who]
    } else {
        Seq::empty()
    }
}

impl LedgerModel {
    #[verifier::inline]
    pub open spec fn owned(self, who: AccountId) -> Seq<KittyIndex> {
        owned_in(self.owner_kitties, who)
    }

    #[verifier::inline]
    pub open spec fn account(self, who: AccountId) -> AccountData {
        account_in(self.accounts, who)
    }

    /// The ledger's invariant: genomes and owners cover the same kitties,
    /// every identifier is below the counter, inventories list exactly the
    /// kitties each account owns, without repetition and within the bound, and
    /// each account has reserved the price of every kitty in its inventory.
    pub open spec fn consistent(self) -> bool {
        &&& self.kitties.dom() == self.kitty_owner.dom()
        &&& forall|id: KittyIndex| #[trigger]
            self.kitties.contains_key(id) ==> id < self.next_kitty_id
        &&& forall|o: AccountId, id: KittyIndex| #[trigger]
            owned_in(self.owner_kitties, o).contains(id) ==> self.kitty_owner.contains_key(id)
                && self.kitty_owner[id] == o
        &&& forall|id: KittyIndex| #[trigger]
            self.kitty_owner.contains_key(id) ==> owned_in(
                self.owner_kitties,
                self.kitty_owner[id],
            ).contains(id)
        &&& forall|o: AccountId|
            #![trigger owned_in(self.owner_kitties, o)]
            owned_in(self.owner_kitties, o).no_duplicates() && owned_in(self.owner_kitties, o).len()
                <= self.config.max_kitty_index
        &&& forall|o: AccountId|
            #![trigger account_in(self.accounts, o)]
            account_in(self.accounts, o).reserved == self.config.kitty_price * owned_in(
                self.owner_kitties,
                o,
            ).len()
        &&& forall|o: AccountId|
            #![trigger account_in(self.accounts, o)]
            account_in(self.accounts, o).free + account_in(self.accounts, o).reserved
                <= Balance::MAX
    }
}

/// Why creating a kitty for `sender` fails, checked in this order: the price
/// cannot be reserved, the identifiers are exhausted, the inventory is full.
pub open spec fn create_error(s: LedgerModel, sender: AccountId) -> Option<Error> {
    if s.account(sender).free < s.config.kitty_price {
        Some(Error::NotEnoughBalance)
    } else if s.next_kitty_id == KittyIndex::MAX {
        Some(Error::KittyIdOverflow)
    } else if s.owned(sender).len() >= s.config.max_kitty_index {
        Some(Error::OwnTooManyKitties)
    } else {
        None
    }
}

/// The state after `sender` receives `kitty` under the next identifier:
/// genome and owner recorded, the identifier appended to the inventory, the
/// price reserved, the counter advanced, `event` announced and the identifier
/// recorded for the off-chain refresh under the current height.
pub open spec fn minted(s: LedgerModel, sender: AccountId, kitty: Kitty, event: Event) -> LedgerModel {
    let id = s.next_kitty_id;
    let price = s.config.kitty_price;
    LedgerModel {
        config: s.config,
        next_kitty_id: (id + 1) as KittyIndex,
        kitties: s.kitties.insert(id, kitty),
        kitty_owner: s.kitty_owner.insert(id, sender),
        owner_kitties: s.owner_kitties.insert(sender, s.owned(sender).push(id)),
        accounts: s.accounts.insert(
            sender,
            AccountData {
                free: (s.account(sender).free - price) as Balance,
                reserved: (s.account(sender).reserved + price) as Balance,
            },
        ),
        block_number: s.block_number,
        events: s.events.push(event),
        index_writes: s.index_writes.push((index_key(s.block_number), le_u32(id))),
    }
}

/// Why breeding `one` with `two` for `sender` fails, checked in this order:
/// the parents are the same kitty, a parent does not exist, then as for
/// creation.
pub open spec fn breed_error(s: LedgerModel, sender: AccountId, one: KittyIndex, two: KittyIndex) -> Option<Error> {
    if one == two {
        Some(Error::SameKittyId)
    } else if !s.kitties.contains_key(one) || !s.kitties.contains_key(two) {
        Some(Error::NotExistKittyId)
    } else {
        create_error(s, sender)
    }
}

/// `k` is the first-generation child of `one` and `two` under `mask`.
pub open spec fn is_child(k: Kitty, s: LedgerModel, one: KittyIndex, two: KittyIndex, mask: Seq<u8>) -> bool {
    &&& k.dna@ == combined(s.kitties[one].dna@, s.kitties[two].dna@, mask)
    &&& k.algebra == 1
}

/// The outcome of a successful breeding: the child, stored under the old
/// counter, is minted for `sender` as by creation.
pub open spec fn bred(s: LedgerModel, t: LedgerModel, sender: AccountId, one: KittyIndex, two: KittyIndex, mask: Seq<u8>) -> bool {
    let id = s.next_kitty_id;
    let k = t.kitties[id];
    &&& is_child(k, s, one, two, mask)
    &&& t == minted(s, sender, k, Event::KittyBreed(sender, id, k))
}

/// Why `sender` cannot hand kitty `id` to `new_owner`, checked in this order:
/// the kitty does not exist, `sender` does not own it, `new_owner` cannot
/// reserve the price, the inventory of `new_owner` is full.
pub open spec fn transfer_error(s: LedgerModel, sender: AccountId, id: KittyIndex, new_owner: AccountId) -> Option<Error> {
    if !s.kitties.contains_key(id) {
        Some(Error::NotExistKittyId)
    } else if s.kitty_owner[id] != sender {
        Some(Error::NotOwner)
    } else if s.account(new_owner).free < s.config.kitty_price {
        Some(Error::NotEnoughBalance)
    } else if new_owner != sender && s.owned(new_owner).len() >= s.config.max_kitty_index {
        Some(Error::OwnTooManyKitties)
    } else {
        None
    }
}

/// The index at which `id` stands in `list`.
pub open spec fn position(list: Seq<KittyIndex>, id: KittyIndex) -> int {
    choose|i: int| 0 <= i < list.len() && list[i] == id
}

/// `list` with `id` taken out.
pub open spec fn without(list: Seq<KittyIndex>, id: KittyIndex) -> Seq<KittyIndex> {
    list.remove(position(list, id))
}

/// The state after kitty `id` moves from `sender` to `new_owner`: the
/// reservation of `sender` released, one reserved from `new_owner`, the owner
/// reassigned, the identifier moved from one inventory to the end of the
/// other, the move announced.
pub open spec fn transferred(s: LedgerModel, sender: AccountId, id: KittyIndex, new_owner: AccountId) -> LedgerModel {
    let price = s.config.kitty_price;
    let a1 = s.accounts.insert(
        sender,
        AccountData {
            free: (s.account(sender).free + price) as Balance,
            reserved: (s.account(sender).reserved - price) as Balance,
        },
    );
    let a2 = a1.insert(
        new_owner,
        AccountData {
            free: (account_in(a1, new_owner).free - price) as Balance,
            reserved: (account_in(a1, new_owner).reserved + price) as Balance,
        },
    );
    let m1 = s.owner_kitties.insert(sender, without(s.owned(sender), id));
    let m2 = m1.insert(new_owner, owned_in(m1, new_owner).push(id));
    LedgerModel {
        kitty_owner: s.kitty_owner.insert(id, new_owner),
        owner_kitties: m2,
        accounts: a2,
        events: s.events.push(Event::KittyTransfer(sender, id, new_owner)),
        ..s
    }
}

/// What taking `id` out of an inventory that holds it once leaves.
proof fn lemma_without(list: Seq<KittyIndex>, id: KittyIndex)
    requires
        list.no_duplicates(),
        list.contains(id),
    ensures
        without(list, id).len() == list.len() - 1,
        without(list, id).no_duplicates(),
        forall|x: KittyIndex| #[trigger]
            without(list, id).contains(x) <==> (list.contains(x) && x != id),
{
    let p = position(list, id);
    let w = without(list, id);
    assert forall|x: KittyIndex| #[trigger] w.contains(x) <==> (list.contains(x) && x != id) by {
        if w.contains(x) {
            let j = choose|j: int| 0 <= j < w.len() && w[j] == x;
            if j < p {
                assert(list[j] == x);
            } else {
                assert(list[j + 1] == x);
            }
        }
        if list.contains(x) && x != id {
            let j = choose|j: int| 0 <= j < list.len() && list[j] == x;
            if j < p {
                assert(w[j] == x);
            } else {
                assert(j != p);
                assert(w[j - 1] == x);
            }
        }
    }
}

/// What appending an identifier that an inventory lacks gives.
proof fn lemma_push(list: Seq<KittyIndex>, id: KittyIndex)
    requires
        list.no_duplicates(),
        !list.contains(id),
    ensures
        list.push(id).no_duplicates(),
        forall|x: KittyIndex| #[trigger] list.push(id).contains(x) <==> (list.contains(x) || x == id),
{
    let l = list.push(id);
    assert forall|x: KittyIndex| #[trigger] l.contains(x) <==> (list.contains(x) || x == id) by {
        if l.contains(x) {
            let j = choose|j: int| 0 <= j < l.len() && l[j] == x;
            if j < list.len() {
                assert(list[j] == x);
            }
        }
        if list.contains(x) {
            let j = choose|j: int| 0 <= j < list.len() && list[j] == x;
            assert(l[j] == x);
        }
        if x == id {
            assert(l[list.len() as int] == id);
        }
    }
    assert forall|i: int, j: int| 0 <= i < l.len() && 0 <= j < l.len() && i != j implies l[i] != l[j] by {
        if i < list.len() && j < list.len() {
        } else if i < list.len() {
            assert(list.contains(l[i]));
        } else {
            assert(list.contains(l[j]));
        }
    }
}

/// Minting keeps the ledger consistent.
pub proof fn lemma_minted_consistent(s: LedgerModel, sender: AccountId, kitty: Kitty, event: Event)
    requires
        s.consistent(),
        create_error(s, sender) is None,
    ensures
        minted(s, sender, kitty, event).consistent(),
{
    let id = s.next_kitty_id;
    let price = s.config.kitty_price;
    let t = minted(s, sender, kitty, event);
    assert(!s.kitties.contains_key(id));
    assert(!s.owned(sender).contains(id));
    assert forall|o: AccountId, x: KittyIndex| #[trigger]
        owned_in(t.owner_kitties, o).contains(x) implies t.kitty_owner.contains_key(x)
            && t.kitty_owner[x] == o by {
        if o == sender && x == id {
        } else if o == sender {
            let j = choose|j: int| 0 <= j < t.owned(o).len() && t.owned(o)[j] == x;
            assert(s.owned(o)[j] == x);
            assert(s.owned(o).contains(x));
        } else {
            assert(s.owned(o).contains(x));
        }
    }
    assert forall|x: KittyIndex| #[trigger]
        t.kitty_owner.contains_key(x) implies owned_in(t.owner_kitties, t.kitty_owner[x]).contains(x) by {
        if x == id {
            assert(t.owned(sender)[s.owned(sender).len() as int] == id);
        } else {
            let o = s.kitty_owner[x];
            assert(s.owned(o).contains(x));
            let j = choose|j: int| 0 <= j < s.owned(o).len() && s.owned(o)[j] == x;
            assert(t.owned(o)[j] == x);
        }
    }
    assert forall|o: AccountId| #![trigger owned_in(t.owner_kitties, o)]
        owned_in(t.owner_kitties, o).no_duplicates() && owned_in(t.owner_kitties, o).len()
            <= t.config.max_kitty_index by {
        assert(s.owned(o).no_duplicates());
    }
    assert forall|o: AccountId| #![trigger account_in(t.accounts, o)]
        account_in(t.accounts, o).reserved == t.config.kitty_price * owned_in(t.owner_kitties, o).len()
        && account_in(t.accounts, o).free + account_in(t.accounts, o).reserved <= Balance::MAX by {
        assert(account_in(s.accounts, o).reserved == s.config.kitty_price * owned_in(s.owner_kitties, o).len());
        if o == sender {
            let n = s.owned(o).len();
            assert(price * (n + 1) == price * n + price) by (nonlinear_arith);
        }
    }
    assert(t.kitties.dom() =~= t.kitty_owner.dom());
}

/// The ledger: kitties, their owners, inventories and the collateral reserved
/// for them.
pub struct Pallet {
    config: Config,
    next_kitty_id: KittyIndex,
    kitties: HashMap<KittyIndex, Kitty>,
    kitty_owner: HashMap<KittyIndex, AccountId>,
    owner_kitties: HashMap<AccountId, Vec<KittyIndex>>,
    balances: Balances,
    block_number: u64,
    events: Vec<Event>,
    index_writes: Vec<(Vec<u8>, Vec<u8>)>,
}

impl View for Pallet {
    type V = LedgerModel;

    closed spec fn view(&self) -> LedgerModel {
        LedgerModel {
            config: self.config,
            next_kitty_id: self.next_kitty_id,
            kitties: self.kitties@,
            kitty_owner: self.kitty_owner@,
            owner_kitties: self.owner_kitties@.map_values(|v: Vec<KittyIndex>| v@),
            accounts: self.balances@,
            block_number: self.block_number,
            events: self.events@,
            index_writes: self.index_writes@.map_values(|p: (Vec<u8>, Vec<u8>)| (p.0@, p.1@)),
        }
    }
}

impl Pallet {
    /// The ledger is well formed.
    pub open spec fn wf(&self) -> bool {
        self@.consistent()
    }

    /// An empty ledger: no kitties, no funds, the counter at zero.
    pub fn new(config: Config) -> (r: Pallet)
        ensures
            r.wf(),
            r@ == (LedgerModel {
                config,
                next_kitty_id: 0,
                kitties: Map::empty(),
                kitty_owner: Map::empty(),
                owner_kitties: Map::empty(),
                accounts: Map::empty(),
                block_number: 0,
                events: Seq::empty(),
                index_writes: Seq::empty(),
            }),
    {
        let r = Pallet {
            config,
            next_kitty_id: 0,
            kitties: HashMap::new(),
            kitty_owner: HashMap::new(),
            owner_kitties: HashMap::new(),
            balances: Balances::new(),
            block_number: 0,
            events: Vec::new(),
            index_writes: Vec::new(),
        };
        assert(r@.owner_kitties =~= Map::empty());
        assert(r@.index_writes =~= Seq::empty());
        assert forall|o: AccountId| #![trigger account_in(r@.accounts, o)]
            account_in(r@.accounts, o).reserved == r@.config.kitty_price * owned_in(r@.owner_kitties, o).len() by {
            assert(owned_in(r@.owner_kitties, o).len() == 0);
            assert(r@.config.kitty_price * 0 == 0) by (nonlinear_arith);
        }
        r
    }

    /// The number of kitties in the inventory of `who`.
    fn owned_count(&self, who: AccountId) -> (r: usize)
        ensures
            r == self@.owned(who).len(),
    {
        match self.owner_kitties.get(&who) {
            Some(v) => v.len(),
            None => 0,
        }
    }

    /// The next identifier, unless the identifier space is exhausted.
    fn get_next_id(&self) -> (r: Result<KittyIndex, ()>)
        ensures
            r == if self@.next_kitty_id == KittyIndex::MAX {
                Err::<KittyIndex, ()>(())
            } else {
                Ok(self@.next_kitty_id)
            },
    {
        if self.next_kitty_id == KittyIndex::MAX {
            Err(())
        } else {
            Ok(self.next_kitty_id)
        }
    }

    /// Appends `id` to the inventory of `who`.
    fn push_owned(&mut self, who: AccountId, id: KittyIndex)
        ensures
            final(self)@ == (LedgerModel {
                owner_kitties: old(self)@.owner_kitties.insert(who, old(self)@.owned(who).push(id)),
                ..old(self)@
            }),
    {
        let mut list = match self.owner_kitties.remove(&who) {
            Some(v) => v,
            None => Vec::new(),
        };
        list.push(id);
        self.owner_kitties.insert(who, list);
        assert(self@.owner_kitties =~= old(self)@.owner_kitties.insert(who, old(self)@.owned(who).push(id)));
    }

    /// Gives `sender` a new kitty under the next identifier; every check has
    /// been made.
    fn mint(&mut self, sender: AccountId, kitty: Kitty, event: Event)
        requires
            old(self).wf(),
            create_error(old(self)@, sender) is None,
        ensures
            final(self).wf(),
            final(self)@ == minted(old(self)@, sender, kitty, event),
    {
        let ghost s = self@;
        let id = self.next_kitty_id;
        let price = self.config.kitty_price;
        self.balances.reserve(sender, price);
        self.kitties.insert(id, kitty);
        self.kitty_owner.insert(id, sender);
        self.next_kitty_id = id + 1;
        self.push_owned(sender, id);
        self.events.push(event);
        let key = derived_key(self.block_number);
        let record = encode_index_record(id);
        self.index_writes.push((key, record));
        let ghost t = minted(s, sender, kitty, event);
        assert(self@.index_writes =~= t.index_writes);
        assert(self@.kitties =~= t.kitties);
        assert(self@ == t);
        proof {
            lemma_minted_consistent(s, sender, kitty, event);
        }
    }

    /// Creates a kitty with genome `dna` for `sender`, reserving the kitty
    /// price; on failure nothing changes.
    pub fn create_with_dna(&mut self, sender: AccountId, dna: [u8; 16]) -> (r: Result<(), Error>)
        requires
            old(self).wf(),
        ensures
            final(self).wf(),
            match r {
                Ok(()) => create_error(old(self)@, sender) is None && final(self)@ == minted(
                    old(self)@,
                    sender,
                    Kitty { dna, algebra: 1 },
                    Event::KittyCreated(sender, old(self)@.next_kitty_id, Kitty { dna, algebra: 1 }),
                ),
                Err(e) => create_error(old(self)@, sender) == Some(e) && final(self)@ == old(self)@,
            },
    {
        let price = self.config.kitty_price;
        if !self.balances.can_reserve(sender, price) {
            return Err(Error::NotEnoughBalance);
        }
        let kitty_id = match self.get_next_id() {
            Ok(id) => id,
            Err(()) => return Err(Error::KittyIdOverflow),
        };
        if self.owned_count(sender) >= self.config.max_kitty_index as usize {
            return Err(Error::OwnTooManyKitties);
        }
        let kitty = Kitty { dna, algebra: 1 };
        self.mint(sender, kitty, Event::KittyCreated(sender, kitty_id, kitty));
        Ok(())
    }
    /// The kitty with identifier `kitty_id`, if it exists.
    fn get_kitty(&self, kitty_id: KittyIndex) -> (r: Result<Kitty, ()>)
        ensures
            r == if self@.kitties.contains_key(kitty_id) {
                Ok::<Kitty, ()>(self@.kitties[kitty_id])
            } else {
                Err(())
            },
    {
        match self.kitties.get(&kitty_id) {
            Some(k) => Ok(*k),
            None => Err(()),
        }
    }

    /// Creates a kitty for `sender` with a genome drawn from `entropy`,
    /// reserving the kitty price; on failure nothing changes.
    pub fn create(&mut self, sender: AccountId, entropy: &Entropy) -> (r: Result<(), Error>)
        requires
            old(self).wf(),
        ensures
            final(self).wf(),
            match r {
                Ok(()) => create_error(old(self)@, sender) is None && ({
                    let k = final(self)@.kitties[old(self)@.next_kitty_id];
                    &&& k.dna@ == blake2_128_of(random_payload(*entropy, sender))
                    &&& k.algebra == 1
                    &&& final(self)@ == minted(
                        old(self)@,
                        sender,
                        k,
                        Event::KittyCreated(sender, old(self)@.next_kitty_id, k),
                    )
                }),
                Err(e) => create_error(old(self)@, sender) == Some(e) && final(self)@ == old(self)@,
            },
    {
        let dna = random_value(entropy, sender);
        self.create_with_dna(sender, dna)
    }

    /// Breeds `kitty_id_one` with `kitty_id_two` for `sender`: the child
    /// takes the bits of the first parent where `mask` is set and of the
    /// second where it is clear, and the kitty price is reserved; on failure
    /// nothing changes.
    pub fn breed_with_mask(
        &mut self,
        sender: AccountId,
        kitty_id_one: KittyIndex,
        kitty_id_two: KittyIndex,
        mask: [u8; 16],
    ) -> (r: Result<(), Error>)
        requires
            old(self).wf(),
        ensures
            final(self).wf(),
            match r {
                Ok(()) => breed_error(old(self)@, sender, kitty_id_one, kitty_id_two) is None && bred(
                    old(self)@,
                    final(self)@,
                    sender,
                    kitty_id_one,
                    kitty_id_two,
                    mask@,
                ),
                Err(e) => breed_error(old(self)@, sender, kitty_id_one, kitty_id_two) == Some(e)
                    && final(self)@ == old(self)@,
            },
    {
        if kitty_id_one == kitty_id_two {
            return Err(Error::SameKittyId);
        }
        let kitty_one = match self.get_kitty(kitty_id_one) {
            Ok(k) => k,
            Err(()) => return Err(Error::NotExistKittyId),
        };
        let kitty_two = match self.get_kitty(kitty_id_two) {
            Ok(k) => k,
            Err(()) => return Err(Error::NotExistKittyId),
        };
        let price = self.config.kitty_price;
        if !self.balances.can_reserve(sender, price) {
            return Err(Error::NotEnoughBalance);
        }
        let kitty_id = match self.get_next_id() {
            Ok(id) => id,
            Err(()) => return Err(Error::KittyIdOverflow),
        };
        if self.owned_count(sender) >= self.config.max_kitty_index as usize {
            return Err(Error::OwnTooManyKitties);
        }
        let dna = combine_dna(&kitty_one.dna, &kitty_two.dna, &mask);
        let kitty = Kitty { dna, algebra: 1 };
        self.mint(sender, kitty, Event::KittyBreed(sender, kitty_id, kitty));
        Ok(())
    }

    /// Breeds `kitty_id_one` with `kitty_id_two` for `sender`, under a mask
    /// drawn from `entropy`; on failure nothing changes.
    pub fn breed(
        &mut self,
        sender: AccountId,
        kitty_id_one: KittyIndex,
        kitty_id_two: KittyIndex,
        entropy: &Entropy,
    ) -> (r: Result<(), Error>)
        requires
            old(self).wf(),
        ensures
            final(self).wf(),
            match r {
                Ok(()) => breed_error(old(self)@, sender, kitty_id_one, kitty_id_two) is None && bred(
                    old(self)@,
                    final(self)@,
                    sender,
                    kitty_id_one,
                    kitty_id_two,
                    blake2_128_of(random_payload(*entropy, sender)),
                ),
                Err(e) => breed_error(old(self)@, sender, kitty_id_one, kitty_id_two) == Some(e)
                    && final(self)@ == old(self)@,
            },
    {
        let mask = random_value(entropy, sender);
        self.breed_with_mask(sender, kitty_id_one, kitty_id_two, mask)
    }

    /// Takes `id` out of the inventory of `who`, which holds it once.
    fn remove_owned(&mut self, who: AccountId, id: KittyIndex)
        requires
            old(self)@.owned(who).contains(id),
            old(self)@.owned(who).no_duplicates(),
        ensures
            final(self)@ == (LedgerModel {
                owner_kitties: old(self)@.owner_kitties.insert(who, without(old(self)@.owned(who), id)),
                ..old(self)@
            }),
    {
        let ghost s = self@;
        let mut list = match self.owner_kitties.remove(&who) {
            Some(v) => v,
            None => Vec::new(),
        };
        assert(list@ == s.owned(who));
        let mut i: usize = 0;
        while i < list.len() && list[i] != id
            invariant
                list@ == s.owned(who),
                i <= list.len(),
                forall|j: int| 0 <= j < i ==> list@[j] != id,
            decreases list.len() - i,
        {
            i = i + 1;
        }
        assert(i < list.len() && list@[i as int] == id);
        assert(position(list@, id) == i);
        list.remove(i);
        self.owner_kitties.insert(who, list);
        assert(self@.owner_kitties =~= s.owner_kitties.insert(who, without(s.owned(who), id)));
    }

    /// Moves kitty `id` from `sender` to `new_owner`; every check has been made.
    fn move_kitty(&mut self, sender: AccountId, id: KittyIndex, new_owner: AccountId)
        requires
            old(self).wf(),
            transfer_error(old(self)@, sender, id, new_owner) is None,
        ensures
            final(self).wf(),
            final(self)@ == transferred(old(self)@, sender, id, new_owner),
    {
        let ghost s = self@;
        let price = self.config.kitty_price;
        proof {
            assert(s.owned(sender).contains(id));
            assert(s.owned(sender).no_duplicates());
            let n = s.owned(sender).len();
            assert(n >= 1) by {
                let j = choose|j: int| 0 <= j < n && s.owned(sender)[j] == id;
            }
            assert(account_in(s.accounts, sender).reserved == price * n);
            assert(price * n >= price) by (nonlinear_arith)
                requires n >= 1;
            lemma_without(s.owned(sender), id);
        }
        self.balances.unreserve(sender, price);
        self.balances.reserve(new_owner, price);
        self.kitty_owner.insert(id, new_owner);
        self.remove_owned(sender, id);
        let ghost s1 = self@;
        proof {
            if new_owner != sender {
                assert(!s.owned(new_owner).contains(id));
                assert(s1.owned(new_owner) == s.owned(new_owner));
            }
            lemma_push(s1.owned(new_owner), id);
        }
        self.push_owned(new_owner, id);
        self.events.push(Event::KittyTransfer(sender, id, new_owner));
        let ghost t = transferred(s, sender, id, new_owner);
        assert(self@ == t);
        assert(t.kitties.dom() =~= t.kitty_owner.dom());
        let ghost w = without(s.owned(sender), id);
        assert forall|o: AccountId, x: KittyIndex| #[trigger]
            owned_in(t.owner_kitties, o).contains(x) implies t.kitty_owner.contains_key(x)
                && t.kitty_owner[x] == o by {
            if o == new_owner {
                if x != id {
                    assert(s1.owned(new_owner).contains(x));
                    if new_owner != sender {
                        assert(s.owned(new_owner).contains(x));
                    }
                }
            } else if o == sender {
                assert(w.contains(x));
            } else {
                assert(s.owned(o).contains(x));
            }
        }
        assert forall|x: KittyIndex| #[trigger]
            t.kitty_owner.contains_key(x) implies owned_in(t.owner_kitties, t.kitty_owner[x]).contains(x) by {
            if x != id {
                let o = s.kitty_owner[x];
                assert(s.owned(o).contains(x));
                if o == sender {
                    assert(w.contains(x));
                }
                if o == new_owner {
                    assert(s1.owned(new_owner).contains(x));
                }
            }
        }
        assert forall|o: AccountId| #![trigger owned_in(t.owner_kitties, o)]
            owned_in(t.owner_kitties, o).no_duplicates() && owned_in(t.owner_kitties, o).len()
                <= t.config.max_kitty_index by {
            assert(s.owned(o).no_duplicates());
        }
        assert forall|o: AccountId| #![trigger account_in(t.accounts, o)]
            account_in(t.accounts, o).reserved == t.config.kitty_price * owned_in(t.owner_kitties, o).len() by {
            assert(account_in(s.accounts, o).reserved == price * owned_in(s.owner_kitties, o).len());
            let n = s.owned(o).len();
            if o == new_owner && o != sender {
                assert(price * (n + 1) == price * n + price) by (nonlinear_arith);
            } else if o == sender && o != new_owner {
                assert(price * (n - 1) == price * n - price) by (nonlinear_arith);
            }
        }
        assert(self.balances.wf());
    }

    /// Hands kitty `kitty_id` from `sender` to `new_owner`: the price that
    /// `sender` reserved for it is released and `new_owner` reserves it
    /// anew. The kitty leaves the inventory of `sender`, so that an inventory
    /// lists only what its account owns and no kitty stands in two. On
    /// failure nothing changes.
    pub fn transfer(&mut self, sender: AccountId, kitty_id: KittyIndex, new_owner: AccountId) -> (r: Result<(), Error>)
        requires
            old(self).wf(),
        ensures
            final(self).wf(),
            match r {
                Ok(()) => transfer_error(old(self)@, sender, kitty_id, new_owner) is None
                    && final(self)@ == transferred(old(self)@, sender, kitty_id, new_owner),
                Err(e) => transfer_error(old(self)@, sender, kitty_id, new_owner) == Some(e)
                    && final(self)@ == old(self)@,
            },
    {
        if !self.kitties.contains_key(&kitty_id) {
            return Err(Error::NotExistKittyId);
        }
        let owner = match self.kitty_owner.get(&kitty_id) {
            Some(o) => *o,
            None => return Err(Error::NotExistKittyId),
        };
        if owner != sender {
            return Err(Error::NotOwner);
        }
        let price = self.config.kitty_price;
        if !self.balances.can_reserve(new_owner, price) {
            return Err(Error::NotEnoughBalance);
        }
        if new_owner != sender && self.owned_count(new_owner) >= self.config.max_kitty_index as usize {
            return Err(Error::OwnTooManyKitties);
        }
        self.move_kitty(sender, kitty_id, new_owner);
        Ok(())
    }

    /// Sets the generation counter of kitty `kitty_id`, keeping its genome.
    /// The off-chain refresh submits this call; any signed caller may make
    /// it, owner or not. On failure nothing changes.
    pub fn update_kitty(&mut self, _who: AccountId, kitty_id: KittyIndex, algebra: u32) -> (r: Result<(), Error>)
        requires
            old(self).wf(),
        ensures
            final(self).wf(),
            match r {
                Ok(()) => old(self)@.kitties.contains_key(kitty_id) && final(self)@ == (LedgerModel {
                    kitties: old(self)@.kitties.insert(
                        kitty_id,
                        Kitty { dna: old(self)@.kitties[kitty_id].dna, algebra },
                    ),
                    ..old(self)@
                }),
                Err(e) => !old(self)@.kitties.contains_key(kitty_id) && e == Error::NotExistKittyId
                    && final(self)@ == old(self)@,
            },
    {
        let kitty = match self.get_kitty(kitty_id) {
            Ok(k) => k,
            Err(()) => return Err(Error::NotExistKittyId),
        };
        self.kitties.insert(kitty_id, Kitty { dna: kitty.dna, algebra });
        assert(self@.kitties.dom() =~= old(self)@.kitties.dom());
        Ok(())
    }

    /// Sets the current block height.
    pub fn set_block_number(&mut self, block_number: u64)
        requires
            old(self).wf(),
        ensures
            final(self).wf(),
            final(self)@ == (LedgerModel { block_number, ..old(self)@ }),
    {
        self.block_number = block_number;
    }

    /// Moves the identifier counter forward to `next`.
    pub fn set_next_kitty_id(&mut self, next: KittyIndex)
        requires
            old(self).wf(),
            next >= old(self)@.next_kitty_id,
        ensures
            final(self).wf(),
            final(self)@ == (LedgerModel { next_kitty_id: next, ..old(self)@ }),
    {
        self.next_kitty_id = next;
    }

    /// Sets the free funds of `who`, leaving its reserve as it is.
    pub fn set_free_balance(&mut self, who: AccountId, free: Balance)
        requires
            old(self).wf(),
            free + old(self)@.account(who).reserved <= Balance::MAX,
        ensures
            final(self).wf(),
            final(self)@ == (LedgerModel {
                accounts: old(self)@.accounts.insert(
                    who,
                    AccountData { free, reserved: old(self)@.account(who).reserved },
                ),
                ..old(self)@
            }),
    {
        let ghost s = self@;
        self.balances.set_free_balance(who, free);
        assert forall|o: AccountId| #![trigger account_in(self@.accounts, o)]
            account_in(self@.accounts, o).reserved == self@.config.kitty_price * owned_in(self@.owner_kitties, o).len() by {
            assert(account_in(s.accounts, o).reserved == s.config.kitty_price * owned_in(s.owner_kitties, o).len());
        }
    }

    /// The constants the ledger was made with.
    pub fn config(&self) -> (r: Config)
        ensures
            r == self@.config,
    {
        self.config
    }

    /// The identifier that the next kitty will receive.
    pub fn next_kitty_id(&self) -> (r: KittyIndex)
        ensures
            r == self@.next_kitty_id,
    {
        self.next_kitty_id
    }

    /// The current block height.
    pub fn block_number(&self) -> (r: u64)
        ensures
            r == self@.block_number,
    {
        self.block_number
    }

    /// The owner of kitty `kitty_id`, if it exists.
    pub fn kitty_owner(&self, kitty_id: KittyIndex) -> (r: Option<AccountId>)
        ensures
            r == if self@.kitty_owner.contains_key(kitty_id) {
                Some(self@.kitty_owner[kitty_id])
            } else {
                None
            },
    {
        match self.kitty_owner.get(&kitty_id) {
            Some(o) => Some(*o),
            None => None,
        }
    }

    /// Kitty `kitty_id`, if it exists.
    pub fn kitties(&self, kitty_id: KittyIndex) -> (r: Option<Kitty>)
        ensures
            r == if self@.kitties.contains_key(kitty_id) {
                Some(self@.kitties[kitty_id])
            } else {
                None
            },
    {
        match self.kitties.get(&kitty_id) {
            Some(k) => Some(*k),
            None => None,
        }
    }

    /// The inventory of `who`, in the order its kitties arrived.
    pub fn owner_kitties(&self, who: AccountId) -> (r: Vec<KittyIndex>)
        ensures
            r@ == self@.owned(who),
    {
        let mut out: Vec<KittyIndex> = Vec::new();
        match self.owner_kitties.get(&who) {
            Some(v) => {
                let mut i: usize = 0;
                while i < v.len()
                    invariant
                        i <= v.len(),
                        v@ == self@.owned(who),
                        out@ == v@.subrange(0, i as int),
                    decreases v.len() - i,
                {
                    out.push(v[i]);
                    i = i + 1;
                    assert(out@ =~= v@.subrange(0, i as int));
                }
                assert(out@ =~= v@);
            },
            None => {
                assert(out@ =~= self@.owned(who));
            },
        }
        out
    }

    /// The free funds of `who`.
    pub fn free_balance(&self, who: AccountId) -> (r: Balance)
        ensures
            r == self@.account(who).free,
    {
        self.balances.free_balance(who)
    }

    /// The funds that `who` has reserved as collateral.
    pub fn reserved_balance(&self, who: AccountId) -> (r: Balance)
        ensures
            r == self@.account(who).reserved,
    {
        self.balances.reserved_balance(who)
    }

    /// The announcements of the successful operations, oldest first.
    pub fn events(&self) -> (r: &Vec<Event>)
        ensures
            r@ == self@.events,
    {
        &self.events
    }

    /// The records left for the off-chain refresh, oldest first.
    pub fn index_writes(&self) -> (r: &Vec<(Vec<u8>, Vec<u8>)>)
        ensures
            r@.map_values(|p: (Vec<u8>, Vec<u8>)| (p.0@, p.1@)) == self@.index_writes,
    {
        &self.index_writes
    }
}

} // verus!
