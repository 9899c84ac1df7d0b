use std::collections::HashMap;
use vstd::prelude::*;

use crate::types::{AccountId, Balance};

verus! {

broadcast use vstd::std_specs::hash::group_hash_axioms;

/// The free and reserved funds of one account.
#[derive(Clone, Copy, Debug, PartialEq, Eq, Structural)]
pub struct AccountData {
    pub free: Balance,
    pub reserved: Balance,
}

/// What an account holds when the ledger has no record of it.
pub open spec fn empty_account() -> AccountData {
    AccountData { free: 0, reserved: 0 }
}

/// The account of `who` in a map of accounts, empty when absent.
pub open spec fn account_in(m: Map<AccountId, AccountData>, who: AccountId) -> AccountData {
    if m.contains_key(who) {
        m[who]
    } else {
        empty_account()
    }
}

/// Per-account funds, free and reserved (locked as collateral).
pub struct Balances {
    accounts: HashMap<AccountId, AccountData>,
}

impl View for Balances {
    type V = Map<AccountId, AccountData>;

    closed spec fn view(&self) -> Map<AccountId, AccountData> {
        self.accounts@
    }
}

impl Balances {
    /// The account of `who`, empty when it has no record.
    #[verifier::inline]
    pub open spec fn account(&self, who: AccountId) -> AccountData {
        account_in(self@, who)
    }

    /// No account's total funds exceed what a `Balance` can hold.
    pub open spec fn wf(&self) -> bool {
        forall|a: AccountId|
            #![trigger account_in(self@, a)]
            account_in(self@, a).free + account_in(self@, a).reserved <= Balance::MAX
    }

    /// A ledger where no account holds anything.
    pub fn new() -> (r: Balances)
        ensures
            r@ == Map::<AccountId, AccountData>::empty(),
            r.wf(),
    {
        Balances { accounts: HashMap::new() }
    }

    /// Sets the free funds of `who`, leaving its reserved funds as they are.
    pub fn set_free_balance(&mut self, who: AccountId, free: Balance)
        requires
            old(self).wf(),
            free + old(self).account(who).reserved <= Balance::MAX,
        ensures
            final(self).wf(),
            final(self)@ == old(self)@.insert(
                who,
                AccountData { free, reserved: old(self).account(who).reserved },
            ),
    {
        let reserved = self.reserved_balance(who);
        self.accounts.insert(who, AccountData { free, reserved });
        assert forall|a: AccountId|
            #![trigger account_in(self@, a)]
            account_in(self@, a).free + account_in(self@, a).reserved <= Balance::MAX by {
            if a != who {
                assert(self.account(a) == old(self).account(a));
            }
        }
    }

    /// The free funds of `who`.
    pub fn free_balance(&self, who: AccountId) -> (r: Balance)
        ensures
            r == self.account(who).free,
    {
        match self.accounts.get(&who) {
            Some(d) => d.free,
            None => 0,
        }
    }

    /// The reserved funds of `who`.
    pub fn reserved_balance(&self, who: AccountId) -> (r: Balance)
        ensures
            r == self.account(who).reserved,
    {
        match self.accounts.get(&who) {
            Some(d) => d.reserved,
            None => 0,
        }
    }

    /// Whether `who` has the free funds to reserve `amount`.
    pub fn can_reserve(&self, who: AccountId, amount: Balance) -> (r: bool)
        ensures
            r == (self.account(who).free >= amount),
    {
        self.free_balance(who) >= amount
    }

    /// Moves `amount` of the free funds of `who` into its reserve.
    pub fn reserve(&mut self, who: AccountId, amount: Balance)
        requires
            old(self).wf(),
            old(self).account(who).free >= amount,
        ensures
            final(self).wf(),
            final(self)@ == old(self)@.insert(
                who,
                AccountData {
                    free: (old(self).account(who).free - amount) as Balance,
                    reserved: (old(self).account(who).reserved + amount) as Balance,
                },
            ),
    {
        let d = AccountData { free: self.free_balance(who), reserved: self.reserved_balance(who) };
        assert(self.account(who) == d);
        self.accounts.insert(who, AccountData { free: d.free - amount, reserved: d.reserved + amount });
        assert forall|a: AccountId|
            #![trigger account_in(self@, a)]
            account_in(self@, a).free + account_in(self@, a).reserved <= Balance::MAX by {
            if a != who {
                assert(self.account(a) == old(self).account(a));
            } else {
                assert(old(self).account(a) == d);
            }
        }
    }

    /// Moves up to `amount` of the reserve of `who` back into its free funds;
    /// when less is reserved, all of it.
    pub fn unreserve(&mut self, who: AccountId, amount: Balance)
        requires
            old(self).wf(),
        ensures
            final(self).wf(),
            ({
                let d = old(self).account(who);
                let moved = if d.reserved < amount { d.reserved } else { amount };
                final(self)@ == old(self)@.insert(
                    who,
                    AccountData {
                        free: (d.free + moved) as Balance,
                        reserved: (d.reserved - moved) as Balance,
                    },
                )
            }),
    {
        let d = AccountData { free: self.free_balance(who), reserved: self.reserved_balance(who) };
        assert(self.account(who) == d);
        let moved = if d.reserved < amount { d.reserved } else { amount };
        self.accounts.insert(who, AccountData { free: d.free + moved, reserved: d.reserved - moved });
        assert forall|a: AccountId|
            #![trigger account_in(self@, a)]
            account_in(self@, a).free + account_in(self@, a).reserved <= Balance::MAX by {
            if a != who {
                assert(self.account(a) == old(self).account(a));
            } else {
                assert(old(self).account(a) == d);
            }
        }
    }
}

} // verus!
