use vstd::prelude::*;

verus! {

/// Identifier of a kitty.
pub type KittyIndex = u32;

/// Identity of an account, as supplied by the authentication layer.
pub type AccountId = u64;

/// Amount of currency.
pub type Balance = u128;

/// A kitty: its genome and its generation counter.
#[derive(Clone, Copy, Debug, PartialEq, Eq)]
pub struct Kitty {
    pub dna: [u8; 16],
    pub algebra: u32,
}

/// Why a lifecycle operation was refused.
#[derive(Clone, Copy, Debug, PartialEq, Eq, Structural)]
pub enum Error {
    /// The paying account cannot reserve the kitty price.
    NotEnoughBalance,
    /// The identifier space is exhausted.
    KittyIdOverflow,
    /// The receiving account's inventory is full.
    OwnTooManyKitties,
    /// Both parents of a breeding are the same kitty.
    SameKittyId,
    /// A kitty that the call names does not exist.
    NotExistKittyId,
    /// The caller does not own the kitty.
    NotOwner,
}

/// What a successful lifecycle operation announces.
#[derive(Clone, Copy, Debug, PartialEq, Eq)]
pub enum Event {
    KittyCreated(AccountId, KittyIndex, Kitty),
    KittyBreed(AccountId, KittyIndex, Kitty),
    KittyTransfer(AccountId, KittyIndex, AccountId),
}

/// The constants that the embedding system supplies.
#[derive(Clone, Copy, Debug, PartialEq, Eq, Structural)]
pub struct Config {
    /// Collateral reserved for each kitty an account holds.
    pub kitty_price: Balance,
    /// Largest number of kitties one account may hold.
    pub max_kitty_index: u32,
}

} // verus!
