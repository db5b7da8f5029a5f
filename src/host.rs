//! The services around the ledger: the currency that bonds deposits, the
//! reference counts that keep accounts alive, and the oracle of externally
//! frozen funds. The runtime that embeds the ledger implements them.
use vstd::prelude::*;

use crate::types::{AccountId, AssetId, Balance, DepositBalance, Error};

verus! {

/// Funds that other components lock on an account, and the notice of an
/// account's removal.
pub trait FrozenBalance {
    /// The part of `who`'s balance of `asset` that must stay, if any; the
    /// account may then not be removed either.
    fn frozen_balance(&self, asset: AssetId, who: AccountId) -> Option<Balance>;

    /// Called when the balance record of `who` in `asset` is removed.
    fn died(&mut self, asset: AssetId, who: AccountId);
}

/// No funds frozen elsewhere, nobody to notify.
impl FrozenBalance for () {
    fn frozen_balance(&self, asset: AssetId, who: AccountId) -> Option<Balance> {
        None
    }

    fn died(&mut self, asset: AssetId, who: AccountId) {
    }
}

/// The reserving currency and the account reference counts.
pub trait Config: FrozenBalance {
    /// Moves `amount` of `who`'s free currency to reserved, or fails and moves nothing.
    fn reserve(&mut self, who: AccountId, amount: DepositBalance) -> Result<(), Error>;

    /// Moves up to `amount` of `who`'s reserved currency back to free.
    fn unreserve(&mut self, who: AccountId, amount: DepositBalance);

    /// Moves `amount` reserved from `slashed` to the reserve of `beneficiary`,
    /// or fails and moves nothing.
    fn repatriate_reserved(&mut self, slashed: AccountId, beneficiary: AccountId, amount: DepositBalance) -> Result<(), Error>;

    /// The number of references that let `who` exist on their own.
    fn providers(&self, who: AccountId) -> u32;

    /// Adds a self-sufficient reference to `who`.
    fn inc_sufficients(&mut self, who: AccountId);

    /// Drops a self-sufficient reference of `who`.
    fn dec_sufficients(&mut self, who: AccountId);

    /// Adds a reference that needs `who` to exist already, or fails and adds nothing.
    fn inc_consumers(&mut self, who: AccountId) -> Result<(), Error>;

    /// Drops a reference that needed `who` to exist.
    fn dec_consumers(&mut self, who: AccountId);
}

} // verus!
