//! Properties that relate several operations of the ledger.
use vstd::prelude::*;

use crate::approvals::topped_up;
use crate::metadata::sat_add;
use crate::store::Pallet;
use crate::types::{AccountId, Approval, AssetId, Balance, DebitFlags};

verus! {

/// A debit of exactly the reducible balance succeeds and takes at least that
/// much, whatever the oracle locks, as long as both see the same locked funds.
/// (A debit of zero succeeds at once: `decrease_balance` returns `Ok(0)`.)
pub proof fn debit_of_reducible_succeeds(
    p: &Pallet,
    id: AssetId,
    who: AccountId,
    keep_alive: bool,
    best_effort: bool,
    frozen: Option<Balance>,
)
    requires
        p.reducible_spec(id, who, keep_alive, frozen) is Ok,
        p.reducible_spec(id, who, keep_alive, frozen)->Ok_0 > 0,
    ensures
        ({
            let r = p.reducible_spec(id, who, keep_alive, frozen)->Ok_0;
            let debit = p.debit_spec(id, who, r, DebitFlags { keep_alive, best_effort }, frozen);
            &&& debit is Ok
            &&& r <= debit->Ok_0 <= p.record_of(id, who).balance
            &&& r <= p.record_of(id, who).balance
        }),
{
}

/// Approvals add up: approving `first` and then `second` leaves an allowance
/// of their sum (saturating), with the deposit bonded once.
pub proof fn allowance_accumulates(first: Balance, second: Balance, deposit: u128)
    ensures
        topped_up(Some(topped_up(None, first, deposit)), second, deposit)
            == (Approval { amount: sat_add(first, second), deposit }),
{
}

/// In a ledger whose counters match its records, no asset counts more
/// self-sufficient holders than holders.
pub proof fn sufficients_within_accounts(p: &Pallet, id: AssetId)
    requires
        p.counters_match(),
        p.asset_map().contains_key(id),
    ensures
        p.asset_map()[id].sufficients <= p.asset_map()[id].accounts,
{
    p.lemma_sufficients_within_holders(id);
}

/// In a ledger where every record is positive, an account holds something of
/// an asset exactly when it has a record there.
pub proof fn holding_means_record(p: &Pallet, id: AssetId, who: AccountId)
    requires
        p.balances_positive(),
    ensures
        p.account_map().contains_key((id, who)) <==> p.record_of(id, who).balance > 0,
{
}

/// Where supply is conserved, no account holds more than the asset's supply.
pub proof fn balance_within_supply(p: &Pallet, id: AssetId, who: AccountId)
    requires
        p.wf(),
        p.supply_conserved(),
        p.asset_map().contains_key(id),
    ensures
        p.record_of(id, who).balance <= p.asset_map()[id].supply,
{
    p.lemma_record_le_total(id, who);
}

} // verus!
