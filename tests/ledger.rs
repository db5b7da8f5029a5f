use std::collections::HashMap;

use pallet_assets::conversion::BalanceToAssetBalance;
use pallet_assets::host::{Config, FrozenBalance};
use pallet_assets::store::Pallet;
use pallet_assets::types::{
    AccountId, AssetDetails, AssetId, Balance, ConversionError, DebitFlags, DepositConsequence, DestroyWitness,
    Error, Event, Parameters, TransferFlags, WithdrawConsequence,
};

const A: AccountId = 1;
const B: AccountId = 2;
const C: AccountId = 3;
const ADMIN: AccountId = 10;

#[derive(Default)]
struct Host {
    free: HashMap<AccountId, u128>,
    reserved: HashMap<AccountId, u128>,
    providers: HashMap<AccountId, u32>,
    consumers: HashMap<AccountId, u32>,
    sufficients: HashMap<AccountId, u32>,
    frozen: HashMap<(AssetId, AccountId), Balance>,
    refuse_consumers: bool,
    died: Vec<(AssetId, AccountId)>,
}

impl Host {
    fn new() -> Host {
        let mut h = Host::default();
        for who in [A, B, C, ADMIN] {
            h.free.insert(who, 1_000);
            h.providers.insert(who, 1);
        }
        h
    }

    fn reserved_of(&self, who: AccountId) -> u128 {
        *self.reserved.get(&who).unwrap_or(&0)
    }
}

impl FrozenBalance for Host {
    fn frozen_balance(&self, asset: AssetId, who: AccountId) -> Option<Balance> {
        self.frozen.get(&(asset, who)).copied()
    }

    fn died(&mut self, asset: AssetId, who: AccountId) {
        self.died.push((asset, who));
    }
}

impl Config for Host {
    fn reserve(&mut self, who: AccountId, amount: u128) -> Result<(), Error> {
        let free = *self.free.get(&who).unwrap_or(&0);
        if free < amount {
            return Err(Error::InsufficientBond);
        }
        self.free.insert(who, free - amount);
        *self.reserved.entry(who).or_insert(0) += amount;
        Ok(())
    }

    fn unreserve(&mut self, who: AccountId, amount: u128) {
        let r = self.reserved_of(who);
        let moved = r.min(amount);
        self.reserved.insert(who, r - moved);
        *self.free.entry(who).or_insert(0) += moved;
    }

    fn repatriate_reserved(&mut self, slashed: AccountId, beneficiary: AccountId, amount: u128) -> Result<(), Error> {
        let r = self.reserved_of(slashed);
        if r < amount {
            return Err(Error::InsufficientBond);
        }
        self.reserved.insert(slashed, r - amount);
        *self.reserved.entry(beneficiary).or_insert(0) += amount;
        Ok(())
    }

    fn providers(&self, who: AccountId) -> u32 {
        *self.providers.get(&who).unwrap_or(&0)
    }

    fn inc_sufficients(&mut self, who: AccountId) {
        *self.sufficients.entry(who).or_insert(0) += 1;
    }

    fn dec_sufficients(&mut self, who: AccountId) {
        *self.sufficients.entry(who).or_insert(0) -= 1;
    }

    fn inc_consumers(&mut self, who: AccountId) -> Result<(), Error> {
        if self.refuse_consumers || self.providers(who) == 0 {
            return Err(Error::NoProviders);
        }
        *self.consumers.entry(who).or_insert(0) += 1;
        Ok(())
    }

    fn dec_consumers(&mut self, who: AccountId) {
        *self.consumers.entry(who).or_insert(0) -= 1;
    }
}

fn params() -> Parameters {
    Parameters {
        asset_deposit: 100,
        metadata_deposit_base: 1,
        metadata_deposit_per_byte: 2,
        approval_deposit: 5,
        string_limit: 8,
    }
}

fn ledger_with_asset(min_balance: Balance, sufficient: bool) -> (Pallet, Host) {
    let mut p = Pallet::new(params());
    p.force_create(1, ADMIN, sufficient, min_balance).unwrap();
    (p, Host::new())
}

fn details(p: &Pallet, id: AssetId) -> AssetDetails {
    p.asset(id).unwrap()
}

fn holders(p: &Pallet, id: AssetId, who: &[AccountId]) -> (u32, u32, Balance) {
    let mut n = 0;
    let mut s = 0;
    let mut sum = 0;
    for w in who {
        if p.contains_account(id, *w) {
            n += 1;
            let r = p.balance_of(id, *w);
            if r.sufficient {
                s += 1;
            }
            sum += r.balance;
        }
    }
    (n, s, sum)
}

#[test]
fn create_then_mint_sets_supply_and_balance() {
    let (mut p, mut h) = ledger_with_asset(1, true);
    p.mint(&mut h, ADMIN, 1, A, 100).unwrap();
    assert_eq!(p.total_supply(1), 100);
    assert_eq!(p.balance(1, A), 100);
    assert!(p.balance_of(1, A).sufficient);
    assert_eq!(details(&p, 1).accounts, 1);
    assert_eq!(details(&p, 1).sufficients, 1);
    assert_eq!(h.sufficients[&A], 1);
    assert_eq!(p.events().last(), Some(&Event::Issued(1, A, 100)));
}

#[test]
fn create_bonds_deposit_and_mint_takes_consumer_reference() {
    let mut p = Pallet::new(params());
    let mut h = Host::new();
    p.create(&mut h, A, 1, ADMIN, 1).unwrap();
    assert_eq!(h.reserved_of(A), 100);
    let d = details(&p, 1);
    assert_eq!((d.owner, d.issuer, d.admin, d.freezer), (A, ADMIN, ADMIN, ADMIN));
    assert!(!d.is_sufficient);
    p.mint(&mut h, ADMIN, 1, B, 50).unwrap();
    assert!(!p.balance_of(1, B).sufficient);
    assert_eq!(h.consumers[&B], 1);
    assert_eq!(p.events()[0], Event::Created(1, A, ADMIN));
}

#[test]
fn transfer_emptying_source_removes_it() {
    let (mut p, mut h) = ledger_with_asset(1, true);
    p.mint(&mut h, ADMIN, 1, A, 100).unwrap();
    assert_eq!(details(&p, 1).accounts, 1);
    p.transfer(&mut h, A, 1, B, 100).unwrap();
    assert!(!p.contains_account(1, A));
    assert_eq!(p.balance(1, B), 100);
    assert_eq!(details(&p, 1).accounts, 1);
    assert_eq!(h.died, vec![(1, A)]);
    assert_eq!(p.events().last(), Some(&Event::Transferred(1, A, B, 100)));
}

#[test]
fn transfer_to_existing_holder_drops_account_count() {
    let (mut p, mut h) = ledger_with_asset(1, true);
    p.mint(&mut h, ADMIN, 1, A, 100).unwrap();
    p.mint(&mut h, ADMIN, 1, B, 10).unwrap();
    assert_eq!(details(&p, 1).accounts, 2);
    p.transfer(&mut h, A, 1, B, 100).unwrap();
    assert_eq!(details(&p, 1).accounts, 1);
    assert_eq!(p.balance(1, B), 110);
}

#[test]
fn transfer_sweeps_dust_below_minimum() {
    let (mut p, mut h) = ledger_with_asset(10, true);
    p.mint(&mut h, ADMIN, 1, A, 25).unwrap();
    p.transfer(&mut h, A, 1, B, 20).unwrap();
    assert!(!p.contains_account(1, A));
    assert_eq!(p.balance(1, B), 25);
    assert_eq!(p.total_supply(1), 25);
    assert_eq!(p.events().last(), Some(&Event::Transferred(1, A, B, 25)));
}

#[test]
fn burn_dust_is_burned_not_credited() {
    let (mut p, mut h) = ledger_with_asset(10, true);
    p.mint(&mut h, ADMIN, 1, A, 25).unwrap();
    let f = TransferFlags { keep_alive: false, best_effort: false, burn_dust: true };
    let credit = p.do_transfer(&mut h, 1, A, B, 20, None, f, None, 1).unwrap();
    assert_eq!(credit, 20);
    assert_eq!(p.balance(1, B), 20);
    assert_eq!(p.total_supply(1), 20);
}

#[test]
fn keep_alive_transfer_refuses_to_empty() {
    let (mut p, mut h) = ledger_with_asset(10, true);
    p.mint(&mut h, ADMIN, 1, A, 25).unwrap();
    assert_eq!(p.transfer_keep_alive(&mut h, A, 1, B, 20), Err(Error::BalanceLow));
    p.transfer_keep_alive(&mut h, A, 1, B, 15).unwrap();
    assert_eq!(p.balance(1, A), 10);
}

#[test]
fn destroy_with_understated_approvals_fails() {
    let (mut p, mut h) = ledger_with_asset(1, true);
    p.mint(&mut h, ADMIN, 1, A, 100).unwrap();
    p.approve_transfer(&mut h, A, 1, B, 10).unwrap();
    let w = DestroyWitness { accounts: 1, sufficients: 1, approvals: 0 };
    assert_eq!(p.destroy(&mut h, 1, None, w), Err(Error::BadWitness));
    assert!(p.asset(1).is_some());
}

#[test]
fn destroy_clears_everything_and_releases_bonds() {
    let mut p = Pallet::new(params());
    let mut h = Host::new();
    p.create(&mut h, A, 1, ADMIN, 1).unwrap();
    p.mint(&mut h, ADMIN, 1, B, 40).unwrap();
    p.approve_transfer(&mut h, B, 1, C, 10).unwrap();
    p.set_metadata(&mut h, A, 1, vec![1, 2], vec![3], 6).unwrap();
    assert_eq!(h.reserved_of(A), 100 + 7);
    assert_eq!(h.reserved_of(B), 5);
    let w = details(&p, 1).destroy_witness();
    assert_eq!(p.destroy(&mut h, 1, Some(B), w), Err(Error::NoPermission));
    p.destroy(&mut h, 1, Some(A), w).unwrap();
    assert!(p.asset(1).is_none());
    assert!(!p.contains_account(1, B));
    assert!(p.approval(1, B, C).is_none());
    assert!(p.metadata(1).is_none());
    assert_eq!(h.reserved_of(A), 0);
    assert_eq!(h.reserved_of(B), 0);
    assert_eq!(h.consumers[&B], 0);
    assert_eq!(p.events().last(), Some(&Event::Destroyed(1)));
}

#[test]
fn frozen_account_cannot_be_debited_until_thawed() {
    let (mut p, mut h) = ledger_with_asset(1, true);
    p.mint(&mut h, ADMIN, 1, A, 100).unwrap();
    p.freeze(ADMIN, 1, A).unwrap();
    assert_eq!(p.transfer(&mut h, A, 1, B, 10), Err(Error::Frozen));
    assert_eq!(p.balance(1, A), 100);
    p.thaw(ADMIN, 1, A).unwrap();
    p.transfer(&mut h, A, 1, B, 10).unwrap();
    assert_eq!(p.balance(1, A), 90);
}

#[test]
fn frozen_asset_blocks_debits_and_approvals() {
    let (mut p, mut h) = ledger_with_asset(1, true);
    p.mint(&mut h, ADMIN, 1, A, 100).unwrap();
    assert_eq!(p.freeze_asset(A, 1), Err(Error::NoPermission));
    p.freeze_asset(ADMIN, 1).unwrap();
    assert_eq!(p.transfer(&mut h, A, 1, B, 10), Err(Error::Frozen));
    assert_eq!(p.approve_transfer(&mut h, A, 1, B, 10), Err(Error::Frozen));
    p.thaw_asset(ADMIN, 1).unwrap();
    p.transfer(&mut h, A, 1, B, 10).unwrap();
}

#[test]
fn zero_mint_and_burn_change_nothing_but_emit() {
    let (mut p, mut h) = ledger_with_asset(1, true);
    p.mint(&mut h, ADMIN, 1, A, 100).unwrap();
    let before = (details(&p, 1), p.balance_of(1, A), p.events().len());
    p.mint(&mut h, ADMIN, 1, A, 0).unwrap();
    p.burn(&mut h, ADMIN, 1, A, 0).unwrap();
    assert_eq!((details(&p, 1), p.balance_of(1, A)), (before.0, before.1));
    assert_eq!(p.events().len(), before.2 + 2);
    assert_eq!(p.events()[before.2], Event::Issued(1, A, 0));
    assert_eq!(p.events()[before.2 + 1], Event::Burned(1, A, 0));
}

#[test]
fn approvals_accumulate_and_are_spent() {
    let (mut p, mut h) = ledger_with_asset(1, true);
    p.mint(&mut h, ADMIN, 1, A, 100).unwrap();
    p.approve_transfer(&mut h, A, 1, B, 5).unwrap();
    p.approve_transfer(&mut h, A, 1, B, 3).unwrap();
    assert_eq!(details(&p, 1).approvals, 1);
    assert_eq!(h.reserved_of(A), 5);
    assert_eq!(p.approval(1, A, B).unwrap().amount, 8);
    assert_eq!(p.transfer_approved(&mut h, B, 1, A, C, 9), Err(Error::Unapproved));
    p.transfer_approved(&mut h, B, 1, A, C, 8).unwrap();
    assert_eq!(p.balance(1, C), 8);
    assert!(p.approval(1, A, B).is_none());
    assert_eq!(details(&p, 1).approvals, 0);
    assert_eq!(h.reserved_of(A), 0);
    assert_eq!(p.transfer_approved(&mut h, B, 1, A, C, 1), Err(Error::Unapproved));
}

#[test]
fn partial_spend_keeps_the_rest_of_the_allowance() {
    let (mut p, mut h) = ledger_with_asset(1, true);
    p.mint(&mut h, ADMIN, 1, A, 100).unwrap();
    p.approve_transfer(&mut h, A, 1, B, 8).unwrap();
    p.transfer_approved(&mut h, B, 1, A, C, 3).unwrap();
    assert_eq!(p.approval(1, A, B).unwrap().amount, 5);
    assert_eq!(p.events().last(), Some(&Event::TransferredApproved(1, A, B, C, 3)));
}

#[test]
fn cancel_approval_releases_bond() {
    let (mut p, mut h) = ledger_with_asset(1, true);
    p.approve_transfer(&mut h, A, 1, B, 8).unwrap();
    assert_eq!(p.cancel_approval(&mut h, A, 1, C), Err(Error::Unknown));
    p.cancel_approval(&mut h, A, 1, B).unwrap();
    assert_eq!(h.reserved_of(A), 0);
    assert_eq!(details(&p, 1).approvals, 0);
    p.approve_transfer(&mut h, A, 1, B, 8).unwrap();
    assert_eq!(p.force_cancel_approval(&mut h, Some(A), 1, A, B), Err(Error::NoPermission));
    p.force_cancel_approval(&mut h, Some(ADMIN), 1, A, B).unwrap();
    assert!(p.approval(1, A, B).is_none());
}

#[test]
fn reducible_balance_is_a_debit_that_succeeds() {
    let (mut p, mut h) = ledger_with_asset(10, true);
    p.mint(&mut h, ADMIN, 1, A, 100).unwrap();
    for keep_alive in [false, true] {
        for frozen in [None, Some(30)] {
            let r = p.reducible_balance(1, A, keep_alive, frozen).unwrap();
            assert!(r <= p.balance(1, A));
            let mut q = Pallet::new(params());
            q.force_create(1, ADMIN, true, 10).unwrap();
            q.mint(&mut h, ADMIN, 1, A, 100).unwrap();
            let f = DebitFlags { keep_alive, best_effort: false };
            assert!(q.decrease_balance(&mut h, 1, A, r, f, frozen, None, true).is_ok());
        }
    }
    assert_eq!(p.reducible_balance(1, A, true, None), Ok(90));
    assert_eq!(p.reducible_balance(1, A, false, Some(30)), Ok(60));
    assert_eq!(p.reducible_balance(1, A, false, None), Ok(100));
}

#[test]
fn supply_and_counters_track_records_through_a_sequence() {
    let (mut p, mut h) = ledger_with_asset(5, false);
    let who = [A, B, C];
    p.mint(&mut h, ADMIN, 1, A, 100).unwrap();
    p.mint(&mut h, ADMIN, 1, B, 30).unwrap();
    p.transfer(&mut h, A, 1, C, 40).unwrap();
    p.burn(&mut h, ADMIN, 1, B, 27).unwrap();
    p.transfer(&mut h, C, 1, A, 38).unwrap();
    let d = details(&p, 1);
    let (n, s, sum) = holders(&p, 1, &who);
    assert_eq!(d.supply, sum);
    assert_eq!(d.accounts, n);
    assert_eq!(d.sufficients, s);
    assert_eq!(sum, 100);
    assert!(!p.contains_account(1, B));
    assert!(!p.contains_account(1, C));
    for w in who {
        if p.contains_account(1, w) {
            assert!(p.balance(1, w) >= 5);
        }
    }
}

#[test]
fn burn_takes_whole_dust_and_reports_it() {
    let (mut p, mut h) = ledger_with_asset(10, true);
    p.mint(&mut h, ADMIN, 1, A, 25).unwrap();
    assert_eq!(p.burn(&mut h, A, 1, A, 5), Err(Error::NoPermission));
    p.burn(&mut h, ADMIN, 1, A, 20).unwrap();
    assert_eq!(p.events().last(), Some(&Event::Burned(1, A, 25)));
    assert_eq!(p.total_supply(1), 0);
    assert_eq!(details(&p, 1).accounts, 0);
    assert_eq!(p.burn_from(&mut h, 1, A, 5), Err(Error::BalanceLow));
}

#[test]
fn slash_and_burn_from_amounts() {
    let (mut p, mut h) = ledger_with_asset(1, true);
    p.mint(&mut h, ADMIN, 1, A, 30).unwrap();
    assert_eq!(p.slash(&mut h, 1, A, 50), Ok(30));
    p.mint(&mut h, ADMIN, 1, A, 30).unwrap();
    assert_eq!(p.burn_from(&mut h, 1, A, 10), Ok(10));
    assert_eq!(p.total_issuance(1), 20);
}

#[test]
fn mint_errors() {
    let (mut p, mut h) = ledger_with_asset(10, false);
    assert_eq!(p.mint(&mut h, ADMIN, 2, A, 10), Err(Error::Unknown));
    assert_eq!(p.mint(&mut h, A, 1, A, 10), Err(Error::NoPermission));
    assert_eq!(p.mint(&mut h, ADMIN, 1, A, 5), Err(Error::BelowMinimum));
    h.providers.insert(B, 0);
    assert_eq!(p.mint(&mut h, ADMIN, 1, B, 10), Err(Error::CannotCreate));
    h.refuse_consumers = true;
    assert_eq!(p.mint(&mut h, ADMIN, 1, A, 10), Err(Error::NoProvider));
    h.refuse_consumers = false;
    p.mint(&mut h, ADMIN, 1, A, 10).unwrap();
    assert_eq!(p.mint(&mut h, ADMIN, 1, A, u128::MAX), Err(Error::Overflow));
    assert_eq!(p.total_supply(1), 10);
}

#[test]
fn create_errors() {
    let mut p = Pallet::new(params());
    let mut h = Host::new();
    assert_eq!(p.create(&mut h, A, 1, ADMIN, 0), Err(Error::MinBalanceZero));
    h.free.insert(A, 10);
    assert_eq!(p.create(&mut h, A, 1, ADMIN, 1), Err(Error::InsufficientBond));
    assert!(p.asset(1).is_none());
    p.force_create(1, ADMIN, false, 1).unwrap();
    assert_eq!(p.create(&mut h, B, 1, ADMIN, 1), Err(Error::InUse));
    assert_eq!(p.force_create(1, ADMIN, false, 1), Err(Error::InUse));
    assert_eq!(p.force_create(2, ADMIN, false, 0), Err(Error::MinBalanceZero));
}

#[test]
fn freeze_requires_a_holder_and_the_right_role() {
    let (mut p, mut h) = ledger_with_asset(1, true);
    assert_eq!(p.freeze(ADMIN, 1, A), Err(Error::BalanceZero));
    assert_eq!(p.freeze(ADMIN, 2, A), Err(Error::Unknown));
    p.mint(&mut h, ADMIN, 1, A, 10).unwrap();
    assert_eq!(p.freeze(A, 1, A), Err(Error::NoPermission));
    p.freeze(ADMIN, 1, A).unwrap();
    assert!(p.balance_of(1, A).is_frozen);
    assert_eq!(p.thaw(B, 1, A), Err(Error::NoPermission));
}

#[test]
fn withdraw_verdicts() {
    let (mut p, mut h) = ledger_with_asset(10, true);
    p.mint(&mut h, ADMIN, 1, A, 50).unwrap();
    assert_eq!(p.can_decrease(2, A, 1, false, None), WithdrawConsequence::UnknownAsset);
    assert_eq!(p.can_decrease(1, A, 60, false, None), WithdrawConsequence::Underflow);
    p.mint(&mut h, ADMIN, 1, B, 50).unwrap();
    assert_eq!(p.can_decrease(1, A, 60, false, None), WithdrawConsequence::NoFunds);
    assert_eq!(p.can_decrease(1, A, 45, true, None), WithdrawConsequence::WouldDie);
    assert_eq!(p.can_decrease(1, A, 45, false, None), WithdrawConsequence::ReducedToZero(5));
    assert_eq!(p.can_decrease(1, A, 30, false, Some(15)), WithdrawConsequence::Frozen);
    assert_eq!(p.can_decrease(1, A, 30, false, Some(u128::MAX)), WithdrawConsequence::Overflow);
    assert_eq!(p.can_decrease(1, A, 30, false, None), WithdrawConsequence::Success);
    assert_eq!(p.can_decrease(1, A, 45, true, None).into_result(), Err(Error::WouldDie));
    assert_eq!(p.can_withdraw(&h, 1, A, 45), WithdrawConsequence::ReducedToZero(5));
    h.frozen.insert((1, A), 20);
    assert_eq!(p.can_withdraw(&h, 1, A, 30), WithdrawConsequence::Frozen);
}

#[test]
fn deposit_verdicts() {
    let (mut p, mut h) = ledger_with_asset(10, false);
    assert_eq!(p.can_increase(2, A, 10, 1), DepositConsequence::UnknownAsset);
    assert_eq!(p.can_increase(1, A, 5, 1), DepositConsequence::BelowMinimum);
    assert_eq!(p.can_increase(1, A, 10, 0), DepositConsequence::CannotCreate);
    assert_eq!(p.can_increase(1, A, 10, 1), DepositConsequence::Success);
    p.mint(&mut h, ADMIN, 1, A, 10).unwrap();
    assert_eq!(p.can_increase(1, B, u128::MAX, 1), DepositConsequence::Overflow);
    assert_eq!(p.can_deposit(&h, 1, A, 1), DepositConsequence::Success);
    assert_eq!(p.can_increase(1, A, 10, 1).into_result(), Ok(()));
    assert_eq!(p.prep_credit(1, B, 10, 12, true, 1), Ok((10, Some(2))));
    assert_eq!(p.prep_credit(1, B, 10, 12, false, 1), Ok((12, None)));
    assert_eq!(p.prep_credit(1, B, 10, 5, false, 1), Err(Error::BelowMinimum));
}

#[test]
fn metadata_bonds_by_length() {
    let (mut p, mut h) = ledger_with_asset(1, true);
    assert_eq!(p.set_metadata(&mut h, A, 1, vec![1], vec![2], 3), Err(Error::NoPermission));
    assert_eq!(p.set_metadata(&mut h, ADMIN, 1, vec![0; 9], vec![2], 3), Err(Error::BadMetadata));
    assert_eq!(p.set_metadata(&mut h, ADMIN, 2, vec![1], vec![2], 3), Err(Error::Unknown));
    p.set_metadata(&mut h, ADMIN, 1, vec![1, 2], vec![3], 6).unwrap();
    assert_eq!(p.metadata(1).unwrap().deposit, 7);
    assert_eq!(h.reserved_of(ADMIN), 7);
    p.set_metadata(&mut h, ADMIN, 1, vec![1], vec![], 6).unwrap();
    assert_eq!(p.metadata(1).unwrap().deposit, 3);
    assert_eq!(h.reserved_of(ADMIN), 3);
    p.force_set_metadata(1, vec![9], vec![8], 2, true).unwrap();
    let m = p.metadata(1).unwrap();
    assert_eq!((m.deposit, m.name.clone(), m.symbol.clone(), m.decimals, m.is_frozen), (3, vec![9], vec![8], 2, true));
    assert_eq!(p.set_metadata(&mut h, ADMIN, 1, vec![1], vec![], 6), Err(Error::NoPermission));
    p.clear_metadata(&mut h, ADMIN, 1).unwrap();
    assert_eq!(h.reserved_of(ADMIN), 0);
    assert_eq!(p.clear_metadata(&mut h, ADMIN, 1), Err(Error::Unknown));
    assert_eq!(p.force_clear_metadata(&mut h, 1), Err(Error::Unknown));
}

#[test]
fn ownership_moves_bonds_and_team_changes() {
    let mut p = Pallet::new(params());
    let mut h = Host::new();
    p.create(&mut h, A, 1, ADMIN, 1).unwrap();
    p.set_metadata(&mut h, A, 1, vec![1], vec![2], 0).unwrap();
    assert_eq!(p.transfer_ownership(&mut h, B, 1, C), Err(Error::NoPermission));
    p.transfer_ownership(&mut h, A, 1, B).unwrap();
    assert_eq!(details(&p, 1).owner, B);
    assert_eq!(h.reserved_of(A), 0);
    assert_eq!(h.reserved_of(B), 105);
    assert_eq!(p.set_team(A, 1, A, A, A), Err(Error::NoPermission));
    p.set_team(B, 1, C, C, A).unwrap();
    let d = details(&p, 1);
    assert_eq!((d.issuer, d.admin, d.freezer), (C, C, A));
}

#[test]
fn force_asset_status_overwrites_fields() {
    let (mut p, _h) = ledger_with_asset(1, true);
    assert_eq!(p.force_asset_status(2, A, A, A, A, 3, false, true), Err(Error::Unknown));
    p.force_asset_status(1, A, B, C, ADMIN, 3, false, true).unwrap();
    let d = details(&p, 1);
    assert_eq!((d.owner, d.issuer, d.admin, d.freezer, d.min_balance, d.is_sufficient, d.is_frozen), (A, B, C, ADMIN, 3, false, true));
    assert_eq!(p.minimum_balance(1), 3);
    assert_eq!(p.events().last(), Some(&Event::AssetStatusChanged(1)));
}

#[test]
fn extra_mutator_commits_and_reverts() {
    let (mut p, mut h) = ledger_with_asset(1, true);
    assert!(p.adjust_extra(1, A).is_none());
    p.mint(&mut h, ADMIN, 1, A, 10).unwrap();
    let mut m = p.adjust_extra(1, A).unwrap();
    assert_eq!(m.read(), 0);
    m.write(7);
    assert_eq!(m.read(), 7);
    assert_eq!(p.get((1, A)), 0);
    m.commit(&mut p).unwrap();
    assert_eq!(p.get((1, A)), 7);
    m.write(9);
    m.revert(&mut p).unwrap();
    assert_eq!(p.get((1, A)), 0);
    let mut gone = p.adjust_extra(1, A).unwrap();
    gone.write(3);
    p.transfer(&mut h, A, 1, B, 10).unwrap();
    assert_eq!(gone.commit(&mut p), Err(()));
}

#[test]
fn stored_map_writes_only_existing_records() {
    let (mut p, mut h) = ledger_with_asset(1, true);
    assert_eq!(p.try_mutate_exists(1, A, Some(4)), Err(Error::NoProviders));
    assert_eq!(p.try_mutate_exists(1, A, None), Ok(()));
    p.mint(&mut h, ADMIN, 1, A, 10).unwrap();
    assert_eq!(p.try_mutate_exists(1, A, None), Err(Error::ConsumerRemaining));
    p.try_mutate_exists(1, A, Some(4)).unwrap();
    assert_eq!(p.get((1, A)), 4);
}

#[test]
fn conversion_scales_by_minimum_balances() {
    let (mut p, _h) = ledger_with_asset(10, true);
    assert_eq!(BalanceToAssetBalance::to_asset_balance(&p, 7, 1, 5), Ok(14));
    assert_eq!(BalanceToAssetBalance::to_asset_balance(&p, 7, 1, 0), Err(ConversionError::MinBalanceZero));
    assert_eq!(BalanceToAssetBalance::to_asset_balance(&p, 7, 2, 5), Err(ConversionError::AssetMissing));
    p.force_create(2, ADMIN, false, 1).unwrap();
    assert_eq!(BalanceToAssetBalance::to_asset_balance(&p, 7, 2, 5), Err(ConversionError::AssetNotSufficient));
    p.force_create(3, ADMIN, true, 1).unwrap();
    assert_eq!(BalanceToAssetBalance::to_asset_balance(&p, 10, 3, 3), Ok(3));
    assert_eq!(BalanceToAssetBalance::to_asset_balance(&p, u128::MAX, 1, 1), Ok(u128::MAX));
}

#[test]
fn unbalanced_changes_leave_supply() {
    let (mut p, mut h) = ledger_with_asset(1, true);
    assert_eq!(p.increase_balance_at_most(&mut h, 1, A, 40), 40);
    assert_eq!(p.total_supply(1), 0);
    assert_eq!(p.increase_balance_at_most(&mut h, 2, A, 40), 0);
    assert_eq!(p.decrease_balance_at_most(&mut h, 1, A, 100), 0);
    p.set_total_issuance(1, 40);
    assert_eq!(p.total_supply(1), 40);
    assert_eq!(p.decrease_balance_at_most(&mut h, 1, A, 100), 40);
    assert!(!p.contains_account(1, A));
    assert_eq!(p.total_supply(1), 40);
}

#[test]
fn counter_helpers() {
    let d = AssetDetails {
        owner: A, issuer: A, admin: A, freezer: A, supply: 0, deposit: 0, min_balance: 1,
        is_sufficient: true, accounts: 0, sufficients: 0, approvals: 0, is_frozen: false,
    };
    assert_eq!(d.destroy_witness(), DestroyWitness { accounts: 0, sufficients: 0, approvals: 0 });
    let f = DebitFlags::from(TransferFlags { keep_alive: true, best_effort: false, burn_dust: true });
    assert_eq!(f, DebitFlags { keep_alive: true, best_effort: false });
}

#[test]
fn zero_approval_stores_no_record() {
    let (mut p, mut h) = ledger_with_asset(1, true);
    p.approve_transfer(&mut h, A, 1, B, 0).unwrap();
    assert!(p.approval(1, A, B).is_none());
    assert_eq!(details(&p, 1).approvals, 0);
    assert_eq!(h.reserved_of(A), 0);
    assert_eq!(p.events().last(), Some(&Event::ApprovedTransfer(1, A, B, 0)));
}

#[test]
fn best_effort_burn_of_non_holder_keeps_counters() {
    let (mut p, mut h) = ledger_with_asset(1, true);
    p.mint(&mut h, ADMIN, 1, A, 10).unwrap();
    p.burn(&mut h, ADMIN, 1, B, 5).unwrap();
    assert_eq!(p.events().last(), Some(&Event::Burned(1, B, 0)));
    assert_eq!(details(&p, 1).accounts, 1);
    assert_eq!(details(&p, 1).sufficients, 1);
    assert!(h.died.is_empty());
    assert_eq!(p.decrease_balance_at_most(&mut h, 1, C, 5), 0);
    assert_eq!(details(&p, 1).accounts, 1);
}

#[test]
fn ownership_deposit_counts_metadata() {
    let mut p = Pallet::new(params());
    let mut h = Host::new();
    p.create(&mut h, A, 1, ADMIN, 1).unwrap();
    assert_eq!(p.ownership_deposit(1), 100);
    p.set_metadata(&mut h, A, 1, vec![1, 2], vec![3], 0).unwrap();
    assert_eq!(p.ownership_deposit(1), 107);
}
