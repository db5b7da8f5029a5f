//! Minting, burning and transferring balances, and the lifecycle of the
//! accounts they create and remove.
use vstd::prelude::*;

use crate::evaluate::sat_sub;
use crate::host::Config;
use crate::store::Pallet;
use crate::types::{HostCall, AccountId, AssetBalance, AssetDetails, AssetId, Balance, DebitFlags, Error, Event, TransferFlags};

verus! {

/// The counters after an account joined the asset.
pub open spec fn joined(d: AssetDetails) -> AssetDetails {
    AssetDetails {
        accounts: (d.accounts + 1) as u32,
        sufficients: if d.is_sufficient { (d.sufficients + 1) as u32 } else { d.sufficients },
        ..d
    }
}

/// The counters after an account left the asset.
pub open spec fn left(d: AssetDetails, sufficient: bool) -> AssetDetails {
    AssetDetails {
        accounts: if d.accounts > 0 { (d.accounts - 1) as u32 } else { 0 },
        sufficients: if sufficient && d.sufficients > 0 { (d.sufficients - 1) as u32 } else { d.sufficients },
        ..d
    }
}

/// A record after `amount` was credited to it; an empty one joins the asset.
pub open spec fn credited(rec: AssetBalance, amount: Balance, d: AssetDetails) -> AssetBalance {
    AssetBalance {
        balance: (rec.balance + amount) as Balance,
        sufficient: if rec.balance == 0 { d.is_sufficient } else { rec.sufficient },
        ..rec
    }
}

/// The asset's counters after `rec` was credited.
pub open spec fn credited_details(d: AssetDetails, rec: AssetBalance) -> AssetDetails {
    if rec.balance == 0 { joined(d) } else { d }
}

/// What the collaborators are asked when `who` joins an asset.
pub open spec fn join_calls(who: AccountId, sufficient: bool) -> Seq<HostCall> {
    if sufficient { seq![HostCall::IncSufficients(who)] } else { seq![HostCall::IncConsumers(who)] }
}

/// What the collaborators are asked when `who` leaves asset `what`.
pub open spec fn leave_calls(what: AssetId, who: AccountId, sufficient: bool) -> Seq<HostCall> {
    seq![if sufficient { HostCall::DecSufficients(who) } else { HostCall::DecConsumers(who) }, HostCall::Died(what, who)]
}

/// Registers `who` as a new holder: a self-sufficient reference for a sufficient
/// asset, otherwise a consumer reference, which needs a provider.
pub(crate) fn new_account<H: Config>(host: &mut H, who: AccountId, d: &mut AssetDetails, log: &mut Ghost<Seq<HostCall>>) -> (r: Result<bool, Error>)
    requires
        old(d).is_sufficient ==> old(d).sufficients < u32::MAX,
    ensures
        r is Ok ==> final(log)@ == old(log)@ + join_calls(who, old(d).is_sufficient),
        r is Err ==> *final(log) == *old(log),
        match r {
            Ok(s) => s == old(d).is_sufficient && old(d).accounts < u32::MAX && *final(d) == joined(*old(d)),
            Err(e) => *final(d) == *old(d) && (
                (e == Error::Overflow && old(d).accounts == u32::MAX)
                || (e == Error::NoProvider && !old(d).is_sufficient && old(d).accounts < u32::MAX)),
        },
{
    if d.accounts == u32::MAX {
        return Err(Error::Overflow);
    }
    let is_sufficient = if d.is_sufficient {
        host.inc_sufficients(who);
        proof { log@ = log@.push(HostCall::IncSufficients(who)); }
        d.sufficients = d.sufficients + 1;
        true
    } else {
        match host.inc_consumers(who) {
            Ok(()) => {},
            Err(_) => return Err(Error::NoProvider),
        }
        proof { log@ = log@.push(HostCall::IncConsumers(who)); }
        false
    };
    d.accounts = d.accounts + 1;
    proof { assert(log@ =~= old(log)@ + join_calls(who, old(d).is_sufficient)); }
    Ok(is_sufficient)
}

/// Unregisters `who` as a holder of `what` and releases its reference.
pub(crate) fn dead_account<H: Config>(host: &mut H, what: AssetId, who: AccountId, d: &mut AssetDetails, sufficient: bool, log: &mut Ghost<Seq<HostCall>>)
    ensures
        *final(d) == left(*old(d), sufficient),
        final(log)@ == old(log)@ + leave_calls(what, who, sufficient),
{
    if sufficient {
        d.sufficients = d.sufficients.saturating_sub(1);
        host.dec_sufficients(who);
        proof { log@ = log@.push(HostCall::DecSufficients(who)); }
    } else {
        host.dec_consumers(who);
        proof { log@ = log@.push(HostCall::DecConsumers(who)); }
    }
    d.accounts = d.accounts.saturating_sub(1);
    host.died(what, who);
    proof { log@ = log@.push(HostCall::Died(what, who)); }
    proof { assert(log@ =~= old(log)@ + leave_calls(what, who, sufficient)); }
}

impl Pallet {
    /// Whether crediting `amount` to `who` passes every check before the
    /// reference count is asked, given `providers`.
    pub open spec fn increase_verdict(
        &self,
        id: AssetId,
        who: AccountId,
        amount: Balance,
        providers: u32,
        check_issuer: Option<AccountId>,
    ) -> Result<(), Error> {
        match self.deposit_verdict(id, who, amount, providers).to_result() {
            Err(e) => Err(e),
            Ok(_) => {
                let d = self.asset_map()[id];
                let rec = self.record_of(id, who);
                if check_issuer is Some && check_issuer->Some_0 != d.issuer {
                    Err(Error::NoPermission)
                } else if rec.balance + amount < d.min_balance {
                    Err(Error::BelowMinimum)
                } else if rec.balance == 0 && d.accounts == u32::MAX {
                    Err(Error::Overflow)
                } else {
                    Ok(())
                }
            },
        }
    }

    /// `e` is an error that a credit of `amount` to `who` may end in: the one the
    /// checks give for some count of providers, or a refused reference for an
    /// account that has none after the checks passed.
    pub open spec fn increase_refusal(&self, id: AssetId, who: AccountId, amount: Balance, check_issuer: Option<AccountId>, e: Error) -> bool {
        ||| exists|p: u32| #[trigger] self.increase_verdict(id, who, amount, p, check_issuer) == Err::<(), Error>(e)
        ||| (e == Error::NoProvider && self.increase_verdict(id, who, amount, 1, check_issuer) is Ok
            && self.asset_map().contains_key(id) && self.record_of(id, who).balance == 0
            && !self.asset_map()[id].is_sufficient)
    }

    /// Adds `amount` to `who`'s balance of `id`, registering the account if it
    /// held nothing. With `check_issuer` the caller must be the issuer; with
    /// `raise_supply` the supply grows by the same amount.
    pub fn increase_balance<H: Config>(
        &mut self,
        host: &mut H,
        id: AssetId,
        who: AccountId,
        amount: Balance,
        providers: u32,
        check_issuer: Option<AccountId>,
        raise_supply: bool,
    ) -> (r: Result<(), Error>)
        requires
            old(self).wf(),
        ensures
            final(self).wf(),
            amount == 0 ==> r is Ok && *final(self) == *old(self),
            r is Err ==> *final(self) == *old(self),
            amount > 0 ==> match r {
                Ok(_) => {
                    let d = old(self).asset_map()[id];
                    let rec = old(self).record_of(id, who);
                    let d2 = credited_details(d, rec);
                    &&& old(self).increase_verdict(id, who, amount, providers, check_issuer) == Ok::<(), Error>(())
                    &&& final(self).asset_map() == old(self).asset_map().insert(id,
                        if raise_supply { AssetDetails { supply: (d.supply + amount) as Balance, ..d2 } } else { d2 })
                    &&& final(self).account_map() == old(self).account_map().insert((id, who), credited(rec, amount, d))
                    &&& final(self).approval_map() == old(self).approval_map()
                    &&& final(self).metadata_map() == old(self).metadata_map()
                    &&& final(self).event_log() == old(self).event_log()
                    &&& final(self).parameters() == old(self).parameters()
                    &&& final(self).host_calls() == old(self).host_calls() + old(self).credit_calls(id, who)
                },
                Err(e) => old(self).increase_verdict(id, who, amount, providers, check_issuer) == Err::<(), Error>(e)
                    || (e == Error::NoProvider && old(self).record_of(id, who).balance == 0
                        && !old(self).asset_map()[id].is_sufficient
                        && old(self).increase_verdict(id, who, amount, providers, check_issuer) is Ok),
            },
            amount > 0 && old(self).increase_verdict(id, who, amount, providers, check_issuer) is Ok
                && (old(self).asset_map()[id].is_sufficient || old(self).record_of(id, who).balance > 0) ==> r is Ok,
            raise_supply && old(self).supply_conserved() ==> final(self).supply_conserved(),
            old(self).counters_match() && old(self).balances_positive()
                ==> final(self).counters_match() && final(self).balances_positive(),
            old(self).above_minimum() ==> final(self).above_minimum(),
    {
        if amount == 0 {
            return Ok(());
        }
        self.can_increase(id, who, amount, providers).into_result()?;
        let mut details = match self.asset(id) {
            Some(d) => d,
            None => return Err(Error::Unknown),
        };
        if let Some(issuer) = check_issuer {
            if issuer != details.issuer {
                return Err(Error::NoPermission);
            }
        }
        if raise_supply {
            details.supply = details.supply + amount;
        }
        let mut account = self.balance_of(id, who);
        let new_balance = account.balance + amount;
        if new_balance < details.min_balance {
            return Err(Error::BelowMinimum);
        }
        if account.balance == 0 {
            account.sufficient = new_account(host, who, &mut details, &mut self.calls)?;
        }
        account.balance = new_balance;
        let ghost old_self = *self;
        proof { Pallet::lemma_same_tables(&old_self, old(self)); }
        self.set_asset(id, details);
        self.put_account(id, who, account);
        proof {
            assert(self.asset_map()[id] == details);
            assert forall|k: (AssetId, AccountId)| #[trigger] self.account_map().contains_key(k)
                implies self.asset_map().contains_key(k.0) by {
                if k != (id, who) {
                    assert(old_self.account_map().contains_key(k));
                }
            }
            assert forall|k: (AssetId, AccountId, AccountId)| #[trigger] self.approval_map().contains_key(k)
                implies self.asset_map().contains_key(k.0) by {
                assert(old_self.approval_map().contains_key(k));
            }
            assert forall|x: AssetId| #[trigger] self.metadata_map().contains_key(x)
                implies self.asset_map().contains_key(x) by {
                assert(old_self.metadata_map().contains_key(x));
            }
            if old_self.above_minimum() {
                assert forall|k: (AssetId, AccountId)| #[trigger] self.account_map().contains_key(k)
                    implies self.account_map()[k].balance >= self.asset_map()[k.0].min_balance by {
                    if k != (id, who) {
                        assert(old_self.account_map().contains_key(k));
                    }
                }
            }
            if old_self.balances_positive() {
                assert(old_self.account_map().contains_key((id, who)) ==> old_self.record_of(id, who).balance > 0);
                assert forall|k: (AssetId, AccountId)| #[trigger] self.account_map().contains_key(k)
                    implies self.account_map()[k].balance > 0 by {
                    if k != (id, who) {
                        assert(old_self.account_map().contains_key(k));
                    }
                }
            }
        }
        Ok(())
    }
    /// What the collaborators are asked when `who` is credited in asset `id`.
    pub open spec fn credit_calls(&self, id: AssetId, who: AccountId) -> Seq<HostCall> {
        if self.record_of(id, who).balance == 0 { join_calls(who, self.asset_map()[id].is_sufficient) } else { Seq::empty() }
    }

    /// What the collaborators are asked when `actual` is debited from `target`.
    pub open spec fn debit_calls(&self, id: AssetId, target: AccountId, actual: Balance) -> Seq<HostCall> {
        let rec = self.record_of(id, target);
        if sat_sub(rec.balance, actual) < self.asset_map()[id].min_balance && self.account_map().contains_key((id, target)) {
            leave_calls(id, target, rec.sufficient)
        } else {
            Seq::empty()
        }
    }

    /// The asset's details and the target's balance map after a debit of `actual`.
    pub open spec fn debited_asset(&self, id: AssetId, target: AccountId, actual: Balance, lower_supply: bool) -> AssetDetails {
        let d = self.asset_map()[id];
        let rec = self.record_of(id, target);
        let d1 = if lower_supply { AssetDetails { supply: sat_sub(d.supply, actual), ..d } } else { d };
        if sat_sub(rec.balance, actual) < d.min_balance && self.account_map().contains_key((id, target)) { left(d1, rec.sufficient) } else { d1 }
    }

    pub open spec fn debited_accounts(&self, id: AssetId, target: AccountId, actual: Balance) -> Map<(AssetId, AccountId), AssetBalance> {
        let d = self.asset_map()[id];
        let rec = self.record_of(id, target);
        if sat_sub(rec.balance, actual) < d.min_balance {
            self.account_map().remove((id, target))
        } else {
            self.account_map().insert((id, target), AssetBalance { balance: sat_sub(rec.balance, actual), ..rec })
        }
    }

    /// Takes up to `amount` from `target`'s balance of `id`, as `f` and the
    /// externally `frozen` funds allow, and removes the account if it falls
    /// below the minimum balance. With `check_admin` the caller must be the
    /// admin; with `lower_supply` the supply shrinks by what was taken. Returns
    /// what was taken, the swept dust included.
    pub fn decrease_balance<H: Config>(
        &mut self,
        host: &mut H,
        id: AssetId,
        target: AccountId,
        amount: Balance,
        f: DebitFlags,
        frozen: Option<Balance>,
        check_admin: Option<AccountId>,
        lower_supply: bool,
    ) -> (r: Result<Balance, Error>)
        requires
            old(self).wf(),
        ensures
            final(self).wf(),
            amount == 0 ==> r == Ok::<Balance, Error>(0) && *final(self) == *old(self),
            r is Err ==> *final(self) == *old(self),
            amount > 0 ==> match r {
                Ok(actual) => {
                    &&& old(self).debit_spec(id, target, amount, f, frozen) == Ok::<Balance, Error>(actual)
                    &&& (check_admin is Some ==> check_admin->Some_0 == old(self).asset_map()[id].admin)
                    &&& final(self).asset_map() == old(self).asset_map().insert(id, old(self).debited_asset(id, target, actual, lower_supply))
                    &&& final(self).account_map() == old(self).debited_accounts(id, target, actual)
                    &&& final(self).approval_map() == old(self).approval_map()
                    &&& final(self).metadata_map() == old(self).metadata_map()
                    &&& final(self).event_log() == old(self).event_log()
                    &&& final(self).parameters() == old(self).parameters()
                    &&& final(self).host_calls() == old(self).host_calls() + old(self).debit_calls(id, target, actual)
                },
                Err(e) => old(self).debit_spec(id, target, amount, f, frozen) == Err::<Balance, Error>(e)
                    || (e == Error::NoPermission && old(self).debit_spec(id, target, amount, f, frozen) is Ok
                        && check_admin is Some && check_admin->Some_0 != old(self).asset_map()[id].admin),
            },
            amount > 0 && old(self).debit_spec(id, target, amount, f, frozen) is Ok
                && (check_admin is Some ==> check_admin->Some_0 == old(self).asset_map()[id].admin) ==> r is Ok,
            lower_supply && old(self).supply_conserved() ==> final(self).supply_conserved(),
            old(self).counters_match() && old(self).balances_positive()
                ==> final(self).counters_match() && final(self).balances_positive(),
            old(self).above_minimum() ==> final(self).above_minimum(),
    {
        if amount == 0 {
            return Ok(0);
        }
        let actual = self.prep_debit(id, target, amount, f, frozen)?;
        proof { self.lemma_debit_bounds(id, target, amount, f, frozen); }
        let mut details = match self.asset(id) {
            Some(d) => d,
            None => return Err(Error::Unknown),
        };
        if let Some(admin) = check_admin {
            if admin != details.admin {
                return Err(Error::NoPermission);
            }
        }
        if lower_supply {
            details.supply = details.supply.saturating_sub(actual);
        }
        let mut account = self.balance_of(id, target);
        account.balance = account.balance.saturating_sub(actual);
        let ghost old_self = *self;
        proof {
            if old_self.supply_conserved() {
                old_self.lemma_record_le_total(id, target);
            }
            if old_self.account_map().contains_key((id, target)) {
                old_self.lemma_record_counted(id, target);
            }
        }
        if account.balance < details.min_balance {
            if self.contains_account(id, target) {
                dead_account(host, id, target, &mut details, account.sufficient, &mut self.calls);
                self.remove_account(id, target);
            } else {
                proof { assert(self.account_map().remove((id, target)) =~= self.account_map()); }
            }
            proof {
                assert(self.balance_total(id) == old_self.balance_total(id) - actual);
                assert forall|a: AssetId| a != id implies {
                    &&& #[trigger] self.balance_total(a) == old_self.balance_total(a)
                    &&& self.holder_count(a) == old_self.holder_count(a)
                    &&& self.sufficient_count(a) == old_self.sufficient_count(a)
                } by {}
                if old_self.account_map().contains_key((id, target)) {
                    assert(self.holder_count(id) == old_self.holder_count(id) - 1);
                    assert(self.sufficient_count(id) == old_self.sufficient_count(id) - if account.sufficient { 1int } else { 0 });
                }
            }
        } else {
            self.put_account(id, target, account);
            proof {
                assert(self.balance_total(id) == old_self.balance_total(id) - actual);
                assert forall|a: AssetId| a != id implies {
                    &&& #[trigger] self.balance_total(a) == old_self.balance_total(a)
                    &&& self.holder_count(a) == old_self.holder_count(a)
                    &&& self.sufficient_count(a) == old_self.sufficient_count(a)
                } by {}
            }
        }
        let ghost mid = *self;
        self.set_asset(id, details);
        proof {
            assert(self.asset_map()[id] == details);
            assert forall|k: (AssetId, AccountId)| #[trigger] self.account_map().contains_key(k)
                implies self.asset_map().contains_key(k.0) by {
                if k != (id, target) {
                    assert(old_self.account_map().contains_key(k));
                }
            }
            assert forall|k: (AssetId, AccountId, AccountId)| #[trigger] self.approval_map().contains_key(k)
                implies self.asset_map().contains_key(k.0) by {
                assert(old_self.approval_map().contains_key(k));
            }
            assert forall|x: AssetId| #[trigger] self.metadata_map().contains_key(x)
                implies self.asset_map().contains_key(x) by {
                assert(old_self.metadata_map().contains_key(x));
            }
            if old_self.above_minimum() {
                assert forall|k: (AssetId, AccountId)| #[trigger] self.account_map().contains_key(k)
                    implies self.account_map()[k].balance >= self.asset_map()[k.0].min_balance by {
                    if k != (id, target) {
                        assert(old_self.account_map().contains_key(k));
                    }
                }
            }
            if old_self.balances_positive() {
                assert forall|k: (AssetId, AccountId)| #[trigger] self.account_map().contains_key(k)
                    implies self.account_map()[k].balance > 0 by {
                    if k != (id, target) {
                        assert(old_self.account_map().contains_key(k));
                    }
                }
            }
            if lower_supply && old_self.supply_conserved() {
                assert(old_self.asset_map().contains_key(id));
                assert(old_self.asset_map()[id].supply == old_self.balance_total(id));
                assert(actual <= old_self.asset_map()[id].supply);
                assert(self.asset_map()[id].supply == old_self.asset_map()[id].supply - actual);
                assert(self.balance_total(id) == old_self.balance_total(id) - actual);
                assert forall|a: AssetId| #[trigger] self.asset_map().contains_key(a)
                    implies self.asset_map()[a].supply == self.balance_total(a) by {
                    if a != id {
                        assert(old_self.asset_map().contains_key(a));
                        assert(mid.balance_total(a) == old_self.balance_total(a));
                    }
                }
            }
            if old_self.counters_match() && old_self.balances_positive()
                {
                assert(old_self.asset_map().contains_key(id));
                assert forall|a: AssetId| #[trigger] self.asset_map().contains_key(a) implies {
                    &&& self.asset_map()[a].accounts == self.holder_count(a)
                    &&& self.asset_map()[a].sufficients == self.sufficient_count(a)
                    &&& self.asset_map()[a].approvals == self.approval_count(a)
                } by {
                    assert(old_self.asset_map().contains_key(a));
                    assert(mid.holder_count(a) == self.holder_count(a));
                    assert(mid.sufficient_count(a) == self.sufficient_count(a));
                    assert(mid.approval_count(a) == old_self.approval_count(a));
                }
            }
        }
        Ok(actual)
    }

    /// Mints `amount` of `id` to `beneficiary`; with `maybe_check_issuer` the
    /// caller must be the issuer. Emits `Issued`, also for a zero amount.
    pub fn do_mint<H: Config>(
        &mut self,
        host: &mut H,
        id: AssetId,
        beneficiary: AccountId,
        amount: Balance,
        maybe_check_issuer: Option<AccountId>,
    ) -> (r: Result<(), Error>)
        requires
            old(self).wf(),
        ensures
            final(self).wf(),
            amount == 0 ==> r is Ok && final(self).same_tables(old(self)),
            match r {
                Ok(_) => {
                    let d = old(self).asset_map()[id];
                    let rec = old(self).record_of(id, beneficiary);
                    &&& final(self).event_log() == old(self).event_log().push(Event::Issued(id, beneficiary, amount))
                    &&& amount > 0 ==> {
                        &&& old(self).increase_verdict(id, beneficiary, amount, 1, maybe_check_issuer) is Ok
                        &&& final(self).asset_map() == old(self).asset_map().insert(id,
                            AssetDetails { supply: (d.supply + amount) as Balance, ..credited_details(d, rec) })
                        &&& final(self).account_map() == old(self).account_map().insert((id, beneficiary), credited(rec, amount, d))
                        &&& final(self).approval_map() == old(self).approval_map()
                        &&& final(self).metadata_map() == old(self).metadata_map()
                        &&& final(self).parameters() == old(self).parameters()
                        &&& final(self).host_calls() == old(self).host_calls() + old(self).credit_calls(id, beneficiary)
                    }
                },
                Err(e) => *final(self) == *old(self) && old(self).increase_refusal(id, beneficiary, amount, maybe_check_issuer, e),
            },
            amount > 0 && old(self).increase_verdict(id, beneficiary, amount, 1, maybe_check_issuer) is Ok
                && (old(self).asset_map()[id].is_sufficient || old(self).record_of(id, beneficiary).balance > 0) ==> r is Ok,
            old(self).sound() ==> final(self).sound(),
    {
        let providers = host.providers(beneficiary);
        self.increase_balance(host, id, beneficiary, amount, providers, maybe_check_issuer, true)?;
        self.deposit_event(Event::Issued(id, beneficiary, amount));
        Ok(())
    }

    /// `e` is an error that a debit of `amount` from `target` may end in,
    /// whatever the oracle locks.
    pub open spec fn decrease_refusal(&self, id: AssetId, target: AccountId, amount: Balance, f: DebitFlags, check_admin: Option<AccountId>, e: Error) -> bool {
        ||| exists|fz: Option<Balance>| self.debit_spec(id, target, amount, f, fz) == Err::<Balance, Error>(e)
        ||| (e == Error::NoPermission && self.asset_map().contains_key(id) && check_admin is Some && check_admin->Some_0 != self.asset_map()[id].admin)
    }

    /// Burns up to `amount` of `target`'s balance of `id`, lowering the supply;
    /// with `maybe_check_admin` the caller must be the admin. Emits `Burned`
    /// with what was actually burned, also for a zero amount.
    pub fn do_burn<H: Config>(
        &mut self,
        host: &mut H,
        id: AssetId,
        target: AccountId,
        amount: Balance,
        maybe_check_admin: Option<AccountId>,
        f: DebitFlags,
    ) -> (r: Result<Balance, Error>)
        requires
            old(self).wf(),
        ensures
            final(self).wf(),
            amount == 0 ==> r == Ok::<Balance, Error>(0) && final(self).same_tables(old(self)),
            match r {
                Ok(actual) => {
                    &&& final(self).event_log() == old(self).event_log().push(Event::Burned(id, target, actual))
                    &&& amount > 0 ==> {
                        &&& exists|fz: Option<Balance>| old(self).debit_spec(id, target, amount, f, fz) == Ok::<Balance, Error>(actual)
                        &&& (maybe_check_admin is Some ==> maybe_check_admin->Some_0 == old(self).asset_map()[id].admin)
                        &&& final(self).asset_map() == old(self).asset_map().insert(id, old(self).debited_asset(id, target, actual, true))
                        &&& final(self).account_map() == old(self).debited_accounts(id, target, actual)
                        &&& final(self).approval_map() == old(self).approval_map()
                        &&& final(self).metadata_map() == old(self).metadata_map()
                        &&& final(self).parameters() == old(self).parameters()
                        &&& final(self).host_calls() == old(self).host_calls() + old(self).debit_calls(id, target, actual)
                    }
                },
                Err(e) => *final(self) == *old(self) && amount > 0 && old(self).decrease_refusal(id, target, amount, f, maybe_check_admin, e),
            },
            old(self).sound() ==> final(self).sound(),
            old(self).supply_conserved() ==> final(self).supply_conserved(),
    {
        let frozen = host.frozen_balance(id, target);
        let actual = self.decrease_balance(host, id, target, amount, f, frozen, maybe_check_admin, true)?;
        self.deposit_event(Event::Burned(id, target, actual));
        Ok(actual)
    }
    /// What a transfer debits from `source`, credits to `dest` and burns as dust,
    /// or the first check that refuses it, given the oracle's `frozen` funds on
    /// the source and the `providers` of the destination.
    pub open spec fn transfer_verdict(
        &self,
        id: AssetId,
        source: AccountId,
        dest: AccountId,
        amount: Balance,
        need_admin: Option<AccountId>,
        f: TransferFlags,
        frozen: Option<Balance>,
        providers: u32,
    ) -> Result<(Balance, Balance, Option<Balance>), Error> {
        match self.debit_spec(id, source, amount, DebitFlags { keep_alive: f.keep_alive, best_effort: f.best_effort }, frozen) {
            Err(e) => Err(e),
            Ok(debit) => match self.credit_spec(id, dest, amount, debit, f.burn_dust, providers) {
                Err(e) => Err(e),
                Ok((credit, burn)) => {
                    let d = self.asset_map()[id];
                    if need_admin is Some && need_admin->Some_0 != d.admin {
                        Err(Error::NoPermission)
                    } else if source != dest && self.record_of(id, dest).balance == 0 && d.accounts == u32::MAX {
                        Err(Error::Overflow)
                    } else {
                        Ok((debit, credit, burn))
                    }
                },
            },
        }
    }

    /// The asset's details after a transfer between two distinct accounts.
    pub open spec fn transferred_asset(&self, id: AssetId, source: AccountId, dest: AccountId, debit: Balance, burn: Option<Balance>) -> AssetDetails {
        let d = self.asset_map()[id];
        let d1 = match burn {
            Some(b) => AssetDetails { supply: sat_sub(d.supply, b), ..d },
            None => d,
        };
        let d2 = credited_details(d1, self.record_of(id, dest));
        let src = self.record_of(id, source);
        if sat_sub(src.balance, debit) < d.min_balance && self.account_map().contains_key((id, source)) { left(d2, src.sufficient) } else { d2 }
    }

    /// The balance records after a transfer between two distinct accounts.
    pub open spec fn transferred_accounts(&self, id: AssetId, source: AccountId, dest: AccountId, debit: Balance, credit: Balance) -> Map<(AssetId, AccountId), AssetBalance> {
        let d = self.asset_map()[id];
        let src = self.record_of(id, source);
        let m = self.account_map().insert((id, dest), credited(self.record_of(id, dest), credit, d));
        if sat_sub(src.balance, debit) < d.min_balance {
            m.remove((id, source))
        } else {
            m.insert((id, source), AssetBalance { balance: sat_sub(src.balance, debit), ..src })
        }
    }

    /// Moves `amount` of `id` from `source` to `dest` as `f` allows, given the
    /// oracle's `frozen` funds on the source and the `providers` of the
    /// destination; with `maybe_need_admin` the caller must be the admin.
    /// Returns what `dest` was credited and emits `Transferred` with it, also
    /// for a zero amount.
    #[verifier::rlimit(100)]
    #[verifier::spinoff_prover]
    pub fn do_transfer<H: Config>(
        &mut self,
        host: &mut H,
        id: AssetId,
        source: AccountId,
        dest: AccountId,
        amount: Balance,
        maybe_need_admin: Option<AccountId>,
        f: TransferFlags,
        frozen: Option<Balance>,
        providers: u32,
    ) -> (r: Result<Balance, Error>)
        requires
            old(self).wf(),
        ensures
            final(self).wf(),
            amount == 0 ==> r == Ok::<Balance, Error>(0) && final(self).same_tables(old(self)),
            r is Err ==> *final(self) == *old(self),
            match r {
                Ok(credit) => final(self).event_log() == old(self).event_log().push(Event::Transferred(id, source, dest, credit)),
                Err(_) => true,
            },
            amount > 0 ==> match r {
                Ok(credit) => {
                    let v = old(self).transfer_verdict(id, source, dest, amount, maybe_need_admin, f, frozen, providers);
                    &&& v is Ok
                    &&& v->Ok_0.1 == credit
                    &&& source == dest ==> final(self).same_tables(old(self))
                    &&& source != dest ==> {
                        &&& final(self).asset_map() == old(self).asset_map().insert(id,
                            old(self).transferred_asset(id, source, dest, v->Ok_0.0, v->Ok_0.2))
                        &&& final(self).account_map() == old(self).transferred_accounts(id, source, dest, v->Ok_0.0, credit)
                        &&& final(self).host_calls() == old(self).host_calls() + old(self).credit_calls(id, dest)
                            + old(self).debit_calls(id, source, v->Ok_0.0)
                        &&& final(self).approval_map() == old(self).approval_map()
                        &&& final(self).metadata_map() == old(self).metadata_map()
                        &&& final(self).parameters() == old(self).parameters()
                    }
                },
                Err(e) => old(self).transfer_verdict(id, source, dest, amount, maybe_need_admin, f, frozen, providers) == Err::<(Balance, Balance, Option<Balance>), Error>(e)
                    || (e == Error::NoProvider && source != dest && old(self).record_of(id, dest).balance == 0
                        && !old(self).asset_map()[id].is_sufficient
                        && old(self).transfer_verdict(id, source, dest, amount, maybe_need_admin, f, frozen, providers) is Ok),
            },
            amount > 0 && old(self).transfer_verdict(id, source, dest, amount, maybe_need_admin, f, frozen, providers) is Ok
                && (source == dest || old(self).asset_map()[id].is_sufficient || old(self).record_of(id, dest).balance > 0) ==> r is Ok,
            old(self).supply_conserved() ==> final(self).supply_conserved(),
            old(self).counters_match() && old(self).balances_positive()
                ==> final(self).counters_match() && final(self).balances_positive(),
            old(self).above_minimum() ==> final(self).above_minimum(),
    {
        if amount == 0 {
            self.deposit_event(Event::Transferred(id, source, dest, amount));
            return Ok(amount);
        }
        let flags = DebitFlags::from(f);
        let debit = self.prep_debit(id, source, amount, flags, frozen)?;
        proof { self.lemma_debit_bounds(id, source, amount, flags, frozen); }
        let (credit, maybe_burn) = self.prep_credit(id, dest, amount, debit, f.burn_dust, providers)?;
        let mut source_account = self.balance_of(id, source);
        let mut details = match self.asset(id) {
            Some(d) => d,
            None => return Err(Error::Unknown),
        };
        if let Some(need_admin) = maybe_need_admin {
            if need_admin != details.admin {
                return Err(Error::NoPermission);
            }
        }
        if source == dest {
            self.deposit_event(Event::Transferred(id, source, dest, credit));
            return Ok(credit);
        }
        if let Some(burn) = maybe_burn {
            details.supply = details.supply.saturating_sub(burn);
        }
        source_account.balance = source_account.balance.saturating_sub(debit);
        let mut dest_account = self.balance_of(id, dest);
        let new_balance = dest_account.balance.saturating_add(credit);
        if dest_account.balance == 0 {
            dest_account.sufficient = new_account(host, dest, &mut details, &mut self.calls)?;
        }
        dest_account.balance = new_balance;
        let ghost old_self = *self;
        proof { Pallet::lemma_same_tables(&old_self, old(self)); }
        proof {
            if old_self.supply_conserved() {
                old_self.lemma_record_le_total(id, source);
            }
            if old_self.account_map().contains_key((id, source)) {
                old_self.lemma_record_counted(id, source);
            }
        }
        self.put_account(id, dest, dest_account);
        let ghost s1 = *self;
        proof {
            assert(s1.record_of(id, source) == old_self.record_of(id, source));
        }
        if source_account.balance < details.min_balance {
            if self.contains_account(id, source) {
                dead_account(host, id, source, &mut details, source_account.sufficient, &mut self.calls);
                self.remove_account(id, source);
            } else {
                proof { assert(self.account_map().remove((id, source)) =~= self.account_map()); }
            }
        } else {
            self.put_account(id, source, source_account);
        }
        let ghost mid = *self;
        self.set_asset(id, details);
        proof {
            assert(self.asset_map()[id] == details);
            assert forall|k: (AssetId, AccountId)| #[trigger] self.account_map().contains_key(k)
                implies self.asset_map().contains_key(k.0) by {
                if k != (id, source) && k != (id, dest) {
                    assert(s1.account_map().contains_key(k));
                    assert(old_self.account_map().contains_key(k));
                }
            }
            assert forall|k: (AssetId, AccountId, AccountId)| #[trigger] self.approval_map().contains_key(k)
                implies self.asset_map().contains_key(k.0) by {
                assert(old_self.approval_map().contains_key(k));
            }
            assert forall|x: AssetId| #[trigger] self.metadata_map().contains_key(x)
                implies self.asset_map().contains_key(x) by {
                assert(old_self.metadata_map().contains_key(x));
            }
            if old_self.above_minimum() {
                assert forall|k: (AssetId, AccountId)| #[trigger] self.account_map().contains_key(k)
                    implies self.account_map()[k].balance >= self.asset_map()[k.0].min_balance by {
                    if k != (id, source) && k != (id, dest) {
                        assert(s1.account_map().contains_key(k));
                        assert(old_self.account_map().contains_key(k));
                    }
                    if k == (id, dest) && old_self.account_map().contains_key(k) {
                        assert(old_self.account_map()[k].balance >= old_self.asset_map()[id].min_balance);
                    }
                }
            }
            if old_self.balances_positive() {
                assert forall|k: (AssetId, AccountId)| #[trigger] self.account_map().contains_key(k)
                    implies self.account_map()[k].balance > 0 by {
                    if k != (id, source) && k != (id, dest) {
                        assert(s1.account_map().contains_key(k));
                        assert(old_self.account_map().contains_key(k));
                    }
                }
            }
            if old_self.supply_conserved() {
                assert(old_self.asset_map().contains_key(id));
                assert(s1.balance_total(id) == old_self.balance_total(id) + credit);
                assert(mid.balance_total(id) == s1.balance_total(id) - debit);
                assert forall|a: AssetId| #[trigger] self.asset_map().contains_key(a)
                    implies self.asset_map()[a].supply == self.balance_total(a) by {
                    if a != id {
                        assert(old_self.asset_map().contains_key(a));
                        assert(s1.balance_total(a) == old_self.balance_total(a));
                        assert(mid.balance_total(a) == s1.balance_total(a));
                    }
                }
            }
            if old_self.counters_match() && old_self.balances_positive()
                {
                assert(old_self.asset_map().contains_key(id));
                assert forall|a: AssetId| #[trigger] self.asset_map().contains_key(a) implies {
                    &&& self.asset_map()[a].accounts == self.holder_count(a)
                    &&& self.asset_map()[a].sufficients == self.sufficient_count(a)
                    &&& self.asset_map()[a].approvals == self.approval_count(a)
                } by {
                    assert(old_self.asset_map().contains_key(a));
                    assert(s1.holder_count(a) == old_self.holder_count(a) + if a == id && !old_self.account_map().contains_key((id, dest)) { 1int } else { 0 });
                    assert(s1.sufficient_count(a) == old_self.sufficient_count(a) + if a == id && !old_self.account_map().contains_key((id, dest)) && dest_account.sufficient { 1int } else { 0 });
                    assert(mid.holder_count(a) == self.holder_count(a));
                    assert(mid.sufficient_count(a) == self.sufficient_count(a));
                    assert(mid.approval_count(a) == old_self.approval_count(a));
                }
            }
        }
        self.deposit_event(Event::Transferred(id, source, dest, credit));
        Ok(credit)
    }
}

} // verus!
