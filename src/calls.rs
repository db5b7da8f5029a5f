//! The entry points that a signed caller reaches, and the queries that other
//! components use. Each asks the collaborators what the accounting needs and
//! hands the answers on.
use vstd::prelude::*;

use crate::accounting::{credited, credited_details};
use crate::host::Config;
use crate::store::Pallet;
use crate::types::{HostCall, AccountId, AssetDetails, AssetId, Balance, DebitFlags, DepositConsequence, Error, Event, TransferFlags, WithdrawConsequence};

verus! {

/// The flags of a plain transfer that may or may not keep the source alive.
pub open spec fn plain(keep_alive: bool) -> TransferFlags {
    TransferFlags { keep_alive, best_effort: false, burn_dust: false }
}

impl Pallet {
    /// The effects of a successful transfer of `amount`, for some answer of the
    /// collaborators.
    pub open spec fn transfer_happened(
        &self,
        after: &Pallet,
        id: AssetId,
        source: AccountId,
        dest: AccountId,
        amount: Balance,
        need_admin: Option<AccountId>,
        keep_alive: bool,
    ) -> bool {
        exists|fz: Option<Balance>, p: u32| {
            let v = #[trigger] self.transfer_verdict(id, source, dest, amount, need_admin, plain(keep_alive), fz, p);
            &&& v is Ok
            &&& source != dest ==> {
                &&& after.asset_map() == self.asset_map().insert(id, self.transferred_asset(id, source, dest, v->Ok_0.0, v->Ok_0.2))
                &&& after.account_map() == self.transferred_accounts(id, source, dest, v->Ok_0.0, v->Ok_0.1)
                &&& after.host_calls() == self.host_calls() + self.credit_calls(id, dest) + self.debit_calls(id, source, v->Ok_0.0)
            }
            &&& source == dest ==> after.same_tables(self)
            &&& after.event_log() == self.event_log().push(Event::Transferred(id, source, dest, v->Ok_0.1))
        }
    }

    fn transfer_with<H: Config>(
        &mut self,
        host: &mut H,
        id: AssetId,
        source: AccountId,
        dest: AccountId,
        amount: Balance,
        need_admin: Option<AccountId>,
        keep_alive: bool,
    ) -> (r: Result<Balance, Error>)
        requires
            old(self).wf(),
        ensures
            final(self).wf(),
            r is Err ==> *final(self) == *old(self),
            amount == 0 ==> r is Ok && final(self).same_tables(old(self))
                && final(self).event_log() == old(self).event_log().push(Event::Transferred(id, source, dest, 0)),
            r is Ok ==> final(self).approval_map() == old(self).approval_map()
                && final(self).metadata_map() == old(self).metadata_map()
                && final(self).parameters() == old(self).parameters(),
            r is Ok && amount > 0 ==> old(self).transfer_happened(final(self), id, source, dest, amount, need_admin, keep_alive),
            old(self).sound() ==> final(self).sound(),
    {
        let frozen = host.frozen_balance(id, source);
        let providers = host.providers(dest);
        let r = self.do_transfer(host, id, source, dest, amount, need_admin, TransferFlags { keep_alive, best_effort: false, burn_dust: false }, frozen, providers);
        proof {
            if r is Ok && amount > 0 {
                let v = old(self).transfer_verdict(id, source, dest, amount, need_admin, plain(keep_alive), frozen, providers);
                assert(v is Ok);
            }
        }
        r
    }

    /// Mints `amount` of `id` to `beneficiary`; `origin` must be the issuer.
    pub fn mint<H: Config>(&mut self, host: &mut H, origin: AccountId, id: AssetId, beneficiary: AccountId, amount: Balance) -> (r: Result<(), Error>)
        requires
            old(self).wf(),
        ensures
            final(self).wf(),
            amount == 0 ==> r is Ok && final(self).same_tables(old(self)),
            match r {
                Ok(_) => {
                    let d = old(self).asset_map()[id];
                    let rec = old(self).record_of(id, beneficiary);
                    &&& final(self).event_log() == old(self).event_log().push(Event::Issued(id, beneficiary, amount))
                    &&& amount > 0 ==> {
                        &&& old(self).increase_verdict(id, beneficiary, amount, 1, Some(origin)) is Ok
                        &&& final(self).asset_map() == old(self).asset_map().insert(id,
                            AssetDetails { supply: (d.supply + amount) as Balance, ..credited_details(d, rec) })
                        &&& final(self).account_map() == old(self).account_map().insert((id, beneficiary), credited(rec, amount, d))
                        &&& final(self).approval_map() == old(self).approval_map()
                        &&& final(self).metadata_map() == old(self).metadata_map()
                        &&& final(self).host_calls() == old(self).host_calls() + old(self).credit_calls(id, beneficiary)
                    }
                },
                Err(e) => *final(self) == *old(self) && old(self).increase_refusal(id, beneficiary, amount, Some(origin), e),
            },
            amount > 0 && old(self).increase_verdict(id, beneficiary, amount, 1, Some(origin)) is Ok
                && (old(self).asset_map()[id].is_sufficient || old(self).record_of(id, beneficiary).balance > 0) ==> r is Ok,
            old(self).sound() ==> final(self).sound(),
    {
        self.do_mint(host, id, beneficiary, amount, Some(origin))
    }

    /// Burns as much as possible, up to `amount`, of `who`'s balance of `id`;
    /// `origin` must be the admin.
    pub fn burn<H: Config>(&mut self, host: &mut H, origin: AccountId, id: AssetId, who: AccountId, amount: Balance) -> (r: Result<(), Error>)
        requires
            old(self).wf(),
        ensures
            final(self).wf(),
            amount == 0 ==> r is Ok && final(self).same_tables(old(self))
                && final(self).event_log() == old(self).event_log().push(Event::Burned(id, who, 0)),
            r is Err ==> *final(self) == *old(self)
                && old(self).decrease_refusal(id, who, amount, DebitFlags { keep_alive: false, best_effort: true }, Some(origin), r->Err_0),
            r is Ok && amount > 0 ==> exists|actual: Balance| {
                &&& final(self).event_log() == old(self).event_log().push(Event::Burned(id, who, actual))
                &&& exists|fz: Option<Balance>| #[trigger] old(self).debit_spec(id, who, amount, DebitFlags { keep_alive: false, best_effort: true }, fz)
                    == Ok::<Balance, Error>(actual)
                &&& final(self).asset_map() == old(self).asset_map().insert(id, old(self).debited_asset(id, who, actual, true))
                &&& final(self).account_map() == old(self).debited_accounts(id, who, actual)
                &&& final(self).host_calls() == old(self).host_calls() + old(self).debit_calls(id, who, actual)
            },
            old(self).supply_conserved() ==> final(self).supply_conserved(),
            old(self).sound() ==> final(self).sound(),
    {
        let f = DebitFlags { keep_alive: false, best_effort: true };
        self.do_burn(host, id, who, amount, Some(origin), f)?;
        Ok(())
    }

    /// Moves `amount` of `id` from `origin` to `target`; the source may be emptied.
    pub fn transfer<H: Config>(&mut self, host: &mut H, origin: AccountId, id: AssetId, target: AccountId, amount: Balance) -> (r: Result<(), Error>)
        requires
            old(self).wf(),
        ensures
            final(self).wf(),
            r is Err ==> *final(self) == *old(self),
            amount == 0 ==> r is Ok && final(self).same_tables(old(self)),
            r is Ok && amount > 0 ==> old(self).transfer_happened(final(self), id, origin, target, amount, None, false),
            old(self).sound() ==> final(self).sound(),
    {
        self.transfer_with(host, id, origin, target, amount, None, false)?;
        Ok(())
    }

    /// Moves `amount` of `id` from `origin` to `target`; the source must stay alive.
    pub fn transfer_keep_alive<H: Config>(&mut self, host: &mut H, origin: AccountId, id: AssetId, target: AccountId, amount: Balance) -> (r: Result<(), Error>)
        requires
            old(self).wf(),
        ensures
            final(self).wf(),
            r is Err ==> *final(self) == *old(self),
            amount == 0 ==> r is Ok && final(self).same_tables(old(self)),
            r is Ok && amount > 0 ==> old(self).transfer_happened(final(self), id, origin, target, amount, None, true),
            old(self).sound() ==> final(self).sound(),
    {
        self.transfer_with(host, id, origin, target, amount, None, true)?;
        Ok(())
    }

    /// Moves `amount` of `id` from `source` to `dest`; `origin` must be the admin.
    pub fn force_transfer<H: Config>(
        &mut self,
        host: &mut H,
        origin: AccountId,
        id: AssetId,
        source: AccountId,
        dest: AccountId,
        amount: Balance,
    ) -> (r: Result<(), Error>)
        requires
            old(self).wf(),
        ensures
            final(self).wf(),
            r is Err ==> *final(self) == *old(self),
            amount == 0 ==> r is Ok && final(self).same_tables(old(self)),
            r is Ok && amount > 0 ==> old(self).transfer_happened(final(self), id, source, dest, amount, Some(origin), false),
            old(self).sound() ==> final(self).sound(),
    {
        self.transfer_with(host, id, source, dest, amount, Some(origin), false)?;
        Ok(())
    }

    /// The balance of `who` in asset `id`; zero without a record.
    pub fn balance(&self, id: AssetId, who: AccountId) -> (r: Balance)
        requires
            self.wf(),
        ensures
            r == self.record_of(id, who).balance,
    {
        self.balance_of(id, who).balance
    }

    /// The supply of asset `id`; zero for an unknown asset.
    pub fn total_supply(&self, id: AssetId) -> (r: Balance)
        requires
            self.wf(),
        ensures
            r == if self.asset_map().contains_key(id) { self.asset_map()[id].supply } else { 0 },
    {
        match self.asset(id) {
            Some(d) => d.supply,
            None => 0,
        }
    }

    /// The supply of asset `id`; zero for an unknown asset.
    pub fn total_issuance(&self, id: AssetId) -> (r: Balance)
        requires
            self.wf(),
        ensures
            r == if self.asset_map().contains_key(id) { self.asset_map()[id].supply } else { 0 },
    {
        self.total_supply(id)
    }

    /// The minimum balance of asset `id`; zero for an unknown asset.
    pub fn minimum_balance(&self, id: AssetId) -> (r: Balance)
        requires
            self.wf(),
        ensures
            r == if self.asset_map().contains_key(id) { self.asset_map()[id].min_balance } else { 0 },
    {
        match self.asset(id) {
            Some(d) => d.min_balance,
            None => 0,
        }
    }

    /// Verdict on adding `amount` to `who`, asking the reference count.
    pub fn can_deposit<H: Config>(&self, host: &H, id: AssetId, who: AccountId, amount: Balance) -> (r: DepositConsequence)
        requires
            self.wf(),
        ensures
            exists|p: u32| r == self.deposit_verdict(id, who, amount, p),
    {
        let p = host.providers(who);
        self.can_increase(id, who, amount, p)
    }

    /// Verdict on taking `amount` from `who`, asking the oracle of frozen funds.
    pub fn can_withdraw<H: Config>(&self, host: &H, id: AssetId, who: AccountId, amount: Balance) -> (r: WithdrawConsequence)
        requires
            self.wf(),
        ensures
            exists|fz: Option<Balance>| r == self.withdraw_verdict(id, who, amount, false, fz),
    {
        let fz = host.frozen_balance(id, who);
        self.can_decrease(id, who, amount, false, fz)
    }

    /// Mints without a permission check.
    pub fn mint_into<H: Config>(&mut self, host: &mut H, id: AssetId, who: AccountId, amount: Balance) -> (r: Result<(), Error>)
        requires
            old(self).wf(),
        ensures
            final(self).wf(),
            amount == 0 ==> r is Ok && final(self).same_tables(old(self)),
            match r {
                Ok(_) => {
                    let d = old(self).asset_map()[id];
                    let rec = old(self).record_of(id, who);
                    &&& final(self).event_log() == old(self).event_log().push(Event::Issued(id, who, amount))
                    &&& amount > 0 ==> {
                        &&& old(self).increase_verdict(id, who, amount, 1, None) is Ok
                        &&& final(self).asset_map() == old(self).asset_map().insert(id,
                            AssetDetails { supply: (d.supply + amount) as Balance, ..credited_details(d, rec) })
                        &&& final(self).account_map() == old(self).account_map().insert((id, who), credited(rec, amount, d))
                        &&& final(self).approval_map() == old(self).approval_map()
                        &&& final(self).metadata_map() == old(self).metadata_map()
                        &&& final(self).host_calls() == old(self).host_calls() + old(self).credit_calls(id, who)
                    }
                },
                Err(e) => *final(self) == *old(self) && old(self).increase_refusal(id, who, amount, None, e),
            },
            amount > 0 && old(self).increase_verdict(id, who, amount, 1, None) is Ok
                && (old(self).asset_map()[id].is_sufficient || old(self).record_of(id, who).balance > 0) ==> r is Ok,
            old(self).sound() ==> final(self).sound(),
    {
        self.do_mint(host, id, who, amount, None)
    }

    /// Burns exactly `amount`, dust included, without a permission check.
    pub fn burn_from<H: Config>(&mut self, host: &mut H, id: AssetId, who: AccountId, amount: Balance) -> (r: Result<Balance, Error>)
        requires
            old(self).wf(),
        ensures
            final(self).wf(),
            amount == 0 ==> r == Ok::<Balance, Error>(0) && final(self).same_tables(old(self)),
            r is Err ==> *final(self) == *old(self)
                && old(self).decrease_refusal(id, who, amount, DebitFlags { keep_alive: false, best_effort: false }, None, r->Err_0),
            r is Ok && amount > 0 ==> {
                let actual = r->Ok_0;
                &&& exists|fz: Option<Balance>| #[trigger] old(self).debit_spec(id, who, amount, DebitFlags { keep_alive: false, best_effort: false }, fz) == r
                &&& final(self).asset_map() == old(self).asset_map().insert(id, old(self).debited_asset(id, who, actual, true))
                &&& final(self).account_map() == old(self).debited_accounts(id, who, actual)
                &&& final(self).approval_map() == old(self).approval_map()
                &&& final(self).metadata_map() == old(self).metadata_map()
                &&& final(self).host_calls() == old(self).host_calls() + old(self).debit_calls(id, who, actual)
                &&& final(self).event_log() == old(self).event_log().push(Event::Burned(id, who, actual))
            },
            r is Ok ==> r->Ok_0 >= amount,
            old(self).sound() ==> final(self).sound(),
    {
        let f = DebitFlags { keep_alive: false, best_effort: false };
        let r = self.do_burn(host, id, who, amount, None, f);
        proof {
            if r is Ok && amount > 0 {
                let fz = choose|fz: Option<Balance>| #[trigger] old(self).debit_spec(id, who, amount, f, fz) == r;
                old(self).lemma_debit_bounds(id, who, amount, f, fz);
            }
        }
        r
    }

    /// Burns as much as possible, up to `amount`, without a permission check.
    pub fn slash<H: Config>(&mut self, host: &mut H, id: AssetId, who: AccountId, amount: Balance) -> (r: Result<Balance, Error>)
        requires
            old(self).wf(),
        ensures
            final(self).wf(),
            amount == 0 ==> r == Ok::<Balance, Error>(0) && final(self).same_tables(old(self)),
            r is Err ==> *final(self) == *old(self)
                && old(self).decrease_refusal(id, who, amount, DebitFlags { keep_alive: false, best_effort: true }, None, r->Err_0),
            r is Ok && amount > 0 ==> {
                let actual = r->Ok_0;
                &&& exists|fz: Option<Balance>| #[trigger] old(self).debit_spec(id, who, amount, DebitFlags { keep_alive: false, best_effort: true }, fz) == r
                &&& final(self).asset_map() == old(self).asset_map().insert(id, old(self).debited_asset(id, who, actual, true))
                &&& final(self).account_map() == old(self).debited_accounts(id, who, actual)
                &&& final(self).approval_map() == old(self).approval_map()
                &&& final(self).metadata_map() == old(self).metadata_map()
                &&& final(self).host_calls() == old(self).host_calls() + old(self).debit_calls(id, who, actual)
                &&& final(self).event_log() == old(self).event_log().push(Event::Burned(id, who, actual))
            },
            old(self).sound() ==> final(self).sound(),
    {
        let f = DebitFlags { keep_alive: false, best_effort: true };
        self.do_burn(host, id, who, amount, None, f)
    }

    /// Sets the supply of asset `id` directly, if it exists.
    pub fn set_total_issuance(&mut self, id: AssetId, amount: Balance)
        requires
            old(self).wf(),
        ensures
            final(self).wf(),
            final(self).asset_map() == if old(self).asset_map().contains_key(id) {
                old(self).asset_map().insert(id, AssetDetails { supply: amount, ..old(self).asset_map()[id] })
            } else {
                old(self).asset_map()
            },
            final(self).account_map() == old(self).account_map(),
            final(self).approval_map() == old(self).approval_map(),
            final(self).metadata_map() == old(self).metadata_map(),
            final(self).event_log() == old(self).event_log(),
            final(self).host_calls() == old(self).host_calls(),
            old(self).counters_match() ==> final(self).counters_match(),
            old(self).balances_positive() ==> final(self).balances_positive(),
            old(self).above_minimum() ==> final(self).above_minimum(),
    {
        if let Some(mut d) = self.asset(id) {
            let ghost old_self = *self;
            let ghost d0 = d;
            d.supply = amount;
            self.set_asset(id, d);
            proof {
                let ghost d1 = AssetDetails { supply: d0.supply, ..d };
                assert forall|x: AssetId| #[trigger] self.asset_map().contains_key(x) == old_self.asset_map().contains_key(x) by {}
                assert forall|k: (AssetId, AccountId)| #[trigger] self.account_map().contains_key(k)
                    implies self.asset_map().contains_key(k.0) by {
                    assert(old_self.account_map().contains_key(k));
                }
                assert forall|k: (AssetId, AccountId, AccountId)| #[trigger] self.approval_map().contains_key(k)
                    implies self.asset_map().contains_key(k.0) by {
                    assert(old_self.approval_map().contains_key(k));
                }
                assert forall|x: AssetId| #[trigger] self.metadata_map().contains_key(x)
                    implies self.asset_map().contains_key(x) by {
                    assert(old_self.metadata_map().contains_key(x));
                }
                assert forall|x: AssetId| #[trigger] self.asset_map().contains_key(x) implies {
                    &&& old_self.counters_match() ==> {
                        &&& self.asset_map()[x].accounts == self.holder_count(x)
                        &&& self.asset_map()[x].sufficients == self.sufficient_count(x)
                        &&& self.asset_map()[x].approvals == self.approval_count(x)
                    }
                    &&& old_self.balances_positive() ==> self.asset_map()[x].min_balance > 0
                } by {
                    assert(old_self.asset_map().contains_key(x));
                }
                assert forall|k: (AssetId, AccountId)| #[trigger] self.account_map().contains_key(k) implies {
                    &&& old_self.balances_positive() ==> self.account_map()[k].balance > 0
                    &&& old_self.above_minimum() ==> self.account_map()[k].balance >= self.asset_map()[k.0].min_balance
                } by {
                    assert(old_self.account_map().contains_key(k));
                }
            }
        }
    }

    /// Takes as much as possible, up to `amount`, from `who`'s balance of `id`,
    /// leaving the supply as it is; zero when nothing could be taken.
    pub fn decrease_balance_at_most<H: Config>(&mut self, host: &mut H, id: AssetId, who: AccountId, amount: Balance) -> (r: Balance)
        requires
            old(self).wf(),
        ensures
            final(self).wf(),
            r <= old(self).record_of(id, who).balance,
            (r == 0 && *final(self) == *old(self)) || exists|fz: Option<Balance>| {
                &&& amount > 0
                &&& #[trigger] old(self).debit_spec(id, who, amount, DebitFlags { keep_alive: false, best_effort: true }, fz) == Ok::<Balance, Error>(r)
                &&& final(self).asset_map() == old(self).asset_map().insert(id, old(self).debited_asset(id, who, r, false))
                &&& final(self).account_map() == old(self).debited_accounts(id, who, r)
                &&& final(self).approval_map() == old(self).approval_map()
                &&& final(self).metadata_map() == old(self).metadata_map()
                &&& final(self).host_calls() == old(self).host_calls() + old(self).debit_calls(id, who, r)
                &&& final(self).event_log() == old(self).event_log()
            },
            old(self).counters_match() && old(self).balances_positive()
                ==> final(self).counters_match() && final(self).balances_positive(),
            old(self).above_minimum() ==> final(self).above_minimum(),
    {
        let f = DebitFlags { keep_alive: false, best_effort: true };
        let frozen = host.frozen_balance(id, who);
        let r = self.decrease_balance(host, id, who, amount, f, frozen, None, false);
        proof {
            if r is Ok && amount > 0 {
                old(self).lemma_debit_bounds(id, who, amount, f, frozen);
            }
        }
        match r {
            Ok(actual) => actual,
            Err(_) => 0,
        }
    }

    /// Adds `amount` to `who`'s balance of `id`, leaving the supply as it is;
    /// returns what was added, zero when it was refused.
    pub fn increase_balance_at_most<H: Config>(&mut self, host: &mut H, id: AssetId, who: AccountId, amount: Balance) -> (r: Balance)
        requires
            old(self).wf(),
        ensures
            final(self).wf(),
            r == 0 || r == amount,
            r == 0 ==> *final(self) == *old(self),
            r == amount && amount > 0 ==> {
                let d = old(self).asset_map()[id];
                let rec = old(self).record_of(id, who);
                &&& old(self).increase_verdict(id, who, amount, 1, None) is Ok
                &&& final(self).asset_map() == old(self).asset_map().insert(id, credited_details(d, rec))
                &&& final(self).account_map() == old(self).account_map().insert((id, who), credited(rec, amount, d))
                &&& final(self).approval_map() == old(self).approval_map()
                &&& final(self).metadata_map() == old(self).metadata_map()
                &&& final(self).host_calls() == old(self).host_calls() + old(self).credit_calls(id, who)
                &&& final(self).event_log() == old(self).event_log()
            },
            amount > 0 && old(self).increase_verdict(id, who, amount, 1, None) is Ok
                && (old(self).asset_map()[id].is_sufficient || old(self).record_of(id, who).balance > 0) ==> r == amount,
            old(self).counters_match() && old(self).balances_positive()
                ==> final(self).counters_match() && final(self).balances_positive(),
            old(self).above_minimum() ==> final(self).above_minimum(),
    {
        let providers = host.providers(who);
        match self.increase_balance(host, id, who, amount, providers, None, false) {
            Ok(()) => amount,
            Err(_) => 0,
        }
    }
}

} // verus!
