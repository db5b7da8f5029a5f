//! Creating and destroying asset classes, freezing, and the roles that
//! administer an asset.
use vstd::prelude::*;

use crate::accounting::{dead_account, leave_calls};
use crate::host::Config;
use crate::metadata::sat_add;
use crate::store::Pallet;
use crate::types::{HostCall, AccountId, AssetDetails, AssetId, Balance, DestroyWitness, Error, Event};

verus! {

/// Appending an element not yet present keeps a sequence free of duplicates.
proof fn lemma_push_fresh<T>(s: Seq<T>, x: T)
    requires
        s.no_duplicates(),
        !s.contains(x),
    ensures
        s.push(x).no_duplicates(),
{
    let t = s.push(x);
    assert forall|i: int, j: int| 0 <= i < t.len() && 0 <= j < t.len() && i != j implies t[i] != t[j] by {
        if i < s.len() && j < s.len() {
            assert(t[i] == s[i] && t[j] == s[j]);
        } else if i < s.len() {
            assert(t[i] == s[i]);
        } else {
            assert(t[j] == s[j]);
        }
    }
}

impl Pallet {
    /// Balances, approvals, metadata and parameters are as in `other`.
    pub open spec fn same_except_assets(&self, other: &Pallet) -> bool {
        &&& self.account_map() == other.account_map()
        &&& self.approval_map() == other.approval_map()
        &&& self.metadata_map() == other.metadata_map()
        &&& self.parameters() == other.parameters()
    }

    /// The details of a newly created asset class.
    pub open spec fn fresh_details(
        owner: AccountId,
        team: AccountId,
        deposit: u128,
        min_balance: Balance,
        is_sufficient: bool,
    ) -> AssetDetails {
        AssetDetails {
            owner,
            issuer: team,
            admin: team,
            freezer: team,
            supply: 0,
            deposit,
            min_balance,
            is_sufficient,
            accounts: 0,
            sufficients: 0,
            approvals: 0,
            is_frozen: false,
        }
    }

    /// Adds a new asset class: the laws hold of it at once.
    fn add_asset(&mut self, id: AssetId, d: AssetDetails)
        requires
            old(self).wf(),
            !old(self).asset_map().contains_key(id),
            d.supply == 0 && d.accounts == 0 && d.sufficients == 0 && d.approvals == 0 && d.min_balance > 0,
        ensures
            final(self).wf(),
            final(self).asset_map() == old(self).asset_map().insert(id, d),
            final(self).same_except_assets(old(self)),
            final(self).event_log() == old(self).event_log(),
            final(self).host_calls() == old(self).host_calls(),
            old(self).sound() ==> final(self).sound(),
    {
        let ghost old_self = *self;
        proof {
            assert forall|k: (AssetId, AccountId)| #[trigger] old_self.account_map().contains_key(k) implies k.0 != id by {}
            assert forall|k: (AssetId, AccountId, AccountId)| #[trigger] old_self.approval_map().contains_key(k) implies k.0 != id by {}
            old_self.lemma_no_records(id);
        }
        self.insert_asset(id, d);
        proof {
            assert forall|k: (AssetId, AccountId)| #[trigger] self.account_map().contains_key(k)
                implies self.asset_map().contains_key(k.0) by {
                assert(old_self.account_map().contains_key(k));
            }
            assert forall|k: (AssetId, AccountId, AccountId)| #[trigger] self.approval_map().contains_key(k)
                implies self.asset_map().contains_key(k.0) by {
                assert(old_self.approval_map().contains_key(k));
            }
            assert forall|x: AssetId| #[trigger] self.metadata_map().contains_key(x)
                implies self.asset_map().contains_key(x) by {
                assert(old_self.metadata_map().contains_key(x));
            }
            if old_self.sound() {
                assert forall|x: AssetId| #[trigger] self.asset_map().contains_key(x) implies {
                    &&& self.asset_map()[x].supply == self.balance_total(x)
                    &&& self.asset_map()[x].accounts == self.holder_count(x)
                    &&& self.asset_map()[x].sufficients == self.sufficient_count(x)
                    &&& self.asset_map()[x].approvals == self.approval_count(x)
                    &&& self.asset_map()[x].min_balance > 0
                } by {
                    if x != id {
                        assert(old_self.asset_map().contains_key(x));
                    }
                }
                assert forall|k: (AssetId, AccountId)| #[trigger] self.account_map().contains_key(k)
                    implies self.account_map()[k].balance >= self.asset_map()[k.0].min_balance by {
                    assert(old_self.account_map().contains_key(k));
                }
            }
        }
    }

    /// Creates asset `id` owned by `origin`, with `admin` as issuer, admin and
    /// freezer, bonding the asset deposit from `origin`.
    pub fn create<H: Config>(&mut self, host: &mut H, origin: AccountId, id: AssetId, admin: AccountId, min_balance: Balance) -> (r: Result<(), Error>)
        requires
            old(self).wf(),
        ensures
            final(self).wf(),
            match r {
                Ok(_) => {
                    &&& !old(self).asset_map().contains_key(id)
                    &&& min_balance > 0
                    &&& final(self).asset_map() == old(self).asset_map().insert(id,
                        Pallet::fresh_details(origin, admin, old(self).parameters().asset_deposit, min_balance, false))
                    &&& final(self).same_except_assets(old(self))
                    &&& final(self).event_log() == old(self).event_log().push(Event::Created(id, origin, admin))
                    &&& final(self).host_calls() == old(self).host_calls().push(HostCall::Reserve(origin, old(self).parameters().asset_deposit))
                },
                Err(e) => *final(self) == *old(self) && if old(self).asset_map().contains_key(id) {
                    e == Error::InUse
                } else if min_balance == 0 {
                    e == Error::MinBalanceZero
                } else {
                    true
                },
            },
            old(self).sound() ==> final(self).sound(),
    {
        if self.asset(id).is_some() {
            return Err(Error::InUse);
        }
        if min_balance == 0 {
            return Err(Error::MinBalanceZero);
        }
        let deposit = self.params.asset_deposit;
        host.reserve(origin, deposit)?;
        self.record_call(Ghost(HostCall::Reserve(origin, deposit)));
        self.add_asset(id, AssetDetails {
            owner: origin,
            issuer: admin,
            admin,
            freezer: admin,
            supply: 0,
            deposit,
            min_balance,
            is_sufficient: false,
            accounts: 0,
            sufficients: 0,
            approvals: 0,
            is_frozen: false,
        });
        self.deposit_event(Event::Created(id, origin, admin));
        Ok(())
    }

    /// Creates asset `id` owned and administered by `owner`, without a deposit.
    /// The caller must hold the privileged origin.
    pub fn force_create(&mut self, id: AssetId, owner: AccountId, is_sufficient: bool, min_balance: Balance) -> (r: Result<(), Error>)
        requires
            old(self).wf(),
        ensures
            final(self).wf(),
            match r {
                Ok(_) => {
                    &&& final(self).asset_map() == old(self).asset_map().insert(id,
                        Pallet::fresh_details(owner, owner, 0, min_balance, is_sufficient))
                    &&& final(self).same_except_assets(old(self))
                    &&& final(self).event_log() == old(self).event_log().push(Event::ForceCreated(id, owner))
                &&& final(self).host_calls() == old(self).host_calls()
                },
                Err(e) => *final(self) == *old(self),
            },
            r == if old(self).asset_map().contains_key(id) {
                Err::<(), Error>(Error::InUse)
            } else if min_balance == 0 {
                Err(Error::MinBalanceZero)
            } else {
                Ok(())
            },
            old(self).sound() ==> final(self).sound(),
    {
        if self.asset(id).is_some() {
            return Err(Error::InUse);
        }
        if min_balance == 0 {
            return Err(Error::MinBalanceZero);
        }
        self.add_asset(id, AssetDetails {
            owner,
            issuer: owner,
            admin: owner,
            freezer: owner,
            supply: 0,
            deposit: 0,
            min_balance,
            is_sufficient,
            accounts: 0,
            sufficients: 0,
            approvals: 0,
            is_frozen: false,
        });
        self.deposit_event(Event::ForceCreated(id, owner));
        Ok(())
    }

    /// Replaces the details of an existing asset without touching its accounting.
    fn replace_details(&mut self, id: AssetId, d: AssetDetails)
        requires
            old(self).wf(),
            old(self).asset_map().contains_key(id),
            crate::store::same_accounting(old(self).asset_map()[id], d),
        ensures
            final(self).wf(),
            final(self).asset_map() == old(self).asset_map().insert(id, d),
            final(self).same_except_assets(old(self)),
            final(self).event_log() == old(self).event_log(),
            final(self).host_calls() == old(self).host_calls(),
            old(self).sound() ==> final(self).sound(),
    {
        let ghost old_self = *self;
        self.set_asset(id, d);
        proof { Pallet::lemma_details_only(&old_self, self, id, d); }
    }

    /// The error of a call on asset `id` that needs `origin` to hold `role`.
    pub open spec fn role_verdict(&self, id: AssetId, origin: AccountId, role: spec_fn(AssetDetails) -> AccountId) -> Result<(), Error> {
        if !self.asset_map().contains_key(id) {
            Err(Error::Unknown)
        } else if origin != role(self.asset_map()[id]) {
            Err(Error::NoPermission)
        } else {
            Ok(())
        }
    }

    /// Sets the asset-wide freeze; `origin` must be the freezer.
    pub fn freeze_asset(&mut self, origin: AccountId, id: AssetId) -> (r: Result<(), Error>)
        requires
            old(self).wf(),
        ensures
            final(self).wf(),
            r == old(self).role_verdict(id, origin, |d: AssetDetails| d.freezer),
            r is Err ==> *final(self) == *old(self),
            r is Ok ==> {
                &&& final(self).asset_map() == old(self).asset_map().insert(id, AssetDetails { is_frozen: true, ..old(self).asset_map()[id] })
                &&& final(self).same_except_assets(old(self))
                &&& final(self).event_log() == old(self).event_log().push(Event::AssetFrozen(id))
                &&& final(self).host_calls() == old(self).host_calls()
            },
            old(self).sound() ==> final(self).sound(),
    {
        let mut d = match self.asset(id) {
            Some(d) => d,
            None => return Err(Error::Unknown),
        };
        if origin != d.freezer {
            return Err(Error::NoPermission);
        }
        d.is_frozen = true;
        self.replace_details(id, d);
        self.deposit_event(Event::AssetFrozen(id));
        Ok(())
    }

    /// Lifts the asset-wide freeze; `origin` must be the admin.
    pub fn thaw_asset(&mut self, origin: AccountId, id: AssetId) -> (r: Result<(), Error>)
        requires
            old(self).wf(),
        ensures
            final(self).wf(),
            r == old(self).role_verdict(id, origin, |d: AssetDetails| d.admin),
            r is Err ==> *final(self) == *old(self),
            r is Ok ==> {
                &&& final(self).asset_map() == old(self).asset_map().insert(id, AssetDetails { is_frozen: false, ..old(self).asset_map()[id] })
                &&& final(self).same_except_assets(old(self))
                &&& final(self).event_log() == old(self).event_log().push(Event::AssetThawed(id))
                &&& final(self).host_calls() == old(self).host_calls()
            },
            old(self).sound() ==> final(self).sound(),
    {
        let mut d = match self.asset(id) {
            Some(d) => d,
            None => return Err(Error::Unknown),
        };
        if origin != d.admin {
            return Err(Error::NoPermission);
        }
        d.is_frozen = false;
        self.replace_details(id, d);
        self.deposit_event(Event::AssetThawed(id));
        Ok(())
    }

    /// Sets the freeze flag of `who`'s record to `frozen`.
    fn set_account_frozen(&mut self, id: AssetId, who: AccountId, frozen: bool)
        requires
            old(self).wf(),
            old(self).account_map().contains_key((id, who)),
        ensures
            final(self).wf(),
            final(self).asset_map() == old(self).asset_map(),
            final(self).account_map() == old(self).account_map().insert((id, who),
                crate::types::AssetBalance { is_frozen: frozen, ..old(self).account_map()[(id, who)] }),
            final(self).approval_map() == old(self).approval_map(),
            final(self).metadata_map() == old(self).metadata_map(),
            final(self).parameters() == old(self).parameters(),
            final(self).event_log() == old(self).event_log(),
            final(self).host_calls() == old(self).host_calls(),
            old(self).sound() ==> final(self).sound(),
    {
        let mut rec = self.balance_of(id, who);
        rec.is_frozen = frozen;
        let ghost old_self = *self;
        self.put_account(id, who, rec);
        proof {
            assert forall|k: (AssetId, AccountId)| #[trigger] self.account_map().contains_key(k)
                implies self.asset_map().contains_key(k.0) by {
                assert(old_self.account_map().contains_key(k));
            }
            assert forall|k: (AssetId, AccountId, AccountId)| #[trigger] self.approval_map().contains_key(k)
                implies self.asset_map().contains_key(k.0) by {
                assert(old_self.approval_map().contains_key(k));
            }
            assert forall|x: AssetId| #[trigger] self.metadata_map().contains_key(x)
                implies self.asset_map().contains_key(x) by {
                assert(old_self.metadata_map().contains_key(x));
            }
            if old_self.sound() {
                assert forall|x: AssetId| #[trigger] self.asset_map().contains_key(x) implies {
                    &&& self.asset_map()[x].supply == self.balance_total(x)
                    &&& self.asset_map()[x].accounts == self.holder_count(x)
                    &&& self.asset_map()[x].sufficients == self.sufficient_count(x)
                    &&& self.asset_map()[x].approvals == self.approval_count(x)
                } by {
                    assert(old_self.asset_map().contains_key(x));
                }
                assert forall|k: (AssetId, AccountId)| #[trigger] self.account_map().contains_key(k)
                    implies self.account_map()[k].balance >= self.asset_map()[k.0].min_balance
                        && self.account_map()[k].balance > 0 by {
                    assert(old_self.account_map().contains_key(k));
                }
            }
        }
    }

    /// The error of a freeze or thaw of `who` that needs `origin` to hold `role`.
    pub open spec fn account_role_verdict(&self, id: AssetId, origin: AccountId, who: AccountId, role: spec_fn(AssetDetails) -> AccountId) -> Result<(), Error> {
        match self.role_verdict(id, origin, role) {
            Err(e) => Err(e),
            Ok(_) => if self.account_map().contains_key((id, who)) { Ok(()) } else { Err(Error::BalanceZero) },
        }
    }

    /// Freezes `who`'s balance of `id` against debits; `origin` must be the freezer.
    pub fn freeze(&mut self, origin: AccountId, id: AssetId, who: AccountId) -> (r: Result<(), Error>)
        requires
            old(self).wf(),
        ensures
            final(self).wf(),
            r == old(self).account_role_verdict(id, origin, who, |d: AssetDetails| d.freezer),
            r is Err ==> *final(self) == *old(self),
            r is Ok ==> {
                &&& final(self).asset_map() == old(self).asset_map()
                &&& final(self).account_map() == old(self).account_map().insert((id, who),
                    crate::types::AssetBalance { is_frozen: true, ..old(self).account_map()[(id, who)] })
                &&& final(self).approval_map() == old(self).approval_map()
                &&& final(self).metadata_map() == old(self).metadata_map()
                &&& final(self).parameters() == old(self).parameters()
                &&& final(self).event_log() == old(self).event_log().push(Event::Frozen(id, who))
                &&& final(self).host_calls() == old(self).host_calls()
            },
            old(self).sound() ==> final(self).sound(),
    {
        let d = match self.asset(id) {
            Some(d) => d,
            None => return Err(Error::Unknown),
        };
        if origin != d.freezer {
            return Err(Error::NoPermission);
        }
        if !self.contains_account(id, who) {
            return Err(Error::BalanceZero);
        }
        self.set_account_frozen(id, who, true);
        self.deposit_event(Event::Frozen(id, who));
        Ok(())
    }

    /// Lifts the freeze of `who`'s balance of `id`; `origin` must be the admin.
    pub fn thaw(&mut self, origin: AccountId, id: AssetId, who: AccountId) -> (r: Result<(), Error>)
        requires
            old(self).wf(),
        ensures
            final(self).wf(),
            r == old(self).account_role_verdict(id, origin, who, |d: AssetDetails| d.admin),
            r is Err ==> *final(self) == *old(self),
            r is Ok ==> {
                &&& final(self).asset_map() == old(self).asset_map()
                &&& final(self).account_map() == old(self).account_map().insert((id, who),
                    crate::types::AssetBalance { is_frozen: false, ..old(self).account_map()[(id, who)] })
                &&& final(self).approval_map() == old(self).approval_map()
                &&& final(self).metadata_map() == old(self).metadata_map()
                &&& final(self).parameters() == old(self).parameters()
                &&& final(self).event_log() == old(self).event_log().push(Event::Thawed(id, who))
                &&& final(self).host_calls() == old(self).host_calls()
            },
            old(self).sound() ==> final(self).sound(),
    {
        let d = match self.asset(id) {
            Some(d) => d,
            None => return Err(Error::Unknown),
        };
        if origin != d.admin {
            return Err(Error::NoPermission);
        }
        if !self.contains_account(id, who) {
            return Err(Error::BalanceZero);
        }
        self.set_account_frozen(id, who, false);
        self.deposit_event(Event::Thawed(id, who));
        Ok(())
    }

    /// The bonds that an owner of asset `id` holds for it: the asset's deposit
    /// and its metadata's.
    pub open spec fn bonded_with(&self, id: AssetId) -> u128 {
        sat_add(self.asset_map()[id].deposit,
            if self.metadata_map().contains_key(id) { self.metadata_map()[id].deposit } else { 0 })
    }

    /// The bonds that move with asset `id` to a new owner.
    pub fn ownership_deposit(&self, id: AssetId) -> (r: u128)
        requires
            self.wf(),
            self.asset_map().contains_key(id),
        ensures
            r == self.bonded_with(id),
    {
        let d = self.asset(id).unwrap();
        d.deposit.saturating_add(self.metadata_deposit(id))
    }

    /// Hands asset `id` to `owner`, moving the asset and metadata deposits to
    /// the new owner's reserve; `origin` must be the current owner.
    pub fn transfer_ownership<H: Config>(&mut self, host: &mut H, origin: AccountId, id: AssetId, owner: AccountId) -> (r: Result<(), Error>)
        requires
            old(self).wf(),
        ensures
            final(self).wf(),
            r is Err ==> *final(self) == *old(self),
            old(self).role_verdict(id, origin, |d: AssetDetails| d.owner) is Err
                ==> r == old(self).role_verdict(id, origin, |d: AssetDetails| d.owner),
            old(self).role_verdict(id, origin, |d: AssetDetails| d.owner) is Ok && owner == origin
                ==> r is Ok && *final(self) == *old(self),
            r is Ok && owner != origin ==> {
                &&& final(self).asset_map() == old(self).asset_map().insert(id, AssetDetails { owner, ..old(self).asset_map()[id] })
                &&& final(self).same_except_assets(old(self))
                &&& final(self).event_log() == old(self).event_log().push(Event::OwnerChanged(id, owner))
                &&& final(self).host_calls() == old(self).host_calls().push(HostCall::Repatriate(origin, owner, old(self).bonded_with(id)))
            },
            old(self).sound() ==> final(self).sound(),
    {
        let mut d = match self.asset(id) {
            Some(d) => d,
            None => return Err(Error::Unknown),
        };
        if origin != d.owner {
            return Err(Error::NoPermission);
        }
        if d.owner == owner {
            return Ok(());
        }
        let deposit = self.ownership_deposit(id);
        host.repatriate_reserved(d.owner, owner, deposit)?;
        self.record_call(Ghost(HostCall::Repatriate(d.owner, owner, deposit)));
        d.owner = owner;
        self.replace_details(id, d);
        self.deposit_event(Event::OwnerChanged(id, owner));
        Ok(())
    }

    /// Reassigns issuer, admin and freezer of asset `id`; `origin` must be the owner.
    pub fn set_team(&mut self, origin: AccountId, id: AssetId, issuer: AccountId, admin: AccountId, freezer: AccountId) -> (r: Result<(), Error>)
        requires
            old(self).wf(),
        ensures
            final(self).wf(),
            r == old(self).role_verdict(id, origin, |d: AssetDetails| d.owner),
            r is Err ==> *final(self) == *old(self),
            r is Ok ==> {
                &&& final(self).asset_map() == old(self).asset_map().insert(id,
                    AssetDetails { issuer, admin, freezer, ..old(self).asset_map()[id] })
                &&& final(self).same_except_assets(old(self))
                &&& final(self).event_log() == old(self).event_log().push(Event::TeamChanged(id, issuer, admin, freezer))
                &&& final(self).host_calls() == old(self).host_calls()
            },
            old(self).sound() ==> final(self).sound(),
    {
        let mut d = match self.asset(id) {
            Some(d) => d,
            None => return Err(Error::Unknown),
        };
        if origin != d.owner {
            return Err(Error::NoPermission);
        }
        d.issuer = issuer;
        d.admin = admin;
        d.freezer = freezer;
        self.replace_details(id, d);
        self.deposit_event(Event::TeamChanged(id, issuer, admin, freezer));
        Ok(())
    }

    /// Overwrites the roles, minimum balance and flags of asset `id`. The
    /// caller must hold the privileged origin. Existing balances and their
    /// references are left as they are, so a higher minimum balance may leave
    /// records below it.
    pub fn force_asset_status(
        &mut self,
        id: AssetId,
        owner: AccountId,
        issuer: AccountId,
        admin: AccountId,
        freezer: AccountId,
        min_balance: Balance,
        is_sufficient: bool,
        is_frozen: bool,
    ) -> (r: Result<(), Error>)
        requires
            old(self).wf(),
        ensures
            final(self).wf(),
            r == if old(self).asset_map().contains_key(id) { Ok::<(), Error>(()) } else { Err(Error::Unknown) },
            r is Err ==> *final(self) == *old(self),
            r is Ok ==> {
                &&& final(self).asset_map() == old(self).asset_map().insert(id,
                    AssetDetails { owner, issuer, admin, freezer, min_balance, is_sufficient, is_frozen, ..old(self).asset_map()[id] })
                &&& final(self).same_except_assets(old(self))
                &&& final(self).event_log() == old(self).event_log().push(Event::AssetStatusChanged(id))
                &&& final(self).host_calls() == old(self).host_calls()
            },
            old(self).supply_conserved() ==> final(self).supply_conserved(),
            old(self).counters_match() ==> final(self).counters_match(),
            old(self).balances_positive() && min_balance > 0 ==> final(self).balances_positive(),
            old(self).above_minimum() && r is Ok && min_balance <= old(self).asset_map()[id].min_balance
                ==> final(self).above_minimum(),
    {
        let mut d = match self.asset(id) {
            Some(d) => d,
            None => return Err(Error::Unknown),
        };
        let ghost old_d = d;
        d.owner = owner;
        d.issuer = issuer;
        d.admin = admin;
        d.freezer = freezer;
        d.min_balance = min_balance;
        d.is_sufficient = is_sufficient;
        d.is_frozen = is_frozen;
        let ghost old_self = *self;
        self.set_asset(id, d);
        proof {
            let ghost d2 = AssetDetails { min_balance: old_d.min_balance, ..d };
            assert forall|x: AssetId| #[trigger] self.asset_map().contains_key(x) == old_self.asset_map().contains_key(x) by {}
            assert forall|k: (AssetId, AccountId)| #[trigger] self.account_map().contains_key(k)
                implies self.asset_map().contains_key(k.0) by {
                assert(old_self.account_map().contains_key(k));
            }
            assert forall|k: (AssetId, AccountId, AccountId)| #[trigger] self.approval_map().contains_key(k)
                implies self.asset_map().contains_key(k.0) by {
                assert(old_self.approval_map().contains_key(k));
            }
            assert forall|x: AssetId| #[trigger] self.metadata_map().contains_key(x)
                implies self.asset_map().contains_key(x) by {
                assert(old_self.metadata_map().contains_key(x));
            }
            assert forall|x: AssetId| #[trigger] self.asset_map().contains_key(x) implies {
                &&& old_self.supply_conserved() ==> self.asset_map()[x].supply == self.balance_total(x)
                &&& old_self.counters_match() ==> {
                    &&& self.asset_map()[x].accounts == self.holder_count(x)
                    &&& self.asset_map()[x].sufficients == self.sufficient_count(x)
                    &&& self.asset_map()[x].approvals == self.approval_count(x)
                }
                &&& old_self.balances_positive() && min_balance > 0 ==> self.asset_map()[x].min_balance > 0
            } by {
                assert(old_self.asset_map().contains_key(x));
            }
            if old_self.balances_positive() {
                assert forall|k: (AssetId, AccountId)| #[trigger] self.account_map().contains_key(k)
                    implies self.account_map()[k].balance > 0 by {
                    assert(old_self.account_map().contains_key(k));
                }
            }
            if old_self.above_minimum() && min_balance <= old_d.min_balance {
                assert forall|k: (AssetId, AccountId)| #[trigger] self.account_map().contains_key(k)
                    implies self.account_map()[k].balance >= self.asset_map()[k.0].min_balance by {
                    assert(old_self.account_map().contains_key(k));
                }
            }
        }
        self.deposit_event(Event::AssetStatusChanged(id));
        Ok(())
    }
    /// The balance records that do not belong to asset `id`.
    pub open spec fn accounts_without(&self, id: AssetId) -> Map<(AssetId, AccountId), crate::types::AssetBalance> {
        self.account_map().restrict(self.account_map().dom().filter(|k: (AssetId, AccountId)| k.0 != id))
    }

    /// The approvals that do not belong to asset `id`.
    pub open spec fn approvals_without(&self, id: AssetId) -> Map<(AssetId, AccountId, AccountId), crate::types::Approval> {
        self.approval_map().restrict(self.approval_map().dom().filter(|k: (AssetId, AccountId, AccountId)| k.0 != id))
    }

    /// What the collaborators are asked when the records of `holders` in
    /// asset `id` are removed, in that order.
    pub open spec fn retire_calls(&self, id: AssetId, holders: Seq<AccountId>) -> Seq<HostCall>
        decreases holders.len(),
    {
        if holders.len() == 0 {
            Seq::empty()
        } else {
            self.retire_calls(id, holders.drop_last())
                + leave_calls(id, holders.last(), self.account_map()[(id, holders.last())].sufficient)
        }
    }

    /// The release of the bonds of the approvals `ods` of asset `id`, in that order.
    pub open spec fn release_calls(&self, id: AssetId, ods: Seq<(AccountId, AccountId)>) -> Seq<HostCall>
        decreases ods.len(),
    {
        if ods.len() == 0 {
            Seq::empty()
        } else {
            self.release_calls(id, ods.drop_last())
                + seq![HostCall::Unreserve(ods.last().0, self.approval_map()[(id, ods.last().0, ods.last().1)].deposit)]
        }
    }

    /// The error of destroying asset `id` with `witness`; `maybe_check_owner`
    /// is the caller, who must then be the owner.
    pub open spec fn destroy_verdict(&self, id: AssetId, maybe_check_owner: Option<AccountId>, witness: DestroyWitness) -> Result<(), Error> {
        if !self.asset_map().contains_key(id) {
            Err(Error::Unknown)
        } else {
            let d = self.asset_map()[id];
            if maybe_check_owner is Some && maybe_check_owner->Some_0 != d.owner {
                Err(Error::NoPermission)
            } else if d.accounts > witness.accounts || d.sufficients > witness.sufficients || d.approvals > witness.approvals {
                Err(Error::BadWitness)
            } else {
                Ok(())
            }
        }
    }

    /// Removes asset `id` with all its balances, approvals and metadata,
    /// releasing every bond. `maybe_check_owner` is the caller, who must be
    /// the owner; `None` stands for the privileged origin. The witness must
    /// bound the live counters.
    #[verifier::rlimit(100)]
    pub fn destroy<H: Config>(&mut self, host: &mut H, id: AssetId, maybe_check_owner: Option<AccountId>, witness: DestroyWitness) -> (r: Result<(), Error>)
        requires
            old(self).wf(),
        ensures
            final(self).wf(),
            r == old(self).destroy_verdict(id, maybe_check_owner, witness),
            r is Err ==> *final(self) == *old(self),
            r is Ok ==> {
                &&& final(self).asset_map() == old(self).asset_map().remove(id)
                &&& final(self).account_map() == old(self).accounts_without(id)
                &&& final(self).approval_map() == old(self).approvals_without(id)
                &&& final(self).metadata_map() == old(self).metadata_map().remove(id)
                &&& final(self).parameters() == old(self).parameters()
                &&& final(self).event_log() == old(self).event_log().push(Event::Destroyed(id))
                &&& exists|holders: Seq<AccountId>, approvals: Seq<(AccountId, AccountId)>|
                    #![trigger old(self).retire_calls(id, holders), old(self).release_calls(id, approvals)]
                {
                    &&& holders.no_duplicates()
                    &&& forall|w: AccountId| #[trigger] holders.contains(w) <==> old(self).account_map().contains_key((id, w))
                    &&& approvals.no_duplicates()
                    &&& forall|od: (AccountId, AccountId)| #[trigger] approvals.contains(od)
                        <==> old(self).approval_map().contains_key((id, od.0, od.1))
                    &&& final(self).host_calls() == old(self).host_calls() + old(self).retire_calls(id, holders)
                        + seq![HostCall::Unreserve(old(self).asset_map()[id].owner, old(self).bonded_with(id))]
                        + old(self).release_calls(id, approvals)
                }
            },
            old(self).sound() ==> final(self).sound(),
    {
        let mut details = match self.asset(id) {
            Some(d) => d,
            None => return Err(Error::Unknown),
        };
        if let Some(check_owner) = maybe_check_owner {
            if details.owner != check_owner {
                return Err(Error::NoPermission);
            }
        }
        if details.accounts > witness.accounts || details.sufficients > witness.sufficients || details.approvals > witness.approvals {
            return Err(Error::BadWitness);
        }
        let ghost old_self = *self;
        let ghost mut holders: Seq<AccountId> = Seq::empty();
        let mut next = self.any_account_of(id);
        while next.is_some()
            invariant
                self.tables_unique(),
                holders.no_duplicates(),
                forall|w: AccountId| #[trigger] holders.contains(w)
                    <==> old_self.account_map().contains_key((id, w)) && !self.account_map().contains_key((id, w)),
                self.calls@ == old_self.calls@ + old_self.retire_calls(id, holders),
                details.owner == old_self.asset_map()[id].owner,
                details.deposit == old_self.asset_map()[id].deposit,
                match next {
                    Some(who) => self.account_map().contains_key((id, who)),
                    None => forall|k: (AssetId, AccountId)| #[trigger] self.account_map().contains_key(k) ==> k.0 != id,
                },
                self.assets == old_self.assets,
                self.approvals == old_self.approvals,
                self.metadata == old_self.metadata,
                self.events == old_self.events,
                self.params == old_self.params,
                forall|k: (AssetId, AccountId)| #[trigger] self.account_map().contains_key(k)
                    ==> old_self.account_map().contains_key(k) && self.account_map()[k] == old_self.account_map()[k],
                forall|k: (AssetId, AccountId)| k.0 != id && #[trigger] old_self.account_map().contains_key(k)
                    ==> self.account_map().contains_key(k),
                forall|a: AssetId| a != id ==> {
                    &&& #[trigger] self.balance_total(a) == old_self.balance_total(a)
                    &&& self.holder_count(a) == old_self.holder_count(a)
                    &&& self.sufficient_count(a) == old_self.sufficient_count(a)
                },
            decreases self.accounts@.len(),
        {
            let who = next.unwrap();
            proof { assert(!holders.contains(who)); }
            let rec = self.balance_of_unchecked(id, who);
            self.remove_account(id, who);
            let ghost before = *self;
            dead_account(host, id, who, &mut details, rec.sufficient, &mut self.calls);
            proof {
                Pallet::lemma_same_tables(self, &before);
                let ghost h2 = holders.push(who);
                lemma_push_fresh(holders, who);
                assert(h2.drop_last() =~= holders);
                assert(old_self.retire_calls(id, h2) == old_self.retire_calls(id, holders)
                    + leave_calls(id, who, old_self.account_map()[(id, who)].sufficient));
                assert(self.calls@ =~= old_self.calls@ + old_self.retire_calls(id, h2));
                assert forall|w: AccountId| #[trigger] h2.contains(w)
                    <==> old_self.account_map().contains_key((id, w)) && !self.account_map().contains_key((id, w)) by {
                    if w == who {
                        assert(h2[h2.len() - 1] == who);
                    } else if holders.contains(w) {
                        let j = choose|j: int| 0 <= j < holders.len() && holders[j] == w;
                        assert(h2[j] == w);
                    } else if h2.contains(w) {
                        let j = choose|j: int| 0 <= j < h2.len() && h2[j] == w;
                        assert(holders[j] == w);
                    }
                }
                holders = h2;
            }
            next = self.any_account_of(id);
        }
        let ghost drained = *self;
        let metadata_deposit = match self.take_metadata(id) {
            Some(m) => m.deposit,
            None => 0,
        };
        host.unreserve(details.owner, details.deposit.saturating_add(metadata_deposit));
        self.record_call(Ghost(HostCall::Unreserve(details.owner, details.deposit.saturating_add(metadata_deposit))));
        let ghost mid = *self;
        proof {
            assert(mid.account_map() == drained.account_map());
            assert forall|k: (AssetId, AccountId)| #[trigger] mid.account_map().contains_key(k) implies k.0 != id by {
                assert(drained.account_map().contains_key(k));
            }
        }
        let ghost mut ods: Seq<(AccountId, AccountId)> = Seq::empty();
        let mut next_approval = self.any_approval_of(id);
        while next_approval.is_some()
            invariant
                self.tables_unique(),
                ods.no_duplicates(),
                forall|od: (AccountId, AccountId)| #[trigger] ods.contains(od)
                    <==> old_self.approval_map().contains_key((id, od.0, od.1)) && !self.approval_map().contains_key((id, od.0, od.1)),
                self.calls@ == mid.calls@ + old_self.release_calls(id, ods),
                match next_approval {
                    Some(od) => self.approval_map().contains_key((id, od.0, od.1)),
                    None => forall|k: (AssetId, AccountId, AccountId)| #[trigger] self.approval_map().contains_key(k) ==> k.0 != id,
                },
                forall|k: (AssetId, AccountId)| #[trigger] mid.account_map().contains_key(k) ==> k.0 != id,
                self.assets == mid.assets,
                self.accounts == mid.accounts,
                self.metadata == mid.metadata,
                self.events == mid.events,
                self.params == mid.params,
                forall|k: (AssetId, AccountId, AccountId)| #[trigger] self.approval_map().contains_key(k)
                    ==> old_self.approval_map().contains_key(k) && self.approval_map()[k] == old_self.approval_map()[k],
                forall|k: (AssetId, AccountId, AccountId)| k.0 != id && #[trigger] old_self.approval_map().contains_key(k)
                    ==> self.approval_map().contains_key(k),
                forall|a: AssetId| a != id ==> #[trigger] self.approval_count(a) == old_self.approval_count(a),
            decreases self.approvals@.len(),
        {
            let od = next_approval.unwrap();
            proof { assert(!ods.contains(od)); }
            let a = self.approval_unchecked(id, od.0, od.1);
            self.remove_approval(id, od.0, od.1);
            host.unreserve(od.0, a.deposit);
            let ghost before_call = *self;
            self.record_call(Ghost(HostCall::Unreserve(od.0, a.deposit)));
            proof {
                Pallet::lemma_same_tables(self, &before_call);
                let ghost o2 = ods.push(od);
                lemma_push_fresh(ods, od);
                assert(o2.drop_last() =~= ods);
                assert(self.calls@ =~= mid.calls@ + old_self.release_calls(id, o2));
                assert forall|x: (AccountId, AccountId)| #[trigger] o2.contains(x)
                    <==> old_self.approval_map().contains_key((id, x.0, x.1)) && !self.approval_map().contains_key((id, x.0, x.1)) by {
                    if x == od {
                        assert(o2[o2.len() - 1] == od);
                    } else if ods.contains(x) {
                        let j = choose|j: int| 0 <= j < ods.len() && ods[j] == x;
                        assert(o2[j] == x);
                    } else if o2.contains(x) {
                        let j = choose|j: int| 0 <= j < o2.len() && o2[j] == x;
                        assert(ods[j] == x);
                    }
                }
                ods = o2;
            }
            next_approval = self.any_approval_of(id);
        }
        let ghost before_removal = *self;
        self.remove_asset(id);
        proof {
            assert(self.account_map() == mid.account_map());
            assert forall|k: (AssetId, AccountId)| #[trigger] self.account_map().contains_key(k)
                == old_self.accounts_without(id).contains_key(k) by {
                if old_self.account_map().contains_key(k) && k.0 != id {
                    assert(drained.account_map().contains_key(k));
                }
                if self.account_map().contains_key(k) {
                    assert(drained.account_map().contains_key(k));
                    assert(mid.account_map().contains_key(k));
                }
            }
            assert forall|k: (AssetId, AccountId)| #[trigger] self.account_map().contains_key(k)
                implies self.account_map()[k] == old_self.account_map()[k] by {
                assert(drained.account_map().contains_key(k));
            }
            assert(self.account_map() =~= old_self.accounts_without(id));
            assert(self.approval_map() == before_removal.approval_map());
            assert forall|k: (AssetId, AccountId, AccountId)| #[trigger] self.approval_map().contains_key(k)
                == old_self.approvals_without(id).contains_key(k) by {
                if old_self.approval_map().contains_key(k) && k.0 != id {
                    assert(before_removal.approval_map().contains_key(k));
                }
                if self.approval_map().contains_key(k) {
                    assert(before_removal.approval_map().contains_key(k));
                }
            }
            assert forall|k: (AssetId, AccountId, AccountId)| #[trigger] self.approval_map().contains_key(k)
                implies self.approval_map()[k] == old_self.approval_map()[k] by {
                assert(before_removal.approval_map().contains_key(k));
            }
            assert(self.approval_map() =~= old_self.approvals_without(id));
            assert forall|k: (AssetId, AccountId)| #[trigger] self.account_map().contains_key(k)
                implies self.asset_map().contains_key(k.0) by {
                assert(old_self.account_map().contains_key(k));
            }
            assert forall|k: (AssetId, AccountId, AccountId)| #[trigger] self.approval_map().contains_key(k)
                implies self.asset_map().contains_key(k.0) by {
                assert(old_self.approval_map().contains_key(k));
            }
            assert forall|x: AssetId| #[trigger] self.metadata_map().contains_key(x)
                implies self.asset_map().contains_key(x) by {
                assert(old_self.metadata_map().contains_key(x));
            }
            if old_self.sound() {
                assert forall|x: AssetId| #[trigger] self.asset_map().contains_key(x) implies {
                    &&& self.asset_map()[x].supply == self.balance_total(x)
                    &&& self.asset_map()[x].accounts == self.holder_count(x)
                    &&& self.asset_map()[x].sufficients == self.sufficient_count(x)
                    &&& self.asset_map()[x].approvals == self.approval_count(x)
                    &&& self.asset_map()[x].min_balance > 0
                } by {
                    assert(old_self.asset_map().contains_key(x));
                    assert(drained.balance_total(x) == old_self.balance_total(x));
                    assert(mid.balance_total(x) == drained.balance_total(x));
                    assert(mid.holder_count(x) == drained.holder_count(x));
                    assert(mid.sufficient_count(x) == drained.sufficient_count(x));
                    assert(before_removal.approval_count(x) == old_self.approval_count(x));
                }
                assert forall|k: (AssetId, AccountId)| #[trigger] self.account_map().contains_key(k)
                    implies self.account_map()[k].balance >= self.asset_map()[k.0].min_balance
                        && self.account_map()[k].balance > 0 by {
                    assert(old_self.account_map().contains_key(k));
                }
            }
        }
        proof {
            assert forall|w: AccountId| #[trigger] holders.contains(w) <==> old_self.account_map().contains_key((id, w)) by {
                assert(!drained.account_map().contains_key((id, w)));
            }
            assert forall|x: (AccountId, AccountId)| #[trigger] ods.contains(x)
                <==> old_self.approval_map().contains_key((id, x.0, x.1)) by {
                assert(!before_removal.approval_map().contains_key((id, x.0, x.1)));
            }
            assert(old_self.bonded_with(id) == details.deposit.saturating_add(metadata_deposit));
            assert(self.calls@ =~= old_self.calls@ + old_self.retire_calls(id, holders)
                + seq![HostCall::Unreserve(old_self.asset_map()[id].owner, old_self.bonded_with(id))]
                + old_self.release_calls(id, ods));
        }
        self.deposit_event(Event::Destroyed(id));
        proof {
            assert(self.host_calls() == old_self.host_calls() + old_self.retire_calls(id, holders)
                + seq![HostCall::Unreserve(old_self.asset_map()[id].owner, old_self.bonded_with(id))]
                + old_self.release_calls(id, ods));
        }
        Ok(())
    }
}

} // verus!
