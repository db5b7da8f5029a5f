//! Allowances that let a delegate spend from an owner's balance.
use vstd::prelude::*;

use crate::host::Config;
use crate::metadata::sat_add;
use crate::calls::plain;
use crate::store::Pallet;
use crate::types::{HostCall, AccountId, Approval, AssetDetails, AssetId, Balance, Error, Event, TransferFlags};

verus! {

/// An approval after `amount` more was approved, its deposit topped up to `deposit`.
pub open spec fn topped_up(existing: Option<Approval>, amount: Balance, deposit: u128) -> Approval {
    let a = match existing {
        Some(a) => a,
        None => Approval { amount: 0, deposit: 0 },
    };
    Approval { amount: sat_add(a.amount, amount), deposit: if a.deposit < deposit { deposit } else { a.deposit } }
}

impl Pallet {
    /// Replaces an asset's approval record and its counter together.
    fn write_approval(&mut self, id: AssetId, owner: AccountId, delegate: AccountId, a: Option<Approval>, d: AssetDetails)
        requires
            old(self).wf(),
            old(self).asset_map().contains_key(id),
            a is None ==> old(self).approval_map().contains_key((id, owner, delegate)),
            ({
                let o = old(self).asset_map()[id];
                &&& d.supply == o.supply && d.min_balance == o.min_balance
                &&& d.accounts == o.accounts && d.sufficients == o.sufficients
            }),
        ensures
            final(self).wf(),
            final(self).asset_map() == old(self).asset_map().insert(id, d),
            final(self).approval_map() == match a {
                Some(v) => old(self).approval_map().insert((id, owner, delegate), v),
                None => old(self).approval_map().remove((id, owner, delegate)),
            },
            final(self).account_map() == old(self).account_map(),
            final(self).metadata_map() == old(self).metadata_map(),
            final(self).parameters() == old(self).parameters(),
            final(self).event_log() == old(self).event_log(),
            final(self).host_calls() == old(self).host_calls(),
            old(self).sound() && d.approvals == old(self).approval_count(id)
                + (if a is Some && !old(self).approval_map().contains_key((id, owner, delegate)) { 1int } else { 0 })
                - (if a is None { 1int } else { 0 })
                ==> final(self).sound(),
            old(self).supply_conserved() ==> final(self).supply_conserved(),
    {
        let ghost old_self = *self;
        match a {
            Some(v) => self.put_approval(id, owner, delegate, v),
            None => self.remove_approval(id, owner, delegate),
        }
        let ghost mid = *self;
        self.set_asset(id, d);
        proof {
            assert forall|k: (AssetId, AccountId)| #[trigger] self.account_map().contains_key(k)
                implies self.asset_map().contains_key(k.0) by {
                assert(old_self.account_map().contains_key(k));
            }
            assert forall|k: (AssetId, AccountId, AccountId)| #[trigger] self.approval_map().contains_key(k)
                implies self.asset_map().contains_key(k.0) by {
                if k != (id, owner, delegate) {
                    assert(old_self.approval_map().contains_key(k));
                }
            }
            assert forall|x: AssetId| #[trigger] self.metadata_map().contains_key(x)
                implies self.asset_map().contains_key(x) by {
                assert(old_self.metadata_map().contains_key(x));
            }
            assert forall|x: AssetId| #[trigger] self.asset_map().contains_key(x) implies {
                &&& old_self.supply_conserved() ==> self.asset_map()[x].supply == self.balance_total(x)
                &&& old_self.sound() && d.approvals == old_self.approval_count(id)
                    + (if a is Some && !old_self.approval_map().contains_key((id, owner, delegate)) { 1int } else { 0 })
                    - (if a is None { 1int } else { 0 }) ==> {
                    &&& self.asset_map()[x].accounts == self.holder_count(x)
                    &&& self.asset_map()[x].sufficients == self.sufficient_count(x)
                    &&& self.asset_map()[x].approvals == self.approval_count(x)
                    &&& self.asset_map()[x].min_balance > 0
                }
            } by {
                assert(old_self.asset_map().contains_key(x));
                assert(mid.approval_count(x) == self.approval_count(x));
            }
            if old_self.sound() {
                assert forall|k: (AssetId, AccountId)| #[trigger] self.account_map().contains_key(k)
                    implies self.account_map()[k].balance >= self.asset_map()[k.0].min_balance
                        && self.account_map()[k].balance > 0 by {
                    assert(old_self.account_map().contains_key(k));
                }
            }
        }
    }

    /// The deposit that the approval of `delegate` on `owner`'s funds holds; zero for none.
    pub open spec fn approval_bond(&self, id: AssetId, owner: AccountId, delegate: AccountId) -> u128 {
        match self.approval_opt(id, owner, delegate) {
            Some(a) => a.deposit,
            None => 0,
        }
    }

    /// Approves `delegate` to transfer `amount` more of `origin`'s balance of
    /// `id`, bonding the approval deposit from `origin` for a new approval.
    pub fn approve_transfer<H: Config>(&mut self, host: &mut H, origin: AccountId, id: AssetId, delegate: AccountId, amount: Balance) -> (r: Result<(), Error>)
        requires
            old(self).wf(),
        ensures
            final(self).wf(),
            r is Err ==> *final(self) == *old(self),
            !old(self).asset_map().contains_key(id) ==> r == Err::<(), Error>(Error::Unknown),
            old(self).asset_map().contains_key(id) && old(self).asset_map()[id].is_frozen ==> r == Err::<(), Error>(Error::Frozen),
            r is Ok && amount == 0 && old(self).approval_opt(id, origin, delegate) is None ==> {
                &&& final(self).same_tables(old(self))
                &&& final(self).event_log() == old(self).event_log().push(Event::ApprovedTransfer(id, origin, delegate, amount))
            },
            r is Ok && !(amount == 0 && old(self).approval_opt(id, origin, delegate) is None) ==> {
                let d = old(self).asset_map()[id];
                let existing = old(self).approval_opt(id, origin, delegate);
                let required = old(self).parameters().approval_deposit;
                let bond = old(self).approval_bond(id, origin, delegate);
                &&& old(self).asset_map().contains_key(id) && !d.is_frozen
                &&& final(self).approval_map() == old(self).approval_map().insert((id, origin, delegate),
                    topped_up(existing, amount, required))
                &&& final(self).asset_map() == old(self).asset_map().insert(id, AssetDetails {
                    approvals: if existing is None && d.approvals < u32::MAX { (d.approvals + 1) as u32 } else { d.approvals },
                    ..d
                })
                &&& final(self).account_map() == old(self).account_map()
                &&& final(self).metadata_map() == old(self).metadata_map()
                &&& final(self).parameters() == old(self).parameters()
                &&& final(self).event_log() == old(self).event_log().push(Event::ApprovedTransfer(id, origin, delegate, amount))
                &&& final(self).host_calls() == old(self).host_calls() + if bond < required {
                    seq![HostCall::Reserve(origin, (required - bond) as u128)]
                } else {
                    Seq::empty()
                }
            },
            old(self).asset_map().contains_key(id) && !old(self).asset_map()[id].is_frozen
                && ((amount == 0 && old(self).approval_opt(id, origin, delegate) is None)
                    || old(self).approval_bond(id, origin, delegate) >= old(self).parameters().approval_deposit)
                ==> r is Ok,
            r is Ok && (old(self).approval_opt(id, origin, delegate) is None || old(self).approval_opt(id, origin, delegate)->Some_0.amount > 0)
                ==> final(self).approval_opt(id, origin, delegate) is None || final(self).approval_opt(id, origin, delegate)->Some_0.amount > 0,
            old(self).sound() && (old(self).approval_opt(id, origin, delegate) is Some || old(self).asset_map()[id].approvals < u32::MAX)
                ==> final(self).sound(),
    {
        let mut d = match self.asset(id) {
            Some(d) => d,
            None => return Err(Error::Unknown),
        };
        if d.is_frozen {
            return Err(Error::Frozen);
        }
        let existing = self.approval(id, origin, delegate);
        if amount == 0 && existing.is_none() {
            self.deposit_event(Event::ApprovedTransfer(id, origin, delegate, amount));
            return Ok(());
        }
        let mut approved = match existing {
            Some(a) => a,
            None => {
                d.approvals = d.approvals.saturating_add(1);
                Approval { amount: 0, deposit: 0 }
            },
        };
        let deposit_required = self.params.approval_deposit;
        if approved.deposit < deposit_required {
            host.reserve(origin, deposit_required - approved.deposit)?;
            self.record_call(Ghost(HostCall::Reserve(origin, (deposit_required - approved.deposit) as u128)));
            approved.deposit = deposit_required;
        }
        approved.amount = approved.amount.saturating_add(amount);
        proof {
            if self.approval_opt(id, origin, delegate) is Some {
                self.lemma_approval_counted(id, origin, delegate);
            }
        }
        self.write_approval(id, origin, delegate, Some(approved), d);
        self.deposit_event(Event::ApprovedTransfer(id, origin, delegate, amount));
        Ok(())
    }

    /// Removes the approval of `delegate` on `owner`'s funds and releases its deposit.
    fn end_approval<H: Config>(&mut self, host: &mut H, id: AssetId, owner: AccountId, delegate: AccountId)
        requires
            old(self).wf(),
            old(self).approval_map().contains_key((id, owner, delegate)),
        ensures
            final(self).wf(),
            final(self).approval_map() == old(self).approval_map().remove((id, owner, delegate)),
            final(self).asset_map() == old(self).asset_map().insert(id, AssetDetails {
                approvals: if old(self).asset_map()[id].approvals > 0 { (old(self).asset_map()[id].approvals - 1) as u32 } else { 0 },
                ..old(self).asset_map()[id]
            }),
            final(self).account_map() == old(self).account_map(),
            final(self).metadata_map() == old(self).metadata_map(),
            final(self).parameters() == old(self).parameters(),
            final(self).event_log() == old(self).event_log(),
            final(self).host_calls() == old(self).host_calls().push(HostCall::Unreserve(owner, old(self).approval_map()[(id, owner, delegate)].deposit)),
            old(self).sound() ==> final(self).sound(),
            old(self).supply_conserved() ==> final(self).supply_conserved(),
    {
        let a = self.approval(id, owner, delegate).unwrap();
        host.unreserve(owner, a.deposit);
        self.record_call(Ghost(HostCall::Unreserve(owner, a.deposit)));
        let mut d = self.asset(id).unwrap();
        d.approvals = d.approvals.saturating_sub(1);
        proof { self.lemma_approval_counted(id, owner, delegate); }
        self.write_approval(id, owner, delegate, None, d);
    }

    /// Cancels the approval of `delegate` on `origin`'s funds of `id`.
    pub fn cancel_approval<H: Config>(&mut self, host: &mut H, origin: AccountId, id: AssetId, delegate: AccountId) -> (r: Result<(), Error>)
        requires
            old(self).wf(),
        ensures
            final(self).wf(),
            r == if old(self).asset_map().contains_key(id) && old(self).approval_map().contains_key((id, origin, delegate)) {
                Ok::<(), Error>(())
            } else {
                Err(Error::Unknown)
            },
            r is Err ==> *final(self) == *old(self),
            r is Ok ==> {
                let d = old(self).asset_map()[id];
                &&& final(self).approval_map() == old(self).approval_map().remove((id, origin, delegate))
                &&& final(self).asset_map() == old(self).asset_map().insert(id, AssetDetails {
                    approvals: if d.approvals > 0 { (d.approvals - 1) as u32 } else { 0 },
                    ..d
                })
                &&& final(self).account_map() == old(self).account_map()
                &&& final(self).metadata_map() == old(self).metadata_map()
                &&& final(self).parameters() == old(self).parameters()
                &&& final(self).event_log() == old(self).event_log().push(Event::ApprovalCancelled(id, origin, delegate))
                &&& final(self).host_calls() == old(self).host_calls().push(HostCall::Unreserve(origin, old(self).approval_map()[(id, origin, delegate)].deposit))
            },
            old(self).sound() ==> final(self).sound(),
    {
        if self.asset(id).is_none() || self.approval(id, origin, delegate).is_none() {
            return Err(Error::Unknown);
        }
        self.end_approval(host, id, origin, delegate);
        self.deposit_event(Event::ApprovalCancelled(id, origin, delegate));
        Ok(())
    }

    /// Cancels the approval of `delegate` on `owner`'s funds of `id`.
    /// `maybe_check_admin` is the caller, who must then be the admin; `None`
    /// stands for the privileged origin.
    pub fn force_cancel_approval<H: Config>(
        &mut self,
        host: &mut H,
        maybe_check_admin: Option<AccountId>,
        id: AssetId,
        owner: AccountId,
        delegate: AccountId,
    ) -> (r: Result<(), Error>)
        requires
            old(self).wf(),
        ensures
            final(self).wf(),
            r == if !old(self).asset_map().contains_key(id) {
                Err::<(), Error>(Error::Unknown)
            } else if maybe_check_admin is Some && maybe_check_admin->Some_0 != old(self).asset_map()[id].admin {
                Err(Error::NoPermission)
            } else if !old(self).approval_map().contains_key((id, owner, delegate)) {
                Err(Error::Unknown)
            } else {
                Ok(())
            },
            r is Err ==> *final(self) == *old(self),
            r is Ok ==> {
                let d = old(self).asset_map()[id];
                &&& final(self).approval_map() == old(self).approval_map().remove((id, owner, delegate))
                &&& final(self).asset_map() == old(self).asset_map().insert(id, AssetDetails {
                    approvals: if d.approvals > 0 { (d.approvals - 1) as u32 } else { 0 },
                    ..d
                })
                &&& final(self).account_map() == old(self).account_map()
                &&& final(self).metadata_map() == old(self).metadata_map()
                &&& final(self).parameters() == old(self).parameters()
                &&& final(self).event_log() == old(self).event_log().push(Event::ApprovalCancelled(id, owner, delegate))
                &&& final(self).host_calls() == old(self).host_calls().push(HostCall::Unreserve(owner, old(self).approval_map()[(id, owner, delegate)].deposit))
            },
            old(self).sound() ==> final(self).sound(),
    {
        let d = match self.asset(id) {
            Some(d) => d,
            None => return Err(Error::Unknown),
        };
        if let Some(admin) = maybe_check_admin {
            if admin != d.admin {
                return Err(Error::NoPermission);
            }
        }
        if self.approval(id, owner, delegate).is_none() {
            return Err(Error::Unknown);
        }
        self.end_approval(host, id, owner, delegate);
        self.deposit_event(Event::ApprovalCancelled(id, owner, delegate));
        Ok(())
    }

    /// Transfers `amount` of `owner`'s balance of `id` to `destination` on the
    /// approval of `origin`, the delegate, and lowers the allowance by it; a
    /// used-up approval is removed and its deposit released.
    pub fn transfer_approved<H: Config>(
        &mut self,
        host: &mut H,
        origin: AccountId,
        id: AssetId,
        owner: AccountId,
        destination: AccountId,
        amount: Balance,
    ) -> (r: Result<(), Error>)
        requires
            old(self).wf(),
        ensures
            final(self).wf(),
            r is Err ==> *final(self) == *old(self),
            (old(self).approval_opt(id, owner, origin) is None
                || amount > old(self).approval_opt(id, owner, origin)->Some_0.amount)
                <==> r == Err::<(), Error>(Error::Unapproved),
            r is Ok ==> {
                let a = old(self).approval_opt(id, owner, origin)->Some_0;
                &&& old(self).approval_opt(id, owner, origin) is Some && amount <= a.amount
                &&& a.amount == amount ==> final(self).approval_map() == old(self).approval_map().remove((id, owner, origin))
                &&& a.amount > amount ==> final(self).approval_map() == old(self).approval_map().insert((id, owner, origin),
                    Approval { amount: (a.amount - amount) as Balance, ..a })
                &&& final(self).metadata_map() == old(self).metadata_map()
                &&& final(self).parameters() == old(self).parameters()
                &&& old(self).approved_transfer_happened(final(self), id, owner, origin, destination, amount)
            },
            old(self).sound() ==> final(self).sound(),
    {
        let approved = match self.approval(id, owner, origin) {
            Some(a) => a,
            None => return Err(Error::Unapproved),
        };
        if amount > approved.amount {
            return Err(Error::Unapproved);
        }
        let remaining = approved.amount - amount;
        let frozen = host.frozen_balance(id, owner);
        let providers = host.providers(destination);
        let f = TransferFlags { keep_alive: false, best_effort: false, burn_dust: false };
        let ghost old_self = *self;
        let ghost v = old_self.transfer_verdict(id, owner, destination, amount, None, plain(false), frozen, providers);
        let credit = match self.do_transfer(host, id, owner, destination, amount, None, f, frozen, providers) {
            Ok(c) => c,
            Err(e) => {
                proof { assert(v != Err::<(Balance, Balance, Option<Balance>), Error>(Error::Unapproved)); }
                return Err(e);
            },
        };
        let ghost after = *self;
        proof {
            assert(self.approval_map() == old_self.approval_map());
        }
        if remaining == 0 {
            self.end_approval(host, id, owner, origin);
        } else {
            let d = self.asset(id).unwrap();
            self.write_approval(id, owner, origin, Some(Approval { amount: remaining, ..approved }), d);
            proof {
                if after.sound() {
                    after.lemma_approval_counted(id, owner, origin);
                }
            }
        }
        self.deposit_event(Event::TransferredApproved(id, owner, origin, destination, amount));
        proof {
            let moves = amount > 0 && owner != destination;
            let d = if moves { old_self.transferred_asset(id, owner, destination, v->Ok_0.0, v->Ok_0.2) } else { old_self.asset_map()[id] };
            assert(after.asset_map() == old_self.asset_map().insert(id, d));
            assert(after.asset_map()[id] == d);
            assert(self.asset_map() =~= old_self.asset_map().insert(id, AssetDetails {
                approvals: if remaining == 0 { if d.approvals > 0 { (d.approvals - 1) as u32 } else { 0 } } else { d.approvals },
                ..d
            }));
            assert(self.host_calls() =~= old_self.host_calls()
                + (if moves { old_self.credit_calls(id, destination) + old_self.debit_calls(id, owner, v->Ok_0.0) } else { Seq::empty() })
                + (if remaining == 0 { seq![HostCall::Unreserve(owner, approved.deposit)] } else { Seq::empty() }));
        }
        Ok(())
    }

    /// The effects of a successful spend of `amount` from the approval of
    /// `delegate` on `owner`'s funds, for some answer of the collaborators:
    /// the transfer, the lowered allowance and, when it is used up, the
    /// released bond and the lowered approvals counter.
    pub open spec fn approved_transfer_happened(
        &self,
        after: &Pallet,
        id: AssetId,
        owner: AccountId,
        delegate: AccountId,
        destination: AccountId,
        amount: Balance,
    ) -> bool {
        let a = self.approval_opt(id, owner, delegate)->Some_0;
        let used_up = a.amount == amount;
        exists|fz: Option<Balance>, p: u32| {
            let v = #[trigger] self.transfer_verdict(id, owner, destination, amount, None, plain(false), fz, p);
            let moves = amount > 0 && owner != destination;
            let d = if moves { self.transferred_asset(id, owner, destination, v->Ok_0.0, v->Ok_0.2) } else { self.asset_map()[id] };
            &&& amount > 0 ==> v is Ok
            &&& after.account_map() == if moves {
                self.transferred_accounts(id, owner, destination, v->Ok_0.0, v->Ok_0.1)
            } else {
                self.account_map()
            }
            &&& after.asset_map() == self.asset_map().insert(id, AssetDetails {
                approvals: if used_up { if d.approvals > 0 { (d.approvals - 1) as u32 } else { 0 } } else { d.approvals },
                ..d
            })
            &&& after.host_calls() == self.host_calls()
                + (if moves { self.credit_calls(id, destination) + self.debit_calls(id, owner, v->Ok_0.0) } else { Seq::empty() })
                + (if used_up { seq![HostCall::Unreserve(owner, a.deposit)] } else { Seq::empty() })
            &&& after.event_log() == self.event_log()
                .push(Event::Transferred(id, owner, destination, if amount > 0 { v->Ok_0.1 } else { 0 }))
                .push(Event::TransferredApproved(id, owner, delegate, destination, amount))
        }
    }
}

} // verus!
