//! The side-car payload that another component keeps on a balance record,
//! read and written through one scoped handle.
use vstd::prelude::*;

use crate::store::Pallet;
use crate::types::{AccountId, AssetBalance, AssetId, Error, Extra};

verus! {

impl Pallet {
    /// Writes `extra` into the existing record of `who`, keeping all else.
    fn set_extra(&mut self, id: AssetId, who: AccountId, extra: Extra)
        requires
            old(self).wf(),
            old(self).account_map().contains_key((id, who)),
        ensures
            final(self).wf(),
            final(self).account_map() == old(self).account_map().insert((id, who),
                AssetBalance { extra, ..old(self).account_map()[(id, who)] }),
            final(self).asset_map() == old(self).asset_map(),
            final(self).approval_map() == old(self).approval_map(),
            final(self).metadata_map() == old(self).metadata_map(),
            final(self).parameters() == old(self).parameters(),
            final(self).event_log() == old(self).event_log(),
            final(self).host_calls() == old(self).host_calls(),
            old(self).sound() ==> final(self).sound(),
    {
        let mut rec = self.balance_of(id, who);
        rec.extra = extra;
        let ghost old_self = *self;
        self.put_account(id, who, rec);
        proof {
            assert forall|k: (AssetId, AccountId)| #[trigger] self.account_map().contains_key(k)
                implies self.asset_map().contains_key(k.0) by {
                assert(old_self.account_map().contains_key(k));
            }
            assert forall|k: (AssetId, AccountId, AccountId)| #[trigger] self.approval_map().contains_key(k)
                implies self.asset_map().contains_key(k.0) by {
                assert(old_self.approval_map().contains_key(k));
            }
            assert forall|x: AssetId| #[trigger] self.metadata_map().contains_key(x)
                implies self.asset_map().contains_key(x) by {
                assert(old_self.metadata_map().contains_key(x));
            }
            if old_self.sound() {
                assert forall|x: AssetId| #[trigger] self.asset_map().contains_key(x) implies {
                    &&& self.asset_map()[x].supply == self.balance_total(x)
                    &&& self.asset_map()[x].accounts == self.holder_count(x)
                    &&& self.asset_map()[x].sufficients == self.sufficient_count(x)
                    &&& self.asset_map()[x].approvals == self.approval_count(x)
                } by {
                    assert(old_self.asset_map().contains_key(x));
                }
                assert forall|k: (AssetId, AccountId)| #[trigger] self.account_map().contains_key(k)
                    implies self.account_map()[k].balance >= self.asset_map()[k.0].min_balance
                        && self.account_map()[k].balance > 0 by {
                    assert(old_self.account_map().contains_key(k));
                }
            }
        }
    }

    /// The side-car payload of `who` in asset `id`; zero without a record.
    pub fn get(&self, id_who: (AssetId, AccountId)) -> (r: Extra)
        requires
            self.wf(),
        ensures
            r == self.record_of(id_who.0, id_who.1).extra,
    {
        self.balance_of(id_who.0, id_who.1).extra
    }

    /// Writes the payload `maybe_extra` to the record of `who` in asset `id`;
    /// `None` asks for its removal, which only an absent record satisfies.
    pub fn try_mutate_exists(&mut self, id: AssetId, who: AccountId, maybe_extra: Option<Extra>) -> (r: Result<(), Error>)
        requires
            old(self).wf(),
        ensures
            final(self).wf(),
            r == match maybe_extra {
                Some(_) => if old(self).account_map().contains_key((id, who)) { Ok::<(), Error>(()) } else { Err(Error::NoProviders) },
                None => if old(self).account_map().contains_key((id, who)) { Err::<(), Error>(Error::ConsumerRemaining) } else { Ok(()) },
            },
            maybe_extra is Some && r is Ok ==> final(self).account_map() == old(self).account_map().insert((id, who),
                AssetBalance { extra: maybe_extra->Some_0, ..old(self).account_map()[(id, who)] }),
            !(maybe_extra is Some && r is Ok) ==> *final(self) == *old(self),
            final(self).asset_map() == old(self).asset_map(),
            final(self).event_log() == old(self).event_log(),
            final(self).host_calls() == old(self).host_calls(),
            old(self).sound() ==> final(self).sound(),
    {
        let exists = self.contains_account(id, who);
        match maybe_extra {
            Some(extra) => {
                if exists {
                    self.set_extra(id, who, extra);
                    Ok(())
                } else {
                    Err(Error::NoProviders)
                }
            },
            None => {
                if exists {
                    Err(Error::ConsumerRemaining)
                } else {
                    Ok(())
                }
            },
        }
    }

    /// A handle on the payload of `who` in asset `id`, if the record exists.
    pub fn adjust_extra(&self, id: AssetId, who: AccountId) -> (r: Option<ExtraMutator>)
        requires
            self.wf(),
        ensures
            match r {
                Some(m) => self.account_map().contains_key((id, who)) && m.target() == (id, who)
                    && m.snapshot() == self.account_map()[(id, who)].extra && m.pending() is None,
                None => !self.account_map().contains_key((id, who)),
            },
    {
        ExtraMutator::maybe_new(self, id, who)
    }
}

/// A scoped handle on the payload of one balance record. Reads see the
/// pending value, or the snapshot; `commit` writes the pending value back,
/// `revert` restores the snapshot.
pub struct ExtraMutator {
    id: AssetId,
    who: AccountId,
    snapshot: Extra,
    pending: Option<Extra>,
}

impl ExtraMutator {
    /// The asset and account the handle is bound to.
    pub closed spec fn target(&self) -> (AssetId, AccountId) {
        (self.id, self.who)
    }

    /// The payload when the handle was taken.
    pub closed spec fn snapshot(&self) -> Extra {
        self.snapshot
    }

    /// The value written and not yet committed, if any.
    pub closed spec fn pending(&self) -> Option<Extra> {
        self.pending
    }

    /// A handle on the record of `who` in asset `id`, if it exists.
    pub fn maybe_new(pallet: &Pallet, id: AssetId, who: AccountId) -> (r: Option<ExtraMutator>)
        requires
            pallet.wf(),
        ensures
            match r {
                Some(m) => pallet.account_map().contains_key((id, who)) && m.target() == (id, who)
                    && m.snapshot() == pallet.account_map()[(id, who)].extra && m.pending() is None,
                None => !pallet.account_map().contains_key((id, who)),
            },
    {
        if pallet.contains_account(id, who) {
            Some(ExtraMutator { id, who, snapshot: pallet.balance_of(id, who).extra, pending: None })
        } else {
            None
        }
    }

    /// The pending value, or the snapshot.
    pub fn read(&self) -> (r: Extra)
        ensures
            r == match self.pending() {
                Some(v) => v,
                None => self.snapshot(),
            },
    {
        match self.pending {
            Some(v) => v,
            None => self.snapshot,
        }
    }

    /// Replaces the pending value.
    pub fn write(&mut self, value: Extra)
        ensures
            final(self).pending() == Some(value),
            final(self).snapshot() == old(self).snapshot(),
            final(self).target() == old(self).target(),
    {
        self.pending = Some(value);
    }

    /// Writes the pending value, if any, into the record; fails if the record
    /// no longer exists. Nothing is pending afterwards.
    pub fn commit(&mut self, pallet: &mut Pallet) -> (r: Result<(), ()>)
        requires
            old(pallet).wf(),
        ensures
            final(pallet).wf(),
            final(self).pending() is None,
            final(self).snapshot() == old(self).snapshot(),
            final(self).target() == old(self).target(),
            ({
                let k = old(self).target();
                match old(self).pending() {
                    None => r is Ok && *final(pallet) == *old(pallet),
                    Some(v) => if old(pallet).account_map().contains_key(k) {
                        &&& r is Ok
                        &&& final(pallet).account_map() == old(pallet).account_map().insert(k,
                            AssetBalance { extra: v, ..old(pallet).account_map()[k] })
                        &&& final(pallet).asset_map() == old(pallet).asset_map()
                        &&& final(pallet).event_log() == old(pallet).event_log()
                        &&& final(pallet).host_calls() == old(pallet).host_calls()
                    } else {
                        r is Err && *final(pallet) == *old(pallet)
                    },
                }
            }),
            old(pallet).sound() ==> final(pallet).sound(),
    {
        match self.pending.take() {
            Some(extra) => {
                if pallet.contains_account(self.id, self.who) {
                    pallet.set_extra(self.id, self.who, extra);
                    Ok(())
                } else {
                    Err(())
                }
            },
            None => Ok(()),
        }
    }

    /// Discards the pending value and restores the snapshot, also
    /// over an earlier commit; fails if the record no longer exists.
    pub fn revert(self, pallet: &mut Pallet) -> (r: Result<(), ()>)
        requires
            old(pallet).wf(),
        ensures
            final(pallet).wf(),
            ({
                let k = self.target();
                if old(pallet).account_map().contains_key(k) {
                    &&& r is Ok
                    &&& final(pallet).account_map() == old(pallet).account_map().insert(k,
                        AssetBalance { extra: self.snapshot(), ..old(pallet).account_map()[k] })
                    &&& final(pallet).asset_map() == old(pallet).asset_map()
                    &&& final(pallet).event_log() == old(pallet).event_log()
                    &&& final(pallet).host_calls() == old(pallet).host_calls()
                } else {
                    r is Err && *final(pallet) == *old(pallet)
                }
            }),
            old(pallet).sound() ==> final(pallet).sound(),
    {
        if pallet.contains_account(self.id, self.who) {
            pallet.set_extra(self.id, self.who, self.snapshot);
            Ok(())
        } else {
            Err(())
        }
    }
}

} // verus!
