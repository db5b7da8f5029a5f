//! Names, symbols and decimals of asset classes, bonded by a deposit that
//! grows with their length.
use vstd::prelude::*;

use crate::host::Config;
use crate::store::Pallet;
use crate::types::{HostCall, AccountId, AssetId, AssetMetadata, DepositBalance, Error, Event, Parameters};

verus! {

/// `a * b`, or the largest value where the product does not fit.
pub open spec fn sat_mul(a: u128, b: u128) -> u128 {
    if a * b > u128::MAX { u128::MAX } else { (a * b) as u128 }
}

/// `a + b`, or the largest value where the sum does not fit.
pub open spec fn sat_add(a: u128, b: u128) -> u128 {
    if a + b > u128::MAX { u128::MAX } else { (a + b) as u128 }
}

/// The deposit for metadata of `bytes` bytes of name and symbol.
pub open spec fn metadata_deposit_for(p: Parameters, bytes: nat) -> DepositBalance {
    if bytes > u128::MAX { u128::MAX } else { sat_add(sat_mul(p.metadata_deposit_per_byte, bytes as u128), p.metadata_deposit_base) }
}

fn saturating_mul(a: u128, b: u128) -> (r: u128)
    ensures
        r == sat_mul(a, b),
{
    match a.checked_mul(b) {
        Some(p) => p,
        None => u128::MAX,
    }
}

/// The bytes of `v`, copied.
fn copy_bytes(v: &Vec<u8>) -> (r: Vec<u8>)
    ensures
        r@ == v@,
{
    let r = v.clone();
    proof { assert(r@ =~= v@); }
    r
}

impl Pallet {
    /// The first check that refuses an owner's change of the metadata of `id`.
    pub open spec fn metadata_verdict(&self, origin: AccountId, id: AssetId, name_len: nat, symbol_len: nat) -> Result<(), Error> {
        if name_len > self.parameters().string_limit || symbol_len > self.parameters().string_limit {
            Err(Error::BadMetadata)
        } else if !self.asset_map().contains_key(id) {
            Err(Error::Unknown)
        } else if origin != self.asset_map()[id].owner {
            Err(Error::NoPermission)
        } else if self.metadata_map().contains_key(id) && self.metadata_map()[id].is_frozen {
            Err(Error::NoPermission)
        } else {
            Ok(())
        }
    }

    /// The deposit held for the metadata of asset `id`; zero when there is none.
    pub open spec fn metadata_bond(&self, id: AssetId) -> DepositBalance {
        if self.metadata_map().contains_key(id) { self.metadata_map()[id].deposit } else { 0 }
    }

    /// The bond change when the metadata of `id` becomes `bytes` long: a
    /// reserve of the increase, or a release of the rest.
    pub open spec fn metadata_rebond(&self, origin: AccountId, id: AssetId, bytes: nat) -> HostCall {
        let new_deposit = metadata_deposit_for(self.parameters(), bytes);
        let old_deposit = self.metadata_bond(id);
        if new_deposit > old_deposit {
            HostCall::Reserve(origin, (new_deposit - old_deposit) as DepositBalance)
        } else {
            HostCall::Unreserve(origin, (old_deposit - new_deposit) as DepositBalance)
        }
    }

    /// Sets the metadata of asset `id`, reserving from `origin` what the new
    /// deposit exceeds the old one by, or releasing the difference; `origin`
    /// must be the owner and the metadata must not be frozen.
    pub fn set_metadata<H: Config>(
        &mut self,
        host: &mut H,
        origin: AccountId,
        id: AssetId,
        name: Vec<u8>,
        symbol: Vec<u8>,
        decimals: u8,
    ) -> (r: Result<(), Error>)
        requires
            old(self).wf(),
        ensures
            final(self).wf(),
            r is Err ==> *final(self) == *old(self),
            old(self).metadata_verdict(origin, id, name@.len(), symbol@.len()) is Err
                ==> r == old(self).metadata_verdict(origin, id, name@.len(), symbol@.len()),
            r is Ok ==> {
                let m = final(self).metadata_map()[id];
                &&& old(self).metadata_verdict(origin, id, name@.len(), symbol@.len()) is Ok
                &&& final(self).metadata_map() == old(self).metadata_map().insert(id, m)
                &&& m.deposit == metadata_deposit_for(old(self).parameters(), name@.len() + symbol@.len())
                &&& m.name@ == name@ && m.symbol@ == symbol@ && m.decimals == decimals && !m.is_frozen
                &&& final(self).asset_map() == old(self).asset_map()
                &&& final(self).account_map() == old(self).account_map()
                &&& final(self).approval_map() == old(self).approval_map()
                &&& final(self).parameters() == old(self).parameters()
                &&& final(self).event_log() == old(self).event_log().push(Event::MetadataSet(id, name, symbol, decimals, false))
                &&& final(self).host_calls() == old(self).host_calls().push(old(self).metadata_rebond(origin, id, name@.len() + symbol@.len()))
            },
            old(self).metadata_verdict(origin, id, name@.len(), symbol@.len()) is Ok
                && metadata_deposit_for(old(self).parameters(), name@.len() + symbol@.len()) <= old(self).metadata_bond(id)
                ==> r is Ok,
            old(self).sound() ==> final(self).sound(),
    {
        let limit = self.params.string_limit as usize;
        if name.len() > limit || symbol.len() > limit {
            return Err(Error::BadMetadata);
        }
        let d = match self.asset(id) {
            Some(d) => d,
            None => return Err(Error::Unknown),
        };
        if origin != d.owner {
            return Err(Error::NoPermission);
        }
        let old_deposit = match self.metadata(id) {
            Some(m) => {
                if m.is_frozen {
                    return Err(Error::NoPermission);
                }
                m.deposit
            },
            None => 0,
        };
        let bytes = name.len() as u128 + symbol.len() as u128;
        let new_deposit = saturating_mul(self.params.metadata_deposit_per_byte, bytes).saturating_add(self.params.metadata_deposit_base);
        if new_deposit > old_deposit {
            host.reserve(origin, new_deposit - old_deposit)?;
            self.record_call(Ghost(HostCall::Reserve(origin, (new_deposit - old_deposit) as u128)));
        } else {
            host.unreserve(origin, old_deposit - new_deposit);
            self.record_call(Ghost(HostCall::Unreserve(origin, (old_deposit - new_deposit) as u128)));
        }
        self.store_metadata(id, AssetMetadata {
            deposit: new_deposit,
            name: copy_bytes(&name),
            symbol: copy_bytes(&symbol),
            decimals,
            is_frozen: false,
        });
        self.deposit_event(Event::MetadataSet(id, name, symbol, decimals, false));
        Ok(())
    }

    /// Writes the metadata of an existing asset.
    fn store_metadata(&mut self, id: AssetId, m: AssetMetadata)
        requires
            old(self).wf(),
            old(self).asset_map().contains_key(id),
        ensures
            final(self).wf(),
            final(self).metadata_map() == old(self).metadata_map().insert(id, m),
            final(self).same_except_metadata(old(self)),
            final(self).event_log() == old(self).event_log(),
            final(self).host_calls() == old(self).host_calls(),
            old(self).sound() ==> final(self).sound(),
    {
        let ghost old_self = *self;
        self.put_metadata(id, m);
        proof { self.lemma_metadata_only(&old_self); }
    }

    /// Removes the metadata of an asset, returning it.
    fn drop_metadata(&mut self, id: AssetId) -> (r: Option<AssetMetadata>)
        requires
            old(self).wf(),
        ensures
            final(self).wf(),
            final(self).metadata_map() == old(self).metadata_map().remove(id),
            match r {
                Some(m) => old(self).metadata_map().contains_key(id) && m == old(self).metadata_map()[id],
                None => !old(self).metadata_map().contains_key(id),
            },
            final(self).same_except_metadata(old(self)),
            final(self).event_log() == old(self).event_log(),
            final(self).host_calls() == old(self).host_calls(),
            old(self).sound() ==> final(self).sound(),
    {
        let ghost old_self = *self;
        let r = self.take_metadata(id);
        proof { self.lemma_metadata_only(&old_self); }
        r
    }

    /// Assets, balances, approvals and parameters are as in `other`.
    pub open spec fn same_except_metadata(&self, other: &Pallet) -> bool {
        &&& self.asset_map() == other.asset_map()
        &&& self.account_map() == other.account_map()
        &&& self.approval_map() == other.approval_map()
        &&& self.parameters() == other.parameters()
    }

    /// Clears the metadata of asset `id` and releases its deposit to the owner;
    /// `origin` must be the owner.
    pub fn clear_metadata<H: Config>(&mut self, host: &mut H, origin: AccountId, id: AssetId) -> (r: Result<(), Error>)
        requires
            old(self).wf(),
        ensures
            final(self).wf(),
            r == if !old(self).asset_map().contains_key(id) {
                Err::<(), Error>(Error::Unknown)
            } else if origin != old(self).asset_map()[id].owner {
                Err(Error::NoPermission)
            } else if !old(self).metadata_map().contains_key(id) {
                Err(Error::Unknown)
            } else {
                Ok(())
            },
            r is Err ==> *final(self) == *old(self),
            r is Ok ==> {
                &&& final(self).metadata_map() == old(self).metadata_map().remove(id)
                &&& final(self).same_except_metadata(old(self))
                &&& final(self).event_log() == old(self).event_log().push(Event::MetadataCleared(id))
                &&& final(self).host_calls() == old(self).host_calls().push(HostCall::Unreserve(old(self).asset_map()[id].owner, old(self).metadata_map()[id].deposit))
            },
            old(self).sound() ==> final(self).sound(),
    {
        let d = match self.asset(id) {
            Some(d) => d,
            None => return Err(Error::Unknown),
        };
        if origin != d.owner {
            return Err(Error::NoPermission);
        }
        if self.metadata(id).is_none() {
            return Err(Error::Unknown);
        }
        let m = self.drop_metadata(id).unwrap();
        host.unreserve(d.owner, m.deposit);
        self.record_call(Ghost(HostCall::Unreserve(d.owner, m.deposit)));
        self.deposit_event(Event::MetadataCleared(id));
        Ok(())
    }

    /// Sets the metadata of asset `id`, keeping any deposit as it is. The
    /// caller must hold the privileged origin.
    pub fn force_set_metadata(
        &mut self,
        id: AssetId,
        name: Vec<u8>,
        symbol: Vec<u8>,
        decimals: u8,
        is_frozen: bool,
    ) -> (r: Result<(), Error>)
        requires
            old(self).wf(),
        ensures
            final(self).wf(),
            r == if name@.len() > old(self).parameters().string_limit || symbol@.len() > old(self).parameters().string_limit {
                Err::<(), Error>(Error::BadMetadata)
            } else if !old(self).asset_map().contains_key(id) {
                Err(Error::Unknown)
            } else {
                Ok(())
            },
            r is Err ==> *final(self) == *old(self),
            r is Ok ==> {
                let m = final(self).metadata_map()[id];
                &&& final(self).metadata_map() == old(self).metadata_map().insert(id, m)
                &&& m.deposit == if old(self).metadata_map().contains_key(id) { old(self).metadata_map()[id].deposit } else { 0 }
                &&& m.name@ == name@ && m.symbol@ == symbol@ && m.decimals == decimals && m.is_frozen == is_frozen
                &&& final(self).same_except_metadata(old(self))
                &&& final(self).event_log() == old(self).event_log().push(Event::MetadataSet(id, name, symbol, decimals, is_frozen))
                &&& final(self).host_calls() == old(self).host_calls()
            },
            old(self).sound() ==> final(self).sound(),
    {
        let limit = self.params.string_limit as usize;
        if name.len() > limit || symbol.len() > limit {
            return Err(Error::BadMetadata);
        }
        if self.asset(id).is_none() {
            return Err(Error::Unknown);
        }
        let deposit = self.metadata_deposit(id);
        self.store_metadata(id, AssetMetadata {
            deposit,
            name: copy_bytes(&name),
            symbol: copy_bytes(&symbol),
            decimals,
            is_frozen,
        });
        self.deposit_event(Event::MetadataSet(id, name, symbol, decimals, is_frozen));
        Ok(())
    }

    /// Clears the metadata of asset `id` and releases its deposit to the
    /// owner. The caller must hold the privileged origin.
    pub fn force_clear_metadata<H: Config>(&mut self, host: &mut H, id: AssetId) -> (r: Result<(), Error>)
        requires
            old(self).wf(),
        ensures
            final(self).wf(),
            r == if !old(self).asset_map().contains_key(id) || !old(self).metadata_map().contains_key(id) {
                Err::<(), Error>(Error::Unknown)
            } else {
                Ok(())
            },
            r is Err ==> *final(self) == *old(self),
            r is Ok ==> {
                &&& final(self).metadata_map() == old(self).metadata_map().remove(id)
                &&& final(self).same_except_metadata(old(self))
                &&& final(self).event_log() == old(self).event_log().push(Event::MetadataCleared(id))
                &&& final(self).host_calls() == old(self).host_calls().push(HostCall::Unreserve(old(self).asset_map()[id].owner, old(self).metadata_map()[id].deposit))
            },
            old(self).sound() ==> final(self).sound(),
    {
        let d = match self.asset(id) {
            Some(d) => d,
            None => return Err(Error::Unknown),
        };
        if self.metadata(id).is_none() {
            return Err(Error::Unknown);
        }
        let m = self.drop_metadata(id).unwrap();
        host.unreserve(d.owner, m.deposit);
        self.record_call(Ghost(HostCall::Unreserve(d.owner, m.deposit)));
        self.deposit_event(Event::MetadataCleared(id));
        Ok(())
    }
}

} // verus!
