//! The ledger's four tables and their mathematical model. Every other module
//! reads and writes the tables only through the functions here.
use vstd::prelude::*;

use crate::table::{entries_map, has_key, keys_unique, lemma_entry_in_map, lemma_entry_le_tally, lemma_tally_nonnegative, lemma_tally_zero, lemma_tally_le, lemma_key_in_entries, lemma_push, lemma_remove, lemma_update, tally};
use crate::types::{empty_balance, HostCall, AccountId, Approval, AssetBalance, AssetDetails, AssetId, AssetMetadata, Event, Parameters};

verus! {

/// The weight of a balance record in the total of asset `id`.
pub open spec fn balance_weight(id: AssetId) -> spec_fn((AssetId, AccountId), AssetBalance) -> int {
    |k: (AssetId, AccountId), v: AssetBalance| if k.0 == id { v.balance as int } else { 0 }
}

/// The weight of a balance record in the number of holders of asset `id`.
pub open spec fn holder_weight(id: AssetId) -> spec_fn((AssetId, AccountId), AssetBalance) -> int {
    |k: (AssetId, AccountId), v: AssetBalance| if k.0 == id { 1int } else { 0 }
}

/// The weight of a balance record in the number of self-sufficient holders of asset `id`.
pub open spec fn sufficient_weight(id: AssetId) -> spec_fn((AssetId, AccountId), AssetBalance) -> int {
    |k: (AssetId, AccountId), v: AssetBalance| if k.0 == id && v.sufficient { 1int } else { 0 }
}

/// The weight of an approval in the number of approvals of asset `id`.
pub open spec fn approval_weight(id: AssetId) -> spec_fn((AssetId, AccountId, AccountId), Approval) -> int {
    |k: (AssetId, AccountId, AccountId), v: Approval| if k.0 == id { 1int } else { 0 }
}

/// The ledger: asset classes, balances, approvals and metadata, and the events
/// that successful operations emitted.
pub struct Pallet {
    pub(crate) params: Parameters,
    pub(crate) assets: Vec<(AssetId, AssetDetails)>,
    pub(crate) accounts: Vec<((AssetId, AccountId), AssetBalance)>,
    pub(crate) approvals: Vec<((AssetId, AccountId, AccountId), Approval)>,
    pub(crate) metadata: Vec<(AssetId, AssetMetadata)>,
    pub(crate) events: Vec<Event>,
    pub(crate) calls: Ghost<Seq<HostCall>>,
}

impl Pallet {
    /// The asset classes by id.
    pub open(crate) spec fn asset_map(&self) -> Map<AssetId, AssetDetails> {
        entries_map(self.assets@)
    }

    /// The balance records by asset and account.
    pub open(crate) spec fn account_map(&self) -> Map<(AssetId, AccountId), AssetBalance> {
        entries_map(self.accounts@)
    }

    /// The approvals by asset, owner and delegate.
    pub open(crate) spec fn approval_map(&self) -> Map<(AssetId, AccountId, AccountId), Approval> {
        entries_map(self.approvals@)
    }

    /// The metadata by asset.
    pub open(crate) spec fn metadata_map(&self) -> Map<AssetId, AssetMetadata> {
        entries_map(self.metadata@)
    }

    /// The events emitted so far, oldest first.
    pub open(crate) spec fn event_log(&self) -> Seq<Event> {
        self.events@
    }

    /// The requests granted by the collaborators so far, oldest first.
    pub open(crate) spec fn host_calls(&self) -> Seq<HostCall> {
        self.calls@
    }

    /// The configured deposits and limits.
    pub open(crate) spec fn parameters(&self) -> Parameters {
        self.params
    }

    /// The sum of all balances of asset `id`.
    pub open(crate) spec fn balance_total(&self, id: AssetId) -> int {
        tally(self.accounts@, balance_weight(id))
    }

    /// The number of balance records of asset `id`.
    pub open(crate) spec fn holder_count(&self, id: AssetId) -> int {
        tally(self.accounts@, holder_weight(id))
    }

    /// The number of balance records of asset `id` flagged as self-sufficient.
    pub open(crate) spec fn sufficient_count(&self, id: AssetId) -> int {
        tally(self.accounts@, sufficient_weight(id))
    }

    /// The number of approvals of asset `id`.
    pub open(crate) spec fn approval_count(&self, id: AssetId) -> int {
        tally(self.approvals@, approval_weight(id))
    }

    pub open(crate) spec fn tables_unique(&self) -> bool {
        &&& keys_unique(self.assets@)
        &&& keys_unique(self.accounts@)
        &&& keys_unique(self.approvals@)
        &&& keys_unique(self.metadata@)
    }

    /// The tables are consistent: one entry per key, and no record outlives its asset.
    pub open spec fn wf(&self) -> bool {
        &&& self.tables_unique()
        &&& forall|k: (AssetId, AccountId)| #[trigger] self.account_map().contains_key(k) ==> self.asset_map().contains_key(k.0)
        &&& forall|k: (AssetId, AccountId, AccountId)| #[trigger] self.approval_map().contains_key(k) ==> self.asset_map().contains_key(k.0)
        &&& forall|id: AssetId| #[trigger] self.metadata_map().contains_key(id) ==> self.asset_map().contains_key(id)
    }

    /// Each asset's supply is the sum of its balances.
    pub open spec fn supply_conserved(&self) -> bool {
        forall|id: AssetId| #[trigger] self.asset_map().contains_key(id) ==> self.asset_map()[id].supply == self.balance_total(id)
    }

    /// Each asset's counters match the records that exist.
    pub open spec fn counters_match(&self) -> bool {
        forall|id: AssetId| #[trigger] self.asset_map().contains_key(id) ==> {
            &&& self.asset_map()[id].accounts == self.holder_count(id)
            &&& self.asset_map()[id].sufficients == self.sufficient_count(id)
            &&& self.asset_map()[id].approvals == self.approval_count(id)
        }
    }

    /// Every minimum balance and every recorded balance is positive, so an
    /// account holds something exactly when it has a record.
    pub open spec fn balances_positive(&self) -> bool {
        &&& forall|id: AssetId| #[trigger] self.asset_map().contains_key(id) ==> self.asset_map()[id].min_balance > 0
        &&& forall|k: (AssetId, AccountId)| #[trigger] self.account_map().contains_key(k) ==> self.account_map()[k].balance > 0
    }

    /// No record holds less than its asset's minimum balance.
    pub open spec fn above_minimum(&self) -> bool {
        forall|k: (AssetId, AccountId)| #[trigger] self.account_map().contains_key(k)
            ==> self.account_map()[k].balance >= self.asset_map()[k.0].min_balance
    }

    /// All the laws the accounting operations keep.
    pub open spec fn sound(&self) -> bool {
        &&& self.supply_conserved()
        &&& self.counters_match()
        &&& self.balances_positive()
        &&& self.above_minimum()
    }

    /// The details of asset `id`, if it exists.
    pub open spec fn asset_opt(&self, id: AssetId) -> Option<AssetDetails> {
        if self.asset_map().contains_key(id) { Some(self.asset_map()[id]) } else { None }
    }

    /// The record of `who` in asset `id`; an account without one reads as empty.
    pub open spec fn record_of(&self, id: AssetId, who: AccountId) -> AssetBalance {
        if self.account_map().contains_key((id, who)) { self.account_map()[(id, who)] } else { empty_balance() }
    }

    /// The approval of `delegate` on `owner`'s funds, if any.
    pub open spec fn approval_opt(&self, id: AssetId, owner: AccountId, delegate: AccountId) -> Option<Approval> {
        if self.approval_map().contains_key((id, owner, delegate)) {
            Some(self.approval_map()[(id, owner, delegate)])
        } else {
            None
        }
    }

    /// An empty ledger with the given deposits and limits.
    pub fn new(params: Parameters) -> (p: Pallet)
        ensures
            p.wf(),
            p.sound(),
            p.parameters() == params,
            p.asset_map() == Map::<AssetId, AssetDetails>::empty(),
            p.account_map() == Map::<(AssetId, AccountId), AssetBalance>::empty(),
            p.approval_map() == Map::<(AssetId, AccountId, AccountId), Approval>::empty(),
            p.metadata_map() == Map::<AssetId, AssetMetadata>::empty(),
            p.event_log() == Seq::<Event>::empty(),
            p.host_calls() == Seq::<HostCall>::empty(),
    {
        let p = Pallet {
            params,
            assets: Vec::new(),
            accounts: Vec::new(),
            approvals: Vec::new(),
            metadata: Vec::new(),
            events: Vec::new(),
            calls: Ghost(Seq::empty()),
        };
        assert(p.asset_map() =~= Map::empty());
        assert(p.account_map() =~= Map::empty());
        assert(p.approval_map() =~= Map::empty());
        assert(p.metadata_map() =~= Map::empty());
        p
    }

    /// The configured deposits and limits.
    pub fn params(&self) -> (r: Parameters)
        ensures
            r == self.parameters(),
    {
        self.params
    }

    /// The events emitted so far, oldest first.
    pub fn events(&self) -> (r: &Vec<Event>)
        ensures
            r@ == self.event_log(),
    {
        &self.events
    }

    pub(crate) fn deposit_event(&mut self, e: Event)
        ensures
            final(self).events@ == old(self).events@.push(e),
            final(self).assets == old(self).assets,
            final(self).accounts == old(self).accounts,
            final(self).approvals == old(self).approvals,
            final(self).metadata == old(self).metadata,
            final(self).params == old(self).params,
            final(self).calls == old(self).calls,
            final(self).same_tables(old(self)),
            old(self).wf() ==> final(self).wf(),
            old(self).sound() ==> final(self).sound(),
            old(self).supply_conserved() ==> final(self).supply_conserved(),
    {
        self.events.push(e);
    }

    /// Notes a request that a collaborator granted.
    pub(crate) fn record_call(&mut self, Ghost(c): Ghost<HostCall>)
        ensures
            final(self).calls@ == old(self).calls@.push(c),
            final(self).assets == old(self).assets,
            final(self).accounts == old(self).accounts,
            final(self).approvals == old(self).approvals,
            final(self).metadata == old(self).metadata,
            final(self).events == old(self).events,
            final(self).params == old(self).params,
            final(self).asset_map() == old(self).asset_map(),
            final(self).account_map() == old(self).account_map(),
            final(self).approval_map() == old(self).approval_map(),
            final(self).metadata_map() == old(self).metadata_map(),
            final(self).parameters() == old(self).parameters(),
            final(self).event_log() == old(self).event_log(),
            old(self).wf() ==> final(self).wf(),
            old(self).sound() ==> final(self).sound(),
            old(self).supply_conserved() ==> final(self).supply_conserved(),
    {
        let ghost before = *self;
        proof {
            self.calls@ = self.calls@.push(c);
            assert(self.asset_map() == before.asset_map());
            assert(self.account_map() == before.account_map());
            assert(self.approval_map() == before.approval_map());
            assert(self.metadata_map() == before.metadata_map());
            assert forall|x: AssetId| #[trigger] self.asset_map().contains_key(x) implies {
                &&& self.balance_total(x) == before.balance_total(x)
                &&& self.holder_count(x) == before.holder_count(x)
                &&& self.sufficient_count(x) == before.sufficient_count(x)
                &&& self.approval_count(x) == before.approval_count(x)
            } by {}
        }
    }

    /// The ledger is as it was, but for events.
    pub open spec fn same_tables(&self, other: &Pallet) -> bool {
        &&& self.asset_map() == other.asset_map()
        &&& self.account_map() == other.account_map()
        &&& self.approval_map() == other.approval_map()
        &&& self.metadata_map() == other.metadata_map()
        &&& self.parameters() == other.parameters()
        &&& self.host_calls() == other.host_calls()
    }

    // ---- asset registry ----

    fn find_asset(&self, id: AssetId) -> (r: Option<usize>)
        ensures
            match r {
                Some(i) => i < self.assets@.len() && self.assets@[i as int].0 == id,
                None => !has_key(self.assets@, id),
            },
    {
        let mut i: usize = 0;
        while i < self.assets.len()
            invariant
                i <= self.assets@.len(),
                forall|j: int| 0 <= j < i ==> #[trigger] self.assets@[j].0 != id,
            decreases self.assets@.len() - i,
        {
            if self.assets[i].0 == id {
                return Some(i);
            }
            i = i + 1;
        }
        None
    }

    /// The details of asset `id`, if it exists.
    pub fn asset(&self, id: AssetId) -> (r: Option<AssetDetails>)
        requires
            self.wf(),
        ensures
            r == self.asset_opt(id),
    {
        match self.find_asset(id) {
            Some(i) => {
                proof { lemma_entry_in_map(self.assets@, i as int); }
                Some(self.assets[i].1)
            },
            None => None,
        }
    }

    pub(crate) fn set_asset(&mut self, id: AssetId, d: AssetDetails)
        requires
            old(self).tables_unique(),
            old(self).asset_map().contains_key(id),
        ensures
            final(self).tables_unique(),
            final(self).asset_map() == old(self).asset_map().insert(id, d),
            final(self).accounts == old(self).accounts,
            final(self).approvals == old(self).approvals,
            final(self).metadata == old(self).metadata,
            final(self).events == old(self).events,
            final(self).params == old(self).params,
            final(self).calls == old(self).calls,
    {
        proof { lemma_key_in_entries(self.assets@, id); }
        let i = self.find_asset(id).unwrap();
        proof { lemma_update(self.assets@, i as int, d); }
        self.assets.set(i, (id, d));
    }

    pub(crate) fn insert_asset(&mut self, id: AssetId, d: AssetDetails)
        requires
            old(self).tables_unique(),
            !old(self).asset_map().contains_key(id),
        ensures
            final(self).tables_unique(),
            final(self).asset_map() == old(self).asset_map().insert(id, d),
            final(self).accounts == old(self).accounts,
            final(self).approvals == old(self).approvals,
            final(self).metadata == old(self).metadata,
            final(self).events == old(self).events,
            final(self).params == old(self).params,
            final(self).calls == old(self).calls,
    {
        proof { lemma_push(self.assets@, id, d); }
        self.assets.push((id, d));
    }

    pub(crate) fn remove_asset(&mut self, id: AssetId)
        requires
            old(self).tables_unique(),
            old(self).asset_map().contains_key(id),
        ensures
            final(self).tables_unique(),
            final(self).asset_map() == old(self).asset_map().remove(id),
            final(self).accounts == old(self).accounts,
            final(self).approvals == old(self).approvals,
            final(self).metadata == old(self).metadata,
            final(self).events == old(self).events,
            final(self).params == old(self).params,
            final(self).calls == old(self).calls,
    {
        proof { lemma_key_in_entries(self.assets@, id); }
        let i = self.find_asset(id).unwrap();
        proof { lemma_remove(self.assets@, i as int); }
        self.assets.remove(i);
    }

    // ---- balance records ----

    fn find_account(&self, id: AssetId, who: AccountId) -> (r: Option<usize>)
        ensures
            match r {
                Some(i) => i < self.accounts@.len() && self.accounts@[i as int].0 == (id, who),
                None => !has_key(self.accounts@, (id, who)),
            },
    {
        let mut i: usize = 0;
        while i < self.accounts.len()
            invariant
                i <= self.accounts@.len(),
                forall|j: int| 0 <= j < i ==> #[trigger] self.accounts@[j].0 != (id, who),
            decreases self.accounts@.len() - i,
        {
            let k = self.accounts[i].0;
            if k.0 == id && k.1 == who {
                return Some(i);
            }
            i = i + 1;
        }
        None
    }

    /// Whether `who` has a record in asset `id`.
    pub fn contains_account(&self, id: AssetId, who: AccountId) -> (r: bool)
        requires
            self.tables_unique(),
        ensures
            r == self.account_map().contains_key((id, who)),
    {
        match self.find_account(id, who) {
            Some(i) => {
                proof { lemma_entry_in_map(self.accounts@, i as int); }
                true
            },
            None => false,
        }
    }

    /// The record of `who` in asset `id`, or the empty record.
    pub fn balance_of(&self, id: AssetId, who: AccountId) -> (r: AssetBalance)
        requires
            self.wf(),
        ensures
            r == self.record_of(id, who),
    {
        match self.find_account(id, who) {
            Some(i) => {
                proof { lemma_entry_in_map(self.accounts@, i as int); }
                self.accounts[i].1
            },
            None => AssetBalance::empty(),
        }
    }

    pub(crate) fn put_account(&mut self, id: AssetId, who: AccountId, rec: AssetBalance)
        requires
            old(self).tables_unique(),
        ensures
            final(self).tables_unique(),
            final(self).account_map() == old(self).account_map().insert((id, who), rec),
            forall|a: AssetId| #[trigger] final(self).balance_total(a) == old(self).balance_total(a)
                + if a == id { rec.balance - old(self).record_of(id, who).balance } else { 0 },
            forall|a: AssetId| #[trigger] final(self).holder_count(a) == old(self).holder_count(a)
                + if a == id && !old(self).account_map().contains_key((id, who)) { 1int } else { 0 },
            forall|a: AssetId| #[trigger] final(self).sufficient_count(a) == old(self).sufficient_count(a)
                + if a == id { (if rec.sufficient { 1int } else { 0 }) - (if old(self).record_of(id, who).sufficient { 1int } else { 0 }) } else { 0 },
            final(self).assets == old(self).assets,
            final(self).approvals == old(self).approvals,
            final(self).metadata == old(self).metadata,
            final(self).events == old(self).events,
            final(self).params == old(self).params,
            final(self).calls == old(self).calls,
    {
        match self.find_account(id, who) {
            Some(i) => {
                proof {
                    lemma_entry_in_map(self.accounts@, i as int);
                    lemma_update(self.accounts@, i as int, rec);
                }
                self.accounts.set(i, ((id, who), rec));
            },
            None => {
                proof { lemma_push(self.accounts@, (id, who), rec); }
                self.accounts.push(((id, who), rec));
            },
        }
    }

    pub(crate) fn remove_account(&mut self, id: AssetId, who: AccountId)
        requires
            old(self).tables_unique(),
            old(self).account_map().contains_key((id, who)),
        ensures
            final(self).tables_unique(),
            final(self).account_map() == old(self).account_map().remove((id, who)),
            final(self).accounts@.len() == old(self).accounts@.len() - 1,
            forall|a: AssetId| #[trigger] final(self).balance_total(a) == old(self).balance_total(a)
                - if a == id { old(self).record_of(id, who).balance as int } else { 0 },
            forall|a: AssetId| #[trigger] final(self).holder_count(a) == old(self).holder_count(a)
                - if a == id { 1int } else { 0 },
            forall|a: AssetId| #[trigger] final(self).sufficient_count(a) == old(self).sufficient_count(a)
                - if a == id && old(self).record_of(id, who).sufficient { 1int } else { 0 },
            final(self).assets == old(self).assets,
            final(self).approvals == old(self).approvals,
            final(self).metadata == old(self).metadata,
            final(self).events == old(self).events,
            final(self).params == old(self).params,
            final(self).calls == old(self).calls,
    {
        proof { lemma_key_in_entries(self.accounts@, (id, who)); }
        let i = self.find_account(id, who).unwrap();
        proof { lemma_remove(self.accounts@, i as int); }
        self.accounts.remove(i);
    }

    // ---- approvals ----

    fn find_approval(&self, id: AssetId, owner: AccountId, delegate: AccountId) -> (r: Option<usize>)
        ensures
            match r {
                Some(i) => i < self.approvals@.len() && self.approvals@[i as int].0 == (id, owner, delegate),
                None => !has_key(self.approvals@, (id, owner, delegate)),
            },
    {
        let mut i: usize = 0;
        while i < self.approvals.len()
            invariant
                i <= self.approvals@.len(),
                forall|j: int| 0 <= j < i ==> #[trigger] self.approvals@[j].0 != (id, owner, delegate),
            decreases self.approvals@.len() - i,
        {
            let k = self.approvals[i].0;
            if k.0 == id && k.1 == owner && k.2 == delegate {
                return Some(i);
            }
            i = i + 1;
        }
        None
    }

    /// The approval of `delegate` to spend `owner`'s funds of asset `id`, if any.
    pub fn approval(&self, id: AssetId, owner: AccountId, delegate: AccountId) -> (r: Option<Approval>)
        requires
            self.wf(),
        ensures
            r == self.approval_opt(id, owner, delegate),
    {
        match self.find_approval(id, owner, delegate) {
            Some(i) => {
                proof { lemma_entry_in_map(self.approvals@, i as int); }
                Some(self.approvals[i].1)
            },
            None => None,
        }
    }

    pub(crate) fn put_approval(&mut self, id: AssetId, owner: AccountId, delegate: AccountId, a: Approval)
        requires
            old(self).tables_unique(),
        ensures
            final(self).tables_unique(),
            final(self).approval_map() == old(self).approval_map().insert((id, owner, delegate), a),
            forall|x: AssetId| #[trigger] final(self).approval_count(x) == old(self).approval_count(x)
                + if x == id && !old(self).approval_map().contains_key((id, owner, delegate)) { 1int } else { 0 },
            final(self).assets == old(self).assets,
            final(self).accounts == old(self).accounts,
            final(self).metadata == old(self).metadata,
            final(self).events == old(self).events,
            final(self).params == old(self).params,
            final(self).calls == old(self).calls,
    {
        match self.find_approval(id, owner, delegate) {
            Some(i) => {
                proof {
                    lemma_entry_in_map(self.approvals@, i as int);
                    lemma_update(self.approvals@, i as int, a);
                }
                self.approvals.set(i, ((id, owner, delegate), a));
            },
            None => {
                proof { lemma_push(self.approvals@, (id, owner, delegate), a); }
                self.approvals.push(((id, owner, delegate), a));
            },
        }
    }

    pub(crate) fn remove_approval(&mut self, id: AssetId, owner: AccountId, delegate: AccountId)
        requires
            old(self).tables_unique(),
            old(self).approval_map().contains_key((id, owner, delegate)),
        ensures
            final(self).tables_unique(),
            final(self).approval_map() == old(self).approval_map().remove((id, owner, delegate)),
            final(self).approvals@.len() == old(self).approvals@.len() - 1,
            forall|x: AssetId| #[trigger] final(self).approval_count(x) == old(self).approval_count(x)
                - if x == id { 1int } else { 0 },
            final(self).assets == old(self).assets,
            final(self).accounts == old(self).accounts,
            final(self).metadata == old(self).metadata,
            final(self).events == old(self).events,
            final(self).params == old(self).params,
            final(self).calls == old(self).calls,
    {
        proof { lemma_key_in_entries(self.approvals@, (id, owner, delegate)); }
        let i = self.find_approval(id, owner, delegate).unwrap();
        proof { lemma_remove(self.approvals@, i as int); }
        self.approvals.remove(i);
    }

    // ---- metadata ----

    fn find_metadata(&self, id: AssetId) -> (r: Option<usize>)
        ensures
            match r {
                Some(i) => i < self.metadata@.len() && self.metadata@[i as int].0 == id,
                None => !has_key(self.metadata@, id),
            },
    {
        let mut i: usize = 0;
        while i < self.metadata.len()
            invariant
                i <= self.metadata@.len(),
                forall|j: int| 0 <= j < i ==> #[trigger] self.metadata@[j].0 != id,
            decreases self.metadata@.len() - i,
        {
            if self.metadata[i].0 == id {
                return Some(i);
            }
            i = i + 1;
        }
        None
    }

    /// The metadata of asset `id`, if any was set.
    pub fn metadata(&self, id: AssetId) -> (r: Option<&AssetMetadata>)
        requires
            self.wf(),
        ensures
            match r {
                Some(m) => self.metadata_map().contains_key(id) && *m == self.metadata_map()[id],
                None => !self.metadata_map().contains_key(id),
            },
    {
        match self.find_metadata(id) {
            Some(i) => {
                proof { lemma_entry_in_map(self.metadata@, i as int); }
                Some(&self.metadata[i].1)
            },
            None => None,
        }
    }

    /// The deposit bonded for the metadata of asset `id`; zero when there is none.
    pub(crate) fn metadata_deposit(&self, id: AssetId) -> (r: u128)
        requires
            self.tables_unique(),
        ensures
            r == if self.metadata_map().contains_key(id) { self.metadata_map()[id].deposit } else { 0 },
    {
        match self.find_metadata(id) {
            Some(i) => {
                proof { lemma_entry_in_map(self.metadata@, i as int); }
                self.metadata[i].1.deposit
            },
            None => 0,
        }
    }

    pub(crate) fn put_metadata(&mut self, id: AssetId, m: AssetMetadata)
        requires
            old(self).tables_unique(),
        ensures
            final(self).tables_unique(),
            final(self).metadata_map() == old(self).metadata_map().insert(id, m),
            final(self).assets == old(self).assets,
            final(self).accounts == old(self).accounts,
            final(self).approvals == old(self).approvals,
            final(self).events == old(self).events,
            final(self).params == old(self).params,
            final(self).calls == old(self).calls,
    {
        match self.find_metadata(id) {
            Some(i) => {
                proof {
                    lemma_entry_in_map(self.metadata@, i as int);
                    lemma_update(self.metadata@, i as int, m);
                }
                self.metadata.set(i, (id, m));
            },
            None => {
                proof { lemma_push(self.metadata@, id, m); }
                self.metadata.push((id, m));
            },
        }
    }

    /// Removes the metadata of asset `id` and returns it.
    pub(crate) fn take_metadata(&mut self, id: AssetId) -> (r: Option<AssetMetadata>)
        requires
            old(self).tables_unique(),
        ensures
            final(self).tables_unique(),
            final(self).metadata_map() == old(self).metadata_map().remove(id),
            match r {
                Some(m) => old(self).metadata_map().contains_key(id) && m == old(self).metadata_map()[id],
                None => !old(self).metadata_map().contains_key(id),
            },
            final(self).assets == old(self).assets,
            final(self).accounts == old(self).accounts,
            final(self).approvals == old(self).approvals,
            final(self).events == old(self).events,
            final(self).params == old(self).params,
            final(self).calls == old(self).calls,
    {
        match self.find_metadata(id) {
            Some(i) => {
                proof {
                    lemma_entry_in_map(self.metadata@, i as int);
                    lemma_remove(self.metadata@, i as int);
                }
                let (_, m) = self.metadata.remove(i);
                Some(m)
            },
            None => {
                proof { assert(self.metadata_map().remove(id) =~= self.metadata_map()); }
                None
            },
        }
    }

    // ---- draining an asset ----

    /// Some balance record of asset `id`, if one is left.
    pub(crate) fn any_account_of(&self, id: AssetId) -> (r: Option<AccountId>)
        requires
            self.tables_unique(),
        ensures
            match r {
                Some(who) => self.account_map().contains_key((id, who)),
                None => forall|k: (AssetId, AccountId)| #[trigger] self.account_map().contains_key(k) ==> k.0 != id,
            },
    {
        let mut i: usize = 0;
        while i < self.accounts.len()
            invariant
                i <= self.accounts@.len(),
                self.tables_unique(),
                forall|j: int| 0 <= j < i ==> #[trigger] self.accounts@[j].0.0 != id,
            decreases self.accounts@.len() - i,
        {
            let k = self.accounts[i].0;
            if k.0 == id {
                proof { lemma_entry_in_map(self.accounts@, i as int); }
                return Some(k.1);
            }
            i = i + 1;
        }
        proof {
            assert forall|k: (AssetId, AccountId)| #[trigger] self.account_map().contains_key(k) implies k.0 != id by {
                let j = lemma_key_in_entries(self.accounts@, k);
            }
        }
        None
    }

    /// Some approval of asset `id`, if one is left.
    pub(crate) fn any_approval_of(&self, id: AssetId) -> (r: Option<(AccountId, AccountId)>)
        requires
            self.tables_unique(),
        ensures
            match r {
                Some(od) => self.approval_map().contains_key((id, od.0, od.1)),
                None => forall|k: (AssetId, AccountId, AccountId)| #[trigger] self.approval_map().contains_key(k) ==> k.0 != id,
            },
    {
        let mut i: usize = 0;
        while i < self.approvals.len()
            invariant
                i <= self.approvals@.len(),
                self.tables_unique(),
                forall|j: int| 0 <= j < i ==> #[trigger] self.approvals@[j].0.0 != id,
            decreases self.approvals@.len() - i,
        {
            let k = self.approvals[i].0;
            if k.0 == id {
                proof { lemma_entry_in_map(self.approvals@, i as int); }
                return Some((k.1, k.2));
            }
            i = i + 1;
        }
        proof {
            assert forall|k: (AssetId, AccountId, AccountId)| #[trigger] self.approval_map().contains_key(k) implies k.0 != id by {
                let j = lemma_key_in_entries(self.approvals@, k);
            }
        }
        None
    }

    /// One balance never exceeds the total of its asset.
    pub proof fn lemma_record_le_total(&self, id: AssetId, who: AccountId)
        requires
            self.tables_unique(),
        ensures
            self.record_of(id, who).balance <= self.balance_total(id),
    {
        let f = balance_weight(id);
        assert forall|j: int| 0 <= j < self.accounts@.len() implies #[trigger] f(self.accounts@[j].0, self.accounts@[j].1) >= 0 by {}
        if self.account_map().contains_key((id, who)) {
            let i = lemma_key_in_entries(self.accounts@, (id, who));
            lemma_entry_le_tally(self.accounts@, i, f);
        } else {
            lemma_tally_nonnegative(self.accounts@, f);
        }
    }
    /// An existing record is counted among the holders of its asset.
    pub(crate) proof fn lemma_record_counted(&self, id: AssetId, who: AccountId)
        requires
            self.tables_unique(),
            self.account_map().contains_key((id, who)),
        ensures
            self.holder_count(id) >= 1,
            self.record_of(id, who).sufficient ==> self.sufficient_count(id) >= 1,
    {
        let i = lemma_key_in_entries(self.accounts@, (id, who));
        let f = holder_weight(id);
        let g = sufficient_weight(id);
        assert forall|j: int| 0 <= j < self.accounts@.len() implies #[trigger] f(self.accounts@[j].0, self.accounts@[j].1) >= 0 by {}
        assert forall|j: int| 0 <= j < self.accounts@.len() implies #[trigger] g(self.accounts@[j].0, self.accounts@[j].1) >= 0 by {}
        lemma_entry_le_tally(self.accounts@, i, f);
        lemma_entry_le_tally(self.accounts@, i, g);
    }
    /// An asset without records has nothing in its totals.
    pub(crate) proof fn lemma_no_records(&self, id: AssetId)
        requires
            self.tables_unique(),
            forall|k: (AssetId, AccountId)| #[trigger] self.account_map().contains_key(k) ==> k.0 != id,
            forall|k: (AssetId, AccountId, AccountId)| #[trigger] self.approval_map().contains_key(k) ==> k.0 != id,
        ensures
            self.balance_total(id) == 0,
            self.holder_count(id) == 0,
            self.sufficient_count(id) == 0,
            self.approval_count(id) == 0,
    {
        assert forall|j: int| 0 <= j < self.accounts@.len() implies #[trigger] self.accounts@[j].0.0 != id by {
            lemma_entry_in_map(self.accounts@, j);
            assert(self.account_map().contains_key(self.accounts@[j].0));
        }
        assert forall|j: int| 0 <= j < self.approvals@.len() implies #[trigger] self.approvals@[j].0.0 != id by {
            lemma_entry_in_map(self.approvals@, j);
            assert(self.approval_map().contains_key(self.approvals@[j].0));
        }
        lemma_tally_zero(self.accounts@, balance_weight(id));
        lemma_tally_zero(self.accounts@, holder_weight(id));
        lemma_tally_zero(self.accounts@, sufficient_weight(id));
        lemma_tally_zero(self.approvals@, approval_weight(id));
    }
    /// Changing an asset's details, but not what its accounting rests on, keeps
    /// the tables consistent and every law.
    pub(crate) proof fn lemma_details_only(old: &Pallet, new: &Pallet, id: AssetId, d: AssetDetails)
        requires
            old.tables_unique(),
            old.asset_map().contains_key(id),
            keys_unique(new.assets@),
            new.asset_map() == old.asset_map().insert(id, d),
            new.accounts == old.accounts,
            new.approvals == old.approvals,
            new.metadata == old.metadata,
            same_accounting(old.asset_map()[id], d),
        ensures
            old.wf() ==> new.wf(),
            old.supply_conserved() ==> new.supply_conserved(),
            old.counters_match() ==> new.counters_match(),
            old.balances_positive() ==> new.balances_positive(),
            old.above_minimum() ==> new.above_minimum(),
            old.sound() ==> new.sound(),
    {
        assert forall|x: AssetId| #[trigger] new.asset_map().contains_key(x) == old.asset_map().contains_key(x) by {}
        assert forall|x: AssetId| #[trigger] new.asset_map().contains_key(x)
            implies same_accounting(old.asset_map()[x], new.asset_map()[x]) by {}
        if old.wf() {
            assert forall|k: (AssetId, AccountId)| #[trigger] new.account_map().contains_key(k)
                implies new.asset_map().contains_key(k.0) by {
                assert(old.account_map().contains_key(k));
            }
            assert forall|k: (AssetId, AccountId, AccountId)| #[trigger] new.approval_map().contains_key(k)
                implies new.asset_map().contains_key(k.0) by {
                assert(old.approval_map().contains_key(k));
            }
            assert forall|x: AssetId| #[trigger] new.metadata_map().contains_key(x)
                implies new.asset_map().contains_key(x) by {
                assert(old.metadata_map().contains_key(x));
            }
        }
        if old.balances_positive() {
            assert forall|x: AssetId| #[trigger] new.asset_map().contains_key(x)
                implies new.asset_map()[x].min_balance > 0 by {
                assert(old.asset_map().contains_key(x));
            }
        }
        if old.above_minimum() {
            assert forall|k: (AssetId, AccountId)| #[trigger] new.account_map().contains_key(k)
                implies new.account_map()[k].balance >= new.asset_map()[k.0].min_balance by {
                assert(old.account_map().contains_key(k));
            }
        }
    }
    pub(crate) fn balance_of_unchecked(&self, id: AssetId, who: AccountId) -> (r: AssetBalance)
        requires
            self.tables_unique(),
        ensures
            r == self.record_of(id, who),
    {
        match self.find_account(id, who) {
            Some(i) => {
                proof { lemma_entry_in_map(self.accounts@, i as int); }
                self.accounts[i].1
            },
            None => AssetBalance::empty(),
        }
    }

    pub(crate) fn approval_unchecked(&self, id: AssetId, owner: AccountId, delegate: AccountId) -> (r: Approval)
        requires
            self.tables_unique(),
            self.approval_map().contains_key((id, owner, delegate)),
        ensures
            r == self.approval_map()[(id, owner, delegate)],
    {
        proof { lemma_key_in_entries(self.approvals@, (id, owner, delegate)); }
        let i = self.find_approval(id, owner, delegate).unwrap();
        proof { lemma_entry_in_map(self.approvals@, i as int); }
        self.approvals[i].1
    }

    /// A change of metadata alone keeps the tables consistent and every law.
    pub(crate) proof fn lemma_metadata_only(&self, old: &Pallet)
        requires
            old.wf(),
            keys_unique(self.metadata@),
            self.assets == old.assets,
            self.accounts == old.accounts,
            self.approvals == old.approvals,
            forall|x: AssetId| #[trigger] self.metadata_map().contains_key(x) ==> self.asset_map().contains_key(x),
        ensures
            self.wf(),
            old.sound() ==> self.sound(),
    {
        assert(self.asset_map() == old.asset_map());
        assert(self.account_map() == old.account_map());
        assert(self.approval_map() == old.approval_map());
        assert forall|x: AssetId| #[trigger] self.asset_map().contains_key(x) implies {
            &&& self.balance_total(x) == old.balance_total(x)
            &&& self.holder_count(x) == old.holder_count(x)
            &&& self.sufficient_count(x) == old.sufficient_count(x)
            &&& self.approval_count(x) == old.approval_count(x)
        } by {}
    }

    /// An existing approval is counted among the approvals of its asset.
    pub(crate) proof fn lemma_approval_counted(&self, id: AssetId, owner: AccountId, delegate: AccountId)
        requires
            self.tables_unique(),
            self.approval_map().contains_key((id, owner, delegate)),
        ensures
            self.approval_count(id) >= 1,
    {
        let i = lemma_key_in_entries(self.approvals@, (id, owner, delegate));
        let f = approval_weight(id);
        assert forall|j: int| 0 <= j < self.approvals@.len() implies #[trigger] f(self.approvals@[j].0, self.approvals@[j].1) >= 0 by {}
        lemma_entry_le_tally(self.approvals@, i, f);
    }

    /// No asset has more self-sufficient holders than holders.
    pub proof fn lemma_sufficients_within_holders(&self, id: AssetId)
        ensures
            0 <= self.sufficient_count(id) <= self.holder_count(id),
    {
        let f = sufficient_weight(id);
        let g = holder_weight(id);
        assert forall|j: int| 0 <= j < self.accounts@.len() implies f(#[trigger] self.accounts@[j].0, self.accounts@[j].1)
            <= g(self.accounts@[j].0, self.accounts@[j].1) by {}
        assert forall|j: int| 0 <= j < self.accounts@.len() implies #[trigger] f(self.accounts@[j].0, self.accounts@[j].1) >= 0 by {}
        lemma_tally_le(self.accounts@, f, g);
        lemma_tally_nonnegative(self.accounts@, f);
    }

    /// Two ledgers with the same tables have the same views and totals.
    pub(crate) proof fn lemma_same_tables(a: &Pallet, b: &Pallet)
        requires
            a.assets == b.assets,
            a.accounts == b.accounts,
            a.approvals == b.approvals,
            a.metadata == b.metadata,
            a.params == b.params,
        ensures
            a.asset_map() == b.asset_map(),
            a.account_map() == b.account_map(),
            a.approval_map() == b.approval_map(),
            a.metadata_map() == b.metadata_map(),
            a.parameters() == b.parameters(),
            a.tables_unique() == b.tables_unique(),
            forall|x: AssetId| #[trigger] a.balance_total(x) == b.balance_total(x),
            forall|x: AssetId| #[trigger] a.holder_count(x) == b.holder_count(x),
            forall|x: AssetId| #[trigger] a.sufficient_count(x) == b.sufficient_count(x),
            forall|x: AssetId| #[trigger] a.approval_count(x) == b.approval_count(x),
    {
    }
}

/// Two versions of an asset's details agree on what the accounting rests on.
pub open spec fn same_accounting(a: AssetDetails, b: AssetDetails) -> bool {
    &&& a.supply == b.supply
    &&& a.min_balance == b.min_balance
    &&& a.accounts == b.accounts
    &&& a.sufficients == b.sufficients
    &&& a.approvals == b.approvals
}

} // verus!
