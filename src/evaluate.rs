//! Verdicts on a proposed change of one balance, computed without mutating
//! anything: the check half of check-then-commit.
use vstd::prelude::*;

use crate::store::Pallet;
use crate::types::{AccountId, AssetId, Balance, DebitFlags, DepositConsequence, Error, WithdrawConsequence};

verus! {

/// `a - b`, or zero when `b` exceeds `a`.
pub open spec fn sat_sub(a: Balance, b: Balance) -> Balance {
    if a >= b { (a - b) as Balance } else { 0 }
}

/// The smaller of two balances.
pub open spec fn min_of(a: Balance, b: Balance) -> Balance {
    if a <= b { a } else { b }
}

impl Pallet {
    /// Whether `amount` can be added to `who`'s balance of `id`, where `providers`
    /// counts the references that let `who` exist without this asset.
    pub open spec fn deposit_verdict(&self, id: AssetId, who: AccountId, amount: Balance, providers: u32) -> DepositConsequence {
        if !self.asset_map().contains_key(id) {
            DepositConsequence::UnknownAsset
        } else {
            let d = self.asset_map()[id];
            let balance = self.record_of(id, who).balance;
            if d.supply + amount > Balance::MAX {
                DepositConsequence::Overflow
            } else if balance + amount > Balance::MAX {
                DepositConsequence::Overflow
            } else if balance == 0 && amount < d.min_balance {
                DepositConsequence::BelowMinimum
            } else if balance == 0 && !d.is_sufficient && providers == 0 {
                DepositConsequence::CannotCreate
            } else if balance == 0 && d.is_sufficient && d.sufficients == u32::MAX {
                DepositConsequence::Overflow
            } else {
                DepositConsequence::Success
            }
        }
    }

    /// Whether `amount` can be taken from `who`'s balance of `id`, where `frozen`
    /// is what the oracle locks on the account.
    pub open spec fn withdraw_verdict(
        &self,
        id: AssetId,
        who: AccountId,
        amount: Balance,
        keep_alive: bool,
        frozen: Option<Balance>,
    ) -> WithdrawConsequence {
        if !self.asset_map().contains_key(id) {
            WithdrawConsequence::UnknownAsset
        } else {
            let d = self.asset_map()[id];
            let a = self.record_of(id, who);
            if d.supply < amount {
                WithdrawConsequence::Underflow
            } else if d.is_frozen || a.is_frozen {
                WithdrawConsequence::Frozen
            } else if a.balance < amount {
                WithdrawConsequence::NoFunds
            } else {
                let rest = (a.balance - amount) as Balance;
                match frozen {
                    Some(f) if f + d.min_balance > Balance::MAX => WithdrawConsequence::Overflow,
                    Some(f) if rest < f + d.min_balance => WithdrawConsequence::Frozen,
                    _ => if rest < d.min_balance {
                        if keep_alive { WithdrawConsequence::WouldDie } else { WithdrawConsequence::ReducedToZero(rest) }
                    } else {
                        WithdrawConsequence::Success
                    },
                }
            }
        }
    }

    /// The most that a withdrawal from `who` can take and still succeed.
    pub open spec fn reducible_spec(&self, id: AssetId, who: AccountId, keep_alive: bool, frozen: Option<Balance>) -> Result<Balance, Error> {
        if !self.asset_map().contains_key(id) {
            Err(Error::Unknown)
        } else {
            let d = self.asset_map()[id];
            let a = self.record_of(id, who);
            if d.is_frozen || a.is_frozen {
                Err(Error::Frozen)
            } else {
                match frozen {
                    Some(f) => if f + d.min_balance > Balance::MAX {
                        Err(Error::Overflow)
                    } else {
                        Ok(min_of(sat_sub(a.balance, (f + d.min_balance) as Balance), d.supply))
                    },
                    None => Ok(min_of(if keep_alive { sat_sub(a.balance, d.min_balance) } else { a.balance }, d.supply)),
                }
            }
        }
    }

    /// What a debit of `amount` from `target` takes, dust included.
    pub open spec fn debit_spec(&self, id: AssetId, target: AccountId, amount: Balance, f: DebitFlags, frozen: Option<Balance>) -> Result<Balance, Error> {
        match self.reducible_spec(id, target, f.keep_alive, frozen) {
            Err(e) => Err(e),
            Ok(r) => {
                let actual = min_of(r, amount);
                if !f.best_effort && actual < amount {
                    Err(Error::BalanceLow)
                } else {
                    match self.withdraw_verdict(id, target, actual, f.keep_alive, frozen).to_result() {
                        Ok(dust) => Ok(if actual + dust > Balance::MAX { Balance::MAX } else { (actual + dust) as Balance }),
                        Err(e) => Err(e),
                    }
                }
            },
        }
    }

    /// What a credit to `dest` after a debit of `debit` adds, and the dust to burn.
    pub open spec fn credit_spec(
        &self,
        id: AssetId,
        dest: AccountId,
        amount: Balance,
        debit: Balance,
        burn_dust: bool,
        providers: u32,
    ) -> Result<(Balance, Option<Balance>), Error> {
        let (credit, burn) = if burn_dust && debit >= amount {
            (amount, Some((debit - amount) as Balance))
        } else {
            (debit, None)
        };
        match self.deposit_verdict(id, dest, credit, providers).to_result() {
            Ok(_) => Ok((credit, burn)),
            Err(e) => Err(e),
        }
    }

    /// Verdict on adding `amount` to `who`'s balance of `id`.
    pub fn can_increase(&self, id: AssetId, who: AccountId, amount: Balance, providers: u32) -> (r: DepositConsequence)
        requires
            self.wf(),
        ensures
            r == self.deposit_verdict(id, who, amount, providers),
    {
        let details = match self.asset(id) {
            Some(d) => d,
            None => return DepositConsequence::UnknownAsset,
        };
        if amount > Balance::MAX - details.supply {
            return DepositConsequence::Overflow;
        }
        let account = self.balance_of(id, who);
        if amount > Balance::MAX - account.balance {
            return DepositConsequence::Overflow;
        }
        if account.balance == 0 {
            if amount < details.min_balance {
                return DepositConsequence::BelowMinimum;
            }
            if !details.is_sufficient && providers == 0 {
                return DepositConsequence::CannotCreate;
            }
            if details.is_sufficient && details.sufficients == u32::MAX {
                return DepositConsequence::Overflow;
            }
        }
        DepositConsequence::Success
    }

    /// Verdict on taking `amount` from `who`'s balance of `id`.
    pub fn can_decrease(&self, id: AssetId, who: AccountId, amount: Balance, keep_alive: bool, frozen: Option<Balance>) -> (r: WithdrawConsequence)
        requires
            self.wf(),
        ensures
            r == self.withdraw_verdict(id, who, amount, keep_alive, frozen),
    {
        let details = match self.asset(id) {
            Some(d) => d,
            None => return WithdrawConsequence::UnknownAsset,
        };
        if details.supply < amount {
            return WithdrawConsequence::Underflow;
        }
        if details.is_frozen {
            return WithdrawConsequence::Frozen;
        }
        let account = self.balance_of(id, who);
        if account.is_frozen {
            return WithdrawConsequence::Frozen;
        }
        if account.balance < amount {
            return WithdrawConsequence::NoFunds;
        }
        let rest = account.balance - amount;
        if let Some(f) = frozen {
            if f > Balance::MAX - details.min_balance {
                return WithdrawConsequence::Overflow;
            }
            if rest < f + details.min_balance {
                return WithdrawConsequence::Frozen;
            }
        }
        if rest < details.min_balance {
            if keep_alive {
                WithdrawConsequence::WouldDie
            } else {
                WithdrawConsequence::ReducedToZero(rest)
            }
        } else {
            WithdrawConsequence::Success
        }
    }

    /// The most that can be taken from `who`'s balance of `id`, capped by the supply.
    pub fn reducible_balance(&self, id: AssetId, who: AccountId, keep_alive: bool, frozen: Option<Balance>) -> (r: Result<Balance, Error>)
        requires
            self.wf(),
        ensures
            r == self.reducible_spec(id, who, keep_alive, frozen),
            r is Ok ==> r->Ok_0 <= self.record_of(id, who).balance,
    {
        let details = match self.asset(id) {
            Some(d) => d,
            None => return Err(Error::Unknown),
        };
        if details.is_frozen {
            return Err(Error::Frozen);
        }
        let account = self.balance_of(id, who);
        if account.is_frozen {
            return Err(Error::Frozen);
        }
        let amount = match frozen {
            Some(f) => {
                if f > Balance::MAX - details.min_balance {
                    return Err(Error::Overflow);
                }
                account.balance.saturating_sub(f + details.min_balance)
            },
            None => {
                if keep_alive {
                    account.balance.saturating_sub(details.min_balance)
                } else {
                    account.balance
                }
            },
        };
        Ok(if amount <= details.supply { amount } else { details.supply })
    }

    /// The amount a debit of `amount` from `target` takes, dust included.
    pub fn prep_debit(&self, id: AssetId, target: AccountId, amount: Balance, f: DebitFlags, frozen: Option<Balance>) -> (r: Result<Balance, Error>)
        requires
            self.wf(),
        ensures
            r == self.debit_spec(id, target, amount, f, frozen),
    {
        let reducible = self.reducible_balance(id, target, f.keep_alive, frozen)?;
        let actual = if reducible <= amount { reducible } else { amount };
        if !f.best_effort && actual < amount {
            return Err(Error::BalanceLow);
        }
        let dust = self.can_decrease(id, target, actual, f.keep_alive, frozen).into_result()?;
        Ok(actual.saturating_add(dust))
    }

    /// The amount a credit to `dest` adds after a debit of `debit`, and the dust to burn.
    pub fn prep_credit(
        &self,
        id: AssetId,
        dest: AccountId,
        amount: Balance,
        debit: Balance,
        burn_dust: bool,
        providers: u32,
    ) -> (r: Result<(Balance, Option<Balance>), Error>)
        requires
            self.wf(),
        ensures
            r == self.credit_spec(id, dest, amount, debit, burn_dust, providers),
    {
        let (credit, burn) = if burn_dust && debit >= amount {
            (amount, Some(debit - amount))
        } else {
            (debit, None)
        };
        self.can_increase(id, dest, credit, providers).into_result()?;
        Ok((credit, burn))
    }
    /// A successful debit takes no more than the balance, and leaves either
    /// nothing or at least the minimum balance.
    pub proof fn lemma_debit_bounds(&self, id: AssetId, target: AccountId, amount: Balance, f: DebitFlags, frozen: Option<Balance>)
        requires
            self.debit_spec(id, target, amount, f, frozen) is Ok,
        ensures
            self.asset_map().contains_key(id),
            ({
                let x = self.debit_spec(id, target, amount, f, frozen)->Ok_0;
                let b = self.record_of(id, target).balance;
                &&& x <= b
                &&& (b - x == 0 || b - x >= self.asset_map()[id].min_balance)
                &&& (!f.best_effort ==> x >= amount)
                &&& (b - x >= self.asset_map()[id].min_balance ==> x <= amount)
            }),
    {
    }
}

} // verus!
