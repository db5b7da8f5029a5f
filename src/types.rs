//! Records, flags, errors and events of the ledger.
use vstd::prelude::*;

verus! {

/// Identifier of an asset class.
pub type AssetId = u32;

/// Identifier of an account.
pub type AccountId = u64;

/// Amount of an asset.
pub type Balance = u128;

/// Amount of the reserved native currency that bonds a record.
pub type DepositBalance = u128;

/// Side-car payload that another component may attach to a balance record.
pub type Extra = u64;

/// Details of one asset class.
#[derive(Clone, Copy, Debug, PartialEq, Eq, Structural)]
pub struct AssetDetails {
    /// Can change `owner`, `issuer`, `freezer` and `admin`.
    pub owner: AccountId,
    /// Can mint.
    pub issuer: AccountId,
    /// Can thaw, force transfers and burn from any account.
    pub admin: AccountId,
    /// Can freeze.
    pub freezer: AccountId,
    /// Total supply across all accounts.
    pub supply: Balance,
    /// Currency reserved from the owner for this record.
    pub deposit: DepositBalance,
    /// Smallest balance an account of this asset may hold.
    pub min_balance: Balance,
    /// Whether holding this asset alone keeps an account alive.
    pub is_sufficient: bool,
    /// Number of accounts holding the asset.
    pub accounts: u32,
    /// Number of those accounts that hold it as a self-sufficient reference.
    pub sufficients: u32,
    /// Number of outstanding approvals.
    pub approvals: u32,
    /// Whether the whole asset is frozen for debits.
    pub is_frozen: bool,
}

/// Upper bounds on the work that destroying an asset takes.
#[derive(Clone, Copy, Debug, PartialEq, Eq, Structural)]
pub struct DestroyWitness {
    /// Accounts holding the asset.
    pub accounts: u32,
    /// Accounts holding it with a self-sufficient reference.
    pub sufficients: u32,
    /// Transfer approvals of the asset.
    pub approvals: u32,
}

impl AssetDetails {
    /// The witness that exactly matches the live counters.
    pub fn destroy_witness(&self) -> (w: DestroyWitness)
        ensures
            w.accounts == self.accounts,
            w.sufficients == self.sufficients,
            w.approvals == self.approvals,
    {
        DestroyWitness {
            accounts: self.accounts,
            sufficients: self.sufficients,
            approvals: self.approvals,
        }
    }
}

/// An allowance of a delegate to spend from an owner.
#[derive(Clone, Copy, Debug, PartialEq, Eq, Structural)]
pub struct Approval {
    /// What the delegate may still transfer.
    pub amount: Balance,
    /// Currency reserved from the owner for this record.
    pub deposit: DepositBalance,
}

/// The balance of one account in one asset.
#[derive(Clone, Copy, Debug, PartialEq, Eq, Structural)]
pub struct AssetBalance {
    /// The balance.
    pub balance: Balance,
    /// Whether the account is frozen.
    pub is_frozen: bool,
    /// Whether this balance gave the account a self-sufficient reference.
    pub sufficient: bool,
    /// Side-car data owned by another component.
    pub extra: Extra,
}

/// The record that an account without a balance reads as.
pub open spec fn empty_balance() -> AssetBalance {
    AssetBalance { balance: 0, is_frozen: false, sufficient: false, extra: 0 }
}

impl AssetBalance {
    /// The record of an account that holds nothing.
    pub fn empty() -> (r: AssetBalance)
        ensures
            r == empty_balance(),
    {
        AssetBalance { balance: 0, is_frozen: false, sufficient: false, extra: 0 }
    }
}

/// Descriptive data of an asset class.
#[derive(Clone, Debug, PartialEq, Eq)]
pub struct AssetMetadata {
    /// Currency reserved for this record.
    pub deposit: DepositBalance,
    /// Human-readable name.
    pub name: Vec<u8>,
    /// Ticker symbol.
    pub symbol: Vec<u8>,
    /// Number of decimals of one unit.
    pub decimals: u8,
    /// Whether only a privileged caller may change it.
    pub is_frozen: bool,
}

/// Amounts that the runtime configures.
#[derive(Clone, Copy, Debug, PartialEq, Eq, Structural)]
pub struct Parameters {
    /// Bonded when an asset class is created.
    pub asset_deposit: DepositBalance,
    /// Bonded for metadata, whatever its length.
    pub metadata_deposit_base: DepositBalance,
    /// Bonded for each byte of name and symbol.
    pub metadata_deposit_per_byte: DepositBalance,
    /// Bonded for each approval.
    pub approval_deposit: DepositBalance,
    /// Longest name or symbol.
    pub string_limit: u32,
}

/// How a debit may treat the debited account.
#[derive(Clone, Copy, Debug, PartialEq, Eq, Structural)]
pub struct DebitFlags {
    /// The account must stay above its minimum balance.
    pub keep_alive: bool,
    /// Take as much as possible, up to the amount, instead of failing.
    pub best_effort: bool,
}

/// How a transfer may treat its two accounts.
#[derive(Clone, Copy, Debug, PartialEq, Eq, Structural)]
pub struct TransferFlags {
    /// The source must stay above its minimum balance.
    pub keep_alive: bool,
    /// Move as much as possible, up to the amount, instead of failing.
    pub best_effort: bool,
    /// Burn the dust that the source loses beyond the amount.
    pub burn_dust: bool,
}

impl DebitFlags {
    /// The debit part of transfer flags.
    pub fn from(f: TransferFlags) -> (r: DebitFlags)
        ensures
            r.keep_alive == f.keep_alive,
            r.best_effort == f.best_effort,
    {
        DebitFlags { keep_alive: f.keep_alive, best_effort: f.best_effort }
    }
}

/// Why an operation was refused. A refused operation changes nothing.
#[derive(Clone, Copy, Debug, PartialEq, Eq, Structural)]
pub enum Error {
    /// The balance is smaller than the amount.
    BalanceLow,
    /// The account holds nothing.
    BalanceZero,
    /// The caller may not do this.
    NoPermission,
    /// The asset or the approval does not exist.
    Unknown,
    /// The asset or the account is frozen.
    Frozen,
    /// The asset id is taken.
    InUse,
    /// The witness understates the live counters.
    BadWitness,
    /// A minimum balance of zero was given.
    MinBalanceZero,
    /// The account has no liveness reference for a non-sufficient asset.
    NoProvider,
    /// Name or symbol is too long.
    BadMetadata,
    /// No approval allows the transfer.
    Unapproved,
    /// The account would be removed but must stay alive.
    WouldDie,
    /// A sum exceeds the numeric range.
    Overflow,
    /// A difference falls below zero.
    Underflow,
    /// The account holds too little.
    NoFunds,
    /// A new account would start below the minimum balance.
    BelowMinimum,
    /// The account cannot be created.
    CannotCreate,
    /// A value was to be written to an account that does not exist.
    NoProviders,
    /// A value was to be removed from an account that still exists.
    ConsumerRemaining,
    /// The currency refused to reserve or move a bond.
    InsufficientBond,
}

/// Verdict on increasing a balance.
#[derive(Clone, Copy, Debug, PartialEq, Eq, Structural)]
pub enum DepositConsequence {
    BelowMinimum,
    CannotCreate,
    UnknownAsset,
    Overflow,
    Success,
}

/// Verdict on decreasing a balance.
#[derive(Clone, Copy, Debug, PartialEq, Eq, Structural)]
pub enum WithdrawConsequence {
    NoFunds,
    WouldDie,
    UnknownAsset,
    Underflow,
    Overflow,
    Frozen,
    /// Succeeds, but the remaining balance (the field) must be swept as well.
    ReducedToZero(Balance),
    Success,
}

impl DepositConsequence {
    pub open spec fn to_result(self) -> Result<(), Error> {
        match self {
            DepositConsequence::BelowMinimum => Err(Error::BelowMinimum),
            DepositConsequence::CannotCreate => Err(Error::CannotCreate),
            DepositConsequence::UnknownAsset => Err(Error::Unknown),
            DepositConsequence::Overflow => Err(Error::Overflow),
            DepositConsequence::Success => Ok(()),
        }
    }

    /// Success, or the error that the verdict stands for.
    pub fn into_result(self) -> (r: Result<(), Error>)
        ensures
            r == self.to_result(),
    {
        match self {
            DepositConsequence::BelowMinimum => Err(Error::BelowMinimum),
            DepositConsequence::CannotCreate => Err(Error::CannotCreate),
            DepositConsequence::UnknownAsset => Err(Error::Unknown),
            DepositConsequence::Overflow => Err(Error::Overflow),
            DepositConsequence::Success => Ok(()),
        }
    }
}

impl WithdrawConsequence {
    pub open spec fn to_result(self) -> Result<Balance, Error> {
        match self {
            WithdrawConsequence::NoFunds => Err(Error::NoFunds),
            WithdrawConsequence::WouldDie => Err(Error::WouldDie),
            WithdrawConsequence::UnknownAsset => Err(Error::Unknown),
            WithdrawConsequence::Underflow => Err(Error::Underflow),
            WithdrawConsequence::Overflow => Err(Error::Overflow),
            WithdrawConsequence::Frozen => Err(Error::Frozen),
            WithdrawConsequence::ReducedToZero(rest) => Ok(rest),
            WithdrawConsequence::Success => Ok(0),
        }
    }

    /// The dust to sweep on success (zero when none), or the error that the verdict stands for.
    pub fn into_result(self) -> (r: Result<Balance, Error>)
        ensures
            r == self.to_result(),
    {
        match self {
            WithdrawConsequence::NoFunds => Err(Error::NoFunds),
            WithdrawConsequence::WouldDie => Err(Error::WouldDie),
            WithdrawConsequence::UnknownAsset => Err(Error::Unknown),
            WithdrawConsequence::Underflow => Err(Error::Underflow),
            WithdrawConsequence::Overflow => Err(Error::Overflow),
            WithdrawConsequence::Frozen => Err(Error::Frozen),
            WithdrawConsequence::ReducedToZero(rest) => Ok(rest),
            WithdrawConsequence::Success => Ok(0),
        }
    }
}

/// What a successful operation reports to observers.
#[derive(Clone, Debug, PartialEq, Eq)]
pub enum Event {
    /// asset, creator, owner
    Created(AssetId, AccountId, AccountId),
    /// asset, beneficiary, amount
    Issued(AssetId, AccountId, Balance),
    /// asset, from, to, amount
    Transferred(AssetId, AccountId, AccountId, Balance),
    /// asset, account, amount
    Burned(AssetId, AccountId, Balance),
    /// asset, issuer, admin, freezer
    TeamChanged(AssetId, AccountId, AccountId, AccountId),
    /// asset, owner
    OwnerChanged(AssetId, AccountId),
    /// asset, account
    Frozen(AssetId, AccountId),
    /// asset, account
    Thawed(AssetId, AccountId),
    AssetFrozen(AssetId),
    AssetThawed(AssetId),
    Destroyed(AssetId),
    /// asset, owner
    ForceCreated(AssetId, AccountId),
    /// asset, name, symbol, decimals, is_frozen
    MetadataSet(AssetId, Vec<u8>, Vec<u8>, u8, bool),
    MetadataCleared(AssetId),
    /// asset, owner, delegate, amount
    ApprovedTransfer(AssetId, AccountId, AccountId, Balance),
    /// asset, owner, delegate
    ApprovalCancelled(AssetId, AccountId, AccountId),
    /// asset, owner, delegate, destination, amount
    TransferredApproved(AssetId, AccountId, AccountId, AccountId, Balance),
    AssetStatusChanged(AssetId),
}

/// A request that the ledger made of its collaborators and that they granted.
#[derive(Clone, Copy, Debug, PartialEq, Eq, Structural)]
pub enum HostCall {
    /// account, amount
    Reserve(AccountId, DepositBalance),
    /// account, amount
    Unreserve(AccountId, DepositBalance),
    /// from, to, amount
    Repatriate(AccountId, AccountId, DepositBalance),
    IncSufficients(AccountId),
    DecSufficients(AccountId),
    IncConsumers(AccountId),
    DecConsumers(AccountId),
    /// asset, account
    Died(AssetId, AccountId),
}

/// Why a native balance could not be expressed in an asset.
#[derive(Clone, Copy, Debug, PartialEq, Eq, Structural)]
pub enum ConversionError {
    /// The native minimum balance is zero.
    MinBalanceZero,
    /// The asset does not exist.
    AssetMissing,
    /// The asset is not sufficient, so its minimum balance is no reliable rate.
    AssetNotSufficient,
}

} // verus!
