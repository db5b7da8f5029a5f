//! Expressing an amount of the native currency in an asset, at the rate of
//! the two minimum balances.
use vstd::prelude::*;

use sp_arithmetic::{FixedPointNumber, FixedU128};

use crate::store::Pallet;
use crate::types::{AssetId, Balance, ConversionError};

verus! {

/// One unit of an eighteen-decimal fixed-point number.
pub const FIXED_ONE: u128 = 1_000_000_000_000_000_000;

/// `n / d` as an eighteen-decimal fixed-point number, rounded down and
/// saturating at the largest value.
pub open spec fn fixed_ratio(n: u128, d: u128) -> u128 {
    let q = (n as int * FIXED_ONE as int) / (d as int);
    if q > u128::MAX { u128::MAX } else { q as u128 }
}

/// The fixed-point number `inner` times `b`, rounded down and saturating.
pub open spec fn fixed_times(inner: u128, b: u128) -> u128 {
    let q = (inner as int * b as int) / (FIXED_ONE as int);
    if q > u128::MAX { u128::MAX } else { q as u128 }
}

/// Relies on sp_arithmetic's `FixedU128::saturating_from_rational`: for
/// unsigned operands the quotient n / d scaled by 10^18, rounded down,
/// saturating at the maximum; it panics on a zero divisor.
#[verifier::external_body]
fn ratio_inner(n: u128, d: u128) -> (r: u128)
    requires
        d != 0,
    ensures
        r == fixed_ratio(n, d),
{
    FixedU128::saturating_from_rational(n, d).into_inner()
}

/// Relies on sp_arithmetic's `FixedU128::saturating_mul_int`: for unsigned
/// operands inner * b / 10^18, rounded down, saturating at the maximum.
#[verifier::external_body]
fn times_inner(inner: u128, b: u128) -> (r: u128)
    ensures
        r == fixed_times(inner, b),
{
    FixedU128::from_inner(inner).saturating_mul_int(b)
}

/// Converts native balances to balances of a sufficient asset.
pub struct BalanceToAssetBalance;

impl BalanceToAssetBalance {
    /// What `balance` of the native currency, whose minimum balance is
    /// `native_min_balance`, is worth in asset `asset_id`: it scales by the
    /// ratio of the asset's minimum balance to the native one.
    pub fn to_asset_balance(
        pallet: &Pallet,
        balance: Balance,
        asset_id: AssetId,
        native_min_balance: Balance,
    ) -> (r: Result<Balance, ConversionError>)
        requires
            pallet.wf(),
        ensures
            r == if !pallet.asset_map().contains_key(asset_id) {
                Err::<Balance, ConversionError>(ConversionError::AssetMissing)
            } else if !pallet.asset_map()[asset_id].is_sufficient {
                Err(ConversionError::AssetNotSufficient)
            } else if native_min_balance == 0 {
                Err(ConversionError::MinBalanceZero)
            } else {
                Ok(fixed_times(fixed_ratio(pallet.asset_map()[asset_id].min_balance, native_min_balance), balance))
            },
    {
        let asset = match pallet.asset(asset_id) {
            Some(d) => d,
            None => return Err(ConversionError::AssetMissing),
        };
        if !asset.is_sufficient {
            return Err(ConversionError::AssetNotSufficient);
        }
        if native_min_balance == 0 {
            return Err(ConversionError::MinBalanceZero);
        }
        Ok(times_inner(ratio_inner(asset.min_balance, native_min_balance), balance))
    }
}

} // verus!
