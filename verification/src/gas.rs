//! The gas bridge: validating an externally supplied gas budget for the VM,
//! and mapping a gas limit to a chain scheduling weight.

use vstd::prelude::*;
use crate::result::Error;

verus! {

/// The largest gas amount (limit or unit price) representable in the VM's
/// internal gas unit type, which scales external units by a factor of 1000.
pub const GAS_AMOUNT_MAX_VALUE: u64 = 18_446_744_073_709_551_615u64 / 1000;

/// A validated gas budget for one VM invocation: the gas limit and the price
/// of one gas unit. The VM consumes the budget monotonically and reports the
/// amount spent whether or not the invocation succeeds.
#[derive(Clone, Copy, Debug, PartialEq, Eq, Structural)]
pub struct GasBudget {
    pub limit: u64,
    pub price: u64,
}

/// What a budget request yields: the budget itself when both components are
/// representable, and `InvalidGasAmountMaxValue` otherwise.
pub open spec fn new_budget_spec(limit: u64, price: u64) -> Result<GasBudget, Error> {
    if limit <= GAS_AMOUNT_MAX_VALUE && price <= GAS_AMOUNT_MAX_VALUE {
        Ok(GasBudget { limit, price })
    } else {
        Err(Error::InvalidGasAmountMaxValue)
    }
}

/// Builds a gas budget, rejecting a limit or price that the VM's gas unit
/// type cannot represent.
pub fn new_budget(limit: u64, price: u64) -> (r: Result<GasBudget, Error>)
    ensures
        r == new_budget_spec(limit, price),
{
    if limit > GAS_AMOUNT_MAX_VALUE || price > GAS_AMOUNT_MAX_VALUE {
        Err(Error::InvalidGasAmountMaxValue)
    } else {
        Ok(GasBudget { limit, price })
    }
}

/// Maps a gas limit to the scheduling weight charged for the extrinsic before
/// execution. Pure and monotonic; never consults VM state, because the weight
/// must be computable before execution while actual gas spent is only known
/// after.
pub fn gas_to_weight(gas_limit: u64) -> (w: u64)
    ensures
        w == gas_limit,
{
    gas_limit
}

} // verus!
