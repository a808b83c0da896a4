//! Validation of a collateral amount against the payer's balance.

use vstd::prelude::*;

use crate::error::XxusdError;

verus! {

/// Accepts a collateral amount only if it is positive and covered by the
/// user's balance.
pub fn validate_collateral_amount(user_collateral_balance: u64, collateral_amount: u64) -> (r:
    Result<(), XxusdError>)
    ensures
        collateral_amount == 0 ==> r == Err::<(), XxusdError>(XxusdError::InvalidCollateralAmount),
        collateral_amount > 0 && user_collateral_balance < collateral_amount ==> r == Err::<
            (),
            XxusdError,
        >(XxusdError::InsufficientCollateralBalance),
        collateral_amount > 0 && user_collateral_balance >= collateral_amount ==> r == Ok::<
            (),
            XxusdError,
        >(()),
{
    if collateral_amount == 0 {
        return Err(XxusdError::InvalidCollateralAmount);
    }
    if user_collateral_balance < collateral_amount {
        return Err(XxusdError::InsufficientCollateralBalance);
    }
    Ok(())
}

} // verus!
