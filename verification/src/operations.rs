//! The decision kernels of the protocol's instructions: each takes a
//! snapshot of the relevant state plus the caller-supplied balances,
//! validates the request, and applies the accounting deltas. Token
//! transfers, account loading and event emission stay with the caller,
//! which commits each kernel's result atomically.

use vstd::prelude::*;

use crate::error::XxusdError;
use crate::release::{
    apply_release, calculate_releasable_amount, spec_release_outcome,
};
use crate::state::controller::Controller;
use crate::state::hedging_strategy::HedgingStrategy;
use crate::state::kamino_depository::KaminoDepository;
use crate::state::lock_manager::{spec_first_active_lock, Lock, LockManager};
use crate::state::{Amount, Timestamp};

verus! {

/// Mints synthetic tokens one-to-one against deposited collateral: the
/// circulating supply and the depository's managed amount grow by the
/// collateral amount. Returns the minted amount; on failure nothing is
/// changed.
pub fn process_mint(
    controller: &mut Controller,
    depository: &mut KaminoDepository,
    user_collateral_balance: u64,
    collateral_amount: Amount,
) -> (r: Result<Amount, XxusdError>)
    ensures
        ({
            let a = collateral_amount.0;
            let supply = old(controller).redeemable_circulating_supply;
            let aum = old(depository).redeemable_amount_under_management;
            &&& a == 0 ==> r == Err::<Amount, XxusdError>(XxusdError::InvalidCollateralAmount)
            &&& a > 0 && user_collateral_balance < a ==> r == Err::<Amount, XxusdError>(
                XxusdError::InsufficientCollateral,
            )
            &&& a > 0 && user_collateral_balance >= a && supply + a > u64::MAX ==> r == Err::<
                Amount,
                XxusdError,
            >(XxusdError::MathOverflow)
            &&& a > 0 && user_collateral_balance >= a && supply + a <= u64::MAX && aum
                > u64::MAX ==> r == Err::<Amount, XxusdError>(XxusdError::Overflow)
            &&& a > 0 && user_collateral_balance >= a && supply + a <= u64::MAX && aum
                <= u64::MAX && aum + a > u64::MAX ==> r == Err::<Amount, XxusdError>(
                XxusdError::MathOverflow,
            )
            &&& a > 0 && user_collateral_balance >= a && supply + a <= u64::MAX && aum
                <= u64::MAX && aum + a <= u64::MAX ==> r == Ok::<Amount, XxusdError>(
                collateral_amount,
            ) && final(controller).redeemable_circulating_supply == supply + a && final(depository).redeemable_amount_under_management == aum + a
            &&& r is Err ==> *final(controller) == *old(controller) && *final(depository)
                == *old(depository)
        }),
        final(controller).locked_xxusd_supply == old(controller).locked_xxusd_supply,
        final(controller).product_prices == old(controller).product_prices,
        final(controller).is_frozen == old(controller).is_frozen,
        final(controller).max_products == old(controller).max_products,
        final(controller).kamino_depository_weight_bps == old(controller).kamino_depository_weight_bps,
        final(depository).redeemable_amount_under_management_cap == old(depository).redeemable_amount_under_management_cap,
        final(depository).minting_fee_in_bps == old(depository).minting_fee_in_bps,
        final(depository).redeeming_fee_in_bps == old(depository).redeeming_fee_in_bps,
{
    if collateral_amount.value() == 0 {
        return Err(XxusdError::InvalidCollateralAmount);
    }
    if user_collateral_balance < collateral_amount.value() {
        return Err(XxusdError::InsufficientCollateral);
    }
    // The synthetic amount is the collateral amount, one to one.
    let xxusd_amount = collateral_amount;
    let supply = controller.redeemable_circulating_supply;
    let new_supply = match supply.checked_add(xxusd_amount.value()) {
        Some(v) => v,
        None => {
            return Err(XxusdError::MathOverflow);
        },
    };
    if depository.redeemable_amount_under_management > u64::MAX as u128 {
        return Err(XxusdError::Overflow);
    }
    let aum = depository.redeemable_amount_under_management as u64;
    let new_aum = match aum.checked_add(xxusd_amount.value()) {
        Some(v) => v,
        None => {
            return Err(XxusdError::MathOverflow);
        },
    };
    controller.redeemable_circulating_supply = new_supply;
    depository.redeemable_amount_under_management = new_aum as u128;
    Ok(xxusd_amount)
}

/// Redeems synthetic tokens one-to-one for collateral: the circulating
/// supply and the depository's managed amount shrink by the redeemed
/// amount. Returns the collateral amount to pay out; on failure nothing
/// is changed.
pub fn process_redeem(
    controller: &mut Controller,
    depository: &mut KaminoDepository,
    user_redeemable_balance: u64,
    redeemable_amount: Amount,
) -> (r: Result<Amount, XxusdError>)
    ensures
        ({
            let a = redeemable_amount.0;
            let supply = old(controller).redeemable_circulating_supply;
            let aum = old(depository).redeemable_amount_under_management;
            &&& a == 0 ==> r == Err::<Amount, XxusdError>(XxusdError::InvalidRedeemableAmount)
            &&& a > 0 && user_redeemable_balance < a ==> r == Err::<Amount, XxusdError>(
                XxusdError::InsufficientRedeemableBalance,
            )
            &&& a > 0 && user_redeemable_balance >= a && supply < a ==> r == Err::<
                Amount,
                XxusdError,
            >(XxusdError::MathOverflow)
            &&& a > 0 && user_redeemable_balance >= a && supply >= a && aum > u64::MAX ==> r
                == Err::<Amount, XxusdError>(XxusdError::Overflow)
            &&& a > 0 && user_redeemable_balance >= a && supply >= a && aum <= u64::MAX && aum
                < a ==> r == Err::<Amount, XxusdError>(XxusdError::MathOverflow)
            &&& a > 0 && user_redeemable_balance >= a && supply >= a && aum <= u64::MAX && aum
                >= a ==> r == Ok::<Amount, XxusdError>(redeemable_amount) && final(controller).redeemable_circulating_supply == supply - a && final(depository).redeemable_amount_under_management == aum - a
            &&& r is Err ==> *final(controller) == *old(controller) && *final(depository)
                == *old(depository)
        }),
        final(controller).locked_xxusd_supply == old(controller).locked_xxusd_supply,
        final(controller).product_prices == old(controller).product_prices,
        final(controller).is_frozen == old(controller).is_frozen,
        final(controller).max_products == old(controller).max_products,
        final(controller).kamino_depository_weight_bps == old(controller).kamino_depository_weight_bps,
        final(depository).redeemable_amount_under_management_cap == old(depository).redeemable_amount_under_management_cap,
        final(depository).minting_fee_in_bps == old(depository).minting_fee_in_bps,
        final(depository).redeeming_fee_in_bps == old(depository).redeeming_fee_in_bps,
{
    if redeemable_amount.value() == 0 {
        return Err(XxusdError::InvalidRedeemableAmount);
    }
    if user_redeemable_balance < redeemable_amount.value() {
        return Err(XxusdError::InsufficientRedeemableBalance);
    }
    let collateral_amount = redeemable_amount;
    let supply = controller.redeemable_circulating_supply;
    let new_supply = match supply.checked_sub(redeemable_amount.value()) {
        Some(v) => v,
        None => {
            return Err(XxusdError::MathOverflow);
        },
    };
    if depository.redeemable_amount_under_management > u64::MAX as u128 {
        return Err(XxusdError::Overflow);
    }
    let aum = depository.redeemable_amount_under_management as u64;
    let new_aum = match aum.checked_sub(redeemable_amount.value()) {
        Some(v) => v,
        None => {
            return Err(XxusdError::MathOverflow);
        },
    };
    controller.redeemable_circulating_supply = new_supply;
    depository.redeemable_amount_under_management = new_aum as u128;
    Ok(collateral_amount)
}

/// Locks an amount for linear vesting: a new lock is appended and both
/// the holder's running total and the locked supply grow by the amount.
/// On failure nothing is changed.
pub fn process_lock(
    lock_manager: &mut LockManager,
    controller: &mut Controller,
    user_balance: u64,
    amount: Amount,
    lock_time: Timestamp,
    lock_period: Timestamp,
) -> (r: Result<(), XxusdError>)
    ensures
        ({
            let a = amount.0;
            let total = old(lock_manager).total_locked_amount;
            let locked = old(controller).locked_xxusd_supply;
            &&& a == 0 ==> r == Err::<(), XxusdError>(XxusdError::InvalidCollateralAmount)
            &&& a > 0 && lock_period.0 <= 0 ==> r == Err::<(), XxusdError>(
                XxusdError::InvalidLockPeriod,
            )
            &&& a > 0 && lock_period.0 > 0 && user_balance < a ==> r == Err::<(), XxusdError>(
                XxusdError::InsufficientBalance,
            )
            &&& a > 0 && lock_period.0 > 0 && user_balance >= a && total + a > u64::MAX ==> r
                == Err::<(), XxusdError>(XxusdError::MathOverflow)
            &&& a > 0 && lock_period.0 > 0 && user_balance >= a && total + a <= u64::MAX
                && locked + a > u64::MAX ==> r == Err::<(), XxusdError>(XxusdError::MathOverflow)
            &&& a > 0 && lock_period.0 > 0 && user_balance >= a && total + a <= u64::MAX
                && locked + a <= u64::MAX ==> r == Ok::<(), XxusdError>(()) && final(lock_manager).total_locked_amount == total + a && final(lock_manager).locks@ == old(lock_manager).locks@.push(Lock { amount, lock_time, lock_period }) && final(controller).locked_xxusd_supply == locked + a
            &&& r is Err ==> *final(lock_manager) == *old(lock_manager) && *final(controller)
                == *old(controller)
        }),
        final(controller).redeemable_circulating_supply == old(controller).redeemable_circulating_supply,
        final(controller).product_prices == old(controller).product_prices,
        final(controller).is_frozen == old(controller).is_frozen,
        final(controller).max_products == old(controller).max_products,
        final(controller).kamino_depository_weight_bps == old(controller).kamino_depository_weight_bps,
{
    if amount.value() == 0 {
        return Err(XxusdError::InvalidCollateralAmount);
    }
    if lock_period.value() <= 0 {
        return Err(XxusdError::InvalidLockPeriod);
    }
    if user_balance < amount.value() {
        return Err(XxusdError::InsufficientBalance);
    }
    let new_total_locked_amount = match lock_manager.total_locked_amount.checked_add(
        amount.value(),
    ) {
        Some(v) => v,
        None => {
            return Err(XxusdError::MathOverflow);
        },
    };
    let new_locked_supply = match controller.locked_xxusd_supply.checked_add(amount.value()) {
        Some(v) => v,
        None => {
            return Err(XxusdError::MathOverflow);
        },
    };
    lock_manager.total_locked_amount = new_total_locked_amount;
    lock_manager.locks.push(Lock { amount, lock_time, lock_period });
    controller.locked_xxusd_supply = new_locked_supply;
    Ok(())
}

/// Releases whatever has vested on the holder's first still-active lock:
/// the lock's amount, the holder's running total and the locked supply
/// all drop by the released amount, and the lock's checkpoint moves to
/// `current_time`. Returns the released amount; on failure nothing is
/// changed.
pub fn process_release(
    lock_manager: &mut LockManager,
    controller: &mut Controller,
    current_time: Timestamp,
) -> (r: Result<Amount, XxusdError>)
    ensures
        ({
            let locks = old(lock_manager).locks@;
            let k = spec_first_active_lock(locks, 0);
            let n = locks.len() as int;
            &&& k == n ==> r == Err::<Amount, XxusdError>(XxusdError::LockNotFound)
            &&& k < n && spec_release_outcome(locks[k], current_time.0) is Err ==> r == Err::<
                Amount,
                XxusdError,
            >(spec_release_outcome(locks[k], current_time.0)->Err_0)
            &&& k < n && spec_release_outcome(locks[k], current_time.0) is Ok ==> ({
                let released = spec_release_outcome(locks[k], current_time.0)->Ok_0.0;
                &&& released.0 > old(lock_manager).total_locked_amount ==> r == Err::<
                    Amount,
                    XxusdError,
                >(XxusdError::MathOverflow)
                &&& released.0 <= old(lock_manager).total_locked_amount && released.0 > old(controller).locked_xxusd_supply ==> r == Err::<Amount, XxusdError>(XxusdError::MathOverflow)
                &&& released.0 <= old(lock_manager).total_locked_amount && released.0 <= old(controller).locked_xxusd_supply ==> r == Ok::<Amount, XxusdError>(released) && final(lock_manager).locks@ == locks.update(
                    k,
                    Lock {
                        amount: Amount((locks[k].amount.0 - released.0) as u64),
                        lock_time: current_time,
                        lock_period: locks[k].lock_period,
                    },
                ) && final(lock_manager).total_locked_amount == old(lock_manager).total_locked_amount - released.0 && final(controller).locked_xxusd_supply
                    == old(controller).locked_xxusd_supply - released.0
            })
            &&& r is Err ==> *final(lock_manager) == *old(lock_manager) && *final(controller)
                == *old(controller)
        }),
        final(controller).redeemable_circulating_supply == old(controller).redeemable_circulating_supply,
        final(controller).product_prices == old(controller).product_prices,
        final(controller).is_frozen == old(controller).is_frozen,
        final(controller).max_products == old(controller).max_products,
        final(controller).kamino_depository_weight_bps == old(controller).kamino_depository_weight_bps,
{
    proof {
        crate::state::lock_manager::lemma_first_active_lock_props(lock_manager.locks@, 0);
        let k = spec_first_active_lock(lock_manager.locks@, 0);
        if k < lock_manager.locks@.len() {
            crate::release::lemma_release_outcome_bounds(
                lock_manager.locks@[k],
                current_time.0,
            );
        }
    }
    let (releasable_amount, _days_passed) = match calculate_releasable_amount(
        lock_manager,
        current_time,
    ) {
        Ok(v) => v,
        Err(e) => {
            return Err(e);
        },
    };
    if releasable_amount.value() > lock_manager.total_locked_amount {
        return Err(XxusdError::MathOverflow);
    }
    let new_locked_supply = match controller.locked_xxusd_supply.checked_sub(
        releasable_amount.value(),
    ) {
        Some(v) => v,
        None => {
            return Err(XxusdError::MathOverflow);
        },
    };
    match apply_release(lock_manager, releasable_amount, current_time) {
        Ok(()) => {},
        Err(e) => {
            proof {
                assert(false);
            }
            return Err(e);
        },
    }
    controller.locked_xxusd_supply = new_locked_supply;
    Ok(releasable_amount)
}

/// Moves funds into or out of the hedging strategy's lending position.
/// Returns the new deposited total; on failure nothing is changed.
pub fn process_manage_hedging_strategy(
    hedging_strategy: &mut HedgingStrategy,
    amount: Amount,
    is_deposit: bool,
    source_balance: u64,
) -> (r: Result<Amount, XxusdError>)
    ensures
        ({
            let a = amount.0;
            let deposited = old(hedging_strategy).deposited_amount;
            &&& a == 0 ==> r == Err::<Amount, XxusdError>(XxusdError::InvalidAmount)
            &&& a > 0 && is_deposit && source_balance < a ==> r == Err::<Amount, XxusdError>(
                XxusdError::InsufficientFunds,
            )
            &&& a > 0 && is_deposit && source_balance >= a && deposited + a > u64::MAX ==> r
                == Err::<Amount, XxusdError>(XxusdError::MathOverflow)
            &&& a > 0 && is_deposit && source_balance >= a && deposited + a <= u64::MAX ==> r
                == Ok::<Amount, XxusdError>(Amount((deposited + a) as u64)) && final(hedging_strategy).deposited_amount == deposited + a
            &&& a > 0 && !is_deposit && deposited < a ==> r == Err::<Amount, XxusdError>(
                XxusdError::InsufficientFunds,
            )
            &&& a > 0 && !is_deposit && deposited >= a ==> r == Ok::<Amount, XxusdError>(
                Amount((deposited - a) as u64),
            ) && final(hedging_strategy).deposited_amount == deposited - a
            &&& r is Err ==> *final(hedging_strategy) == *old(hedging_strategy)
        }),
{
    if amount.value() == 0 {
        return Err(XxusdError::InvalidAmount);
    }
    if is_deposit {
        hedging_strategy.deposit(amount, source_balance)
    } else {
        hedging_strategy.withdraw(amount)
    }
}

} // verus!
