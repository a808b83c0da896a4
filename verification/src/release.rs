//! Linear vesting: how much of a time-locked holding is releasable at a
//! given instant.
//!
//! Release accrues once per whole day, not continuously, so that callers
//! are not offered dust-sized releases every second. Applying a release
//! advances the lock's checkpoint to the moment of the release: the next
//! computation counts days from there, not from the original lock time.

use vstd::prelude::*;

use crate::error::XxusdError;
use crate::state::lock_manager::{
    lemma_first_active_lock_props, spec_first_active_lock, Lock, LockManager,
};
use crate::state::{timestamp_to_i64, Amount, Timestamp};
use crate::utils::maths::{checked_sub_timestamp, min_int};
use vstd::arithmetic::div_mod::{lemma_div_is_ordered, lemma_div_of0};

verus! {

pub const SECONDS_PER_DAY: u64 = 86400;

/// Whole days elapsed between the lock's checkpoint and the current time.
pub open spec fn spec_elapsed_days(lock_time: i64, current_time: i64) -> int {
    (current_time as int - lock_time as int) / (SECONDS_PER_DAY as int)
}

/// The lock period, in whole days.
pub open spec fn spec_period_days(lock_period: i64) -> int {
    lock_period as int / (SECONDS_PER_DAY as int)
}

/// The amount accrued at `current_time`: the elapsed-days share of the
/// remaining amount, never more than the whole of it.
pub open spec fn spec_releasable_amount(
    amount: u64,
    lock_time: i64,
    lock_period: i64,
    current_time: i64,
) -> int {
    min_int(
        amount as int,
        (spec_elapsed_days(lock_time, current_time) * amount) / spec_period_days(lock_period),
    )
}

/// The inputs on which a release is owed: a positive period of at least a
/// day, a checkpoint not in the future and not out of range, and at least
/// one unit accrued.
pub open spec fn releasable_inputs_ok(lock: Lock, current_time: i64) -> bool {
    &&& lock.lock_period.0 > 0
    &&& lock.lock_time.0 <= current_time
    &&& current_time - lock.lock_time.0 <= i64::MAX
    &&& spec_period_days(lock.lock_period.0) > 0
    &&& spec_releasable_amount(lock.amount.0, lock.lock_time.0, lock.lock_period.0, current_time)
        > 0
}

/// The exact outcome of a release computation on one lock.
pub open spec fn spec_release_outcome(lock: Lock, current_time: i64) -> Result<
    (Amount, u64),
    XxusdError,
> {
    if lock.lock_period.0 <= 0 {
        Err(XxusdError::InvalidLockPeriod)
    } else if lock.lock_time.0 > current_time || current_time - lock.lock_time.0 > i64::MAX {
        Err(XxusdError::MathOverflow)
    } else if spec_period_days(lock.lock_period.0) == 0 {
        Err(XxusdError::DivisionByZero)
    } else if spec_releasable_amount(
        lock.amount.0,
        lock.lock_time.0,
        lock.lock_period.0,
        current_time,
    ) == 0 {
        Err(XxusdError::InsufficientReleasableAmount)
    } else {
        Ok(
            (
                Amount(
                    spec_releasable_amount(
                        lock.amount.0,
                        lock.lock_time.0,
                        lock.lock_period.0,
                        current_time,
                    ) as u64,
                ),
                spec_elapsed_days(lock.lock_time.0, current_time) as u64,
            ),
        )
    }
}

/// Computes the releasable amount and the elapsed whole days for one lock.
///
/// The result is exactly [`spec_release_outcome`]: a release that would be
/// empty is refused with an error, so a caller can tell "too early" from
/// "executed".
pub fn compute_releasable(lock: &Lock, current_time: Timestamp) -> (r: Result<
    (Amount, u64),
    XxusdError,
>)
    ensures
        r == spec_release_outcome(*lock, current_time.0),
        r is Ok <==> releasable_inputs_ok(*lock, current_time.0),
{
    let lock_period = timestamp_to_i64(lock.lock_period);
    if lock_period <= 0 {
        return Err(XxusdError::InvalidLockPeriod);
    }
    let elapsed = match checked_sub_timestamp(current_time, lock.lock_time) {
        Ok(v) => v,
        Err(e) => {
            return Err(e);
        },
    };
    if elapsed < 0 {
        return Err(XxusdError::MathOverflow);
    }
    let days_passed: u64 = (elapsed as u64) / SECONDS_PER_DAY;
    let period_days: u64 = (lock_period as u64) / SECONDS_PER_DAY;
    if period_days == 0 {
        return Err(XxusdError::DivisionByZero);
    }
    let amount = lock.amount.value();
    proof {
        assert(days_passed as int * amount as int <= u64::MAX as int * u64::MAX as int)
            by (nonlinear_arith)
            requires
                0 <= days_passed as int <= u64::MAX as int,
                0 <= amount as int <= u64::MAX as int,
        ;
    }
    let accrued: u128 = (days_passed as u128) * (amount as u128) / (period_days as u128);
    let releasable: u64 = if (amount as u128) < accrued {
        amount
    } else {
        accrued as u64
    };
    if releasable == 0 {
        return Err(XxusdError::InsufficientReleasableAmount);
    }
    Ok((Amount::new(releasable), days_passed))
}

/// Finds the first lock that still holds something.
#[verifier::loop_isolation(false)]
fn find_first_active_lock(locks: &Vec<Lock>) -> (r: usize)
    ensures
        r as int == spec_first_active_lock(locks@, 0),
{
    let n = locks.len();
    let mut i: usize = 0;
    while i < n
        invariant
            0 <= i <= n,
            spec_first_active_lock(locks@, 0) == spec_first_active_lock(locks@, i as int),
        decreases n - i,
    {
        if locks[i].amount.value() > 0 {
            return i;
        }
        i = i + 1;
    }
    n
}

/// Computes the releasable amount for the holder's first still-active
/// lock.
pub fn calculate_releasable_amount(lock_manager: &LockManager, current_time: Timestamp) -> (r:
    Result<(Amount, u64), XxusdError>)
    ensures
        ({
            let k = spec_first_active_lock(lock_manager.locks@, 0);
            let n = lock_manager.locks@.len() as int;
            &&& k == n ==> r == Err::<(Amount, u64), XxusdError>(XxusdError::LockNotFound)
            &&& k < n ==> r == spec_release_outcome(lock_manager.locks@[k], current_time.0)
        }),
{
    proof {
        lemma_first_active_lock_props(lock_manager.locks@, 0);
    }
    let k = find_first_active_lock(&lock_manager.locks);
    if k == lock_manager.locks.len() {
        return Err(XxusdError::LockNotFound);
    }
    compute_releasable(&lock_manager.locks[k], current_time)
}

/// Applies a computed release to the holder's first still-active lock:
/// the lock's amount drops by the released amount, its checkpoint moves to
/// the moment of the release, and the running total drops alike. On
/// failure nothing is changed.
pub fn apply_release(
    lock_manager: &mut LockManager,
    releasable_amount: Amount,
    current_time: Timestamp,
) -> (r: Result<(), XxusdError>)
    ensures
        ({
            let k = spec_first_active_lock(old(lock_manager).locks@, 0);
            let n = old(lock_manager).locks@.len() as int;
            &&& k == n ==> r == Err::<(), XxusdError>(XxusdError::LockNotFound)
                && *final(lock_manager) == *old(lock_manager)
            &&& k < n && releasable_amount.0 > old(lock_manager).locks@[k].amount.0 ==> r
                == Err::<(), XxusdError>(XxusdError::MathOverflow) && *final(lock_manager)
                == *old(lock_manager)
            &&& k < n && releasable_amount.0 <= old(lock_manager).locks@[k].amount.0
                && releasable_amount.0 > old(lock_manager).total_locked_amount ==> r == Err::<
                (),
                XxusdError,
            >(XxusdError::MathOverflow) && *final(lock_manager) == *old(lock_manager)
            &&& k < n && releasable_amount.0 <= old(lock_manager).locks@[k].amount.0
                && releasable_amount.0 <= old(lock_manager).total_locked_amount ==> r == Ok::<
                (),
                XxusdError,
            >(()) && final(lock_manager).locks@ == old(lock_manager).locks@.update(
                k,
                Lock {
                    amount: Amount(
                        (old(lock_manager).locks@[k].amount.0 - releasable_amount.0) as u64,
                    ),
                    lock_time: current_time,
                    lock_period: old(lock_manager).locks@[k].lock_period,
                },
            ) && final(lock_manager).total_locked_amount == old(lock_manager).total_locked_amount
                - releasable_amount.0
        }),
{
    proof {
        lemma_first_active_lock_props(lock_manager.locks@, 0);
    }
    let k = find_first_active_lock(&lock_manager.locks);
    if k == lock_manager.locks.len() {
        return Err(XxusdError::LockNotFound);
    }
    let user_lock = lock_manager.locks[k];
    if releasable_amount.value() > user_lock.amount.value() {
        return Err(XxusdError::MathOverflow);
    }
    if releasable_amount.value() > lock_manager.total_locked_amount {
        return Err(XxusdError::MathOverflow);
    }
    lock_manager.locks[k] = Lock {
        amount: Amount(user_lock.amount.value() - releasable_amount.value()),
        lock_time: current_time,
        lock_period: user_lock.lock_period,
    };
    lock_manager.total_locked_amount = lock_manager.total_locked_amount
        - releasable_amount.value();
    Ok(())
}

/// A computed release is positive and never exceeds what the lock holds.
pub proof fn lemma_release_outcome_bounds(lock: Lock, current_time: i64)
    ensures
        spec_release_outcome(lock, current_time) is Ok ==> 0 < spec_release_outcome(
            lock,
            current_time,
        )->Ok_0.0.0 <= lock.amount.0,
{
    if spec_release_outcome(lock, current_time) is Ok {
        let days = spec_elapsed_days(lock.lock_time.0, current_time);
        let pd = spec_period_days(lock.lock_period.0);
        let elapsed = current_time - lock.lock_time.0;
        lemma_div_of0(SECONDS_PER_DAY as int);
        lemma_div_is_ordered(0, elapsed, SECONDS_PER_DAY as int);
        assert(days * lock.amount.0 >= 0) by (nonlinear_arith)
            requires
                days >= 0,
                lock.amount.0 >= 0,
        ;
        lemma_div_of0(pd);
        lemma_div_is_ordered(0, days * lock.amount.0 as int, pd);
    }
}

/// Vesting monotonicity: a release never exceeds what the lock still
/// holds, so the remaining amount never increases, and two successive
/// releases never hand out more than the amount the first started from.
pub proof fn lemma_release_monotonic(lock: Lock, t1: i64, t2: i64)
    requires
        releasable_inputs_ok(lock, t1),
    ensures
        ({
            let r1 = spec_releasable_amount(lock.amount.0, lock.lock_time.0, lock.lock_period.0, t1);
            let lock1 = Lock {
                amount: Amount((lock.amount.0 - r1) as u64),
                lock_time: Timestamp(t1),
                lock_period: lock.lock_period,
            };
            let r2 = spec_releasable_amount(lock1.amount.0, t1, lock.lock_period.0, t2);
            &&& 0 < r1 <= lock.amount.0
            &&& lock1.amount.0 <= lock.amount.0
            &&& releasable_inputs_ok(lock1, t2) ==> r1 + r2 <= lock.amount.0
        }),
{
}

} // verus!
