//! Time-locked holdings: a lock records an amount vesting linearly over a
//! period, and the lock manager keeps the set of locks and their total.

use vstd::prelude::*;

use crate::state::{Amount, Timestamp};

verus! {

/// A time-locked holding. `lock_time` is the last release checkpoint: day
/// counting restarts from it after every applied release.
#[derive(Clone, Copy, Debug, PartialEq, Eq, Structural)]
pub struct Lock {
    /// The remaining locked amount.
    pub amount: Amount,
    /// The last checkpoint the vesting clock counts from.
    pub lock_time: Timestamp,
    /// The duration over which the original amount vests, in seconds.
    pub lock_period: Timestamp,
}

/// The lock records of one holder, with their running total.
pub struct LockManager {
    pub total_locked_amount: u64,
    pub locks: Vec<Lock>,
}

/// The index of the first lock that still holds something, or `locks.len()`
/// when every lock is exhausted.
pub open spec fn spec_first_active_lock(locks: Seq<Lock>, i: int) -> int
    decreases locks.len() - i,
{
    if i < 0 || i >= locks.len() {
        locks.len() as int
    } else if locks[i].amount.0 > 0 {
        i
    } else {
        spec_first_active_lock(locks, i + 1)
    }
}

pub proof fn lemma_first_active_lock_props(locks: Seq<Lock>, i: int)
    requires
        0 <= i <= locks.len(),
    ensures
        i <= spec_first_active_lock(locks, i) <= locks.len(),
        spec_first_active_lock(locks, i) < locks.len() ==> locks[spec_first_active_lock(
            locks,
            i,
        )].amount.0 > 0,
        forall|j: int| i <= j < spec_first_active_lock(locks, i) ==> locks[j].amount.0 == 0,
    decreases locks.len() - i,
{
    if i < locks.len() && locks[i].amount.0 == 0 {
        lemma_first_active_lock_props(locks, i + 1);
    }
}

impl LockManager {
    /// Resets the manager to an empty lock set.
    pub fn initialize(&mut self)
        ensures
            final(self).total_locked_amount == 0,
            final(self).locks@.len() == 0,
    {
        self.total_locked_amount = 0;
        self.locks = Vec::new();
    }

    /// The running total of all locked amounts.
    pub fn get_total_locked_amount(&self) -> (r: Amount)
        ensures
            r.0 == self.total_locked_amount,
    {
        crate::state::u64_to_amount(self.total_locked_amount)
    }

    /// Overwrites the running total.
    pub fn set_total_locked_amount(&mut self, amount: Amount)
        ensures
            final(self).total_locked_amount == amount.0,
            final(self).locks == old(self).locks,
    {
        self.total_locked_amount = amount.value();
    }
}

} // verus!
