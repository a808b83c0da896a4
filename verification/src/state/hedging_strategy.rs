//! The hedging strategy record: how much has been handed to the lending
//! platform, with the pure update rules for deposits and withdrawals.

use vstd::prelude::*;

use crate::error::XxusdError;
use crate::state::{u64_to_amount, Amount};
use crate::utils::maths::{checked_add, checked_sub};

verus! {

/// The amount currently deposited with the lending platform.
pub struct HedgingStrategy {
    pub deposited_amount: u64,
}

impl HedgingStrategy {
    /// Resets the record to an empty position.
    pub fn initialize(&mut self)
        ensures
            final(self).deposited_amount == 0,
    {
        self.deposited_amount = 0;
    }

    /// The currently deposited amount.
    pub fn get_deposited_amount(&self) -> (r: Amount)
        ensures
            r.0 == self.deposited_amount,
    {
        u64_to_amount(self.deposited_amount)
    }

    /// Overwrites the deposited amount.
    pub fn set_deposited_amount(&mut self, amount: Amount)
        ensures
            final(self).deposited_amount == amount.0,
    {
        self.deposited_amount = amount.value();
    }

    /// Records a deposit of `amount` drawn from an account holding
    /// `source_balance`, and returns the new total. The record is left
    /// unchanged on failure.
    pub fn deposit(&mut self, amount: Amount, source_balance: u64) -> (r: Result<
        Amount,
        XxusdError,
    >)
        ensures
            source_balance < amount.0 ==> r == Err::<Amount, XxusdError>(
                XxusdError::InsufficientFunds,
            ) && *final(self) == *old(self),
            source_balance >= amount.0 && old(self).deposited_amount + amount.0 > u64::MAX ==> r
                == Err::<Amount, XxusdError>(XxusdError::MathOverflow) && *final(self) == *old(
                self,
            ),
            source_balance >= amount.0 && old(self).deposited_amount + amount.0 <= u64::MAX
                ==> r == Ok::<Amount, XxusdError>(
                Amount((old(self).deposited_amount + amount.0) as u64),
            ) && final(self).deposited_amount == old(self).deposited_amount + amount.0,
    {
        if source_balance < amount.value() {
            return Err(XxusdError::InsufficientFunds);
        }
        let current = self.get_deposited_amount();
        match checked_add(current, amount) {
            Ok(new_total) => {
                self.set_deposited_amount(new_total);
                Ok(new_total)
            },
            Err(e) => Err(e),
        }
    }

    /// Records a withdrawal of `amount` and returns the new total. More
    /// than the deposited amount cannot be withdrawn; the record is left
    /// unchanged on failure.
    pub fn withdraw(&mut self, amount: Amount) -> (r: Result<Amount, XxusdError>)
        ensures
            old(self).deposited_amount < amount.0 ==> r == Err::<Amount, XxusdError>(
                XxusdError::InsufficientFunds,
            ) && *final(self) == *old(self),
            old(self).deposited_amount >= amount.0 ==> r == Ok::<Amount, XxusdError>(
                Amount((old(self).deposited_amount - amount.0) as u64),
            ) && final(self).deposited_amount == old(self).deposited_amount - amount.0,
    {
        let current = self.get_deposited_amount();
        if current.value() < amount.value() {
            return Err(XxusdError::InsufficientFunds);
        }
        match checked_sub(current, amount) {
            Ok(new_total) => {
                self.set_deposited_amount(new_total);
                Ok(new_total)
            },
            Err(e) => Err(e),
        }
    }
}

} // verus!
