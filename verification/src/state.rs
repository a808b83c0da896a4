//! The protocol's value types and the account-state models the core computes
//! over: amounts, timestamps, and the controller, depository, lock and
//! hedging-strategy records.

use vstd::prelude::*;

use crate::error::XxusdError;

pub mod controller;
pub mod hedging_strategy;
pub mod kamino_depository;
pub mod lock_manager;

verus! {

/// A token amount, in the smallest (64-bit) unit of the protocol.
#[derive(Clone, Copy, Debug, PartialEq, Eq, Structural, Default)]
pub struct Amount(pub u64);

/// A Unix timestamp or a duration, in seconds.
#[derive(Clone, Copy, Debug, PartialEq, Eq, Structural, Default)]
pub struct Timestamp(pub i64);

impl Amount {
    /// Wraps a raw 64-bit value.
    pub fn new(value: u64) -> (r: Self)
        ensures
            r.0 == value,
    {
        Amount(value)
    }

    /// The raw 64-bit value.
    pub fn value(&self) -> (r: u64)
        ensures
            r == self.0,
    {
        self.0
    }

    /// Accepts a wide intermediate result back into an `Amount`, failing
    /// explicitly when it no longer fits.
    pub fn from_u128(value: u128) -> (r: Result<Self, XxusdError>)
        ensures
            value <= u64::MAX ==> r == Ok::<Self, XxusdError>(Amount(value as u64)),
            value > u64::MAX ==> r == Err::<Self, XxusdError>(XxusdError::Overflow),
    {
        match safe_u128_to_u64(value) {
            Ok(v) => Ok(Amount(v)),
            Err(e) => Err(e),
        }
    }

    /// Widens the amount for use as an intermediate in products.
    pub fn to_u128(&self) -> (r: u128)
        ensures
            r == self.0 as u128,
    {
        self.0 as u128
    }

    /// The raw 64-bit value.
    pub fn to_u64(&self) -> (r: u64)
        ensures
            r == self.0,
    {
        self.0
    }

    /// Wraps a raw 64-bit value.
    pub fn from_u64(value: u64) -> (r: Self)
        ensures
            r.0 == value,
    {
        Amount(value)
    }
}

impl Timestamp {
    /// Wraps a raw signed timestamp.
    pub fn new(value: i64) -> (r: Self)
        ensures
            r.0 == value,
    {
        Timestamp(value)
    }

    /// The raw signed value.
    pub fn value(&self) -> (r: i64)
        ensures
            r == self.0,
    {
        self.0
    }

    /// Reinterprets the timestamp as unsigned; negative values wrap.
    pub fn to_u64(&self) -> (r: u64)
        ensures
            r == self.0 as u64,
    {
        self.0 as u64
    }

    /// Reinterprets an unsigned value as a timestamp; large values wrap.
    pub fn from_u64(value: u64) -> (r: Self)
        ensures
            r.0 == value as i64,
    {
        Timestamp(value as i64)
    }
}

/// Wraps a raw 64-bit value as an `Amount`.
pub fn u64_to_amount(value: u64) -> (r: Amount)
    ensures
        r.0 == value,
{
    Amount::from_u64(value)
}

/// Unwraps an `Amount` to its raw 64-bit value.
pub fn amount_to_u64(amount: Amount) -> (r: u64)
    ensures
        r == amount.0,
{
    amount.to_u64()
}

/// Wraps a raw signed value as a `Timestamp`.
pub fn i64_to_timestamp(value: i64) -> (r: Timestamp)
    ensures
        r.0 == value,
{
    Timestamp::new(value)
}

/// Unwraps a `Timestamp` to its raw signed value.
pub fn timestamp_to_i64(timestamp: Timestamp) -> (r: i64)
    ensures
        r == timestamp.0,
{
    timestamp.value()
}

/// Narrows a wide intermediate to 64 bits, failing explicitly when it does
/// not fit.
pub fn safe_u128_to_u64(value: u128) -> (r: Result<u64, XxusdError>)
    ensures
        value <= u64::MAX ==> r == Ok::<u64, XxusdError>(value as u64),
        value > u64::MAX ==> r == Err::<u64, XxusdError>(XxusdError::Overflow),
{
    if value <= u64::MAX as u128 {
        Ok(value as u64)
    } else {
        Err(XxusdError::Overflow)
    }
}

/// Widens a 64-bit value; this direction never fails.
pub fn safe_u64_to_u128(value: u64) -> (r: u128)
    ensures
        r == value as u128,
{
    value as u128
}

} // verus!
