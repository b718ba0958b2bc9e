//! The single primitive that moves money between two balances.
use vstd::prelude::*;
use crate::error::ErrorCode;

verus! {

/// What a transfer of `amount` from `from` to `to` yields: the two new
/// balances, or why it cannot happen.
pub open spec fn transfer_spec(from: u64, to: u64, amount: u64) -> Result<(u64, u64), ErrorCode> {
    if from < amount {
        Err(ErrorCode::InsufficientFunds)
    } else if to + amount > u64::MAX {
        Err(ErrorCode::ArithmeticOverflow)
    } else {
        Ok(((from - amount) as u64, (to + amount) as u64))
    }
}

/// Moves `amount` from the balance `from` to the balance `to` and returns the
/// two new balances. It fails when `from` cannot cover the amount or `to`
/// would overflow; a successful transfer keeps the sum of the two balances.
pub fn transfer(from: u64, to: u64, amount: u64) -> (r: Result<(u64, u64), ErrorCode>)
    ensures
        r == transfer_spec(from, to, amount),
        r matches Ok((f, t)) ==> f + t == from + to,
{
    if from < amount {
        Err(ErrorCode::InsufficientFunds)
    } else if to > u64::MAX - amount {
        Err(ErrorCode::ArithmeticOverflow)
    } else {
        Ok((from - amount, to + amount))
    }
}

} // verus!
