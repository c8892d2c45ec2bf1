use vstd::prelude::*;
use crate::account::AccountId;

verus! {

/// Record emitted when the owner mints new units to an account.
#[derive(Clone, Copy, Debug, PartialEq, Eq, Structural)]
pub struct Mint {
    pub to: AccountId,
    pub amount: u128,
}

/// Record emitted for every balance move from one account to another,
/// including each per-recipient step of a batch transfer.
#[derive(Clone, Copy, Debug, PartialEq, Eq, Structural)]
pub struct Transfer {
    pub from: AccountId,
    pub to: AccountId,
    pub amount: u128,
}

/// Record emitted when an account sets a spender's allowance.
#[derive(Clone, Copy, Debug, PartialEq, Eq, Structural)]
pub struct Approval {
    pub owner: AccountId,
    pub spender: AccountId,
    pub amount: u128,
}

/// Record emitted when an account burns units out of its own balance.
#[derive(Clone, Copy, Debug, PartialEq, Eq, Structural)]
pub struct Burn {
    pub from: AccountId,
    pub amount: u128,
}

} // verus!
