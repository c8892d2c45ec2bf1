use vstd::prelude::*;

verus! {

/// The ways a ledger operation can fail.
///
/// Every fallible operation returns one of these instead of mutating
/// anything: a failure is all-or-nothing and leaves no partial state.
#[derive(Clone, Copy, Debug, PartialEq, Eq, Structural)]
pub enum TokenError {
    /// A caller other than the owner invoked an owner-only operation.
    Authorization,
    /// A balance- or allowance-mutating operation was attempted while
    /// the ledger is paused.
    Paused,
    /// An involved account (source, destination, mint recipient, or
    /// allowance principal) is blacklisted.
    Blacklisted,
    /// A checked addition would exceed the representable balance range.
    Overflow,
    /// A debit asked for more than the account's current balance.
    InsufficientBalance,
    /// A delegated transfer asked for more than the remaining allowance.
    AllowanceExceeded,
    /// The recipient and amount lists of a batch transfer differ in
    /// length.
    LengthMismatch,
}

} // verus!
