use vstd::prelude::*;

verus! {

/// Identifier of a ledger participant.
///
/// The ledger treats an account identifier as an opaque key: it only
/// compares identifiers for equality and uses them to index its maps,
/// so a fixed-width unsigned integer carries everything the logic reads
/// of one. Whatever richer identity the hosting environment uses maps
/// one-to-one onto this value at the boundary.
pub type AccountId = u64;

} // verus!
