use vstd::prelude::*;

verus! {

/// Why an operation on the staking ledger was refused. Every refusal leaves
/// the state it was given as it was.
#[derive(Clone, Copy, Debug, PartialEq, Eq, Structural)]
pub enum StakingError {
    /// The caller is not the registered owner of the record.
    NotOwner,
    /// The record already holds its maximum number of items.
    CapacityExceeded,
    /// The item to withdraw is not held by the record.
    ItemNotFound,
    /// An arithmetic result does not fit in its integer type.
    Overflow,
    /// The custody transfer that follows a ledger change failed.
    TransferFailed,
}

} // verus!
