use vstd::prelude::*;

verus! {

/// Why an escrow operation was refused.  A refused operation changes nothing.
#[derive(Clone, Copy, Debug, PartialEq, Eq, Structural)]
pub enum EscrowError {
    /// The record's current state does not permit the operation.
    InvalidState,
    /// The caller is not the record's maintainer, or the payee named for a
    /// release is not the record's contributor.
    InvalidAuthority,
    /// The deposit offered differs from the record's bounty amount.
    AmountMismatch,
    /// A record for the issue already exists.
    RecordAlreadyExists,
    /// No record answers to the handle.
    RecordNotFound,
    /// The record holds less than the amount it is asked to pay out.
    InsufficientCustody,
    /// The payer holds less than the amount it is asked to deposit.
    InsufficientFunds,
}

} // verus!
