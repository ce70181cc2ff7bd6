//! The ways in which an operation of the protocol can be refused.

use vstd::prelude::*;

verus! {

/// Why an operation was refused. A refused operation changes nothing.
#[derive(Clone, Copy, Debug, PartialEq, Eq)]
pub enum EscrowError {
    /// The holding to debit has less than the amount to move.
    InsufficientBalance,
    /// An asset presented does not match the asset declared for its slot,
    /// or its declared precision is not the registered one.
    AssetMismatch,
    /// The maker already has an open offer under this id.
    DuplicateOffer,
    /// The offer, vault, maker or holdings presented do not correspond to
    /// each other, or one of them does not exist in the expected state.
    RecordMismatch,
    /// The recomputed controlling identity disagrees with the one presented.
    AuthorityMismatch,
    /// The caller has not authorized the operation.
    Unauthorized,
    /// A credited balance would exceed the representable range.
    ArithmeticOverflow,
}

} // verus!
