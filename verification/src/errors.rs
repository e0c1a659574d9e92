//! Failure kinds of the ledger's transitions.

use vstd::prelude::*;

verus! {

/// Errors raised by the transition logic itself. Every one aborts the whole
/// operation before any state is persisted.
#[derive(Clone, Copy, Debug, PartialEq, Eq, Structural)]
pub enum AppError {
    /// Tip amount did not meet the minimum threshold.
    InsufficientAmount,
    /// A profile's owner may not reward their own profile.
    SelfTippingForbidden,
    /// Only the profile authority can perform this action.
    InvalidAccountOwner,
    /// Requested amount exceeds the profile balance.
    BalanceTooLow,
    /// Profile slot is outside the allowed range.
    InvalidSlot,
    /// Profile name exceeds the allowed length.
    NameTooLong,
    /// Tip message is too long.
    MessageTooLong,
    /// A checked addition or subtraction would wrap.
    MathOverflow,
}

/// Outcome of a whole transition against the record store: either a
/// transition-logic error, or a failure of the store itself to supply the
/// records the transition names.
#[derive(Clone, Copy, Debug, PartialEq, Eq, Structural)]
pub enum TxError {
    /// The transition logic rejected the operation.
    App(AppError),
    /// No record is stored at the named address.
    AccountNotFound,
    /// The record at the named address is not in this ledger's namespace,
    /// does not decode as the expected kind, or sits at an address that its
    /// own fields do not derive.
    MalformedRecord,
    /// A record already occupies the address a new record would be
    /// allocated at.
    AddressCollision,
}

impl AppError {
    /// Human-readable description of the error.
    pub fn message(&self) -> (r: &'static str)
    {
        match self {
            AppError::InsufficientAmount => "tip amount did not meet the minimum threshold",
            AppError::SelfTippingForbidden => "you cannot reward your own profile",
            AppError::InvalidAccountOwner => "only the profile authority can perform this action",
            AppError::BalanceTooLow => "requested amount exceeds the profile balance",
            AppError::InvalidSlot => "profile slot is outside the allowed range",
            AppError::NameTooLong => "profile name exceeds the allowed length",
            AppError::MessageTooLong => "tip message is too long",
            AppError::MathOverflow => "mathematical overflow detected",
        }
    }
}

} // verus!
