use vstd::prelude::*;

verus! {

/// Why an operation was refused. Every refused operation leaves its records
/// as they were.
#[derive(Clone, Copy, Debug, PartialEq, Eq, Structural)]
pub enum ErrorCode {
    /// An escrow total or a reward computation left the 64-bit range.
    Overflow,
    /// The proposal's status does not allow the operation.
    InvalidProposalStatus,
    /// Rewards were already paid out for this proposal.
    RewardsAlreadyDistributed,
    /// The reward vault holds less than is to be paid.
    InsufficientVaultBalance,
    /// A supplied investment record was not written by this ledger.
    InvalidOwner,
    /// A supplied investment record does not have the investment layout.
    InvalidInvestmentData,
    /// The caller is not the authority named in the config record.
    Unauthorized,
    /// A proposal description is longer than the limit.
    DescriptionTooLong,
    /// An investment of nothing.
    ZeroAmount,
}

/// The broad class of a refusal.
#[derive(Clone, Copy, Debug, PartialEq, Eq, Structural)]
pub enum ErrorKind {
    Validation,
    Authorization,
    State,
    Arithmetic,
    InsufficientFunds,
    InvalidReference,
}

impl ErrorCode {
    /// The class that this refusal belongs to.
    pub fn kind(&self) -> (r: ErrorKind)
        ensures
            r == kind_of(*self),
    {
        match self {
            ErrorCode::Overflow => ErrorKind::Arithmetic,
            ErrorCode::InvalidProposalStatus => ErrorKind::State,
            ErrorCode::RewardsAlreadyDistributed => ErrorKind::State,
            ErrorCode::InsufficientVaultBalance => ErrorKind::InsufficientFunds,
            ErrorCode::InvalidOwner => ErrorKind::InvalidReference,
            ErrorCode::InvalidInvestmentData => ErrorKind::InvalidReference,
            ErrorCode::Unauthorized => ErrorKind::Authorization,
            ErrorCode::DescriptionTooLong => ErrorKind::Validation,
            ErrorCode::ZeroAmount => ErrorKind::Validation,
        }
    }
}

/// The class of each refusal.
pub open spec fn kind_of(e: ErrorCode) -> ErrorKind {
    match e {
        ErrorCode::Overflow => ErrorKind::Arithmetic,
        ErrorCode::InvalidProposalStatus => ErrorKind::State,
        ErrorCode::RewardsAlreadyDistributed => ErrorKind::State,
        ErrorCode::InsufficientVaultBalance => ErrorKind::InsufficientFunds,
        ErrorCode::InvalidOwner => ErrorKind::InvalidReference,
        ErrorCode::InvalidInvestmentData => ErrorKind::InvalidReference,
        ErrorCode::Unauthorized => ErrorKind::Authorization,
        ErrorCode::DescriptionTooLong => ErrorKind::Validation,
        ErrorCode::ZeroAmount => ErrorKind::Validation,
    }
}

} // verus!
