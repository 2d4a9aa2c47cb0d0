//! The failure conditions of the venue.
//!
//! Every validation failure maps to exactly one named condition, detected
//! before any mutating effect, so callers can branch on cause.  The venue's
//! own rules fail with an [`ErrorCode`]; the surrounding ledger machinery
//! (account existence, balance arithmetic, address derivation) fails with
//! the other variants of [`OpError`].

use vstd::prelude::*;

verus! {

/// The venue's named validation failures.
#[derive(Clone, Copy, PartialEq, Eq, Structural, Debug)]
pub enum ErrorCode {
    /// A signer or reference does not match the record it must match.
    Unauthorized,
    /// A vault's stored market or token disagrees with the presented ones,
    /// or its address does not re-derive from the presented seeds.
    InvalidVault,
    /// The token mint is neither side of the market's pair.
    InvalidTokenMint,
    /// The trade direction flag is neither 0 nor 1.
    InvalidTradeType,
    /// The presented token mints disagree with the trade's direction.
    InvalidTokenAccounts,
    /// The signer is not the recorded owner of the agent.
    InvalidAgentOwner,
}

/// Everything an operation can fail with: a venue rule, or a failure of
/// the underlying account and transfer machinery.  In every case the
/// operation has zero effect.
#[derive(Clone, Copy, PartialEq, Eq, Structural, Debug)]
pub enum OpError {
    /// One of the venue's own validation rules failed.
    Program(ErrorCode),
    /// A record or token account that the operation reads does not exist.
    AccountNotFound,
    /// The address where a record would be created is already occupied.
    AccountAlreadyExists,
    /// A transfer asks for more than the source balance holds.
    InsufficientFunds,
    /// A transfer would push the destination balance past the maximum.
    AmountOverflow,
    /// No derivation exists for the seeds (statistically unreachable).
    AddressNotDerivable,
    /// A transfer's authorization does not match the debited account.
    AuthorizationFailed,
}

} // verus!
