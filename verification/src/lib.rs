//! A custodial settlement engine for a two-token exchange venue.
//!
//! Callers register trading identities (agents), initialize markets (an
//! ordered pair of token mints with one custody vault per token), deposit
//! and withdraw collateral, place trade intents, and settle them with an
//! atomic two-leg swap against the vaults.  Every entity lives at an
//! address derived deterministically from its defining seeds, and every
//! state transition is validated against the authorization and consistency
//! rules before any balance moves.

use vstd::prelude::*;

pub mod addr;
pub mod deposit_tokens;
pub mod errors;
pub mod execute_trade;
pub mod initialize_market;
pub mod laws;
pub mod ledger;
pub mod place_trade;
pub mod register_agent;
pub mod state;
pub mod withdraw_tokens;

pub use addr::Address;
pub use errors::ErrorCode;
pub use errors::OpError;
pub use ledger::Authorization;
pub use ledger::Ledger;
pub use state::Agent;
pub use state::Market;
pub use state::TokenAccount;
pub use state::Trade;
pub use state::Vault;

verus! {

} // verus!
