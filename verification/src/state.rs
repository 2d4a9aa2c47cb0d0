//! The persisted records of the venue.
//!
//! Each record occupies one fixed-size entry at its derived address; there
//! is no separate index, every lookup is a re-derivation.  The stored bump
//! is the disambiguation byte produced when the address was derived; it is
//! kept so later operations can re-derive and authenticate the address.

use vstd::prelude::*;
use crate::addr::Address;

verus! {

/// A registered trading identity, bound to one external owner.
#[derive(Clone, Copy, Eq, Debug)]
pub struct Agent {
    /// The identity that registered this agent and may withdraw through it.
    pub owner: Address,
    /// The disambiguation byte of this record's derived address.
    pub bump: u8,
}

/// A registered trading pair: the ordered pair of tradable token mints.
#[derive(Clone, Copy, Eq, Debug)]
pub struct Market {
    /// The first token mint of the pair.
    pub token_a: Address,
    /// The second token mint of the pair.
    pub token_b: Address,
    /// The disambiguation byte of this record's derived address.
    pub bump: u8,
}

/// The sole custodian record for one token within one market.
#[derive(Clone, Copy, Eq, Debug)]
pub struct Vault {
    /// The market this vault belongs to.
    pub market: Address,
    /// The token mint this vault custodies.
    pub token: Address,
    /// The disambiguation byte of this record's derived address.
    pub bump: u8,
}

/// A placed-but-unsettled intent to swap one token for another.
#[derive(Clone, Copy, Eq, Debug)]
pub struct Trade {
    /// The agent that placed the trade.
    pub agent: Address,
    /// The market the trade is scoped to.
    pub market: Address,
    /// The direction flag: 0 buys token B with token A, 1 the reverse.
    pub trade_type: u8,
    /// How much the agent pays into the vault at settlement.
    pub amount_in: u64,
    /// How much the vault pays out to the agent at settlement.
    pub amount_out: u64,
    /// The disambiguation byte of this record's derived address.
    pub bump: u8,
}

/// A token balance held for one authority in one mint.  Balances are keyed
/// by the (authority, mint) pair: each authority has at most one account
/// per mint, the associated-account discipline.
#[derive(Clone, Copy, Eq, Debug)]
pub struct TokenAccount {
    /// The mint whose units this account holds.
    pub mint: Address,
    /// The identity the balance belongs to: a user, or a vault address.
    pub authority: Address,
    /// The balance.
    pub amount: u64,
}

impl PartialEq for Agent {
    fn eq(&self, other: &Agent) -> (r: bool) {
        self.owner == other.owner && self.bump == other.bump
    }
}

impl vstd::std_specs::cmp::PartialEqSpecImpl for Agent {
    open spec fn obeys_eq_spec() -> bool {
        true
    }

    open spec fn eq_spec(&self, other: &Agent) -> bool {
        self == other
    }
}

impl PartialEq for Market {
    fn eq(&self, other: &Market) -> (r: bool) {
        self.token_a == other.token_a && self.token_b == other.token_b && self.bump == other.bump
    }
}

impl vstd::std_specs::cmp::PartialEqSpecImpl for Market {
    open spec fn obeys_eq_spec() -> bool {
        true
    }

    open spec fn eq_spec(&self, other: &Market) -> bool {
        self == other
    }
}

impl PartialEq for Vault {
    fn eq(&self, other: &Vault) -> (r: bool) {
        self.market == other.market && self.token == other.token && self.bump == other.bump
    }
}

impl vstd::std_specs::cmp::PartialEqSpecImpl for Vault {
    open spec fn obeys_eq_spec() -> bool {
        true
    }

    open spec fn eq_spec(&self, other: &Vault) -> bool {
        self == other
    }
}

impl PartialEq for Trade {
    fn eq(&self, other: &Trade) -> (r: bool) {
        self.agent == other.agent && self.market == other.market && self.trade_type
            == other.trade_type && self.amount_in == other.amount_in && self.amount_out
            == other.amount_out && self.bump == other.bump
    }
}

impl vstd::std_specs::cmp::PartialEqSpecImpl for Trade {
    open spec fn obeys_eq_spec() -> bool {
        true
    }

    open spec fn eq_spec(&self, other: &Trade) -> bool {
        self == other
    }
}

impl PartialEq for TokenAccount {
    fn eq(&self, other: &TokenAccount) -> (r: bool) {
        self.mint == other.mint && self.authority == other.authority && self.amount == other.amount
    }
}

impl vstd::std_specs::cmp::PartialEqSpecImpl for TokenAccount {
    open spec fn obeys_eq_spec() -> bool {
        true
    }

    open spec fn eq_spec(&self, other: &TokenAccount) -> bool {
        self == other
    }
}

} // verus!
