//! Registering a trading identity.
//!
//! An agent record is created at the address derived from its owner, so
//! registration is once-per-owner: a second registration finds the address
//! occupied and fails.

use vstd::prelude::*;
use crate::addr::{agent_seeds, derive_agent_address, derived};
use crate::errors::OpError;
use crate::ledger::{lemma_push_entry, lookup, Ledger, LedgerView, find_record};
use crate::addr::Address;
use crate::state::Agent;

verus! {

/// The accounts a registration touches: the signing user, who becomes the
/// agent's owner and pays for the record.
#[derive(Clone, Copy, Debug)]
pub struct RegisterAgent {
    /// The signing caller; recorded as the new agent's owner.
    pub user: Address,
}

/// What registering does: derive the agent's address from the owner, fail
/// if the address is occupied, otherwise store the new record.  Nothing
/// else changes.
pub open spec fn register_agent_result(s: LedgerView, ctx: RegisterAgent) -> Result<
    (Address, LedgerView),
    OpError,
> {
    match derived(agent_seeds(ctx.user), s.program_id) {
        None => Err(OpError::AddressNotDerivable),
        Some(p) => if lookup(s.agents, p.0) is Some {
            Err(OpError::AccountAlreadyExists)
        } else {
            Ok(
                (
                    p.0,
                    LedgerView {
                        agents: s.agents.push((p.0, Agent { owner: ctx.user, bump: p.1 })),
                        ..s
                    },
                ),
            )
        },
    }
}

impl Ledger {
    /// Register the calling user as an agent, once per owner.  Returns the
    /// new agent record's address.
    pub fn register_agent(&mut self, ctx: RegisterAgent) -> (r: Result<Address, OpError>)
        requires
            old(self)@.wf(),
        ensures
            final(self)@.wf(),
            (match register_agent_result(old(self)@, ctx) {
                Ok(p) => r == Ok::<Address, OpError>(p.0) && final(self)@ == p.1,
                Err(e) => r == Err::<Address, OpError>(e) && final(self)@ == old(self)@,
            }),
    {
        let pid = self.program_id;
        match derive_agent_address(&ctx.user, &pid) {
            None => Err(OpError::AddressNotDerivable),
            Some((addr, bump)) => {
                match find_record(&self.agents, &addr) {
                    Some(_) => Err(OpError::AccountAlreadyExists),
                    None => {
                        let agent = Agent { owner: ctx.user, bump };
                        self.agents.push((addr, agent));
                        proof {
                            let s = old(self)@;
                            let s2 = self@;
                            lemma_push_entry(s.agents, (addr, agent));
                            assert forall|i: int|
                                0 <= i < s2.agents.len() implies #[trigger] s2.agent_ok(i) by {
                                if i < s.agents.len() {
                                    assert(s.agent_ok(i));
                                    assert(s2.agents[i] == s.agents[i]);
                                }
                            }
                            assert forall|i: int|
                                0 <= i < s2.markets.len() implies #[trigger] s2.market_ok(i) by {
                                assert(s.market_ok(i));
                            }
                            assert forall|i: int|
                                0 <= i < s2.vaults.len() implies #[trigger] s2.vault_ok(i) by {
                                assert(s.vault_ok(i));
                            }
                            assert forall|i: int|
                                0 <= i < s2.trades.len() implies #[trigger] s2.trade_ok(i) by {
                                assert(s.trade_ok(i));
                            }
                        }
                        Ok(addr)
                    },
                }
            },
        }
    }
}

} // verus!
