//! Placing a trade intent.
//!
//! A trade record is created at the address derived from its (agent,
//! market) pair, so at most one live trade exists per agent per market:
//! placing again before settlement finds the address occupied and fails.
//! The direction flag must be 0 (buy token B with token A) or 1 (the
//! reverse); amounts are stored verbatim, their validation is deferred to
//! settlement.

use vstd::prelude::*;
use crate::addr::{derive_trade_address, derived, trade_seeds, Address};
use crate::errors::{ErrorCode, OpError};
use crate::ledger::{find_record, lemma_push_entry, lookup, Ledger, LedgerView};
use crate::state::Trade;

verus! {

/// The accounts a placement touches: the placing agent, the market the
/// trade is scoped to, and the signing user who pays for the record.
#[derive(Clone, Copy, Debug)]
pub struct PlaceTrade {
    /// The address of the agent record placing the trade.
    pub agent: Address,
    /// The address of the market record the trade is scoped to.
    pub market: Address,
    /// The signing caller, who pays for the trade record.
    pub user: Address,
}

/// What placing does: check that the agent and market exist and the
/// direction is valid, derive the trade's address from (agent, market),
/// fail if it is occupied, otherwise store the intent verbatim.  Nothing
/// else changes.
pub open spec fn place_trade_result(
    s: LedgerView,
    ctx: PlaceTrade,
    trade_type: u8,
    amount_in: u64,
    amount_out: u64,
) -> Result<(Address, LedgerView), OpError> {
    if lookup(s.agents, ctx.agent) is None || lookup(s.markets, ctx.market) is None {
        Err(OpError::AccountNotFound)
    } else if trade_type > 1 {
        Err(OpError::Program(ErrorCode::InvalidTradeType))
    } else {
        match derived(trade_seeds(ctx.agent, ctx.market), s.program_id) {
            None => Err(OpError::AddressNotDerivable),
            Some(p) => if lookup(s.trades, p.0) is Some {
                Err(OpError::AccountAlreadyExists)
            } else {
                Ok(
                    (
                        p.0,
                        LedgerView {
                            trades: s.trades.push(
                                (
                                    p.0,
                                    Trade {
                                        agent: ctx.agent,
                                        market: ctx.market,
                                        trade_type,
                                        amount_in,
                                        amount_out,
                                        bump: p.1,
                                    },
                                ),
                            ),
                            ..s
                        },
                    ),
                )
            },
        }
    }
}

impl Ledger {
    /// Record a pending trade for (agent, market): direction, amount in,
    /// amount out.  Fails `InvalidTradeType` on any direction other than 0
    /// or 1, whatever the amounts, and fails if a live trade already
    /// occupies the (agent, market) address.  Returns the trade record's
    /// address.
    pub fn place_trade(
        &mut self,
        ctx: PlaceTrade,
        trade_type: u8,
        amount_in: u64,
        amount_out: u64,
    ) -> (r: Result<Address, OpError>)
        requires
            old(self)@.wf(),
        ensures
            final(self)@.wf(),
            (match place_trade_result(old(self)@, ctx, trade_type, amount_in, amount_out) {
                Ok(p) => r == Ok::<Address, OpError>(p.0) && final(self)@ == p.1,
                Err(e) => r == Err::<Address, OpError>(e) && final(self)@ == old(self)@,
            }),
            trade_type > 1 && lookup(old(self)@.agents, ctx.agent) is Some && lookup(
                old(self)@.markets,
                ctx.market,
            ) is Some ==> r == Err::<Address, OpError>(
                OpError::Program(ErrorCode::InvalidTradeType),
            ) && final(self)@ == old(self)@,
    {
        if find_record(&self.agents, &ctx.agent).is_none() || find_record(
            &self.markets,
            &ctx.market,
        ).is_none() {
            return Err(OpError::AccountNotFound);
        }
        if trade_type > 1 {
            return Err(OpError::Program(ErrorCode::InvalidTradeType));
        }
        let pid = self.program_id;
        match derive_trade_address(&ctx.agent, &ctx.market, &pid) {
            None => Err(OpError::AddressNotDerivable),
            Some((addr, bump)) => {
                match find_record(&self.trades, &addr) {
                    Some(_) => Err(OpError::AccountAlreadyExists),
                    None => {
                        let trade = Trade {
                            agent: ctx.agent,
                            market: ctx.market,
                            trade_type,
                            amount_in,
                            amount_out,
                            bump,
                        };
                        self.trades.push((addr, trade));
                        proof {
                            let s = old(self)@;
                            let s2 = self@;
                            lemma_push_entry(s.trades, (addr, trade));
                            assert forall|i: int|
                                0 <= i < s2.trades.len() implies #[trigger] s2.trade_ok(i) by {
                                if i < s.trades.len() {
                                    assert(s.trade_ok(i));
                                    assert(s2.trades[i] == s.trades[i]);
                                }
                            }
                            assert forall|i: int|
                                0 <= i < s2.agents.len() implies #[trigger] s2.agent_ok(i) by {
                                assert(s.agent_ok(i));
                            }
                            assert forall|i: int|
                                0 <= i < s2.markets.len() implies #[trigger] s2.market_ok(i) by {
                                assert(s.market_ok(i));
                            }
                            assert forall|i: int|
                                0 <= i < s2.vaults.len() implies #[trigger] s2.vault_ok(i) by {
                                assert(s.vault_ok(i));
                            }
                        }
                        Ok(addr)
                    },
                }
            },
        }
    }
}

} // verus!
