//! Settling a trade: the atomic two-leg swap.
//!
//! The pending trade fixes the direction and both amounts.  After the
//! token mints are validated against the market's pair and the trade's
//! direction, leg one moves `amount_in` from the agent's account into the
//! inbound vault (authorized by the caller's signature) and leg two moves
//! `amount_out` from the outbound vault to the agent's account
//! (authorized by the vault-authority derivation proof).  Both legs are
//! applied to a staging copy of the balances and committed only together:
//! if either fails, the ledger is left exactly as it was.  On success the
//! trade record is erased.

use vstd::prelude::*;
use crate::addr::{derive_vault_address, derives_to, vault_seeds, Address};
use crate::errors::{ErrorCode, OpError};
use crate::ledger::{find_record, find_token_account, key_index, lemma_remove_entry, lookup,
    ta_lookup, transfer, transfer_result, Authorization, Ledger, LedgerView};

verus! {

/// The accounts a settlement touches: the trade and the records it is
/// scoped to, the signing user, both token mints, and both vaults.
#[derive(Clone, Copy, Debug)]
pub struct ExecuteTrade {
    /// The address of the pending trade record.
    pub trade: Address,
    /// The address of the market record.
    pub market: Address,
    /// The address of the agent record the trade belongs to.
    pub agent: Address,
    /// The signing caller, owner of both user token accounts.
    pub user: Address,
    /// The mint the user pays in.
    pub token_in_mint: Address,
    /// The mint the user receives.
    pub token_out_mint: Address,
    /// The address of the vault that takes the inbound leg.
    pub vault_in: Address,
    /// The address of the vault that pays the outbound leg.
    pub vault_out: Address,
}

/// What settling does: authenticate the trade against the presented agent
/// (`Unauthorized`), authenticate both vaults exactly as deposits do
/// (`InvalidVault`), check both presented mints against the market's pair
/// in the trade's direction (`InvalidTokenAccounts`), then apply both
/// transfer legs together or not at all, and erase the trade record.
pub open spec fn execute_trade_result(s: LedgerView, ctx: ExecuteTrade) -> Result<
    LedgerView,
    OpError,
> {
    if lookup(s.trades, ctx.trade) is None {
        Err(OpError::AccountNotFound)
    } else {
        let t = lookup(s.trades, ctx.trade).unwrap();
        if t.agent != ctx.agent {
            Err(OpError::Program(ErrorCode::Unauthorized))
        } else if lookup(s.markets, ctx.market) is None || lookup(s.agents, ctx.agent) is None {
            Err(OpError::AccountNotFound)
        } else {
            let m = lookup(s.markets, ctx.market).unwrap();
            if ta_lookup(s.token_accounts, ctx.user, ctx.token_in_mint) is None || ta_lookup(
                s.token_accounts,
                ctx.user,
                ctx.token_out_mint,
            ) is None {
                Err(OpError::AccountNotFound)
            } else if lookup(s.vaults, ctx.vault_in) is None {
                Err(OpError::AccountNotFound)
            } else {
                let vin = lookup(s.vaults, ctx.vault_in).unwrap();
                if !derives_to(
                    vault_seeds(m.token_a, m.token_b, ctx.token_in_mint),
                    s.program_id,
                    ctx.vault_in,
                    vin.bump,
                ) || vin.market != ctx.market || vin.token != ctx.token_in_mint {
                    Err(OpError::Program(ErrorCode::InvalidVault))
                } else if ta_lookup(s.token_accounts, ctx.vault_in, ctx.token_in_mint) is None {
                    Err(OpError::AccountNotFound)
                } else if lookup(s.vaults, ctx.vault_out) is None {
                    Err(OpError::AccountNotFound)
                } else {
                    let vout = lookup(s.vaults, ctx.vault_out).unwrap();
                    if !derives_to(
                        vault_seeds(m.token_a, m.token_b, ctx.token_out_mint),
                        s.program_id,
                        ctx.vault_out,
                        vout.bump,
                    ) || vout.market != ctx.market || vout.token != ctx.token_out_mint {
                        Err(OpError::Program(ErrorCode::InvalidVault))
                    } else if ta_lookup(
                        s.token_accounts,
                        ctx.vault_out,
                        ctx.token_out_mint,
                    ) is None {
                        Err(OpError::AccountNotFound)
                    } else {
                        let token_in_key = if t.trade_type == 0 {
                            m.token_a
                        } else {
                            m.token_b
                        };
                        let token_out_key = if t.trade_type == 0 {
                            m.token_b
                        } else {
                            m.token_a
                        };
                        if ctx.token_in_mint != token_in_key || ctx.token_out_mint
                            != token_out_key {
                            Err(OpError::Program(ErrorCode::InvalidTokenAccounts))
                        } else {
                            match transfer_result(
                                s.token_accounts,
                                ctx.user,
                                ctx.vault_in,
                                ctx.token_in_mint,
                                t.amount_in,
                                Authorization::Signer(ctx.user),
                                s.program_id,
                            ) {
                                Err(e) => Err(e),
                                Ok(leg1) => match transfer_result(
                                    leg1,
                                    ctx.vault_out,
                                    ctx.user,
                                    ctx.token_out_mint,
                                    t.amount_out,
                                    Authorization::VaultProof {
                                        token_a: m.token_a,
                                        token_b: m.token_b,
                                        token: ctx.token_out_mint,
                                        bump: vout.bump,
                                    },
                                    s.program_id,
                                ) {
                                    Err(e) => Err(e),
                                    Ok(leg2) => Ok(
                                        LedgerView {
                                            token_accounts: leg2,
                                            trades: s.trades.remove(
                                                key_index(s.trades, ctx.trade),
                                            ),
                                            ..s
                                        },
                                    ),
                                },
                            }
                        }
                    }
                }
            }
        }
    }
}

impl Ledger {
    /// Settle the pending trade: validate everything, apply both legs of
    /// the swap atomically, and erase the trade record.  If either leg
    /// cannot be applied the ledger is unchanged.
    pub fn execute_trade(&mut self, ctx: ExecuteTrade) -> (r: Result<(), OpError>)
        requires
            old(self)@.wf(),
        ensures
            final(self)@.wf(),
            (match execute_trade_result(old(self)@, ctx) {
                Ok(s2) => r is Ok && final(self)@ == s2,
                Err(e) => r == Err::<(), OpError>(e) && final(self)@ == old(self)@,
            }),
    {
        let ti = match find_record(&self.trades, &ctx.trade) {
            None => {
                return Err(OpError::AccountNotFound);
            },
            Some(i) => i,
        };
        proof {
            crate::ledger::lemma_key_index(old(self)@.trades, ctx.trade);
        }
        let trade = self.trades[ti].1;
        if trade.agent != ctx.agent {
            return Err(OpError::Program(ErrorCode::Unauthorized));
        }
        let mi = match find_record(&self.markets, &ctx.market) {
            None => {
                return Err(OpError::AccountNotFound);
            },
            Some(i) => i,
        };
        if find_record(&self.agents, &ctx.agent).is_none() {
            return Err(OpError::AccountNotFound);
        }
        proof {
            crate::ledger::lemma_key_index(old(self)@.markets, ctx.market);
        }
        let market = self.markets[mi].1;
        if find_token_account(&self.token_accounts, &ctx.user, &ctx.token_in_mint).is_none()
            || find_token_account(&self.token_accounts, &ctx.user, &ctx.token_out_mint).is_none() {
            return Err(OpError::AccountNotFound);
        }
        let vii = match find_record(&self.vaults, &ctx.vault_in) {
            None => {
                return Err(OpError::AccountNotFound);
            },
            Some(i) => i,
        };
        proof {
            crate::ledger::lemma_key_index(old(self)@.vaults, ctx.vault_in);
        }
        let vault_in = self.vaults[vii].1;
        let pid = self.program_id;
        let seeds_in_ok = match derive_vault_address(
            &market.token_a,
            &market.token_b,
            &ctx.token_in_mint,
            &pid,
        ) {
            Some(p) => p.0 == ctx.vault_in && p.1 == vault_in.bump,
            None => false,
        };
        if !seeds_in_ok || vault_in.market != ctx.market || vault_in.token != ctx.token_in_mint {
            return Err(OpError::Program(ErrorCode::InvalidVault));
        }
        if find_token_account(&self.token_accounts, &ctx.vault_in, &ctx.token_in_mint).is_none() {
            return Err(OpError::AccountNotFound);
        }
        let voi = match find_record(&self.vaults, &ctx.vault_out) {
            None => {
                return Err(OpError::AccountNotFound);
            },
            Some(i) => i,
        };
        proof {
            crate::ledger::lemma_key_index(old(self)@.vaults, ctx.vault_out);
        }
        let vault_out = self.vaults[voi].1;
        let seeds_out_ok = match derive_vault_address(
            &market.token_a,
            &market.token_b,
            &ctx.token_out_mint,
            &pid,
        ) {
            Some(p) => p.0 == ctx.vault_out && p.1 == vault_out.bump,
            None => false,
        };
        if !seeds_out_ok || vault_out.market != ctx.market || vault_out.token
            != ctx.token_out_mint {
            return Err(OpError::Program(ErrorCode::InvalidVault));
        }
        if find_token_account(
            &self.token_accounts,
            &ctx.vault_out,
            &ctx.token_out_mint,
        ).is_none() {
            return Err(OpError::AccountNotFound);
        }
        let (token_in_key, token_out_key) = if trade.trade_type == 0 {
            (market.token_a, market.token_b)
        } else {
            (market.token_b, market.token_a)
        };
        if ctx.token_in_mint != token_in_key || ctx.token_out_mint != token_out_key {
            return Err(OpError::Program(ErrorCode::InvalidTokenAccounts));
        }
        let mut staged = self.token_accounts.clone();
        proof {
            assert(staged@ =~= old(self)@.token_accounts);
        }
        let auth_in = Authorization::Signer(ctx.user);
        match transfer(
            &mut staged,
            &ctx.user,
            &ctx.vault_in,
            &ctx.token_in_mint,
            trade.amount_in,
            &auth_in,
            &pid,
        ) {
            Err(e) => {
                return Err(e);
            },
            Ok(_) => {},
        }
        let auth_out = Authorization::VaultProof {
            token_a: market.token_a,
            token_b: market.token_b,
            token: ctx.token_out_mint,
            bump: vault_out.bump,
        };
        match transfer(
            &mut staged,
            &ctx.vault_out,
            &ctx.user,
            &ctx.token_out_mint,
            trade.amount_out,
            &auth_out,
            &pid,
        ) {
            Err(e) => {
                return Err(e);
            },
            Ok(_) => {},
        }
        self.token_accounts = staged;
        self.trades.remove(ti);
        proof {
            let s = old(self)@;
            let s2 = self@;
            lemma_remove_entry(s.trades, ti as int);
            assert(forall|j: int| 0 <= j < ti ==> s2.trades[j] == s.trades[j]);
            assert(forall|j: int| ti <= j < s2.trades.len() ==> s2.trades[j] == s.trades[j + 1]);
            assert forall|i: int| 0 <= i < s2.trades.len() implies #[trigger] s2.trade_ok(i) by {
                if i < ti {
                    assert(s.trade_ok(i));
                } else {
                    assert(s.trade_ok(i + 1));
                }
            }
            assert forall|i: int| 0 <= i < s2.agents.len() implies #[trigger] s2.agent_ok(i) by {
                assert(s.agent_ok(i));
            }
            assert forall|i: int| 0 <= i < s2.markets.len() implies #[trigger] s2.market_ok(i) by {
                assert(s.market_ok(i));
            }
            assert forall|i: int| 0 <= i < s2.vaults.len() implies #[trigger] s2.vault_ok(i) by {
                assert(s.vault_ok(i));
            }
        }
        Ok(())
    }
}

} // verus!
