//! Depositing collateral into a market vault.
//!
//! The caller moves tokens from their own account into the custody
//! account of the vault for that token, after the mint is checked against
//! the market's pair and the vault is authenticated by re-deriving its
//! address from the presented market and mint.  The debit is authorized
//! by the caller's own signature.

use vstd::prelude::*;
use crate::addr::{derive_vault_address, derives_to, vault_seeds, Address};
use crate::errors::{ErrorCode, OpError};
use crate::ledger::{find_record, find_token_account, lookup, ta_lookup, transfer, transfer_result,
    Authorization, Ledger, LedgerView};

verus! {

/// The accounts a deposit touches: the caller's agent and the market, the
/// signing user, the mint being deposited, and the vault for that mint.
#[derive(Clone, Copy, Debug)]
pub struct DepositTokens {
    /// The address of the caller's agent record.
    pub agent: Address,
    /// The address of the market record.
    pub market: Address,
    /// The signing caller, owner of the source token account.
    pub user: Address,
    /// The mint of the token being deposited.
    pub token_mint: Address,
    /// The address of the vault record for that mint.
    pub vault: Address,
}

/// What depositing does: after the consistency checks, move `amount` from
/// the caller's token account into the vault's custody account, and
/// nothing else.  The mint must be one side of the market's pair
/// (`InvalidTokenMint`); the vault must re-derive from the presented
/// market and mint and reference both (`InvalidVault`).
pub open spec fn deposit_tokens_result(s: LedgerView, ctx: DepositTokens, amount: u64) -> Result<
    LedgerView,
    OpError,
> {
    if lookup(s.agents, ctx.agent) is None {
        Err(OpError::AccountNotFound)
    } else if lookup(s.markets, ctx.market) is None {
        Err(OpError::AccountNotFound)
    } else {
        let m = lookup(s.markets, ctx.market).unwrap();
        if ctx.token_mint != m.token_a && ctx.token_mint != m.token_b {
            Err(OpError::Program(ErrorCode::InvalidTokenMint))
        } else if ta_lookup(s.token_accounts, ctx.user, ctx.token_mint) is None {
            Err(OpError::AccountNotFound)
        } else if lookup(s.vaults, ctx.vault) is None {
            Err(OpError::AccountNotFound)
        } else {
            let v = lookup(s.vaults, ctx.vault).unwrap();
            if !derives_to(
                vault_seeds(m.token_a, m.token_b, ctx.token_mint),
                s.program_id,
                ctx.vault,
                v.bump,
            ) {
                Err(OpError::Program(ErrorCode::InvalidVault))
            } else if v.market != ctx.market {
                Err(OpError::Program(ErrorCode::InvalidVault))
            } else if v.token != ctx.token_mint {
                Err(OpError::Program(ErrorCode::InvalidVault))
            } else if ta_lookup(s.token_accounts, ctx.vault, ctx.token_mint) is None {
                Err(OpError::AccountNotFound)
            } else {
                match transfer_result(
                    s.token_accounts,
                    ctx.user,
                    ctx.vault,
                    ctx.token_mint,
                    amount,
                    Authorization::Signer(ctx.user),
                    s.program_id,
                ) {
                    Ok(accounts) => Ok(LedgerView { token_accounts: accounts, ..s }),
                    Err(e) => Err(e),
                }
            }
        }
    }
}

impl Ledger {
    /// Deposit `amount` of `token_mint` from the caller's account into the
    /// market's vault for that mint.
    pub fn deposit_tokens(&mut self, ctx: DepositTokens, amount: u64) -> (r: Result<(), OpError>)
        requires
            old(self)@.wf(),
        ensures
            final(self)@.wf(),
            (match deposit_tokens_result(old(self)@, ctx, amount) {
                Ok(s2) => r is Ok && final(self)@ == s2,
                Err(e) => r == Err::<(), OpError>(e) && final(self)@ == old(self)@,
            }),
    {
        if find_record(&self.agents, &ctx.agent).is_none() {
            return Err(OpError::AccountNotFound);
        }
        let mi = match find_record(&self.markets, &ctx.market) {
            None => {
                return Err(OpError::AccountNotFound);
            },
            Some(i) => i,
        };
        proof {
            crate::ledger::lemma_key_index(old(self)@.markets, ctx.market);
        }
        let market = self.markets[mi].1;
        if ctx.token_mint != market.token_a && ctx.token_mint != market.token_b {
            return Err(OpError::Program(ErrorCode::InvalidTokenMint));
        }
        if find_token_account(&self.token_accounts, &ctx.user, &ctx.token_mint).is_none() {
            return Err(OpError::AccountNotFound);
        }
        let vi = match find_record(&self.vaults, &ctx.vault) {
            None => {
                return Err(OpError::AccountNotFound);
            },
            Some(i) => i,
        };
        proof {
            crate::ledger::lemma_key_index(old(self)@.vaults, ctx.vault);
        }
        let vault = self.vaults[vi].1;
        let pid = self.program_id;
        let seeds_ok = match derive_vault_address(
            &market.token_a,
            &market.token_b,
            &ctx.token_mint,
            &pid,
        ) {
            Some(p) => p.0 == ctx.vault && p.1 == vault.bump,
            None => false,
        };
        if !seeds_ok {
            return Err(OpError::Program(ErrorCode::InvalidVault));
        }
        if vault.market != ctx.market {
            return Err(OpError::Program(ErrorCode::InvalidVault));
        }
        if vault.token != ctx.token_mint {
            return Err(OpError::Program(ErrorCode::InvalidVault));
        }
        if find_token_account(&self.token_accounts, &ctx.vault, &ctx.token_mint).is_none() {
            return Err(OpError::AccountNotFound);
        }
        let auth = Authorization::Signer(ctx.user);
        let r = transfer(
            &mut self.token_accounts,
            &ctx.user,
            &ctx.vault,
            &ctx.token_mint,
            amount,
            &auth,
            &pid,
        );
        proof {
            let s = old(self)@;
            let s2 = self@;
            assert forall|i: int| 0 <= i < s2.agents.len() implies #[trigger] s2.agent_ok(i) by {
                assert(s.agent_ok(i));
            }
            assert forall|i: int| 0 <= i < s2.markets.len() implies #[trigger] s2.market_ok(i) by {
                assert(s.market_ok(i));
            }
            assert forall|i: int| 0 <= i < s2.vaults.len() implies #[trigger] s2.vault_ok(i) by {
                assert(s.vault_ok(i));
            }
            assert forall|i: int| 0 <= i < s2.trades.len() implies #[trigger] s2.trade_ok(i) by {
                assert(s.trade_ok(i));
            }
        }
        r
    }
}

} // verus!
