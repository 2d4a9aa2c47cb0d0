//! Initializing a market and its two custody vaults.
//!
//! One call creates the market record for an ordered token pair and the
//! two vault records that custody each token, each at its derived
//! address, plus an empty custody balance for each vault if none exists
//! yet.  A pair whose market address is already occupied cannot be
//! initialized again; a pair whose two tokens are equal derives the same
//! address for both vaults and is rejected the same way.

use vstd::prelude::*;
use crate::addr::{derive_market_address, derive_vault_address, derived, market_seeds, vault_seeds,
    Address};
use crate::errors::OpError;
use crate::ledger::{find_record, find_token_account, lemma_push_entry, lemma_push_ta, lookup,
    ta_lookup, Ledger, LedgerView};
use crate::state::{Market, TokenAccount, Vault};

verus! {

/// The accounts an initialization touches: the two token mints of the
/// pair and the signer who pays for the records.
#[derive(Clone, Copy, Debug)]
pub struct InitializeMarket {
    /// The first token mint of the pair.
    pub token_a_mint: Address,
    /// The second token mint of the pair.
    pub token_b_mint: Address,
    /// The signing caller, who pays for the new records.
    pub signer: Address,
}

/// The custody balances after initialization: each vault gets an empty
/// account for its token unless one already exists.
pub open spec fn with_vault_accounts(
    accounts: Seq<TokenAccount>,
    vault: Address,
    mint: Address,
) -> Seq<TokenAccount> {
    if ta_lookup(accounts, vault, mint) is Some {
        accounts
    } else {
        accounts.push(TokenAccount { mint, authority: vault, amount: 0 })
    }
}

/// What initializing does: derive the market address from the ordered
/// pair and each vault address from the pair plus its custodied token;
/// fail if any of the three addresses is occupied (two equal tokens make
/// the two vault addresses collide and fail here); otherwise store the
/// three records and ensure each vault has a custody balance.  Nothing
/// else changes.
pub open spec fn initialize_market_result(s: LedgerView, ctx: InitializeMarket) -> Result<
    ((Address, Address, Address), LedgerView),
    OpError,
> {
    let ta = ctx.token_a_mint;
    let tb = ctx.token_b_mint;
    match (
        derived(market_seeds(ta, tb), s.program_id),
        derived(vault_seeds(ta, tb, ta), s.program_id),
        derived(vault_seeds(ta, tb, tb), s.program_id),
    ) {
        (Some(pm), Some(pa), Some(pb)) => {
            if lookup(s.markets, pm.0) is Some {
                Err(OpError::AccountAlreadyExists)
            } else if lookup(s.vaults, pa.0) is Some {
                Err(OpError::AccountAlreadyExists)
            } else if pb.0 == pa.0 || lookup(s.vaults, pb.0) is Some {
                Err(OpError::AccountAlreadyExists)
            } else {
                Ok(
                    (
                        (pm.0, pa.0, pb.0),
                        LedgerView {
                            markets: s.markets.push(
                                (pm.0, Market { token_a: ta, token_b: tb, bump: pm.1 }),
                            ),
                            vaults: s.vaults.push(
                                (pa.0, Vault { market: pm.0, token: ta, bump: pa.1 }),
                            ).push((pb.0, Vault { market: pm.0, token: tb, bump: pb.1 })),
                            token_accounts: with_vault_accounts(
                                with_vault_accounts(s.token_accounts, pa.0, ta),
                                pb.0,
                                tb,
                            ),
                            ..s
                        },
                    ),
                )
            }
        },
        _ => Err(OpError::AddressNotDerivable),
    }
}

impl Ledger {
    /// Create the market for the ordered pair (token_a, token_b) and its
    /// two custody vaults.  Fails if the pair is already initialized.
    /// Returns the addresses of the market, the token-a vault and the
    /// token-b vault.
    pub fn initialize_market(&mut self, ctx: InitializeMarket) -> (r: Result<
        (Address, Address, Address),
        OpError,
    >)
        requires
            old(self)@.wf(),
        ensures
            final(self)@.wf(),
            (match initialize_market_result(old(self)@, ctx) {
                Ok(p) => r == Ok::<(Address, Address, Address), OpError>(p.0) && final(self)@
                    == p.1,
                Err(e) => r == Err::<(Address, Address, Address), OpError>(e) && final(self)@
                    == old(self)@,
            }),
    {
        let pid = self.program_id;
        let pm_opt = derive_market_address(&ctx.token_a_mint, &ctx.token_b_mint, &pid);
        let pa_opt = derive_vault_address(
            &ctx.token_a_mint,
            &ctx.token_b_mint,
            &ctx.token_a_mint,
            &pid,
        );
        let pb_opt = derive_vault_address(
            &ctx.token_a_mint,
            &ctx.token_b_mint,
            &ctx.token_b_mint,
            &pid,
        );
        match (pm_opt, pa_opt, pb_opt) {
            (Some(pm), Some(pa), Some(pb)) => {
                if find_record(&self.markets, &pm.0).is_some() {
                    return Err(OpError::AccountAlreadyExists);
                }
                if find_record(&self.vaults, &pa.0).is_some() {
                    return Err(OpError::AccountAlreadyExists);
                }
                if pb.0 == pa.0 || find_record(&self.vaults, &pb.0).is_some() {
                    return Err(OpError::AccountAlreadyExists);
                }
                let ghost s = old(self)@;
                if find_token_account(&self.token_accounts, &pa.0, &ctx.token_a_mint).is_none() {
                    self.token_accounts.push(
                        TokenAccount { mint: ctx.token_a_mint, authority: pa.0, amount: 0 },
                    );
                    proof {
                        lemma_push_ta(
                            s.token_accounts,
                            TokenAccount { mint: ctx.token_a_mint, authority: pa.0, amount: 0 },
                        );
                    }
                }
                let ghost tas1 = self@.token_accounts;
                proof {
                    assert(tas1 == with_vault_accounts(s.token_accounts, pa.0, ctx.token_a_mint));
                }
                if find_token_account(&self.token_accounts, &pb.0, &ctx.token_b_mint).is_none() {
                    self.token_accounts.push(
                        TokenAccount { mint: ctx.token_b_mint, authority: pb.0, amount: 0 },
                    );
                    proof {
                        lemma_push_ta(
                            tas1,
                            TokenAccount { mint: ctx.token_b_mint, authority: pb.0, amount: 0 },
                        );
                    }
                }
                let ghost tas2 = self@.token_accounts;
                let market = Market {
                    token_a: ctx.token_a_mint,
                    token_b: ctx.token_b_mint,
                    bump: pm.1,
                };
                let vault_a = Vault { market: pm.0, token: ctx.token_a_mint, bump: pa.1 };
                let vault_b = Vault { market: pm.0, token: ctx.token_b_mint, bump: pb.1 };
                self.markets.push((pm.0, market));
                self.vaults.push((pa.0, vault_a));
                self.vaults.push((pb.0, vault_b));
                proof {
                    let s2 = self@;
                    if ctx.token_a_mint == ctx.token_b_mint {
                        assert(vault_seeds(ctx.token_a_mint, ctx.token_b_mint, ctx.token_a_mint)
                            =~~= vault_seeds(ctx.token_a_mint, ctx.token_b_mint, ctx.token_b_mint));
                        assert(false);
                    }
                    lemma_push_entry(s.markets, (pm.0, market));
                    lemma_push_entry(s.vaults, (pa.0, vault_a));
                    lemma_push_entry(s.vaults.push((pa.0, vault_a)), (pb.0, vault_b));
                    assert forall|i: int|
                        0 <= i < s2.markets.len() implies #[trigger] s2.market_ok(i) by {
                        if i < s.markets.len() {
                            assert(s.market_ok(i));
                            assert(s2.markets[i] == s.markets[i]);
                        }
                    }
                    assert forall|i: int|
                        0 <= i < s2.vaults.len() implies #[trigger] s2.vault_ok(i) by {
                        if i < s.vaults.len() {
                            assert(s.vault_ok(i));
                            assert(s2.vaults[i] == s.vaults[i]);
                            let m = s.vaults[i].1.market;
                            assert(lookup(s.markets, m) is Some);
                            assert(m != pm.0);
                            assert(lookup(s2.markets, m) == lookup(s.markets, m));
                        } else {
                            assert(lookup(s2.markets, pm.0) == Some(market));
                        }
                    }
                    assert forall|i: int|
                        0 <= i < s2.agents.len() implies #[trigger] s2.agent_ok(i) by {
                        assert(s.agent_ok(i));
                    }
                    assert forall|i: int|
                        0 <= i < s2.trades.len() implies #[trigger] s2.trade_ok(i) by {
                        assert(s.trade_ok(i));
                    }
                }
                Ok((pm.0, pa.0, pb.0))
            },
            _ => Err(OpError::AddressNotDerivable),
        }
    }
}

} // verus!
