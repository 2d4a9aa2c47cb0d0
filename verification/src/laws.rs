//! The venue's global laws, proved once over the ledger model.
//!
//! Each law is stated over the specification transitions that the
//! operations' own contracts are pinned to, so what holds here holds of
//! every execution.

use vstd::prelude::*;
use crate::addr::Address;
use crate::deposit_tokens::{deposit_tokens_result, DepositTokens};
use crate::execute_trade::{execute_trade_result, ExecuteTrade};
use crate::ledger::{balance_of, key_index, lemma_key_index, lemma_remove_entry,
    lemma_transfer_balances, lookup, ta_lookup, transfer_result, Authorization, LedgerView};
use crate::withdraw_tokens::{withdraw_tokens_result, WithdrawTokens};

verus! {

/// Derivation determinism for agents: two stored agent records with the
/// same owner sit at the same address with the same bump — re-deriving an
/// agent's address from its defining seed always yields the same address,
/// so there is one agent record per owner.
pub proof fn lemma_agent_address_determined(s: LedgerView, a1: Address, a2: Address)
    requires
        s.wf(),
        lookup(s.agents, a1) is Some,
        lookup(s.agents, a2) is Some,
        lookup(s.agents, a1).unwrap().owner == lookup(s.agents, a2).unwrap().owner,
    ensures
        a1 == a2,
        lookup(s.agents, a1).unwrap().bump == lookup(s.agents, a2).unwrap().bump,
{
    lemma_key_index(s.agents, a1);
    lemma_key_index(s.agents, a2);
    assert(s.agent_ok(key_index(s.agents, a1)));
    assert(s.agent_ok(key_index(s.agents, a2)));
}

/// Derivation determinism for markets: two stored market records with the
/// same ordered token pair sit at the same address with the same bump.
pub proof fn lemma_market_address_determined(s: LedgerView, a1: Address, a2: Address)
    requires
        s.wf(),
        lookup(s.markets, a1) is Some,
        lookup(s.markets, a2) is Some,
        lookup(s.markets, a1).unwrap().token_a == lookup(s.markets, a2).unwrap().token_a,
        lookup(s.markets, a1).unwrap().token_b == lookup(s.markets, a2).unwrap().token_b,
    ensures
        a1 == a2,
        lookup(s.markets, a1).unwrap().bump == lookup(s.markets, a2).unwrap().bump,
{
    lemma_key_index(s.markets, a1);
    lemma_key_index(s.markets, a2);
    assert(s.market_ok(key_index(s.markets, a1)));
    assert(s.market_ok(key_index(s.markets, a2)));
}

/// Derivation determinism for vaults: two stored vault records for the
/// same market and the same custodied token sit at the same address with
/// the same bump — each (market, token) pair has exactly one custodian.
pub proof fn lemma_vault_address_determined(s: LedgerView, a1: Address, a2: Address)
    requires
        s.wf(),
        lookup(s.vaults, a1) is Some,
        lookup(s.vaults, a2) is Some,
        lookup(s.vaults, a1).unwrap().market == lookup(s.vaults, a2).unwrap().market,
        lookup(s.vaults, a1).unwrap().token == lookup(s.vaults, a2).unwrap().token,
    ensures
        a1 == a2,
        lookup(s.vaults, a1).unwrap().bump == lookup(s.vaults, a2).unwrap().bump,
{
    lemma_key_index(s.vaults, a1);
    lemma_key_index(s.vaults, a2);
    assert(s.vault_ok(key_index(s.vaults, a1)));
    assert(s.vault_ok(key_index(s.vaults, a2)));
}

/// Derivation determinism for trades: two stored trade records scoped to
/// the same (agent, market) pair are one and the same record — at most
/// one live trade per agent per market.  Placements at that address while
/// it is occupied fail rather than overwrite.
pub proof fn lemma_trade_address_determined(s: LedgerView, a1: Address, a2: Address)
    requires
        s.wf(),
        lookup(s.trades, a1) is Some,
        lookup(s.trades, a2) is Some,
        lookup(s.trades, a1).unwrap().agent == lookup(s.trades, a2).unwrap().agent,
        lookup(s.trades, a1).unwrap().market == lookup(s.trades, a2).unwrap().market,
    ensures
        a1 == a2,
        lookup(s.trades, a1).unwrap() == lookup(s.trades, a2).unwrap(),
{
    lemma_key_index(s.trades, a1);
    lemma_key_index(s.trades, a2);
    assert(s.trade_ok(key_index(s.trades, a1)));
    assert(s.trade_ok(key_index(s.trades, a2)));
}

/// What a valid deposit does to the balances: the vault's custody balance
/// grows by exactly the deposited amount, the depositor's balance shrinks
/// by exactly that amount, and no other account's balance changes; no
/// record is created or destroyed.  (A depositor address equal to the
/// vault's would make the two accounts one and the move a no-op, so it is
/// left out.)
pub proof fn lemma_deposit_adds_to_vault(s: LedgerView, ctx: DepositTokens, amount: u64)
    requires
        deposit_tokens_result(s, ctx, amount) is Ok,
        ctx.user != ctx.vault,
    ensures
        ({
            let s2 = deposit_tokens_result(s, ctx, amount)->Ok_0;
            &&& balance_of(s.token_accounts, ctx.vault, ctx.token_mint) is Some
            &&& balance_of(s.token_accounts, ctx.user, ctx.token_mint) is Some
            &&& amount <= balance_of(s.token_accounts, ctx.user, ctx.token_mint).unwrap()
            &&& balance_of(s2.token_accounts, ctx.vault, ctx.token_mint) == Some(
                (balance_of(s.token_accounts, ctx.vault, ctx.token_mint).unwrap() + amount) as u64,
            )
            &&& balance_of(s2.token_accounts, ctx.user, ctx.token_mint) == Some(
                (balance_of(s.token_accounts, ctx.user, ctx.token_mint).unwrap() - amount) as u64,
            )
            &&& forall|a: Address, m: Address|
                !(a == ctx.user && m == ctx.token_mint) && !(a == ctx.vault && m
                    == ctx.token_mint) ==> balance_of(s2.token_accounts, a, m) == balance_of(
                    s.token_accounts,
                    a,
                    m,
                )
            &&& s2.agents == s.agents
            &&& s2.markets == s.markets
            &&& s2.vaults == s.vaults
            &&& s2.trades == s.trades
        }),
{
    lemma_transfer_balances(
        s.token_accounts,
        ctx.user,
        ctx.vault,
        ctx.token_mint,
        amount,
        Authorization::Signer(ctx.user),
        s.program_id,
    );
}

/// A withdrawal of more than the vault's custody balance never succeeds:
/// there is no partial debit, and by the operation's contract a failed
/// withdrawal leaves the ledger exactly as it was.
pub proof fn lemma_withdraw_insufficient_fails(s: LedgerView, ctx: WithdrawTokens, amount: u64)
    requires
        balance_of(s.token_accounts, ctx.vault, ctx.token_mint) is Some,
        amount > balance_of(s.token_accounts, ctx.vault, ctx.token_mint).unwrap(),
    ensures
        withdraw_tokens_result(s, ctx, amount) is Err,
{
}

/// Settlement atomicity: a successful settlement debits the agent's
/// token-in account by exactly the trade's `amount_in` and, in the same
/// unit, credits the agent's token-out account by exactly `amount_out`
/// (with the mirrored moves on the two vaults); no other balance changes,
/// and the trade record is gone.  The operation's contract makes every
/// failing settlement leave the ledger untouched, so the inbound debit
/// can never stand without the outbound credit.  (An agent address equal
/// to a vault's would alias the accounts, so it is left out.)
pub proof fn lemma_settlement_atomic(s: LedgerView, ctx: ExecuteTrade)
    requires
        s.wf(),
        execute_trade_result(s, ctx) is Ok,
        ctx.user != ctx.vault_in,
        ctx.user != ctx.vault_out,
    ensures
        ({
            let t = lookup(s.trades, ctx.trade).unwrap();
            let s2 = execute_trade_result(s, ctx)->Ok_0;
            &&& ctx.token_in_mint != ctx.token_out_mint
            &&& balance_of(s2.token_accounts, ctx.user, ctx.token_in_mint) == Some(
                (balance_of(s.token_accounts, ctx.user, ctx.token_in_mint).unwrap()
                    - t.amount_in) as u64,
            )
            &&& balance_of(s2.token_accounts, ctx.vault_in, ctx.token_in_mint) == Some(
                (balance_of(s.token_accounts, ctx.vault_in, ctx.token_in_mint).unwrap()
                    + t.amount_in) as u64,
            )
            &&& balance_of(s2.token_accounts, ctx.vault_out, ctx.token_out_mint) == Some(
                (balance_of(s.token_accounts, ctx.vault_out, ctx.token_out_mint).unwrap()
                    - t.amount_out) as u64,
            )
            &&& balance_of(s2.token_accounts, ctx.user, ctx.token_out_mint) == Some(
                (balance_of(s.token_accounts, ctx.user, ctx.token_out_mint).unwrap()
                    + t.amount_out) as u64,
            )
            &&& forall|a: Address, m: Address|
                !(m == ctx.token_in_mint && (a == ctx.user || a == ctx.vault_in)) && !(m
                    == ctx.token_out_mint && (a == ctx.user || a == ctx.vault_out))
                    ==> balance_of(s2.token_accounts, a, m) == balance_of(s.token_accounts, a, m)
            &&& lookup(s2.trades, ctx.trade) is None
            &&& forall|b: Address|
                b != ctx.trade ==> lookup(s2.trades, b) == lookup(s.trades, b)
            &&& s2.agents == s.agents
            &&& s2.markets == s.markets
            &&& s2.vaults == s.vaults
        }),
{
    let t = lookup(s.trades, ctx.trade).unwrap();
    let m = lookup(s.markets, ctx.market).unwrap();
    lemma_key_index(s.markets, ctx.market);
    assert(s.market_ok(key_index(s.markets, ctx.market)));
    assert(m.token_a != m.token_b);
    let vout = lookup(s.vaults, ctx.vault_out).unwrap();
    let leg1 = transfer_result(
        s.token_accounts,
        ctx.user,
        ctx.vault_in,
        ctx.token_in_mint,
        t.amount_in,
        Authorization::Signer(ctx.user),
        s.program_id,
    )->Ok_0;
    lemma_transfer_balances(
        s.token_accounts,
        ctx.user,
        ctx.vault_in,
        ctx.token_in_mint,
        t.amount_in,
        Authorization::Signer(ctx.user),
        s.program_id,
    );
    lemma_transfer_balances(
        leg1,
        ctx.vault_out,
        ctx.user,
        ctx.token_out_mint,
        t.amount_out,
        Authorization::VaultProof {
            token_a: m.token_a,
            token_b: m.token_b,
            token: ctx.token_out_mint,
            bump: vout.bump,
        },
        s.program_id,
    );
    lemma_key_index(s.trades, ctx.trade);
    lemma_remove_entry(s.trades, key_index(s.trades, ctx.trade));
}

} // verus!
