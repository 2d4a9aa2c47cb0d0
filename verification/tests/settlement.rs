//! Trade placement and atomic settlement.

use agent_market_sim::addr::Address;
use agent_market_sim::deposit_tokens::DepositTokens;
use agent_market_sim::errors::{ErrorCode, OpError};
use agent_market_sim::execute_trade::ExecuteTrade;
use agent_market_sim::initialize_market::InitializeMarket;
use agent_market_sim::ledger::Ledger;
use agent_market_sim::place_trade::PlaceTrade;
use agent_market_sim::register_agent::RegisterAgent;

const PID: [u8; 32] = [7; 32];

fn addr(n: u8) -> Address {
    Address([n; 32])
}

fn t1() -> Address {
    addr(10)
}

fn t2() -> Address {
    addr(11)
}

/// A ledger with one market over (T1, T2) and one agent for `user`.
fn venue(user: Address) -> (Ledger, Address, Address, Address, Address) {
    let mut ledger = Ledger::new(PID);
    let agent = ledger.register_agent(RegisterAgent { user }).unwrap();
    let (market, vault_a, vault_b) = ledger
        .initialize_market(InitializeMarket { token_a_mint: t1(), token_b_mint: t2(), signer: user })
        .unwrap();
    (ledger, agent, market, vault_a, vault_b)
}

#[test]
fn place_trade_rejects_direction_two_for_any_amounts() {
    let user = addr(1);
    let (mut ledger, agent, market, _va, _vb) = venue(user);
    for (amount_in, amount_out) in [(0u64, 0u64), (1, 1), (100, 95), (u64::MAX, u64::MAX)] {
        assert_eq!(
            ledger.place_trade(PlaceTrade { agent, market, user }, 2, amount_in, amount_out),
            Err(OpError::Program(ErrorCode::InvalidTradeType))
        );
    }
    assert_eq!(
        ledger.place_trade(PlaceTrade { agent, market, user }, 255, 5, 5),
        Err(OpError::Program(ErrorCode::InvalidTradeType))
    );
}

#[test]
fn place_trade_stores_the_intent_verbatim() {
    let user = addr(1);
    let (mut ledger, agent, market, _va, _vb) = venue(user);
    let trade_addr = ledger
        .place_trade(PlaceTrade { agent, market, user }, 0, 100, 95)
        .unwrap();
    let t = ledger.get_trade(&trade_addr).expect("trade should exist");
    assert_eq!(t.agent, agent);
    assert_eq!(t.market, market);
    assert_eq!(t.trade_type, 0);
    assert_eq!(t.amount_in, 100);
    assert_eq!(t.amount_out, 95);
}

#[test]
fn second_placement_by_the_same_agent_fails() {
    let user = addr(1);
    let (mut ledger, agent, market, _va, _vb) = venue(user);
    ledger
        .place_trade(PlaceTrade { agent, market, user }, 0, 100, 95)
        .unwrap();
    assert_eq!(
        ledger.place_trade(PlaceTrade { agent, market, user }, 1, 1, 1),
        Err(OpError::AccountAlreadyExists)
    );
}

#[test]
fn distinct_agents_place_without_colliding() {
    let user_a = addr(1);
    let user_b = addr(2);
    let (mut ledger, agent_a, market, _va, _vb) = venue(user_a);
    let agent_b = ledger.register_agent(RegisterAgent { user: user_b }).unwrap();
    let trade_a = ledger
        .place_trade(PlaceTrade { agent: agent_a, market, user: user_a }, 0, 100, 95)
        .unwrap();
    let trade_b = ledger
        .place_trade(PlaceTrade { agent: agent_b, market, user: user_b }, 0, 100, 95)
        .unwrap();
    assert_ne!(trade_a, trade_b);
    assert!(ledger.get_trade(&trade_a).is_some());
    assert!(ledger.get_trade(&trade_b).is_some());
}

/// The full scenario: fund, deposit, place, settle; exact balances after.
#[test]
fn settlement_moves_both_legs_and_retires_the_trade() {
    let user = addr(1);
    let funder = addr(2);
    let (mut ledger, agent, market, vault_a, vault_b) = venue(user);
    // The agent's own funds: 1100 T1 (1000 to deposit, 100 for the trade),
    // and an empty T2 account to receive the outbound leg.
    ledger.credit_account(user, t1(), 1100).unwrap();
    ledger.credit_account(user, t2(), 0).unwrap();
    ledger
        .deposit_tokens(
            DepositTokens { agent, market, user, token_mint: t1(), vault: vault_a },
            1000,
        )
        .unwrap();
    // A second participant funds the T2 vault so the outbound leg can pay.
    let funder_agent = ledger.register_agent(RegisterAgent { user: funder }).unwrap();
    ledger.credit_account(funder, t2(), 95).unwrap();
    ledger
        .deposit_tokens(
            DepositTokens { agent: funder_agent, market, user: funder, token_mint: t2(), vault: vault_b },
            95,
        )
        .unwrap();
    let trade_addr = ledger
        .place_trade(PlaceTrade { agent, market, user }, 0, 100, 95)
        .unwrap();
    let r = ledger.execute_trade(ExecuteTrade {
        trade: trade_addr,
        market,
        agent,
        user,
        token_in_mint: t1(),
        token_out_mint: t2(),
        vault_in: vault_a,
        vault_out: vault_b,
    });
    assert_eq!(r, Ok(()));
    assert_eq!(ledger.balance(&user, &t1()), Some(0));
    assert_eq!(ledger.balance(&vault_a, &t1()), Some(1100));
    assert_eq!(ledger.balance(&vault_b, &t2()), Some(0));
    assert_eq!(ledger.balance(&user, &t2()), Some(95));
    assert!(ledger.get_trade(&trade_addr).is_none());
}

/// A failing outbound leg must leave the inbound leg unapplied: the vault
/// cannot pay, so nothing moves and the trade stays pending.
#[test]
fn failed_outbound_leg_leaves_no_partial_settlement() {
    let user = addr(1);
    let (mut ledger, agent, market, vault_a, vault_b) = venue(user);
    ledger.credit_account(user, t1(), 100).unwrap();
    ledger.credit_account(user, t2(), 0).unwrap();
    let trade_addr = ledger
        .place_trade(PlaceTrade { agent, market, user }, 0, 100, 95)
        .unwrap();
    // The T2 vault holds nothing, so the outbound leg must fail.
    let r = ledger.execute_trade(ExecuteTrade {
        trade: trade_addr,
        market,
        agent,
        user,
        token_in_mint: t1(),
        token_out_mint: t2(),
        vault_in: vault_a,
        vault_out: vault_b,
    });
    assert_eq!(r, Err(OpError::InsufficientFunds));
    assert_eq!(ledger.balance(&user, &t1()), Some(100));
    assert_eq!(ledger.balance(&vault_a, &t1()), Some(0));
    assert_eq!(ledger.balance(&vault_b, &t2()), Some(0));
    assert_eq!(ledger.balance(&user, &t2()), Some(0));
    assert!(ledger.get_trade(&trade_addr).is_some());
}

#[test]
fn settlement_rejects_a_mismatched_agent() {
    let user = addr(1);
    let other_user = addr(2);
    let (mut ledger, agent, market, vault_a, vault_b) = venue(user);
    let other_agent = ledger.register_agent(RegisterAgent { user: other_user }).unwrap();
    ledger.credit_account(user, t1(), 100).unwrap();
    ledger.credit_account(user, t2(), 0).unwrap();
    let trade_addr = ledger
        .place_trade(PlaceTrade { agent, market, user }, 0, 100, 95)
        .unwrap();
    assert_eq!(
        ledger.execute_trade(ExecuteTrade {
            trade: trade_addr,
            market,
            agent: other_agent,
            user: other_user,
            token_in_mint: t1(),
            token_out_mint: t2(),
            vault_in: vault_a,
            vault_out: vault_b,
        }),
        Err(OpError::Program(ErrorCode::Unauthorized))
    );
    assert!(ledger.get_trade(&trade_addr).is_some());
}

#[test]
fn settlement_rejects_mints_that_contradict_the_direction() {
    let user = addr(1);
    let (mut ledger, agent, market, vault_a, vault_b) = venue(user);
    ledger.credit_account(user, t1(), 100).unwrap();
    ledger.credit_account(user, t2(), 100).unwrap();
    // Direction 0 buys T2 with T1, but the mints are presented reversed.
    let trade_addr = ledger
        .place_trade(PlaceTrade { agent, market, user }, 0, 100, 95)
        .unwrap();
    assert_eq!(
        ledger.execute_trade(ExecuteTrade {
            trade: trade_addr,
            market,
            agent,
            user,
            token_in_mint: t2(),
            token_out_mint: t1(),
            vault_in: vault_b,
            vault_out: vault_a,
        }),
        Err(OpError::Program(ErrorCode::InvalidTokenAccounts))
    );
    assert_eq!(ledger.balance(&user, &t1()), Some(100));
    assert_eq!(ledger.balance(&user, &t2()), Some(100));
}

/// Direction 1 sells token B for token A: the inbound mint is T2 and the
/// outbound mint is T1.
#[test]
fn settlement_in_the_sell_direction() {
    let user = addr(1);
    let funder = addr(2);
    let (mut ledger, agent, market, vault_a, vault_b) = venue(user);
    ledger.credit_account(user, t2(), 50).unwrap();
    ledger.credit_account(user, t1(), 0).unwrap();
    let funder_agent = ledger.register_agent(RegisterAgent { user: funder }).unwrap();
    ledger.credit_account(funder, t1(), 40).unwrap();
    ledger
        .deposit_tokens(
            DepositTokens { agent: funder_agent, market, user: funder, token_mint: t1(), vault: vault_a },
            40,
        )
        .unwrap();
    let trade_addr = ledger
        .place_trade(PlaceTrade { agent, market, user }, 1, 50, 40)
        .unwrap();
    let r = ledger.execute_trade(ExecuteTrade {
        trade: trade_addr,
        market,
        agent,
        user,
        token_in_mint: t2(),
        token_out_mint: t1(),
        vault_in: vault_b,
        vault_out: vault_a,
    });
    assert_eq!(r, Ok(()));
    assert_eq!(ledger.balance(&user, &t2()), Some(0));
    assert_eq!(ledger.balance(&vault_b, &t2()), Some(50));
    assert_eq!(ledger.balance(&vault_a, &t1()), Some(0));
    assert_eq!(ledger.balance(&user, &t1()), Some(40));
    assert!(ledger.get_trade(&trade_addr).is_none());
}
