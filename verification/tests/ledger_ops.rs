//! Registration, market initialization, deposits and withdrawals.

use agent_market_sim::addr::Address;
use agent_market_sim::deposit_tokens::DepositTokens;
use agent_market_sim::errors::{ErrorCode, OpError};
use agent_market_sim::initialize_market::InitializeMarket;
use agent_market_sim::ledger::{transfer, Authorization, Ledger};
use agent_market_sim::register_agent::RegisterAgent;
use agent_market_sim::state::TokenAccount;
use agent_market_sim::withdraw_tokens::WithdrawTokens;

const PID: [u8; 32] = [7; 32];

fn addr(n: u8) -> Address {
    Address([n; 32])
}

/// A ledger with one market over (T1, T2), one registered agent for
/// `user`, and `funding` units of T1 credited to `user`.
fn venue(user: Address, funding: u64) -> (Ledger, Address, Address, Address, Address) {
    let t1 = addr(10);
    let t2 = addr(11);
    let mut ledger = Ledger::new(PID);
    let agent = ledger
        .register_agent(RegisterAgent { user })
        .expect("agent registration should succeed");
    let (market, vault_a, vault_b) = ledger
        .initialize_market(InitializeMarket {
            token_a_mint: t1,
            token_b_mint: t2,
            signer: user,
        })
        .expect("market initialization should succeed");
    ledger
        .credit_account(user, t1, funding)
        .expect("funding should succeed");
    (ledger, agent, market, vault_a, vault_b)
}

#[test]
fn register_agent_records_the_owner() {
    let user = addr(1);
    let mut ledger = Ledger::new(PID);
    let agent = ledger.register_agent(RegisterAgent { user }).unwrap();
    let record = ledger.get_agent(&agent).expect("agent record should exist");
    assert_eq!(record.owner, user);
}

#[test]
fn register_agent_is_once_per_owner() {
    let user = addr(1);
    let mut ledger = Ledger::new(PID);
    ledger.register_agent(RegisterAgent { user }).unwrap();
    assert_eq!(
        ledger.register_agent(RegisterAgent { user }),
        Err(OpError::AccountAlreadyExists)
    );
}

#[test]
fn initialize_market_creates_market_and_vaults() {
    let (ledger, _agent, market, vault_a, vault_b) = venue(addr(1), 0);
    let m = ledger.get_market(&market).expect("market should exist");
    assert_eq!(m.token_a, addr(10));
    assert_eq!(m.token_b, addr(11));
    let va = ledger.get_vault(&vault_a).expect("vault a should exist");
    assert_eq!(va.market, market);
    assert_eq!(va.token, addr(10));
    let vb = ledger.get_vault(&vault_b).expect("vault b should exist");
    assert_eq!(vb.market, market);
    assert_eq!(vb.token, addr(11));
    assert_eq!(ledger.balance(&vault_a, &addr(10)), Some(0));
    assert_eq!(ledger.balance(&vault_b, &addr(11)), Some(0));
}

#[test]
fn initialize_market_is_once_per_pair() {
    let (mut ledger, _agent, _market, _va, _vb) = venue(addr(1), 0);
    assert_eq!(
        ledger.initialize_market(InitializeMarket {
            token_a_mint: addr(10),
            token_b_mint: addr(11),
            signer: addr(1),
        }),
        Err(OpError::AccountAlreadyExists)
    );
}

#[test]
fn initialize_market_rejects_equal_tokens() {
    let mut ledger = Ledger::new(PID);
    assert_eq!(
        ledger.initialize_market(InitializeMarket {
            token_a_mint: addr(10),
            token_b_mint: addr(10),
            signer: addr(1),
        }),
        Err(OpError::AccountAlreadyExists)
    );
}

#[test]
fn deposit_moves_exactly_the_amount_into_the_vault() {
    let user = addr(1);
    let (mut ledger, agent, market, vault_a, vault_b) = venue(user, 1000);
    let r = ledger.deposit_tokens(
        DepositTokens { agent, market, user, token_mint: addr(10), vault: vault_a },
        300,
    );
    assert_eq!(r, Ok(()));
    assert_eq!(ledger.balance(&vault_a, &addr(10)), Some(300));
    assert_eq!(ledger.balance(&user, &addr(10)), Some(700));
    assert_eq!(ledger.balance(&vault_b, &addr(11)), Some(0));
}

#[test]
fn deposit_rejects_a_foreign_mint() {
    let user = addr(1);
    let (mut ledger, agent, market, vault_a, _vb) = venue(user, 1000);
    let t3 = addr(12);
    ledger.credit_account(user, t3, 50).unwrap();
    assert_eq!(
        ledger.deposit_tokens(
            DepositTokens { agent, market, user, token_mint: t3, vault: vault_a },
            50,
        ),
        Err(OpError::Program(ErrorCode::InvalidTokenMint))
    );
    assert_eq!(ledger.balance(&user, &t3), Some(50));
}

#[test]
fn deposit_rejects_the_wrong_vault() {
    let user = addr(1);
    let (mut ledger, agent, market, vault_a, vault_b) = venue(user, 1000);
    assert_eq!(
        ledger.deposit_tokens(
            DepositTokens { agent, market, user, token_mint: addr(10), vault: vault_b },
            100,
        ),
        Err(OpError::Program(ErrorCode::InvalidVault))
    );
    assert_eq!(ledger.balance(&user, &addr(10)), Some(1000));
    assert_eq!(ledger.balance(&vault_a, &addr(10)), Some(0));
}

#[test]
fn deposit_rejects_an_unregistered_agent() {
    let user = addr(1);
    let (mut ledger, _agent, market, vault_a, _vb) = venue(user, 1000);
    assert_eq!(
        ledger.deposit_tokens(
            DepositTokens { agent: addr(99), market, user, token_mint: addr(10), vault: vault_a },
            100,
        ),
        Err(OpError::AccountNotFound)
    );
}

#[test]
fn deposit_of_more_than_the_caller_holds_fails() {
    let user = addr(1);
    let (mut ledger, agent, market, vault_a, _vb) = venue(user, 1000);
    assert_eq!(
        ledger.deposit_tokens(
            DepositTokens { agent, market, user, token_mint: addr(10), vault: vault_a },
            1001,
        ),
        Err(OpError::InsufficientFunds)
    );
    assert_eq!(ledger.balance(&user, &addr(10)), Some(1000));
    assert_eq!(ledger.balance(&vault_a, &addr(10)), Some(0));
}

#[test]
fn withdraw_returns_tokens_to_the_owner() {
    let user = addr(1);
    let (mut ledger, agent, market, vault_a, _vb) = venue(user, 1000);
    ledger
        .deposit_tokens(
            DepositTokens { agent, market, user, token_mint: addr(10), vault: vault_a },
            300,
        )
        .unwrap();
    let r = ledger.withdraw_tokens(
        WithdrawTokens { agent, market, user, token_mint: addr(10), vault: vault_a },
        100,
    );
    assert_eq!(r, Ok(()));
    assert_eq!(ledger.balance(&user, &addr(10)), Some(800));
    assert_eq!(ledger.balance(&vault_a, &addr(10)), Some(200));
}

#[test]
fn withdraw_requires_the_agent_owner() {
    let user = addr(1);
    let stranger = addr(2);
    let (mut ledger, agent, market, vault_a, _vb) = venue(user, 1000);
    ledger.credit_account(stranger, addr(10), 0).unwrap();
    assert_eq!(
        ledger.withdraw_tokens(
            WithdrawTokens { agent, market, user: stranger, token_mint: addr(10), vault: vault_a },
            10,
        ),
        Err(OpError::Program(ErrorCode::InvalidAgentOwner))
    );
}

#[test]
fn withdraw_of_more_than_the_vault_holds_fails_without_partial_debit() {
    let user = addr(1);
    let (mut ledger, agent, market, vault_a, _vb) = venue(user, 1000);
    ledger
        .deposit_tokens(
            DepositTokens { agent, market, user, token_mint: addr(10), vault: vault_a },
            300,
        )
        .unwrap();
    assert_eq!(
        ledger.withdraw_tokens(
            WithdrawTokens { agent, market, user, token_mint: addr(10), vault: vault_a },
            301,
        ),
        Err(OpError::InsufficientFunds)
    );
    assert_eq!(ledger.balance(&vault_a, &addr(10)), Some(300));
    assert_eq!(ledger.balance(&user, &addr(10)), Some(700));
}

#[test]
fn credit_account_overflow_is_rejected() {
    let user = addr(1);
    let mut ledger = Ledger::new(PID);
    ledger.credit_account(user, addr(10), u64::MAX).unwrap();
    assert_eq!(
        ledger.credit_account(user, addr(10), 1),
        Err(OpError::AmountOverflow)
    );
    assert_eq!(ledger.balance(&user, &addr(10)), Some(u64::MAX));
}

#[test]
fn balance_of_a_missing_account_is_none() {
    let ledger = Ledger::new(PID);
    assert_eq!(ledger.balance(&addr(1), &addr(10)), None);
}

#[test]
fn transfer_rejects_a_mismatched_authorization() {
    let mint = addr(10);
    let from = addr(1);
    let to = addr(2);
    let mut accounts = vec![
        TokenAccount { mint, authority: from, amount: 50 },
        TokenAccount { mint, authority: to, amount: 5 },
    ];
    let stranger = Authorization::Signer(addr(3));
    assert_eq!(
        transfer(&mut accounts, &from, &to, &mint, 10, &stranger, &PID),
        Err(OpError::AuthorizationFailed)
    );
    assert_eq!(accounts[0].amount, 50);
    assert_eq!(accounts[1].amount, 5);
    let owner = Authorization::Signer(from);
    assert_eq!(
        transfer(&mut accounts, &from, &to, &mint, 10, &owner, &PID),
        Ok(())
    );
    assert_eq!(accounts[0].amount, 40);
    assert_eq!(accounts[1].amount, 15);
}
