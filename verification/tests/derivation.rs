//! Address derivation: determinism and seed-sensitivity.

use agent_market_sim::addr::{
    derive_agent_address, derive_market_address, derive_trade_address, derive_vault_address,
    Address,
};

const PID: [u8; 32] = [7; 32];

fn addr(n: u8) -> Address {
    Address([n; 32])
}

#[test]
fn agent_address_is_deterministic() {
    let owner = addr(1);
    let first = derive_agent_address(&owner, &PID).expect("derivation should succeed");
    let second = derive_agent_address(&owner, &PID).expect("derivation should succeed");
    assert_eq!(first, second);
}

#[test]
fn market_and_vault_addresses_are_deterministic() {
    let t1 = addr(10);
    let t2 = addr(11);
    assert_eq!(
        derive_market_address(&t1, &t2, &PID),
        derive_market_address(&t1, &t2, &PID)
    );
    assert_eq!(
        derive_vault_address(&t1, &t2, &t1, &PID),
        derive_vault_address(&t1, &t2, &t1, &PID)
    );
    assert_eq!(
        derive_trade_address(&addr(1), &addr(2), &PID),
        derive_trade_address(&addr(1), &addr(2), &PID)
    );
}

#[test]
fn different_owners_get_different_agent_addresses() {
    let a = derive_agent_address(&addr(1), &PID).unwrap();
    let b = derive_agent_address(&addr(2), &PID).unwrap();
    assert_ne!(a.0, b.0);
}

#[test]
fn vault_addresses_distinguish_the_custodied_token() {
    let t1 = addr(10);
    let t2 = addr(11);
    let va = derive_vault_address(&t1, &t2, &t1, &PID).unwrap();
    let vb = derive_vault_address(&t1, &t2, &t2, &PID).unwrap();
    assert_ne!(va.0, vb.0);
}

#[test]
fn derived_address_is_not_the_seed_itself() {
    let owner = addr(3);
    let (derived, _bump) = derive_agent_address(&owner, &PID).unwrap();
    assert_ne!(derived, owner);
}

#[test]
fn market_address_depends_on_token_order() {
    let t1 = addr(10);
    let t2 = addr(11);
    let ab = derive_market_address(&t1, &t2, &PID).unwrap();
    let ba = derive_market_address(&t2, &t1, &PID).unwrap();
    assert_ne!(ab.0, ba.0);
}

#[test]
fn derivation_depends_on_the_program_namespace() {
    let other_pid: [u8; 32] = [8; 32];
    let a = derive_agent_address(&addr(1), &PID).unwrap();
    let b = derive_agent_address(&addr(1), &other_pid).unwrap();
    assert_ne!(a.0, b.0);
}
