//! The ledger: every persisted record of the venue, and the transfer
//! primitive that moves token balances between accounts.
//!
//! The ledger stands for the append-only, account-indexed store that the
//! venue runs against.  Each operation is a single unit of work: it
//! validates everything first and mutates only when the whole effect can
//! commit, so a failed operation has zero effect.

use vstd::prelude::*;
use vstd::pervasive::VecAdditionalExecFns;
use crate::addr::{Address, derives_to, vault_seeds};
use crate::state::{Agent, Market, Trade, TokenAccount, Vault};
use crate::errors::OpError;

verus! {

/// The first index whose key is `a`, or -1 when no entry has that key.
pub open spec fn key_index<T>(s: Seq<(Address, T)>, a: Address) -> int
    decreases s.len(),
{
    if s.len() == 0 {
        -1
    } else if s[0].0 == a {
        0
    } else {
        let r = key_index(s.drop_first(), a);
        if r == -1 {
            -1
        } else {
            r + 1
        }
    }
}

/// The record stored at key `a`, if any.
pub open spec fn lookup<T>(s: Seq<(Address, T)>, a: Address) -> Option<T> {
    if key_index(s, a) >= 0 {
        Some(s[key_index(s, a)].1)
    } else {
        None
    }
}

/// `key_index` finds the first entry with the key, and -1 exactly when
/// there is none.
pub proof fn lemma_key_index<T>(s: Seq<(Address, T)>, a: Address)
    ensures
        key_index(s, a) == -1 || (0 <= key_index(s, a) < s.len()),
        key_index(s, a) == -1 ==> forall|j: int| 0 <= j < s.len() ==> s[j].0 != a,
        key_index(s, a) >= 0 ==> s[key_index(s, a)].0 == a,
        forall|j: int| 0 <= j < s.len() && s[j].0 == a ==> 0 <= key_index(s, a) <= j,
    decreases s.len(),
{
    if s.len() > 0 && s[0].0 != a {
        let t = s.drop_first();
        lemma_key_index(t, a);
        if key_index(t, a) == -1 {
            assert forall|j: int| 0 <= j < s.len() implies s[j].0 != a by {
                if j > 0 {
                    assert(t[j - 1] == s[j]);
                }
            }
        }
        assert forall|j: int| 0 <= j < s.len() && s[j].0 == a implies 0 <= key_index(s, a)
            <= j by {
            assert(t[j - 1] == s[j]);
        }
    }
}

/// The first index of the token account of `authority` in `mint`, or -1.
pub open spec fn ta_index(s: Seq<TokenAccount>, authority: Address, mint: Address) -> int
    decreases s.len(),
{
    if s.len() == 0 {
        -1
    } else if s[0].authority == authority && s[0].mint == mint {
        0
    } else {
        let r = ta_index(s.drop_first(), authority, mint);
        if r == -1 {
            -1
        } else {
            r + 1
        }
    }
}

/// The token account of `authority` in `mint`, if any.
pub open spec fn ta_lookup(s: Seq<TokenAccount>, authority: Address, mint: Address) -> Option<
    TokenAccount,
> {
    if ta_index(s, authority, mint) >= 0 {
        Some(s[ta_index(s, authority, mint)])
    } else {
        None
    }
}

/// The balance of `authority` in `mint`, if the account exists.
pub open spec fn balance_of(s: Seq<TokenAccount>, authority: Address, mint: Address) -> Option<
    u64,
> {
    match ta_lookup(s, authority, mint) {
        Some(t) => Some(t.amount),
        None => None,
    }
}

/// `ta_index` finds the first account with the key pair, and -1 exactly
/// when there is none.
pub proof fn lemma_ta_index(s: Seq<TokenAccount>, authority: Address, mint: Address)
    ensures
        ta_index(s, authority, mint) == -1 || (0 <= ta_index(s, authority, mint) < s.len()),
        ta_index(s, authority, mint) == -1 ==> forall|j: int|
            0 <= j < s.len() ==> !(s[j].authority == authority && s[j].mint == mint),
        ta_index(s, authority, mint) >= 0 ==> s[ta_index(s, authority, mint)].authority
            == authority && s[ta_index(s, authority, mint)].mint == mint,
        forall|j: int|
            0 <= j < s.len() && s[j].authority == authority && s[j].mint == mint ==> 0 <= ta_index(
                s,
                authority,
                mint,
            ) <= j,
    decreases s.len(),
{
    if s.len() > 0 && !(s[0].authority == authority && s[0].mint == mint) {
        let t = s.drop_first();
        lemma_ta_index(t, authority, mint);
        if ta_index(t, authority, mint) == -1 {
            assert forall|j: int|
                0 <= j < s.len() implies !(s[j].authority == authority && s[j].mint == mint) by {
                if j > 0 {
                    assert(t[j - 1] == s[j]);
                }
            }
        }
        assert forall|j: int|
            0 <= j < s.len() && s[j].authority == authority && s[j].mint == mint implies 0
            <= ta_index(s, authority, mint) <= j by {
            assert(t[j - 1] == s[j]);
        }
    }
}

/// No two entries share a key.
pub open spec fn keys_unique<T>(s: Seq<(Address, T)>) -> bool {
    forall|i: int, j: int| 0 <= i < j < s.len() ==> s[i].0 != s[j].0
}

/// No two token accounts share the (authority, mint) pair.
pub open spec fn ta_keys_unique(s: Seq<TokenAccount>) -> bool {
    forall|i: int, j: int|
        0 <= i < j < s.len() ==> !(s[i].authority == s[j].authority && s[i].mint == s[j].mint)
}

/// How a transfer out of an account is authorized: by its external owner
/// signing, or by re-deriving a vault's address from its defining seed
/// tuple and stored bump — the authority-without-a-key path that lets the
/// venue move funds out of a vault it holds no key for.
#[derive(Clone, Copy, Eq, Debug)]
pub enum Authorization {
    /// The external owner of the source account signs the transfer.
    Signer(Address),
    /// The venue proves custody of the source account by supplying the
    /// exact seed tuple (both market tokens and the custodied token) and
    /// the stored bump of the vault that owns it.
    VaultProof { token_a: Address, token_b: Address, token: Address, bump: u8 },
}

impl PartialEq for Authorization {
    fn eq(&self, other: &Authorization) -> (r: bool) {
        match (self, other) {
            (Authorization::Signer(a), Authorization::Signer(b)) => a == b,
            (
                Authorization::VaultProof { token_a, token_b, token, bump },
                Authorization::VaultProof {
                    token_a: other_a,
                    token_b: other_b,
                    token: other_t,
                    bump: other_bump,
                },
            ) => token_a == other_a && token_b == other_b && token == other_t && bump
                == other_bump,
            _ => false,
        }
    }
}

impl vstd::std_specs::cmp::PartialEqSpecImpl for Authorization {
    open spec fn obeys_eq_spec() -> bool {
        true
    }

    open spec fn eq_spec(&self, other: &Authorization) -> bool {
        self == other
    }
}

/// Whether `auth` authorizes moving funds out of the account owned by
/// `from_authority`: a signer must be that very authority; a vault proof
/// must re-derive exactly that address from the supplied seed tuple and
/// bump.  Any mismatch is rejected, never coerced.
pub open spec fn authorizes(
    auth: Authorization,
    from_authority: Address,
    program_id: Seq<u8>,
) -> bool {
    match auth {
        Authorization::Signer(u) => u == from_authority,
        Authorization::VaultProof { token_a, token_b, token, bump } => derives_to(
            vault_seeds(token_a, token_b, token),
            program_id,
            from_authority,
            bump,
        ),
    }
}

/// What a transfer does: debit the (from, mint) account and credit the
/// (to, mint) account by `amount`, all of it or none of it.  A transfer to
/// the very same account leaves every balance unchanged.
pub open spec fn transfer_result(
    s: Seq<TokenAccount>,
    from: Address,
    to: Address,
    mint: Address,
    amount: u64,
    auth: Authorization,
    program_id: Seq<u8>,
) -> Result<Seq<TokenAccount>, OpError> {
    if !authorizes(auth, from, program_id) {
        Err(OpError::AuthorizationFailed)
    } else {
        let fi = ta_index(s, from, mint);
        let ti = ta_index(s, to, mint);
        if fi < 0 || ti < 0 {
            Err(OpError::AccountNotFound)
        } else if amount > s[fi].amount {
            Err(OpError::InsufficientFunds)
        } else if fi == ti {
            Ok(s)
        } else if s[ti].amount + amount > u64::MAX {
            Err(OpError::AmountOverflow)
        } else {
            Ok(
                s.update(
                    fi,
                    TokenAccount { amount: (s[fi].amount - amount) as u64, ..s[fi] },
                ).update(ti, TokenAccount { amount: (s[ti].amount + amount) as u64, ..s[ti] }),
            )
        }
    }
}

/// The whole ledger: the program namespace, one table per record kind, and
/// the token balances.
pub struct Ledger {
    /// The program namespace every address is derived under.
    pub program_id: [u8; 32],
    /// Agent records, keyed by derived address.
    pub agents: Vec<(Address, Agent)>,
    /// Market records, keyed by derived address.
    pub markets: Vec<(Address, Market)>,
    /// Vault records, keyed by derived address.
    pub vaults: Vec<(Address, Vault)>,
    /// Live trade records, keyed by derived address.
    pub trades: Vec<(Address, Trade)>,
    /// Token balances, keyed by (authority, mint).
    pub token_accounts: Vec<TokenAccount>,
}

/// The mathematical value of a [`Ledger`].
pub struct LedgerView {
    pub program_id: Seq<u8>,
    pub agents: Seq<(Address, Agent)>,
    pub markets: Seq<(Address, Market)>,
    pub vaults: Seq<(Address, Vault)>,
    pub trades: Seq<(Address, Trade)>,
    pub token_accounts: Seq<TokenAccount>,
}

impl View for Ledger {
    type V = LedgerView;

    open spec fn view(&self) -> LedgerView {
        LedgerView {
            program_id: self.program_id@,
            agents: self.agents@,
            markets: self.markets@,
            vaults: self.vaults@,
            trades: self.trades@,
            token_accounts: self.token_accounts@,
        }
    }
}

impl LedgerView {
    /// The agent entry at index `i` re-derives from its owner.
    pub open spec fn agent_ok(self, i: int) -> bool {
        derives_to(
            crate::addr::agent_seeds(self.agents[i].1.owner),
            self.program_id,
            self.agents[i].0,
            self.agents[i].1.bump,
        )
    }

    /// The market entry at index `i` holds two distinct tokens and
    /// re-derives from its ordered token pair.
    pub open spec fn market_ok(self, i: int) -> bool {
        self.markets[i].1.token_a != self.markets[i].1.token_b && derives_to(
            crate::addr::market_seeds(self.markets[i].1.token_a, self.markets[i].1.token_b),
            self.program_id,
            self.markets[i].0,
            self.markets[i].1.bump,
        )
    }

    /// The vault entry at index `i` references an existing market and
    /// re-derives from that market's token pair and its custodied token.
    pub open spec fn vault_ok(self, i: int) -> bool {
        match lookup(self.markets, self.vaults[i].1.market) {
            Some(m) => derives_to(
                vault_seeds(m.token_a, m.token_b, self.vaults[i].1.token),
                self.program_id,
                self.vaults[i].0,
                self.vaults[i].1.bump,
            ),
            None => false,
        }
    }

    /// The trade entry at index `i` has a valid direction and re-derives
    /// from its (agent, market) pair.
    pub open spec fn trade_ok(self, i: int) -> bool {
        self.trades[i].1.trade_type <= 1 && derives_to(
            crate::addr::trade_seeds(self.trades[i].1.agent, self.trades[i].1.market),
            self.program_id,
            self.trades[i].0,
            self.trades[i].1.bump,
        )
    }

    /// Well-formedness: keys are unique in every table, and every stored
    /// record re-derives its own address from its defining attributes.
    pub open spec fn wf(self) -> bool {
        &&& keys_unique(self.agents)
        &&& keys_unique(self.markets)
        &&& keys_unique(self.vaults)
        &&& keys_unique(self.trades)
        &&& ta_keys_unique(self.token_accounts)
        &&& forall|i: int| 0 <= i < self.agents.len() ==> #[trigger] self.agent_ok(i)
        &&& forall|i: int| 0 <= i < self.markets.len() ==> #[trigger] self.market_ok(i)
        &&& forall|i: int| 0 <= i < self.vaults.len() ==> #[trigger] self.vault_ok(i)
        &&& forall|i: int| 0 <= i < self.trades.len() ==> #[trigger] self.trade_ok(i)
    }
}

impl Ledger {
    /// An empty ledger under the given program namespace.
    pub fn new(program_id: [u8; 32]) -> (r: Ledger)
        ensures
            r@.wf(),
            r@.program_id == program_id@,
            r@.agents.len() == 0,
            r@.markets.len() == 0,
            r@.vaults.len() == 0,
            r@.trades.len() == 0,
            r@.token_accounts.len() == 0,
    {
        Ledger {
            program_id,
            agents: Vec::new(),
            markets: Vec::new(),
            vaults: Vec::new(),
            trades: Vec::new(),
            token_accounts: Vec::new(),
        }
    }
}

/// Find the index of the entry keyed `a`, mirroring [`key_index`].
pub(crate) fn find_record<T>(v: &Vec<(Address, T)>, a: &Address) -> (r: Option<usize>)
    ensures
        (match r {
            Some(i) => key_index(v@, *a) == i as int,
            None => key_index(v@, *a) == -1,
        }),
{
    let mut i: usize = 0;
    while i < v.len()
        invariant
            i <= v.len(),
            forall|j: int| 0 <= j < i ==> v@[j].0 != *a,
        decreases v.len() - i,
    {
        if v[i].0 == *a {
            proof {
                lemma_key_index(v@, *a);
            }
            return Some(i);
        }
        i = i + 1;
    }
    proof {
        lemma_key_index(v@, *a);
    }
    None
}

/// Find the index of the token account of `authority` in `mint`,
/// mirroring [`ta_index`].
pub(crate) fn find_token_account(
    v: &Vec<TokenAccount>,
    authority: &Address,
    mint: &Address,
) -> (r: Option<usize>)
    ensures
        (match r {
            Some(i) => ta_index(v@, *authority, *mint) == i as int,
            None => ta_index(v@, *authority, *mint) == -1,
        }),
{
    let mut i: usize = 0;
    while i < v.len()
        invariant
            i <= v.len(),
            forall|j: int|
                0 <= j < i ==> !(v@[j].authority == *authority && v@[j].mint == *mint),
        decreases v.len() - i,
    {
        if v[i].authority == *authority && v[i].mint == *mint {
            proof {
                lemma_ta_index(v@, *authority, *mint);
            }
            return Some(i);
        }
        i = i + 1;
    }
    proof {
        lemma_ta_index(v@, *authority, *mint);
    }
    None
}

/// Check that `auth` authorizes debiting the account of `from_authority`,
/// mirroring [`authorizes`].
fn check_authorization(auth: &Authorization, from_authority: &Address, program_id: &[u8; 32]) -> (r:
    bool)
    ensures
        r == authorizes(*auth, *from_authority, program_id@),
{
    match *auth {
        Authorization::Signer(u) => u == *from_authority,
        Authorization::VaultProof { token_a, token_b, token, bump } => {
            match crate::addr::derive_vault_address(&token_a, &token_b, &token, program_id) {
                Some(p) => p.0 == *from_authority && p.1 == bump,
                None => false,
            }
        },
    }
}

/// Move `amount` of `mint` from the account of `from` to the account of
/// `to`, if `auth` authorizes the debit — the atomic move capability that
/// deposit, withdrawal and settlement are built on.  Either the whole
/// transfer applies or nothing changes.
pub fn transfer(
    accounts: &mut Vec<TokenAccount>,
    from: &Address,
    to: &Address,
    mint: &Address,
    amount: u64,
    auth: &Authorization,
    program_id: &[u8; 32],
) -> (r: Result<(), OpError>)
    ensures
        (match transfer_result(old(accounts)@, *from, *to, *mint, amount, *auth, program_id@) {
            Ok(s2) => r is Ok && final(accounts)@ == s2,
            Err(e) => r == Err::<(), OpError>(e) && final(accounts)@ == old(accounts)@,
        }),
        ta_keys_unique(old(accounts)@) ==> ta_keys_unique(final(accounts)@),
{
    if !check_authorization(auth, from, program_id) {
        return Err(OpError::AuthorizationFailed);
    }
    let fi_opt = find_token_account(accounts, from, mint);
    let ti_opt = find_token_account(accounts, to, mint);
    match (fi_opt, ti_opt) {
        (Some(fi), Some(ti)) => {
            proof {
                lemma_ta_index(accounts@, *from, *mint);
                lemma_ta_index(accounts@, *to, *mint);
            }
            let from_acct = accounts[fi];
            if amount > from_acct.amount {
                return Err(OpError::InsufficientFunds);
            }
            if fi == ti {
                return Ok(());
            }
            let to_acct = accounts[ti];
            if to_acct.amount > u64::MAX - amount {
                return Err(OpError::AmountOverflow);
            }
            accounts.set(
                fi,
                TokenAccount {
                    mint: from_acct.mint,
                    authority: from_acct.authority,
                    amount: from_acct.amount - amount,
                },
            );
            accounts.set(
                ti,
                TokenAccount {
                    mint: to_acct.mint,
                    authority: to_acct.authority,
                    amount: to_acct.amount + amount,
                },
            );
            proof {
                if ta_keys_unique(old(accounts)@) {
                    let mid = old(accounts)@.update(
                        fi as int,
                        TokenAccount {
                            mint: from_acct.mint,
                            authority: from_acct.authority,
                            amount: (from_acct.amount - amount) as u64,
                        },
                    );
                    lemma_update_ta(
                        old(accounts)@,
                        fi as int,
                        TokenAccount {
                            mint: from_acct.mint,
                            authority: from_acct.authority,
                            amount: (from_acct.amount - amount) as u64,
                        },
                    );
                    lemma_update_ta(
                        mid,
                        ti as int,
                        TokenAccount {
                            mint: to_acct.mint,
                            authority: to_acct.authority,
                            amount: (to_acct.amount + amount) as u64,
                        },
                    );
                }
            }
            Ok(())
        },
        _ => Err(OpError::AccountNotFound),
    }
}


/// Pushing an entry with a fresh key keeps keys unique, stores the entry,
/// and leaves every other lookup unchanged.
pub proof fn lemma_push_entry<T>(s: Seq<(Address, T)>, p: (Address, T))
    requires
        key_index(s, p.0) == -1,
    ensures
        keys_unique(s) ==> keys_unique(s.push(p)),
        key_index(s.push(p), p.0) == s.len(),
        lookup(s.push(p), p.0) == Some(p.1),
        forall|b: Address| b != p.0 ==> key_index(s.push(p), b) == key_index(s, b),
        forall|b: Address| b != p.0 ==> lookup(s.push(p), b) == lookup(s, b),
{
    assert(s.push(p)[s.len() as int] == p);
    assert(forall|j: int| 0 <= j < s.len() ==> s.push(p)[j] == s[j]);
    lemma_key_index(s, p.0);
    lemma_key_index(s.push(p), p.0);
    assert forall|b: Address| b != p.0 implies key_index(s.push(p), b) == key_index(s, b)
        && lookup(s.push(p), b) == lookup(s, b) by {
        lemma_key_index(s, b);
        lemma_key_index(s.push(p), b);
        let ks = key_index(s, b);
        let kp = key_index(s.push(p), b);
        if ks >= 0 && kp != ks {
            assert(s.push(p)[ks].0 == b);
        }
        if ks == -1 && kp >= 0 {
            assert(s.push(p)[kp].0 == b);
            assert(kp < s.len());
            assert(s[kp].0 == b);
        }
    }
}

/// Removing the entry at `i` keeps keys unique, erases its key, and leaves
/// every other lookup unchanged.
pub proof fn lemma_remove_entry<T>(s: Seq<(Address, T)>, i: int)
    requires
        keys_unique(s),
        0 <= i < s.len(),
    ensures
        keys_unique(s.remove(i)),
        key_index(s.remove(i), s[i].0) == -1,
        forall|b: Address| b != s[i].0 ==> lookup(s.remove(i), b) == lookup(s, b),
{
    let t = s.remove(i);
    assert(forall|j: int| 0 <= j < i ==> t[j] == s[j]);
    assert(forall|j: int| i <= j < t.len() ==> t[j] == s[j + 1]);
    lemma_key_index(t, s[i].0);
    if key_index(t, s[i].0) >= 0 {
        let k = key_index(t, s[i].0);
        if k < i {
            assert(s[k].0 == s[i].0);
        } else {
            assert(s[k + 1].0 == s[i].0);
        }
        assert(false);
    }
    assert forall|b: Address| b != s[i].0 implies lookup(t, b) == lookup(s, b) by {
        lemma_key_index(s, b);
        lemma_key_index(t, b);
        let ks = key_index(s, b);
        let kt = key_index(t, b);
        if ks >= 0 {
            if ks < i {
                assert(t[ks] == s[ks]);
            } else {
                assert(ks > i);
                assert(t[ks - 1] == s[ks]);
            }
            assert(kt >= 0);
            let kt_in_s: int = if kt < i { kt } else { kt + 1 };
            assert(s[kt_in_s] == t[kt]);
            assert(ks <= kt_in_s);
            assert(kt_in_s == ks);
        } else {
            if kt >= 0 {
                let kt_in_s: int = if kt < i { kt } else { kt + 1 };
                assert(s[kt_in_s] == t[kt]);
                assert(false);
            }
        }
    }
}

/// Pushing a token account with a fresh (authority, mint) pair keeps the
/// pairs unique, stores the account, and leaves every other pair unchanged.
pub proof fn lemma_push_ta(s: Seq<TokenAccount>, t: TokenAccount)
    requires
        ta_index(s, t.authority, t.mint) == -1,
    ensures
        ta_keys_unique(s) ==> ta_keys_unique(s.push(t)),
        ta_index(s.push(t), t.authority, t.mint) == s.len(),
        ta_lookup(s.push(t), t.authority, t.mint) == Some(t),
        forall|a: Address, m: Address|
            !(a == t.authority && m == t.mint) ==> ta_index(s.push(t), a, m) == ta_index(s, a, m),
        forall|a: Address, m: Address|
            !(a == t.authority && m == t.mint) ==> ta_lookup(s.push(t), a, m) == ta_lookup(s, a, m),
{
    assert(s.push(t)[s.len() as int] == t);
    assert(forall|j: int| 0 <= j < s.len() ==> s.push(t)[j] == s[j]);
    lemma_ta_index(s, t.authority, t.mint);
    lemma_ta_index(s.push(t), t.authority, t.mint);
    assert forall|a: Address, m: Address| !(a == t.authority && m == t.mint) implies ta_index(
        s.push(t),
        a,
        m,
    ) == ta_index(s, a, m) && ta_lookup(s.push(t), a, m) == ta_lookup(s, a, m) by {
        lemma_ta_index(s, a, m);
        lemma_ta_index(s.push(t), a, m);
        let ks = ta_index(s, a, m);
        let kp = ta_index(s.push(t), a, m);
        if ks >= 0 && kp != ks {
            assert(s.push(t)[ks].authority == a && s.push(t)[ks].mint == m);
        }
        if ks == -1 && kp >= 0 {
            assert(s.push(t)[kp].authority == a && s.push(t)[kp].mint == m);
            assert(kp < s.len());
            assert(s[kp].authority == a && s[kp].mint == m);
        }
    }
}

/// Updating the token account at `i` without changing its (authority,
/// mint) pair keeps the pairs unique and moves no other account.
pub proof fn lemma_update_ta(s: Seq<TokenAccount>, i: int, t: TokenAccount)
    requires
        0 <= i < s.len(),
        t.authority == s[i].authority,
        t.mint == s[i].mint,
    ensures
        ta_keys_unique(s) ==> ta_keys_unique(s.update(i, t)),
        forall|a: Address, m: Address|
            #![trigger ta_index(s.update(i, t), a, m)]
            ta_index(s.update(i, t), a, m) == ta_index(s, a, m),
        forall|a: Address, m: Address|
            !(a == s[i].authority && m == s[i].mint) ==> ta_lookup(s.update(i, t), a, m)
                == ta_lookup(s, a, m),
{
    let u = s.update(i, t);
    assert forall|a: Address, m: Address|
        #![trigger ta_index(u, a, m)]
        ta_index(u, a, m) == ta_index(s, a, m) by {
        lemma_ta_index(s, a, m);
        lemma_ta_index(u, a, m);
        let ks = ta_index(s, a, m);
        let ku = ta_index(u, a, m);
        if ks >= 0 && ku != ks {
            assert(u[ks].authority == a && u[ks].mint == m);
        }
        if ks == -1 && ku >= 0 {
            assert(s[ku].authority == a && s[ku].mint == m);
        }
    }
    assert forall|a: Address, m: Address|
        !(a == s[i].authority && m == s[i].mint) implies ta_lookup(u, a, m) == ta_lookup(
        s,
        a,
        m,
    ) by {
        lemma_ta_index(s, a, m);
        let k = ta_index(s, a, m);
        if k >= 0 {
            assert(k != i);
        }
    }
}


/// What a successful transfer between two distinct accounts does to the
/// balances: the source loses exactly `amount`, the destination gains
/// exactly `amount`, and no other account's balance changes.
pub proof fn lemma_transfer_balances(
    s: Seq<TokenAccount>,
    from: Address,
    to: Address,
    mint: Address,
    amount: u64,
    auth: Authorization,
    program_id: Seq<u8>,
)
    requires
        transfer_result(s, from, to, mint, amount, auth, program_id) is Ok,
        from != to,
    ensures
        ({
            let s2 = transfer_result(s, from, to, mint, amount, auth, program_id)->Ok_0;
            &&& balance_of(s, from, mint) is Some
            &&& balance_of(s, to, mint) is Some
            &&& amount <= balance_of(s, from, mint).unwrap()
            &&& balance_of(s2, from, mint) == Some(
                (balance_of(s, from, mint).unwrap() - amount) as u64,
            )
            &&& balance_of(s2, to, mint) == Some(
                (balance_of(s, to, mint).unwrap() + amount) as u64,
            )
            &&& forall|a: Address, m: Address|
                !(a == from && m == mint) && !(a == to && m == mint) ==> balance_of(s2, a, m)
                    == balance_of(s, a, m)
        }),
{
    let fi = ta_index(s, from, mint);
    let ti = ta_index(s, to, mint);
    lemma_ta_index(s, from, mint);
    lemma_ta_index(s, to, mint);
    assert(fi != ti);
    let new_from = TokenAccount { amount: (s[fi].amount - amount) as u64, ..s[fi] };
    let new_to = TokenAccount { amount: (s[ti].amount + amount) as u64, ..s[ti] };
    let mid = s.update(fi, new_from);
    let s2 = mid.update(ti, new_to);
    lemma_update_ta(s, fi, new_from);
    lemma_update_ta(mid, ti, new_to);
    assert(ta_index(s2, from, mint) == fi);
    assert(ta_index(s2, to, mint) == ti);
    assert forall|a: Address, m: Address|
        !(a == from && m == mint) && !(a == to && m == mint) implies balance_of(s2, a, m)
        == balance_of(s, a, m) by {
        lemma_ta_index(s, a, m);
        let k = ta_index(s, a, m);
        assert(ta_index(mid, a, m) == k);
        assert(ta_index(s2, a, m) == k);
        if k >= 0 {
            assert(k != fi && k != ti);
            assert(s2[k] == s[k]);
        }
    }
}


/// A change that touches only the token accounts preserves
/// well-formedness, provided the (authority, mint) pairs stay unique.
pub proof fn lemma_wf_same_records(s: LedgerView, s2: LedgerView)
    requires
        s.wf(),
        s2.agents == s.agents,
        s2.markets == s.markets,
        s2.vaults == s.vaults,
        s2.trades == s.trades,
        s2.program_id == s.program_id,
        ta_keys_unique(s2.token_accounts),
    ensures
        s2.wf(),
{
    assert forall|i: int| 0 <= i < s2.agents.len() implies #[trigger] s2.agent_ok(i) by {
        assert(s.agent_ok(i));
    }
    assert forall|i: int| 0 <= i < s2.markets.len() implies #[trigger] s2.market_ok(i) by {
        assert(s.market_ok(i));
    }
    assert forall|i: int| 0 <= i < s2.vaults.len() implies #[trigger] s2.vault_ok(i) by {
        assert(s.vault_ok(i));
    }
    assert forall|i: int| 0 <= i < s2.trades.len() implies #[trigger] s2.trade_ok(i) by {
        assert(s.trade_ok(i));
    }
}

/// What crediting does: create the (authority, mint) account holding
/// `amount` if none exists, else add `amount` to its balance, failing on
/// overflow.  Nothing else changes.
pub open spec fn credit_account_result(
    s: LedgerView,
    authority: Address,
    mint: Address,
    amount: u64,
) -> Result<LedgerView, OpError> {
    match ta_lookup(s.token_accounts, authority, mint) {
        None => Ok(
            LedgerView {
                token_accounts: s.token_accounts.push(TokenAccount { mint, authority, amount }),
                ..s
            },
        ),
        Some(t) => if t.amount + amount > u64::MAX {
            Err(OpError::AmountOverflow)
        } else {
            Ok(
                LedgerView {
                    token_accounts: s.token_accounts.update(
                        ta_index(s.token_accounts, authority, mint),
                        TokenAccount { mint, authority, amount: (t.amount + amount) as u64 },
                    ),
                    ..s
                },
            )
        },
    }
}

impl Ledger {
    /// Credit `amount` of `mint` to the account of `authority`, creating
    /// the account if it does not exist yet.  This models the external
    /// token issuer: the venue itself never mints, it only moves what was
    /// credited here.
    pub fn credit_account(&mut self, authority: Address, mint: Address, amount: u64) -> (r: Result<
        (),
        OpError,
    >)
        requires
            old(self)@.wf(),
        ensures
            final(self)@.wf(),
            (match credit_account_result(old(self)@, authority, mint, amount) {
                Ok(s2) => r is Ok && final(self)@ == s2,
                Err(e) => r == Err::<(), OpError>(e) && final(self)@ == old(self)@,
            }),
    {
        match find_token_account(&self.token_accounts, &authority, &mint) {
            None => {
                self.token_accounts.push(TokenAccount { mint, authority, amount });
                proof {
                    lemma_push_ta(
                        old(self)@.token_accounts,
                        TokenAccount { mint, authority, amount },
                    );
                    lemma_wf_same_records(old(self)@, self@);
                }
                Ok(())
            },
            Some(i) => {
                proof {
                    lemma_ta_index(old(self)@.token_accounts, authority, mint);
                }
                let t = self.token_accounts[i];
                if amount > u64::MAX - t.amount {
                    return Err(OpError::AmountOverflow);
                }
                self.token_accounts.set(
                    i,
                    TokenAccount { mint: t.mint, authority: t.authority, amount: t.amount + amount },
                );
                proof {
                    lemma_update_ta(
                        old(self)@.token_accounts,
                        i as int,
                        TokenAccount {
                            mint: t.mint,
                            authority: t.authority,
                            amount: (t.amount + amount) as u64,
                        },
                    );
                    lemma_wf_same_records(old(self)@, self@);
                }
                Ok(())
            },
        }
    }
}


impl Ledger {
    /// The balance of `authority` in `mint`, if that account exists.
    pub fn balance(&self, authority: &Address, mint: &Address) -> (r: Option<u64>)
        ensures
            r == balance_of(self@.token_accounts, *authority, *mint),
    {
        match find_token_account(&self.token_accounts, authority, mint) {
            Some(i) => {
                proof {
                    lemma_ta_index(self@.token_accounts, *authority, *mint);
                }
                Some(self.token_accounts[i].amount)
            },
            None => None,
        }
    }

    /// The agent record at `addr`, if any.
    pub fn get_agent(&self, addr: &Address) -> (r: Option<Agent>)
        ensures
            r == lookup(self@.agents, *addr),
    {
        match find_record(&self.agents, addr) {
            Some(i) => {
                proof {
                    lemma_key_index(self@.agents, *addr);
                }
                Some(self.agents[i].1)
            },
            None => None,
        }
    }

    /// The market record at `addr`, if any.
    pub fn get_market(&self, addr: &Address) -> (r: Option<Market>)
        ensures
            r == lookup(self@.markets, *addr),
    {
        match find_record(&self.markets, addr) {
            Some(i) => {
                proof {
                    lemma_key_index(self@.markets, *addr);
                }
                Some(self.markets[i].1)
            },
            None => None,
        }
    }

    /// The vault record at `addr`, if any.
    pub fn get_vault(&self, addr: &Address) -> (r: Option<Vault>)
        ensures
            r == lookup(self@.vaults, *addr),
    {
        match find_record(&self.vaults, addr) {
            Some(i) => {
                proof {
                    lemma_key_index(self@.vaults, *addr);
                }
                Some(self.vaults[i].1)
            },
            None => None,
        }
    }

    /// The trade record at `addr`, if any.
    pub fn get_trade(&self, addr: &Address) -> (r: Option<Trade>)
        ensures
            r == lookup(self@.trades, *addr),
    {
        match find_record(&self.trades, addr) {
            Some(i) => {
                proof {
                    lemma_key_index(self@.trades, *addr);
                }
                Some(self.trades[i].1)
            },
            None => None,
        }
    }
}

} // verus!

