//! Account addresses and deterministic address derivation.
//!
//! Every entity of the venue (agent, market, vault, trade) lives at an
//! address derived from a tuple of byte-string seeds under a program
//! namespace.  The derivation also yields a disambiguation byte (the
//! "bump"); an entity stores its bump so that later operations can
//! re-derive and authenticate the same address.

use vstd::prelude::*;

verus! {

/// A 32-byte account address.  Token mints, signers, and every derived
/// entity address are values of this type.
#[derive(Clone, Copy, Eq, Debug)]
pub struct Address(pub [u8; 32]);

impl PartialEq for Address {
    fn eq(&self, other: &Address) -> (r: bool) {
        let mut i: usize = 0;
        while i < 32
            invariant
                i <= 32,
                forall|j: int| 0 <= j < i ==> self.0@[j] == other.0@[j],
            decreases 32 - i,
        {
            if self.0[i] != other.0[i] {
                return false;
            }
            i = i + 1;
        }
        proof {
            assert(self.0@ =~= other.0@);
            vstd::array::axiom_array_ext_equal(self.0, other.0);
        }
        true
    }
}

impl vstd::std_specs::cmp::PartialEqSpecImpl for Address {
    open spec fn obeys_eq_spec() -> bool {
        true
    }

    open spec fn eq_spec(&self, other: &Address) -> bool {
        self == other
    }
}

/// What the derivation returns for a seed tuple under a program namespace:
/// the derived address and the bump, or nothing in the (practically
/// unreachable) case that no bump yields a valid address.  The result is a
/// pure function of the seeds and the namespace; that is the determinism
/// the whole addressing scheme rests on.
pub uninterp spec fn derived(seeds: Seq<Seq<u8>>, program_id: Seq<u8>) -> Option<(Address, u8)>;

/// Relies on anchor_lang's `Pubkey::try_find_program_address`: the returned
/// address and bump depend on the seeds and the program id alone.
#[verifier::external_body]
fn try_find_program_address(seeds: &Vec<Vec<u8>>, program_id: &[u8; 32]) -> (r: Option<
    (Address, u8),
>)
    ensures
        (match r {
            Some(p) => derived(seeds.deep_view(), program_id@) == Some(p),
            None => derived(seeds.deep_view(), program_id@) is None,
        }),
{
    let refs: Vec<&[u8]> = seeds.iter().map(|s| s.as_slice()).collect();
    let pid = anchor_lang::prelude::Pubkey::new_from_array(*program_id);
    anchor_lang::prelude::Pubkey::try_find_program_address(&refs, &pid)
        .map(|(pk, bump)| (Address(pk.to_bytes()), bump))
}

/// The seed tag of agent records.
pub open spec fn agent_tag() -> Seq<u8> {
    seq![97u8, 103u8, 101u8, 110u8, 116u8]
}

/// The seed tag of market records.
pub open spec fn market_tag() -> Seq<u8> {
    seq![109u8, 97u8, 114u8, 107u8, 101u8, 116u8]
}

/// The seed tag of vault records.
pub open spec fn vault_tag() -> Seq<u8> {
    seq![118u8, 97u8, 117u8, 108u8, 116u8]
}

/// The seed tag of trade records.
pub open spec fn trade_tag() -> Seq<u8> {
    seq![116u8, 114u8, 97u8, 100u8, 101u8]
}

/// The defining seeds of an agent record: the tag and the owner identity.
pub open spec fn agent_seeds(owner: Address) -> Seq<Seq<u8>> {
    seq![agent_tag(), owner.0@]
}

/// The defining seeds of a market record: the tag and the ordered token pair.
pub open spec fn market_seeds(token_a: Address, token_b: Address) -> Seq<Seq<u8>> {
    seq![market_tag(), token_a.0@, token_b.0@]
}

/// The defining seeds of a vault record: the tag, the market's ordered token
/// pair, and the custodied token.
pub open spec fn vault_seeds(token_a: Address, token_b: Address, token: Address) -> Seq<Seq<u8>> {
    seq![vault_tag(), token_a.0@, token_b.0@, token.0@]
}

/// The defining seeds of a trade record: the tag, the placing agent's
/// address, and the market's address.
pub open spec fn trade_seeds(agent: Address, market: Address) -> Seq<Seq<u8>> {
    seq![trade_tag(), agent.0@, market.0@]
}

/// Whether the derivation sends `seeds` under `program_id` to exactly
/// `(addr, bump)`.  Stored entities satisfy this of their defining seeds.
pub open spec fn derives_to(
    seeds: Seq<Seq<u8>>,
    program_id: Seq<u8>,
    addr: Address,
    bump: u8,
) -> bool {
    derived(seeds, program_id) == Some((addr, bump))
}

fn address_bytes(a: &Address) -> (v: Vec<u8>)
    ensures
        v@ == a.0@,
{
    vstd::slice::slice_to_vec(vstd::array::array_as_slice(&a.0))
}

fn tag_agent() -> (v: Vec<u8>)
    ensures
        v@ == agent_tag(),
{
    let mut v: Vec<u8> = Vec::new();
    v.push(97u8);
    v.push(103u8);
    v.push(101u8);
    v.push(110u8);
    v.push(116u8);
    proof {
        assert(v@ =~= agent_tag());
    }
    v
}

fn tag_market() -> (v: Vec<u8>)
    ensures
        v@ == market_tag(),
{
    let mut v: Vec<u8> = Vec::new();
    v.push(109u8);
    v.push(97u8);
    v.push(114u8);
    v.push(107u8);
    v.push(101u8);
    v.push(116u8);
    proof {
        assert(v@ =~= market_tag());
    }
    v
}

fn tag_vault() -> (v: Vec<u8>)
    ensures
        v@ == vault_tag(),
{
    let mut v: Vec<u8> = Vec::new();
    v.push(118u8);
    v.push(97u8);
    v.push(117u8);
    v.push(108u8);
    v.push(116u8);
    proof {
        assert(v@ =~= vault_tag());
    }
    v
}

fn tag_trade() -> (v: Vec<u8>)
    ensures
        v@ == trade_tag(),
{
    let mut v: Vec<u8> = Vec::new();
    v.push(116u8);
    v.push(114u8);
    v.push(97u8);
    v.push(100u8);
    v.push(101u8);
    proof {
        assert(v@ =~= trade_tag());
    }
    v
}

fn derive(seeds: Vec<Vec<u8>>, program_id: &[u8; 32]) -> (r: Option<(Address, u8)>)
    ensures
        r == derived(seeds.deep_view(), program_id@),
{
    let r = try_find_program_address(&seeds, program_id);
    r
}

/// Derive the address and bump of the agent record owned by `owner`.
pub fn derive_agent_address(owner: &Address, program_id: &[u8; 32]) -> (r: Option<(Address, u8)>)
    ensures
        r == derived(agent_seeds(*owner), program_id@),
{
    let mut seeds: Vec<Vec<u8>> = Vec::new();
    seeds.push(tag_agent());
    seeds.push(address_bytes(owner));
    proof {
        assert(seeds.deep_view() =~~= agent_seeds(*owner));
    }
    derive(seeds, program_id)
}

/// Derive the address and bump of the market record for the ordered token
/// pair `(token_a, token_b)`.
pub fn derive_market_address(token_a: &Address, token_b: &Address, program_id: &[u8; 32]) -> (r:
    Option<(Address, u8)>)
    ensures
        r == derived(market_seeds(*token_a, *token_b), program_id@),
{
    let mut seeds: Vec<Vec<u8>> = Vec::new();
    seeds.push(tag_market());
    seeds.push(address_bytes(token_a));
    seeds.push(address_bytes(token_b));
    proof {
        assert(seeds.deep_view() =~~= market_seeds(*token_a, *token_b));
    }
    derive(seeds, program_id)
}

/// Derive the address and bump of the vault that custodies `token` for the
/// market over `(token_a, token_b)`.
pub fn derive_vault_address(
    token_a: &Address,
    token_b: &Address,
    token: &Address,
    program_id: &[u8; 32],
) -> (r: Option<(Address, u8)>)
    ensures
        r == derived(vault_seeds(*token_a, *token_b, *token), program_id@),
{
    let mut seeds: Vec<Vec<u8>> = Vec::new();
    seeds.push(tag_vault());
    seeds.push(address_bytes(token_a));
    seeds.push(address_bytes(token_b));
    seeds.push(address_bytes(token));
    proof {
        assert(seeds.deep_view() =~~= vault_seeds(*token_a, *token_b, *token));
    }
    derive(seeds, program_id)
}

/// Derive the address and bump of the trade record scoped to `(agent, market)`.
pub fn derive_trade_address(agent: &Address, market: &Address, program_id: &[u8; 32]) -> (r: Option<
    (Address, u8),
>)
    ensures
        r == derived(trade_seeds(*agent, *market), program_id@),
{
    let mut seeds: Vec<Vec<u8>> = Vec::new();
    seeds.push(tag_trade());
    seeds.push(address_bytes(agent));
    seeds.push(address_bytes(market));
    proof {
        assert(seeds.deep_view() =~~= trade_seeds(*agent, *market));
    }
    derive(seeds, program_id)
}

} // verus!
