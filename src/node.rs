use vstd::prelude::*;

use crate::errors::ContractErrors;

verus! {

/// The longest label, in bytes, that a domain or subdomain may have.
pub const MAX_LABEL_LEN: usize = 15;

pub open spec fn is_label_byte(b: u8) -> bool {
    97 <= b <= 122
}

/// A label is at most fifteen bytes, each a lowercase ASCII letter.
pub open spec fn valid_label(label: Seq<u8>) -> bool {
    &&& label.len() <= MAX_LABEL_LEN
    &&& forall|i: int| 0 <= i < label.len() ==> is_label_byte(#[trigger] label[i])
}

/// The Keccak-256 digest of a byte string.
pub uninterp spec fn keccak_of(data: Seq<u8>) -> [u8; 32];

/// The node of `label` under `parent`: `H(H(parent) ++ H(label))`.
pub open spec fn node_of(label: Seq<u8>, parent: Seq<u8>) -> [u8; 32] {
    keccak_of(keccak_of(parent)@ + keccak_of(label)@)
}

/// Relies on soroban_sdk's `Crypto::keccak256`, computed by a local host
/// environment whose budget is lifted first: the Keccak-256 digest of `data`,
/// a function of `data` alone. The host keeps byte strings of at most
/// `u32::MAX` bytes and fails on longer ones.
#[verifier::external_body]
fn keccak256(data: &[u8]) -> (r: [u8; 32])
    requires
        data@.len() <= u32::MAX,
    ensures
        r == keccak_of(data@),
{
    let env = soroban_sdk::Env::new_with_config(
        soroban_sdk::testutils::EnvTestConfig { capture_snapshot_at_drop: false },
    );
    env.cost_estimate().budget().reset_unlimited();
    env.crypto().keccak256(&soroban_sdk::Bytes::from_slice(&env, data)).to_array()
}

/// Accepts a label made of at most fifteen lowercase ASCII letters.
pub fn validate_domain(domain: &[u8]) -> (r: Result<(), ContractErrors>)
    ensures
        r is Ok <==> valid_label(domain@),
        r is Err ==> r == Err::<(), ContractErrors>(ContractErrors::InvalidDomain),
{
    if domain.len() > MAX_LABEL_LEN {
        return Err(ContractErrors::InvalidDomain);
    }
    let mut i: usize = 0;
    while i < domain.len()
        invariant
            i <= domain@.len(),
            forall|j: int| 0 <= j < i ==> is_label_byte(#[trigger] domain@[j]),
        decreases domain@.len() - i,
    {
        if domain[i] < 97 || domain[i] > 122 {
            return Err(ContractErrors::InvalidDomain);
        }
        i += 1;
    }
    Ok(())
}

/// The bytes of `a` followed by those of `b`.
fn concat_digests(a: &[u8; 32], b: &[u8; 32]) -> (r: Vec<u8>)
    ensures
        r@ == a@ + b@,
{
    let mut out: Vec<u8> = Vec::new();
    let mut i: usize = 0;
    while i < 32
        invariant
            i <= 32,
            out@ == a@.subrange(0, i as int),
        decreases 32 - i,
    {
        out.push(a[i]);
        i += 1;
    }
    assert(a@.subrange(0, 32) == a@);
    let mut j: usize = 0;
    while j < 32
        invariant
            j <= 32,
            out@ == a@ + b@.subrange(0, j as int),
        decreases 32 - j,
    {
        out.push(b[j]);
        j += 1;
    }
    assert(b@.subrange(0, 32) == b@);
    out
}

/// Derives the node of `domain` under `parent`: the suffix for a root domain,
/// the parent's own node for a subdomain.
pub fn generate_node(domain: &[u8], parent: &[u8]) -> (r: [u8; 32])
    requires
        domain@.len() <= u32::MAX,
        parent@.len() <= u32::MAX,
    ensures
        r == node_of(domain@, parent@),
{
    let parent_hash = keccak256(parent);
    let domain_hash = keccak256(domain);
    let joined = concat_digests(&parent_hash, &domain_hash);
    keccak256(joined.as_slice())
}

/// Whether two byte strings are equal.
pub fn same_bytes(a: &[u8], b: &[u8]) -> (r: bool)
    ensures
        r == (a@ == b@),
{
    if a.len() != b.len() {
        return false;
    }
    let mut i: usize = 0;
    while i < a.len()
        invariant
            i <= a@.len(),
            a@.len() == b@.len(),
            forall|j: int| 0 <= j < i ==> a@[j] == b@[j],
        decreases a@.len() - i,
    {
        if a[i] != b[i] {
            return false;
        }
        i += 1;
    }
    assert(a@ =~= b@);
    true
}

/// Whether two nodes hold the same bytes.
pub fn same_node(a: &[u8; 32], b: &[u8; 32]) -> (r: bool)
    ensures
        r == (a@ == b@),
{
    let mut i: usize = 0;
    while i < 32
        invariant
            i <= 32,
            a@.len() == 32,
            b@.len() == 32,
            forall|j: int| 0 <= j < i ==> a@[j] == b@[j],
        decreases 32 - i,
    {
        if a[i] != b[i] {
            return false;
        }
        i += 1;
    }
    assert(a@ =~= b@);
    true
}

} // verus!
