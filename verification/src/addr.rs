//! Address derivation: a domain tag plus a seed determine where a record is
//! stored.  The derivation itself is Solana's program-derived-address search,
//! called through a trusted wrapper; everything that the store concludes from
//! an address goes through the name `pda_derivation` given to its result.

use vstd::bytes::spec_u64_to_le_bytes;
use vstd::bytes::u64_to_le_bytes;
use vstd::prelude::*;

verus! {

/// An account identity: the 32 raw bytes of a public key.  The store never
/// looks inside an identity; it only stores identities and compares them.
#[derive(Debug)]
pub struct AccountId {
    pub bytes: Vec<u8>,
}

impl View for AccountId {
    type V = Seq<u8>;

    open spec fn view(&self) -> Seq<u8> {
        self.bytes@
    }
}

impl Clone for AccountId {
    fn clone(&self) -> (r: Self)
        ensures
            r@ == self@,
    {
        AccountId { bytes: clone_bytes(&self.bytes) }
    }
}

/// Byte-for-byte copy of a byte vector.
pub fn clone_bytes(v: &Vec<u8>) -> (r: Vec<u8>)
    ensures
        r@ == v@,
{
    let mut r: Vec<u8> = Vec::new();
    let mut i: usize = 0;
    while i < v.len()
        invariant
            i <= v@.len(),
            r@ =~= v@.take(i as int),
        decreases v@.len() - i,
    {
        r.push(v[i]);
        i = i + 1;
    }
    proof {
        assert(r@ =~= v@);
    }
    r
}

/// Byte-for-byte comparison of two byte vectors.
pub fn bytes_eq(a: &Vec<u8>, b: &Vec<u8>) -> (r: bool)
    ensures
        r == (a@ == b@),
{
    if a.len() != b.len() {
        return false;
    }
    let mut i: usize = 0;
    while i < a.len()
        invariant
            i <= a@.len(),
            a@.len() == b@.len(),
            forall|j: int| 0 <= j < i ==> a@[j] == b@[j],
        decreases a@.len() - i,
    {
        if a[i] != b[i] {
            return false;
        }
        i = i + 1;
    }
    proof {
        assert(a@ =~= b@);
    }
    true
}

/// The domain tag of the global counter: the bytes of `"global"`.
pub open spec fn global_tag() -> Seq<u8> {
    seq![103u8, 108u8, 111u8, 98u8, 97u8, 108u8]
}

/// The domain tag of a record: the bytes of `"text"`.
pub open spec fn record_tag() -> Seq<u8> {
    seq![116u8, 101u8, 120u8, 116u8]
}

/// The seed slices from which the global counter's address is derived.
pub open spec fn global_seeds() -> Seq<Seq<u8>> {
    seq![global_tag()]
}

/// The seed slices from which the address of the record with the given id is
/// derived: the domain tag followed by the id in little-endian bytes.
pub open spec fn record_seeds(id: u64) -> Seq<Seq<u8>> {
    seq![record_tag(), spec_u64_to_le_bytes(id)]
}

/// What the program-derived-address search returns for given seed slices and
/// program id: `Some` of the 32 address bytes and the bump seed, or `None`
/// when no bump pushes the candidate off the curve.
pub uninterp spec fn pda_derivation(seeds: Seq<Seq<u8>>, program: Seq<u8>) -> Option<(Seq<u8>, u8)>;

/// Relies on `solana_pubkey::Pubkey::try_find_program_address` (the type that
/// `anchor_lang` re-exports as `Pubkey`): the returned address and bump seed
/// are a deterministic function of the seed slices and the program id alone;
/// the address is 32 bytes; `None` comes only in the statistically
/// improbable event that no bump seed yields an off-curve address.
#[verifier::external_body]
fn try_find_pda(seeds: &Vec<Vec<u8>>, program: &Vec<u8>) -> (r: Option<(Vec<u8>, u8)>)
    requires
        program@.len() == 32,
    ensures
        r is Some <==> pda_derivation(seeds.deep_view(), program@) is Some,
        r matches Some(p) ==> pda_derivation(seeds.deep_view(), program@) == Some((p.0@, p.1))
            && p.0@.len() == 32,
{
    let mut arr = [0u8; 32];
    arr.copy_from_slice(program.as_slice());
    let pk = anchor_lang::prelude::Pubkey::new_from_array(arr);
    let seed_refs: Vec<&[u8]> = seeds.iter().map(|s| s.as_slice()).collect();
    let (addr, bump) = anchor_lang::prelude::Pubkey::try_find_program_address(&seed_refs, &pk)?;
    Some((addr.to_bytes().to_vec(), bump))
}

/// The exec form of `global_seeds`.
fn global_seed_bytes() -> (r: Vec<Vec<u8>>)
    ensures
        r.deep_view() == global_seeds(),
{
    let mut tag: Vec<u8> = Vec::new();
    tag.push(103u8);
    tag.push(108u8);
    tag.push(111u8);
    tag.push(98u8);
    tag.push(97u8);
    tag.push(108u8);
    proof {
        assert(tag@ =~= global_tag());
    }
    let mut seeds: Vec<Vec<u8>> = Vec::new();
    seeds.push(tag);
    proof {
        assert(seeds.deep_view() =~~= global_seeds());
    }
    seeds
}

/// The exec form of `record_seeds`.
fn record_seed_bytes(id: u64) -> (r: Vec<Vec<u8>>)
    ensures
        r.deep_view() == record_seeds(id),
{
    let mut tag: Vec<u8> = Vec::new();
    tag.push(116u8);
    tag.push(101u8);
    tag.push(120u8);
    tag.push(116u8);
    proof {
        assert(tag@ =~= record_tag());
    }
    let seed = u64_to_le_bytes(id);
    let mut seeds: Vec<Vec<u8>> = Vec::new();
    seeds.push(tag);
    seeds.push(seed);
    proof {
        assert(seeds.deep_view() =~~= record_seeds(id));
    }
    seeds
}

/// Derives the global counter's address and bump seed for the given program.
pub fn derive_global(program: &Vec<u8>) -> (r: Option<(Vec<u8>, u8)>)
    requires
        program@.len() == 32,
    ensures
        r is Some <==> pda_derivation(global_seeds(), program@) is Some,
        r matches Some(p) ==> pda_derivation(global_seeds(), program@) == Some((p.0@, p.1))
            && p.0@.len() == 32,
{
    let seeds = global_seed_bytes();
    try_find_pda(&seeds, program)
}

/// Derives the address and bump seed of the record with the given id.
pub fn derive_record(program: &Vec<u8>, id: u64) -> (r: Option<(Vec<u8>, u8)>)
    requires
        program@.len() == 32,
    ensures
        r is Some <==> pda_derivation(record_seeds(id), program@) is Some,
        r matches Some(p) ==> pda_derivation(record_seeds(id), program@) == Some((p.0@, p.1))
            && p.0@.len() == 32,
{
    let seeds = record_seed_bytes(id);
    try_find_pda(&seeds, program)
}

} // verus!
