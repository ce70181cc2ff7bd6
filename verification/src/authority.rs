//! Derivation of the keyless identity that controls an offer and its vault.
//!
//! The identity is a program-derived address: a hash of a list of seeds and of
//! the protocol's own id that is guaranteed not to be a public key. For an
//! offer the seeds are a fixed label, the maker and the offer id. A one-byte
//! bump is appended to move the hash off the curve; the largest byte that
//! works is the canonical one, and it is what an offer records as its proof.

use vstd::prelude::*;
use vstd::bytes::{spec_u64_to_le_bytes, u64_to_le_bytes};
use crate::address::{address_from, lemma_address_from_view, Address};

verus! {

/// What `Pubkey::create_program_address` yields for a list of seeds and a
/// program id: the derived address, or nothing where the seeds are refused or
/// the hash is a point of the curve.
pub uninterp spec fn program_address(seeds: Seq<Seq<u8>>, program_id: Seq<u8>) -> Option<Seq<u8>>;

/// The byte sequences that a list of seeds holds.
pub open spec fn seed_bytes(seeds: Seq<Vec<u8>>) -> Seq<Seq<u8>> {
    Seq::new(seeds.len(), |i: int| seeds[i]@)
}

/// The bytes of an optional identity.
pub open spec fn address_bytes(a: Option<Address>) -> Option<Seq<u8>> {
    match a {
        Some(a) => Some(a@),
        None => None,
    }
}

/// The address derived from `seeds` followed by the one-byte seed `bump`.
pub open spec fn bumped_address(
    seeds: Seq<Seq<u8>>,
    program_id: Seq<u8>,
    bump: u8,
) -> Option<Seq<u8>> {
    program_address(seeds.push(seq![bump]), program_id)
}

/// `bump` is the largest byte from 1 to 255 with which `seeds` derive an address.
pub open spec fn is_canonical_bump(seeds: Seq<Seq<u8>>, program_id: Seq<u8>, bump: u8) -> bool {
    &&& bump >= 1
    &&& bumped_address(seeds, program_id, bump) is Some
    &&& forall|b: u8| bump < b ==> (#[trigger] bumped_address(seeds, program_id, b)) is None
}

/// No byte from 1 to 255 lets `seeds` derive an address.
pub open spec fn no_bump_derives(seeds: Seq<Seq<u8>>, program_id: Seq<u8>) -> bool {
    forall|b: u8| 1 <= b ==> (#[trigger] bumped_address(seeds, program_id, b)) is None
}

/// The address that `seeds` derive under their canonical bump, with that
/// bump; nothing where no bump derives one.
pub open spec fn canonical_address(
    seeds: Seq<Seq<u8>>,
    program_id: Seq<u8>,
) -> Option<(Seq<u8>, u8)> {
    if exists|b: u8| is_canonical_bump(seeds, program_id, b) {
        let b = choose|b: u8| is_canonical_bump(seeds, program_id, b);
        Some((bumped_address(seeds, program_id, b).unwrap(), b))
    } else {
        None
    }
}

/// The label that namespaces offer identities: the ASCII bytes of `offer`.
pub open spec fn offer_label() -> Seq<u8> {
    seq![111u8, 102u8, 102u8, 101u8, 114u8]
}

/// The seeds of the offer that `maker` opened under `id`: the label, the
/// maker's bytes, and the id as eight little-endian bytes.
pub open spec fn offer_seed_bytes(maker: Address, id: u64) -> Seq<Seq<u8>> {
    seq![offer_label(), maker@, spec_u64_to_le_bytes(id)]
}

/// The controlling identity of the offer `(maker, id)` with its proof byte.
pub open spec fn derived_authority(
    program_id: Address,
    maker: Address,
    id: u64,
) -> Option<(Address, u8)> {
    match canonical_address(offer_seed_bytes(maker, id), program_id@) {
        Some((bytes, bump)) => Some((address_from(bytes), bump)),
        None => None,
    }
}

/// The identity that `(maker, id)` and a recorded proof byte recompute to.
pub open spec fn recomputed_authority(
    program_id: Address,
    maker: Address,
    id: u64,
    bump: u8,
) -> Option<Address> {
    match bumped_address(offer_seed_bytes(maker, id), program_id@, bump) {
        Some(bytes) => Some(address_from(bytes)),
        None => None,
    }
}

/// Calls `Pubkey::create_program_address` of the Solana program library, as
/// `anchor_lang` re-exports it. The contract only names the outcome: the
/// returned address is `program_address` of the same seeds and program id,
/// and every refusal of the outside function is reported as `None`.
#[verifier::external_body]
fn create_program_address(seeds: &Vec<Vec<u8>>, program_id: &Address) -> (res: Option<Address>)
    ensures
        address_bytes(res) == program_address(seed_bytes(seeds@), program_id@),
{
    let parts: Vec<&[u8]> = seeds.iter().map(|s| s.as_slice()).collect();
    let id = anchor_lang::prelude::Pubkey::new_from_array(program_id.bytes);
    match anchor_lang::prelude::Pubkey::create_program_address(&parts, &id) {
        Ok(key) => Some(Address { bytes: key.to_bytes() }),
        Err(_) => None,
    }
}

/// Calls `Pubkey::try_find_program_address`. That function tries the bumps
/// 255, 254, .. 1 in turn, each through `create_program_address` on the seeds
/// with the bump appended, and returns the first address that results
/// together with its bump. The contract says exactly that, over
/// `program_address`: a returned bump is canonical and the address is the
/// one derived with it; `None` means that no bump from 1 to 255 derives one.
#[verifier::external_body]
fn find_program_address(seeds: &Vec<Vec<u8>>, program_id: &Address) -> (res: Option<(Address, u8)>)
    ensures
        match res {
            Some((a, bump)) => {
                &&& is_canonical_bump(seed_bytes(seeds@), program_id@, bump)
                &&& bumped_address(seed_bytes(seeds@), program_id@, bump) == Some(a@)
            },
            None => no_bump_derives(seed_bytes(seeds@), program_id@),
        },
{
    let parts: Vec<&[u8]> = seeds.iter().map(|s| s.as_slice()).collect();
    let id = anchor_lang::prelude::Pubkey::new_from_array(program_id.bytes);
    match anchor_lang::prelude::Pubkey::try_find_program_address(&parts, &id) {
        Some((key, bump)) => Some((Address { bytes: key.to_bytes() }, bump)),
        None => None,
    }
}

/// At most one bump is canonical for given seeds.
pub proof fn lemma_canonical_bump_unique(seeds: Seq<Seq<u8>>, program_id: Seq<u8>, b1: u8, b2: u8)
    requires
        is_canonical_bump(seeds, program_id, b1),
        is_canonical_bump(seeds, program_id, b2),
    ensures
        b1 == b2,
{
    if b1 < b2 {
        assert(bumped_address(seeds, program_id, b2) is None);
    }
    if b2 < b1 {
        assert(bumped_address(seeds, program_id, b1) is None);
    }
}

/// The label as bytes.
fn offer_label_bytes() -> (v: Vec<u8>)
    ensures
        v@ == offer_label(),
{
    let mut v: Vec<u8> = Vec::new();
    v.push(111u8);
    v.push(102u8);
    v.push(102u8);
    v.push(101u8);
    v.push(114u8);
    assert(v@ =~= offer_label());
    v
}

/// Builds the seeds of the offer `(maker, id)`.
pub fn offer_seeds(maker: &Address, id: u64) -> (seeds: Vec<Vec<u8>>)
    ensures
        seed_bytes(seeds@) == offer_seed_bytes(*maker, id),
{
    let mut seeds: Vec<Vec<u8>> = Vec::new();
    seeds.push(offer_label_bytes());
    seeds.push(maker.to_vec());
    seeds.push(u64_to_le_bytes(id));
    assert(seed_bytes(seeds@) =~= offer_seed_bytes(*maker, id));
    seeds
}

/// Builds the seeds that sign for the offer `(maker, id)`: its seeds followed
/// by the recorded proof byte.
pub fn offer_signer_seeds(maker: &Address, id: u64, bump: u8) -> (seeds: Vec<Vec<u8>>)
    ensures
        seed_bytes(seeds@) == offer_seed_bytes(*maker, id).push(seq![bump]),
{
    let mut seeds = offer_seeds(maker, id);
    let ghost before = seeds@;
    let mut last: Vec<u8> = Vec::new();
    last.push(bump);
    assert(last@ =~= seq![bump]);
    seeds.push(last);
    assert(seed_bytes(seeds@) =~= seed_bytes(before).push(seq![bump]));
    seeds
}

/// Derives the controlling identity of the offer `(maker, id)` and the proof
/// byte to record for it. The result depends on the three arguments alone.
pub fn derive_authority(
    program_id: &Address,
    maker: &Address,
    id: u64,
) -> (res: Option<(Address, u8)>)
    ensures
        res == derived_authority(*program_id, *maker, id),
{
    let seeds = offer_seeds(maker, id);
    let res = find_program_address(&seeds, program_id);
    proof {
        let sb = offer_seed_bytes(*maker, id);
        match res {
            Some((a, bump)) => {
                let b = choose|b: u8| is_canonical_bump(sb, program_id@, b);
                lemma_canonical_bump_unique(sb, program_id@, b, bump);
                lemma_address_from_view(a);
            },
            None => {
                assert forall|b: u8| !is_canonical_bump(sb, program_id@, b) by {
                    if is_canonical_bump(sb, program_id@, b) {
                        assert(bumped_address(sb, program_id@, b) is None);
                    }
                }
            },
        }
    }
    res
}

/// Recomputes the controlling identity of the offer `(maker, id)` from its
/// recorded proof byte, without searching.
pub fn recompute_authority(
    program_id: &Address,
    maker: &Address,
    id: u64,
    bump: u8,
) -> (res: Option<Address>)
    ensures
        res == recomputed_authority(*program_id, *maker, id, bump),
{
    let seeds = offer_signer_seeds(maker, id, bump);
    let res = create_program_address(&seeds, program_id);
    proof {
        if let Some(a) = res {
            lemma_address_from_view(a);
        }
    }
    res
}

/// Verification by recomputation: the identity that a derivation yields is
/// the one that its proof byte recomputes to.
pub proof fn lemma_derivation_recomputes(program_id: Address, maker: Address, id: u64)
    requires
        derived_authority(program_id, maker, id) is Some,
    ensures
        recomputed_authority(
            program_id,
            maker,
            id,
            derived_authority(program_id, maker, id).unwrap().1,
        ) == Some(derived_authority(program_id, maker, id).unwrap().0),
{
}

} // verus!
