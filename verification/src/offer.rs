//! The offer record and the references that each operation is given.

use vstd::prelude::*;
use vstd::bytes::{
    lemma_auto_spec_u64_to_from_le_bytes,
    spec_u64_from_le_bytes,
    spec_u64_to_le_bytes,
    u64_from_le_bytes,
    u64_to_le_bytes,
};
use vstd::slice::slice_subrange;
use crate::address::{address_from, lemma_address_from_view, Address};
use crate::token::{Mint, TokenAccount};

verus! {

/// The durable statement of one open swap. It is written once, when the
/// offer is made, and never changes until the offer is taken.
#[derive(Clone, Copy, Debug, PartialEq, Eq)]
pub struct Offer {
    /// Chosen by the maker; unique among the maker's open offers.
    pub id: u64,
    /// The depositor.
    pub maker: Address,
    /// The asset held in the vault.
    pub token_mint_a: Address,
    /// The asset wanted in return.
    pub token_mint_b: Address,
    /// The quantity deposited in the vault.
    pub token_a_offered: u64,
    /// The quantity that closes the offer.
    pub token_b_wanted: u64,
    /// The proof byte with which the controlling identity is recomputed.
    pub bump: u8,
}

/// Number of bytes in a persisted offer record.
pub const OFFER_RECORD_BYTES: usize = 121;

/// The record that a byte sequence persists: the fields in the order of
/// `Offer::layout`, read back at their fixed positions. A sequence of any
/// other length persists nothing.
pub open spec fn record_of(bytes: Seq<u8>) -> Option<Offer> {
    if bytes.len() != 121 {
        None
    } else {
        Some(
            Offer {
                id: spec_u64_from_le_bytes(bytes.subrange(0, 8)),
                maker: address_from(bytes.subrange(8, 40)),
                token_mint_a: address_from(bytes.subrange(40, 72)),
                token_mint_b: address_from(bytes.subrange(72, 104)),
                token_a_offered: spec_u64_from_le_bytes(bytes.subrange(104, 112)),
                token_b_wanted: spec_u64_from_le_bytes(bytes.subrange(112, 120)),
                bump: bytes[120],
            },
        )
    }
}

/// Appends the bytes of `part` to `out`.
fn append(out: &mut Vec<u8>, part: &Vec<u8>)
    ensures
        final(out)@ == old(out)@ + part@,
{
    let n: usize = part.len();
    let mut i: usize = 0;
    while i < n
        invariant
            i <= n,
            n == part@.len(),
            out@ == old(out)@ + part@.subrange(0, i as int),
        decreases n - i,
    {
        out.push(part[i]);
        assert(out@ =~= old(out)@ + part@.subrange(0, i as int + 1));
        i += 1;
    }
    assert(part@.subrange(0, n as int) =~= part@);
}

impl Offer {
    /// The persisted form of the record, 121 bytes: the id as eight
    /// little-endian bytes, the maker, the two assets, the two amounts as
    /// eight little-endian bytes each, and the proof byte.
    pub open spec fn layout(self) -> Seq<u8> {
        spec_u64_to_le_bytes(self.id) + self.maker@ + self.token_mint_a@ + self.token_mint_b@
            + spec_u64_to_le_bytes(self.token_a_offered) + spec_u64_to_le_bytes(
            self.token_b_wanted,
        ) + seq![self.bump]
    }

    /// Reading back the persisted form of a record yields the record.
    pub proof fn law_record_round_trip(self)
        ensures
            self.layout().len() == 121,
            record_of(self.layout()) == Some(self),
    {
        lemma_auto_spec_u64_to_from_le_bytes();
        let b = self.layout();
        assert(b.subrange(0, 8) =~= spec_u64_to_le_bytes(self.id));
        assert(b.subrange(8, 40) =~= self.maker@);
        assert(b.subrange(40, 72) =~= self.token_mint_a@);
        assert(b.subrange(72, 104) =~= self.token_mint_b@);
        assert(b.subrange(104, 112) =~= spec_u64_to_le_bytes(self.token_a_offered));
        assert(b.subrange(112, 120) =~= spec_u64_to_le_bytes(self.token_b_wanted));
        lemma_address_from_view(self.maker);
        lemma_address_from_view(self.token_mint_a);
        lemma_address_from_view(self.token_mint_b);
    }

    /// Writes the record in its persisted form.
    pub fn to_bytes(&self) -> (out: Vec<u8>)
        ensures
            out@ == self.layout(),
            out@.len() == 121,
    {
        let mut out: Vec<u8> = u64_to_le_bytes(self.id);
        append(&mut out, &self.maker.to_vec());
        append(&mut out, &self.token_mint_a.to_vec());
        append(&mut out, &self.token_mint_b.to_vec());
        append(&mut out, &u64_to_le_bytes(self.token_a_offered));
        append(&mut out, &u64_to_le_bytes(self.token_b_wanted));
        out.push(self.bump);
        proof {
            lemma_auto_spec_u64_to_from_le_bytes();
            assert(out@ =~= self.layout());
        }
        out
    }

    /// Reads a record from its persisted form. Every sequence of 121 bytes
    /// is the persisted form of exactly one record.
    pub fn from_bytes(bytes: &[u8]) -> (r: Option<Offer>)
        ensures
            r == record_of(bytes@),
            r is Some <==> bytes@.len() == 121,
            r matches Some(offer) ==> offer.layout() == bytes@,
    {
        if bytes.len() != 121 {
            return None;
        }
        let (maker, token_mint_a, token_mint_b) = match (
            Address::from_slice(bytes, 8),
            Address::from_slice(bytes, 40),
            Address::from_slice(bytes, 72),
        ) {
            (Some(maker), Some(a), Some(b)) => (maker, a, b),
            _ => { return None; },
        };
        let offer = Offer {
            id: u64_from_le_bytes(slice_subrange(bytes, 0, 8)),
            maker,
            token_mint_a,
            token_mint_b,
            token_a_offered: u64_from_le_bytes(slice_subrange(bytes, 104, 112)),
            token_b_wanted: u64_from_le_bytes(slice_subrange(bytes, 112, 120)),
            bump: bytes[120],
        };
        proof {
            lemma_auto_spec_u64_to_from_le_bytes();
            assert(offer.layout() =~= bytes@);
        }
        Some(offer)
    }
}

/// A party together with whether it has authorized the current operation.
#[derive(Clone, Copy, Debug, PartialEq, Eq)]
pub struct Signer {
    pub key: Address,
    pub is_signer: bool,
}

/// What the maker presents to open an offer.
#[derive(Clone, Copy, Debug, PartialEq, Eq)]
pub struct MakeOffer {
    /// The maker, who must have authorized the call.
    pub maker: Signer,
    /// The asset offered.
    pub token_mint_a: Mint,
    /// The asset wanted.
    pub token_mint_b: Mint,
    /// The maker's holding of the asset offered.
    pub maker_token_account_a: TokenAccount,
    /// The identity under which the offer is to be recorded.
    pub offer: Address,
    /// The vault to open for the deposit.
    pub vault: TokenAccount,
}

/// What the taker presents to settle an offer.
#[derive(Clone, Copy, Debug, PartialEq, Eq)]
pub struct TakeOffer {
    /// The taker, who must have authorized the call.
    pub taker: Signer,
    /// The maker of the offer.
    pub maker: Address,
    /// The asset held in the vault.
    pub token_mint_a: Mint,
    /// The asset that the maker wants.
    pub token_mint_b: Mint,
    /// The taker's holding of the vault's asset; opened if missing.
    pub taker_token_account_a: TokenAccount,
    /// The taker's holding of the asset that the maker wants.
    pub taker_token_account_b: TokenAccount,
    /// The maker's holding of the asset wanted; opened if missing.
    pub maker_token_account_b: TokenAccount,
    /// The identity under which the offer is recorded.
    pub offer: Address,
    /// The vault that holds the deposit.
    pub vault: TokenAccount,
}

} // verus!
