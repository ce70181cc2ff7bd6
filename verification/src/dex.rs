//! The ledger and the two operations of the protocol.

use vstd::prelude::*;
use crate::address::{Address, Key};
use crate::authority::{derive_authority, recompute_authority};
use crate::error::EscrowError;
use crate::offer::{MakeOffer, Offer, TakeOffer};
use crate::registry::Registry;
use crate::state::{
    lemma_make_offer_keeps_authentic,
    lemma_open_offer_keeps_inv,
    lemma_restore_offer_keeps_inv,
    lemma_settle_offer_keeps_authentic,
    lemma_settle_offer_keeps_inv,
    make_offer_result,
    open_offer_result,
    restore_offer_result,
    settle_offer_result,
    take_offer_result,
    LedgerState,
};
use crate::token::{transfer_tokens, Owner, TokenAccount, TokenLedger};

verus! {

/// The ledger on which offers are made and taken: the asset ledger and the
/// record of every open offer, keyed by its controlling identity.
pub struct Ledger {
    program_id: Address,
    tokens: TokenLedger,
    offers: Registry<Address, Offer>,
}

impl Ledger {
    /// Everything that the ledger holds.
    pub closed spec fn view(&self) -> LedgerState {
        LedgerState {
            program_id: self.program_id,
            mints: self.tokens.mints(),
            balances: self.tokens.balances(),
            offers: self.offers@,
        }
    }

    /// The stores are consistent and every open offer is backed by its vault.
    pub closed spec fn wf(&self) -> bool {
        &&& self.tokens.wf()
        &&& self.offers.wf()
        &&& self@.inv()
    }

    /// A well-formed ledger satisfies the invariant of its state.
    pub proof fn lemma_wf_inv(&self)
        requires
            self.wf(),
        ensures
            self@.inv(),
    {
    }

    /// A ledger over the given assets and holdings, without offers.
    /// Controlling identities are derived under `program_id`.
    pub fn new(program_id: Address, tokens: TokenLedger) -> (ledger: Ledger)
        requires
            tokens.wf(),
        ensures
            ledger.wf(),
            ledger@ == (LedgerState {
                program_id,
                mints: tokens.mints(),
                balances: tokens.balances(),
                offers: Map::<Address, Offer>::empty(),
            }),
    {
        Ledger { program_id, tokens, offers: Registry::new() }
    }

    /// Takes up an offer that was recorded earlier, under the identity it
    /// was recorded under. Its vault must already hold exactly what was
    /// offered; nothing is moved.
    pub fn restore_offer(
        &mut self,
        authority: &Address,
        offer: &Offer,
    ) -> (res: Result<(), EscrowError>)
        requires
            old(self).wf(),
        ensures
            final(self).wf(),
            match restore_offer_result(old(self)@, *authority, *offer) {
                Ok(post) => res is Ok && final(self)@ == post,
                Err(e) => res == Err::<(), EscrowError>(e) && final(self)@ == old(self)@,
            },
    {
        if self.offers.contains(authority) {
            return Err(EscrowError::DuplicateOffer);
        }
        let vault = TokenAccount { owner: Owner::Escrow(*authority), mint: offer.token_mint_a };
        match self.tokens.balance(&vault) {
            Some(held) => {
                if held != offer.token_a_offered {
                    return Err(EscrowError::RecordMismatch);
                }
            },
            None => { return Err(EscrowError::RecordMismatch); },
        }
        proof {
            lemma_restore_offer_keeps_inv(old(self)@, *authority, *offer);
        }
        self.offers.set(*authority, *offer);
        Ok(())
    }

    /// The id under which controlling identities are derived.
    pub fn program_id(&self) -> (id: Address)
        ensures
            id == self@.program_id,
    {
        self.program_id
    }

    /// The balance of a holding, if it exists.
    pub fn balance(&self, account: &TokenAccount) -> (r: Option<u64>)
        requires
            self.wf(),
        ensures
            r == (if self@.balances.contains_key(*account) {
                Some(self@.balances[*account])
            } else {
                None
            }),
    {
        self.tokens.balance(account)
    }

    /// The offer recorded under a controlling identity, if it is open.
    pub fn offer(&self, authority: &Address) -> (r: Option<Offer>)
        requires
            self.wf(),
        ensures
            r == (if self@.offers.contains_key(*authority) {
                Some(self@.offers[*authority])
            } else {
                None
            }),
    {
        self.offers.get(authority)
    }

    /// The open offer that `maker` made under `id`, if there is one.
    pub fn find_offer(&self, maker: &Address, id: u64) -> (r: Option<Offer>)
        requires
            self.wf(),
        ensures
            r == self@.offer_of(*maker, id),
    {
        match derive_authority(&self.program_id, maker, id) {
            Some((authority, _)) => match self.offers.get(&authority) {
                Some(offer) => {
                    if offer.maker.same(maker) && offer.id == id {
                        Some(offer)
                    } else {
                        None
                    }
                },
                None => None,
            },
            None => None,
        }
    }
}

/// Opens an offer under a controlling identity that was derived beforehand:
/// records it there, opens its vault and moves `token_a_offered` of the
/// offered asset from the maker into the vault. Either all of this happens
/// or the ledger stays exactly as it was.
pub fn open_offer(
    ledger: &mut Ledger,
    ctx: &MakeOffer,
    id: u64,
    token_a_offered: u64,
    token_b_wanted: u64,
    derived: Option<(Address, u8)>,
) -> (res: Result<(), EscrowError>)
    requires
        old(ledger).wf(),
    ensures
        final(ledger).wf(),
        match open_offer_result(old(ledger)@, *ctx, id, token_a_offered, token_b_wanted, derived) {
            Ok(post) => res is Ok && final(ledger)@ == post,
            Err(e) => res == Err::<(), EscrowError>(e) && final(ledger)@ == old(ledger)@,
        },
{
    let (authority, bump) = match derived {
        Some(d) => d,
        None => { return Err(EscrowError::AuthorityMismatch); },
    };
    if ledger.offers.contains(&authority) {
        return Err(EscrowError::DuplicateOffer);
    }
    if !ctx.maker.is_signer {
        return Err(EscrowError::Unauthorized);
    }
    if !ctx.offer.same(&authority) || !ctx.vault.owner.same(&Owner::Escrow(authority)) {
        return Err(EscrowError::AuthorityMismatch);
    }
    if !ctx.vault.mint.same(&ctx.token_mint_a.address) {
        return Err(EscrowError::AssetMismatch);
    }
    match ledger.tokens.decimals(&ctx.token_mint_b.address) {
        Some(d) => {
            if d != ctx.token_mint_b.decimals {
                return Err(EscrowError::AssetMismatch);
            }
        },
        None => { return Err(EscrowError::AssetMismatch); },
    }
    if ledger.tokens.balance(&ctx.vault).is_some() {
        return Err(EscrowError::RecordMismatch);
    }
    let mut staged = ledger.tokens.duplicate();
    staged.open_account(&ctx.vault);
    match transfer_tokens(
        &mut staged,
        &ctx.maker_token_account_a,
        &ctx.vault,
        &token_a_offered,
        &ctx.token_mint_a,
        &Owner::Party(ctx.maker.key),
    ) {
        Ok(()) => {},
        Err(e) => { return Err(e); },
    }
    proof {
        lemma_open_offer_keeps_inv(
            old(ledger)@,
            *ctx,
            id,
            token_a_offered,
            token_b_wanted,
            derived,
        );
    }
    ledger.tokens = staged;
    ledger.offers.set(
        authority,
        Offer {
            id,
            maker: ctx.maker.key,
            token_mint_a: ctx.token_mint_a.address,
            token_mint_b: ctx.token_mint_b.address,
            token_a_offered,
            token_b_wanted,
            bump,
        },
    );
    Ok(())
}

/// Opens an offer: derives the controlling identity of `(maker, id)` and
/// opens the offer under it, as `open_offer` does. Either the offer is
/// recorded and its vault holds the deposit, or the ledger stays exactly as
/// it was.
pub fn make_offer(
    ledger: &mut Ledger,
    ctx: &MakeOffer,
    id: u64,
    token_a_offered: u64,
    token_b_wanted: u64,
) -> (res: Result<(), EscrowError>)
    requires
        old(ledger).wf(),
    ensures
        final(ledger).wf(),
        match make_offer_result(old(ledger)@, *ctx, id, token_a_offered, token_b_wanted) {
            Ok(post) => res is Ok && final(ledger)@ == post,
            Err(e) => res == Err::<(), EscrowError>(e) && final(ledger)@ == old(ledger)@,
        },
        old(ledger)@.authentic() ==> final(ledger)@.authentic(),
{
    let derived = derive_authority(&ledger.program_id, &ctx.maker.key, id);
    proof {
        if old(ledger)@.authentic() && make_offer_result(
            old(ledger)@,
            *ctx,
            id,
            token_a_offered,
            token_b_wanted,
        ) is Ok {
            lemma_make_offer_keeps_authentic(
                old(ledger)@,
                *ctx,
                id,
                token_a_offered,
                token_b_wanted,
            );
        }
    }
    open_offer(ledger, ctx, id, token_a_offered, token_b_wanted, derived)
}

/// Settles an offer against an identity that was recomputed beforehand from
/// its recorded proof: the taker pays the maker what the offer wants,
/// receives everything that the vault holds, and the vault and the offer
/// record are dissolved. Either all of this happens or the ledger stays
/// exactly as it was.
pub fn settle_offer(
    ledger: &mut Ledger,
    ctx: &TakeOffer,
    recomputed: Option<Address>,
) -> (res: Result<(), EscrowError>)
    requires
        old(ledger).wf(),
    ensures
        final(ledger).wf(),
        match settle_offer_result(old(ledger)@, *ctx, recomputed) {
            Ok(post) => res is Ok && final(ledger)@ == post,
            Err(e) => res == Err::<(), EscrowError>(e) && final(ledger)@ == old(ledger)@,
        },
        old(ledger)@.authentic() ==> final(ledger)@.authentic(),
{
    proof {
        if old(ledger)@.authentic() && settle_offer_result(old(ledger)@, *ctx, recomputed) is Ok {
            lemma_settle_offer_keeps_authentic(old(ledger)@, *ctx, recomputed);
        }
    }
    let offer = match ledger.offers.get(&ctx.offer) {
        Some(o) => o,
        None => { return Err(EscrowError::RecordMismatch); },
    };
    if !offer.maker.same(&ctx.maker) || !offer.token_mint_a.same(&ctx.token_mint_a.address)
        || !offer.token_mint_b.same(&ctx.token_mint_b.address) {
        return Err(EscrowError::RecordMismatch);
    }
    let authority = Owner::Escrow(ctx.offer);
    match recomputed {
        Some(a) => {
            if !a.same(&ctx.offer) {
                return Err(EscrowError::AuthorityMismatch);
            }
        },
        None => { return Err(EscrowError::AuthorityMismatch); },
    }
    if !ctx.vault.owner.same(&authority) {
        return Err(EscrowError::AuthorityMismatch);
    }
    if !ctx.taker.is_signer {
        return Err(EscrowError::Unauthorized);
    }
    if !ctx.taker_token_account_a.owner.same(&Owner::Party(ctx.taker.key))
        || !ctx.maker_token_account_b.owner.same(&Owner::Party(ctx.maker)) {
        return Err(EscrowError::RecordMismatch);
    }
    let mut staged = ledger.tokens.duplicate();
    staged.open_account(&ctx.taker_token_account_a);
    if staged.balance(&ctx.taker_token_account_b).is_none() {
        return Err(EscrowError::RecordMismatch);
    }
    staged.open_account(&ctx.maker_token_account_b);
    match transfer_tokens(
        &mut staged,
        &ctx.taker_token_account_b,
        &ctx.maker_token_account_b,
        &offer.token_b_wanted,
        &ctx.token_mint_b,
        &Owner::Party(ctx.taker.key),
    ) {
        Ok(()) => {},
        Err(e) => { return Err(e); },
    }
    let held: u64 = match staged.balance(&ctx.vault) {
        Some(x) => x,
        None => { return Err(EscrowError::RecordMismatch); },
    };
    match transfer_tokens(
        &mut staged,
        &ctx.vault,
        &ctx.taker_token_account_a,
        &held,
        &ctx.token_mint_a,
        &authority,
    ) {
        Ok(()) => {},
        Err(e) => { return Err(e); },
    }
    match staged.close_account(&ctx.vault, &authority) {
        Ok(()) => {},
        Err(e) => { return Err(e); },
    }
    proof {
        lemma_settle_offer_keeps_inv(old(ledger)@, *ctx, recomputed);
    }
    ledger.tokens = staged;
    ledger.offers.remove(&ctx.offer);
    Ok(())
}

/// Settles an offer: recomputes the controlling identity from the proof that
/// the offer records and settles against it, as `settle_offer` does. Either
/// both parties are paid and the offer and its vault are gone, or the ledger
/// stays exactly as it was.
pub fn take_offer(ledger: &mut Ledger, ctx: &TakeOffer) -> (res: Result<(), EscrowError>)
    requires
        old(ledger).wf(),
    ensures
        final(ledger).wf(),
        match take_offer_result(old(ledger)@, *ctx) {
            Ok(post) => res is Ok && final(ledger)@ == post,
            Err(e) => res == Err::<(), EscrowError>(e) && final(ledger)@ == old(ledger)@,
        },
        old(ledger)@.authentic() ==> final(ledger)@.authentic(),
{
    let recomputed = match ledger.offers.get(&ctx.offer) {
        Some(offer) => recompute_authority(&ledger.program_id, &offer.maker, offer.id, offer.bump),
        None => None,
    };
    settle_offer(ledger, ctx, recomputed)
}

} // verus!
