//! What holds of the protocol on every ledger state.
//!
//! Each statement is proved from the definitions of the two operations as
//! functions on states, which the executable operations compute exactly.

use vstd::prelude::*;
use crate::address::Address;
use crate::authority::{derived_authority, lemma_derivation_recomputes};
use crate::error::EscrowError;
use crate::offer::{MakeOffer, Offer, TakeOffer};
use crate::state::{
    lemma_make_offer_keeps_authentic,
    lemma_open_offer_keeps_inv,
    make_offer_result,
    party_account,
    take_offer_result,
    vault_account,
    LedgerState,
};
use crate::token::{precision_matches, Owner, TokenAccount};

verus! {

/// What a holding has, counting a holding that does not exist as empty.
pub open spec fn balance_or_zero(balances: Map<TokenAccount, u64>, account: TokenAccount) -> int {
    if balances.contains_key(account) {
        balances[account] as int
    } else {
        0
    }
}

/// The record that a successful `make_offer` writes.
pub open spec fn offer_made(
    s: LedgerState,
    ctx: MakeOffer,
    id: u64,
    token_a_offered: u64,
    token_b_wanted: u64,
) -> Offer {
    Offer {
        id,
        maker: ctx.maker.key,
        token_mint_a: ctx.token_mint_a.address,
        token_mint_b: ctx.token_mint_b.address,
        token_a_offered,
        token_b_wanted,
        bump: derived_authority(s.program_id, ctx.maker.key, id).unwrap().1,
    }
}

/// After a successful `make_offer` the vault holds exactly the amount
/// offered, the maker's holding has exactly that much less, and the offer is
/// recorded under the identity presented and is found by `(maker, id)`.
pub proof fn law_make_offer_fills_vault(
    s: LedgerState,
    ctx: MakeOffer,
    id: u64,
    token_a_offered: u64,
    token_b_wanted: u64,
)
    requires
        make_offer_result(s, ctx, id, token_a_offered, token_b_wanted) is Ok,
    ensures
        ({
            let post = make_offer_result(s, ctx, id, token_a_offered, token_b_wanted).unwrap();
            let record = offer_made(s, ctx, id, token_a_offered, token_b_wanted);
            &&& ctx.vault == vault_account(ctx.offer, ctx.token_mint_a.address)
            &&& ctx.maker_token_account_a == party_account(ctx.maker.key, ctx.token_mint_a.address)
            &&& !s.balances.contains_key(ctx.vault)
            &&& post.balances.contains_key(ctx.vault)
            &&& post.balances[ctx.vault] == token_a_offered
            &&& s.balances.contains_key(ctx.maker_token_account_a)
            &&& post.balances.contains_key(ctx.maker_token_account_a)
            &&& post.balances[ctx.maker_token_account_a] == s.balances[ctx.maker_token_account_a]
                - token_a_offered
            &&& post.offers.contains_key(ctx.offer)
            &&& post.offers[ctx.offer] == record
            &&& post.offer_of(ctx.maker.key, id) == Some(record)
        }),
{
}

/// A successful `make_offer` touches nothing but the maker's holding, the
/// new vault and the new record: every other holding and every other offer
/// is as before, as are the registered assets.
pub proof fn law_make_offer_frame(
    s: LedgerState,
    ctx: MakeOffer,
    id: u64,
    token_a_offered: u64,
    token_b_wanted: u64,
)
    requires
        make_offer_result(s, ctx, id, token_a_offered, token_b_wanted) is Ok,
    ensures
        ({
            let post = make_offer_result(s, ctx, id, token_a_offered, token_b_wanted).unwrap();
            &&& post.program_id == s.program_id
            &&& post.mints == s.mints
            &&& forall|k: TokenAccount|
                k != ctx.vault && k != ctx.maker_token_account_a ==> (
                #[trigger] post.balances.contains_key(k)) == s.balances.contains_key(k)
                    && post.balances[k] == s.balances[k]
            &&& forall|a: Address|
                a != ctx.offer ==> (#[trigger] post.offers.contains_key(a))
                    == s.offers.contains_key(a) && post.offers[a] == s.offers[a]
        }),
{
}

/// The exact effect of a successful `take_offer` on every holding: the vault
/// is gone; the taker's holding of the wanted asset is debited and the
/// maker's is credited with the amount wanted, unless they are one holding;
/// the taker's holding of the offered asset is credited with the amount
/// offered; nothing else changes. The offer is no longer recorded.
pub proof fn law_take_offer_net_effect(s: LedgerState, ctx: TakeOffer)
    requires
        s.inv(),
        take_offer_result(s, ctx) is Ok,
    ensures
        ({
            let post = take_offer_result(s, ctx).unwrap();
            let offer = s.offers[ctx.offer];
            let paid: int = if ctx.taker_token_account_b == ctx.maker_token_account_b {
                0
            } else {
                offer.token_b_wanted as int
            };
            &&& ctx.vault == vault_account(ctx.offer, offer.token_mint_a)
            &&& ctx.taker_token_account_a == party_account(ctx.taker.key, offer.token_mint_a)
            &&& ctx.taker_token_account_b == party_account(ctx.taker.key, offer.token_mint_b)
            &&& ctx.maker_token_account_b == party_account(offer.maker, offer.token_mint_b)
            &&& !post.offers.contains_key(ctx.offer)
            &&& !post.balances.contains_key(ctx.vault)
            &&& forall|k: TokenAccount|
                k != ctx.vault ==> (#[trigger] post.balances.contains_key(k)) == (
                s.balances.contains_key(k) || k == ctx.taker_token_account_a || k
                    == ctx.maker_token_account_b)
            &&& forall|k: TokenAccount| #[trigger]
                post.balances.contains_key(k) ==> post.balances[k] == balance_or_zero(
                    s.balances,
                    k,
                ) - (if k == ctx.taker_token_account_b {
                    paid
                } else {
                    0
                }) + (if k == ctx.maker_token_account_b {
                    paid
                } else {
                    0
                }) + (if k == ctx.taker_token_account_a {
                    offer.token_a_offered as int
                } else {
                    0
                })
        }),
{
    assert(s.offer_backed(ctx.offer));
}

/// After a successful `take_offer` the maker has exactly the amount wanted
/// more of the wanted asset, the taker has exactly that much less of it and
/// exactly the amount offered more of the offered asset, and neither the
/// offer nor its vault exists any longer. This is stated of two different
/// parties swapping two different assets. Where the taker is the maker, or
/// the two assets are one, several of these holdings are one holding and
/// only the net effect shows in it; the three statements then still hold
/// where nothing is wanted and the holdings of the offered asset stay
/// apart or nothing is offered.
pub proof fn law_take_offer_settles(s: LedgerState, ctx: TakeOffer)
    requires
        s.inv(),
        take_offer_result(s, ctx) is Ok,
        (ctx.taker.key != ctx.maker && ctx.token_mint_a.address != ctx.token_mint_b.address) || (
        s.offers[ctx.offer].token_b_wanted == 0 && (ctx.token_mint_a.address
            != ctx.token_mint_b.address || s.offers[ctx.offer].token_a_offered == 0)),
    ensures
        ({
            let post = take_offer_result(s, ctx).unwrap();
            let offer = s.offers[ctx.offer];
            &&& post.balances[ctx.maker_token_account_b] == balance_or_zero(
                s.balances,
                ctx.maker_token_account_b,
            ) + offer.token_b_wanted
            &&& post.balances[ctx.taker_token_account_a] == balance_or_zero(
                s.balances,
                ctx.taker_token_account_a,
            ) + offer.token_a_offered
            &&& post.balances[ctx.taker_token_account_b] == balance_or_zero(
                s.balances,
                ctx.taker_token_account_b,
            ) - offer.token_b_wanted
            &&& !post.offers.contains_key(ctx.offer)
            &&& !post.balances.contains_key(ctx.vault)
        }),
{
    law_take_offer_net_effect(s, ctx);
    let post = take_offer_result(s, ctx).unwrap();
    assert(post.balances.contains_key(ctx.maker_token_account_b));
    assert(post.balances.contains_key(ctx.taker_token_account_a));
    assert(post.balances.contains_key(ctx.taker_token_account_b));
}

/// A successful `take_offer` leaves every other offer and the registered
/// assets as they were.
pub proof fn law_take_offer_frame(s: LedgerState, ctx: TakeOffer)
    requires
        take_offer_result(s, ctx) is Ok,
    ensures
        ({
            let post = take_offer_result(s, ctx).unwrap();
            &&& post.program_id == s.program_id
            &&& post.mints == s.mints
            &&& forall|a: Address|
                a != ctx.offer ==> (#[trigger] post.offers.contains_key(a))
                    == s.offers.contains_key(a) && post.offers[a] == s.offers[a]
        }),
{
}

/// An offer is taken at most once: after a successful `take_offer`, any
/// further `take_offer` against the same offer is refused with
/// `RecordMismatch`, whatever else it presents.
pub proof fn law_take_offer_once(s: LedgerState, first: TakeOffer, second: TakeOffer)
    requires
        take_offer_result(s, first) is Ok,
        second.offer == first.offer,
    ensures
        take_offer_result(take_offer_result(s, first).unwrap(), second) == Err::<
            LedgerState,
            EscrowError,
        >(EscrowError::RecordMismatch),
{
}

/// While a maker has an offer open under an id, every `make_offer` of that
/// maker under that id is refused with `DuplicateOffer`, whatever else it
/// presents.
pub proof fn law_duplicate_offer_refused(
    s: LedgerState,
    ctx: MakeOffer,
    id: u64,
    token_a_offered: u64,
    token_b_wanted: u64,
)
    requires
        s.offer_of(ctx.maker.key, id) is Some,
    ensures
        make_offer_result(s, ctx, id, token_a_offered, token_b_wanted) == Err::<
            LedgerState,
            EscrowError,
        >(EscrowError::DuplicateOffer),
{
}

/// After a successful `make_offer`, the same maker cannot open the same id
/// again until the offer is taken.
pub proof fn law_make_offer_once(
    s: LedgerState,
    first: MakeOffer,
    second: MakeOffer,
    id: u64,
    amounts: (u64, u64),
    again: (u64, u64),
)
    requires
        make_offer_result(s, first, id, amounts.0, amounts.1) is Ok,
        second.maker.key == first.maker.key,
    ensures
        make_offer_result(
            make_offer_result(s, first, id, amounts.0, amounts.1).unwrap(),
            second,
            id,
            again.0,
            again.1,
        ) == Err::<LedgerState, EscrowError>(EscrowError::DuplicateOffer),
{
    law_make_offer_fills_vault(s, first, id, amounts.0, amounts.1);
    let post = make_offer_result(s, first, id, amounts.0, amounts.1).unwrap();
    law_duplicate_offer_refused(post, second, id, again.0, again.1);
}

/// Once an offer is taken, its maker can open the same id again: no offer
/// is open for `(maker, id)`, and a further `make_offer` of that maker under
/// that id is not refused as a duplicate.
pub proof fn law_id_reusable_after_take(
    s: LedgerState,
    ctx: TakeOffer,
    next: MakeOffer,
    amounts: (u64, u64),
)
    requires
        s.authentic(),
        take_offer_result(s, ctx) is Ok,
        next.maker.key == s.offers[ctx.offer].maker,
    ensures
        take_offer_result(s, ctx).unwrap().offer_of(
            s.offers[ctx.offer].maker,
            s.offers[ctx.offer].id,
        ) is None,
        make_offer_result(
            take_offer_result(s, ctx).unwrap(),
            next,
            s.offers[ctx.offer].id,
            amounts.0,
            amounts.1,
        ) != Err::<LedgerState, EscrowError>(EscrowError::DuplicateOffer),
{
    assert(s.offer_authentic(ctx.offer));
}

/// The offer under `ctx.offer` is open and is the one that `ctx` describes.
pub open spec fn offer_presented(s: LedgerState, ctx: TakeOffer) -> bool {
    &&& s.offers.contains_key(ctx.offer)
    &&& s.offers[ctx.offer].maker == ctx.maker
    &&& s.offers[ctx.offer].token_mint_a == ctx.token_mint_a.address
    &&& s.offers[ctx.offer].token_mint_b == ctx.token_mint_b.address
}

/// A `take_offer` that presents a vault whose controller is not the identity
/// that the offer's recorded proof recomputes to is refused with
/// `AuthorityMismatch`.
pub proof fn law_foreign_vault_refused(s: LedgerState, ctx: TakeOffer)
    requires
        offer_presented(s, ctx),
        match s.recorded_authority(ctx.offer) {
            Some(authority) => ctx.vault.owner != Owner::Escrow(authority),
            None => true,
        },
    ensures
        take_offer_result(s, ctx) == Err::<LedgerState, EscrowError>(
            EscrowError::AuthorityMismatch,
        ),
{
}

/// A `take_offer` that is in order up to the payment, by a taker whose
/// holding of the wanted asset has less than the amount wanted, is refused
/// with `InsufficientBalance`.
pub proof fn law_insufficient_funds_refused(s: LedgerState, ctx: TakeOffer)
    requires
        offer_presented(s, ctx),
        s.recorded_authority(ctx.offer) == Some(ctx.offer),
        ctx.vault.owner == Owner::Escrow(ctx.offer),
        ctx.taker.is_signer,
        ctx.taker_token_account_a.owner == Owner::Party(ctx.taker.key),
        ctx.taker_token_account_b == party_account(ctx.taker.key, ctx.token_mint_b.address),
        ctx.maker_token_account_b == party_account(ctx.maker, ctx.token_mint_b.address),
        precision_matches(s.mints, ctx.token_mint_b),
        s.balances.contains_key(ctx.taker_token_account_b),
        s.balances[ctx.taker_token_account_b] < s.offers[ctx.offer].token_b_wanted,
    ensures
        take_offer_result(s, ctx) == Err::<LedgerState, EscrowError>(
            EscrowError::InsufficientBalance,
        ),
{
}

/// The proof recorded by an authentic offer recomputes to the identity that
/// the offer is recorded under.
pub proof fn lemma_authentic_recomputes(s: LedgerState, offer: Address)
    requires
        s.authentic(),
        s.offers.contains_key(offer),
    ensures
        s.recorded_authority(offer) == Some(offer),
{
    assert(s.offer_authentic(offer));
    lemma_derivation_recomputes(s.program_id, s.offers[offer].maker, s.offers[offer].id);
}

/// When `make_offer` is owed success: the maker has authorized the call and
/// has no offer open under the id; the offer and vault presented are the
/// derived identity and its vault for the offered asset, which does not
/// exist yet; both assets are registered with the declared precision; and
/// the maker's own holding of the offered asset covers the deposit.
pub proof fn law_make_offer_succeeds(
    s: LedgerState,
    ctx: MakeOffer,
    id: u64,
    token_a_offered: u64,
    token_b_wanted: u64,
)
    requires
        derived_authority(s.program_id, ctx.maker.key, id) is Some,
        derived_authority(s.program_id, ctx.maker.key, id).unwrap().0 == ctx.offer,
        !s.offers.contains_key(ctx.offer),
        ctx.maker.is_signer,
        ctx.vault == vault_account(ctx.offer, ctx.token_mint_a.address),
        ctx.maker_token_account_a == party_account(ctx.maker.key, ctx.token_mint_a.address),
        precision_matches(s.mints, ctx.token_mint_a),
        precision_matches(s.mints, ctx.token_mint_b),
        !s.balances.contains_key(ctx.vault),
        s.balances.contains_key(ctx.maker_token_account_a),
        s.balances[ctx.maker_token_account_a] >= token_a_offered,
    ensures
        make_offer_result(s, ctx, id, token_a_offered, token_b_wanted) is Ok,
{
}

/// When `take_offer` is owed success, for two different parties and two
/// different assets: the offer presented is open, authentic and backed, and
/// its maker and assets are the ones presented; the taker has authorized the
/// call; the vault and the three holdings presented are the offer's vault
/// and the parties' own holdings; both assets are registered with the
/// declared precision; the taker's holding covers the amount wanted; and
/// the two credited balances stay representable.
pub proof fn law_take_offer_succeeds(s: LedgerState, ctx: TakeOffer)
    requires
        s.inv(),
        s.authentic(),
        offer_presented(s, ctx),
        ctx.taker.is_signer,
        ctx.taker.key != ctx.maker,
        ctx.token_mint_a.address != ctx.token_mint_b.address,
        ctx.vault == vault_account(ctx.offer, ctx.token_mint_a.address),
        ctx.taker_token_account_a == party_account(ctx.taker.key, ctx.token_mint_a.address),
        ctx.taker_token_account_b == party_account(ctx.taker.key, ctx.token_mint_b.address),
        ctx.maker_token_account_b == party_account(ctx.maker, ctx.token_mint_b.address),
        precision_matches(s.mints, ctx.token_mint_a),
        precision_matches(s.mints, ctx.token_mint_b),
        s.balances.contains_key(ctx.taker_token_account_b),
        s.balances[ctx.taker_token_account_b] >= s.offers[ctx.offer].token_b_wanted,
        balance_or_zero(s.balances, ctx.maker_token_account_b)
            + s.offers[ctx.offer].token_b_wanted <= u64::MAX,
        balance_or_zero(s.balances, ctx.taker_token_account_a)
            + s.offers[ctx.offer].token_a_offered <= u64::MAX,
    ensures
        take_offer_result(s, ctx) is Ok,
{
    lemma_authentic_recomputes(s, ctx.offer);
    assert(s.offer_backed(ctx.offer));
}

/// A whole swap between two different parties on two different assets: an
/// offer that was made can be taken by any taker who has authorized the
/// call, presents the offer as it was made and holds what it wants, as long
/// as the credited balances stay representable. Afterwards the maker has
/// given the amount offered and received the amount wanted, the taker the
/// reverse, and neither the offer nor its vault exists.
pub proof fn law_swap_completes(
    s: LedgerState,
    make: MakeOffer,
    id: u64,
    token_a_offered: u64,
    token_b_wanted: u64,
    take: TakeOffer,
)
    requires
        s.inv(),
        s.authentic(),
        make_offer_result(s, make, id, token_a_offered, token_b_wanted) is Ok,
        take.taker.is_signer,
        take.taker.key != make.maker.key,
        make.token_mint_a.address != make.token_mint_b.address,
        take.maker == make.maker.key,
        take.token_mint_a == make.token_mint_a,
        take.token_mint_b == make.token_mint_b,
        take.offer == make.offer,
        take.vault == make.vault,
        take.taker_token_account_a == party_account(take.taker.key, make.token_mint_a.address),
        take.taker_token_account_b == party_account(take.taker.key, make.token_mint_b.address),
        take.maker_token_account_b == party_account(make.maker.key, make.token_mint_b.address),
        s.balances.contains_key(take.taker_token_account_b),
        s.balances[take.taker_token_account_b] >= token_b_wanted,
        balance_or_zero(s.balances, take.maker_token_account_b) + token_b_wanted <= u64::MAX,
        balance_or_zero(s.balances, take.taker_token_account_a) + token_a_offered <= u64::MAX,
    ensures
        ({
            let made = make_offer_result(s, make, id, token_a_offered, token_b_wanted).unwrap();
            let post = take_offer_result(made, take);
            &&& post is Ok
            &&& post.unwrap().balances[make.maker_token_account_a]
                == s.balances[make.maker_token_account_a] - token_a_offered
            &&& post.unwrap().balances[take.maker_token_account_b] == balance_or_zero(
                s.balances,
                take.maker_token_account_b,
            ) + token_b_wanted
            &&& post.unwrap().balances[take.taker_token_account_a] == balance_or_zero(
                s.balances,
                take.taker_token_account_a,
            ) + token_a_offered
            &&& post.unwrap().balances[take.taker_token_account_b]
                == s.balances[take.taker_token_account_b] - token_b_wanted
            &&& !post.unwrap().balances.contains_key(make.vault)
            &&& post.unwrap().offers == s.offers
            &&& post.unwrap().offer_of(make.maker.key, id) is None
        }),
{
    let made = make_offer_result(s, make, id, token_a_offered, token_b_wanted).unwrap();
    law_make_offer_fills_vault(s, make, id, token_a_offered, token_b_wanted);
    law_make_offer_frame(s, make, id, token_a_offered, token_b_wanted);
    lemma_open_offer_keeps_inv(
        s,
        make,
        id,
        token_a_offered,
        token_b_wanted,
        derived_authority(s.program_id, make.maker.key, id),
    );
    lemma_make_offer_keeps_authentic(s, make, id, token_a_offered, token_b_wanted);
    assert(made.balances.contains_key(take.taker_token_account_b));
    assert(made.balances.contains_key(take.taker_token_account_a) == s.balances.contains_key(
        take.taker_token_account_a,
    ));
    assert(made.balances.contains_key(take.maker_token_account_b) == s.balances.contains_key(
        take.maker_token_account_b,
    ));
    law_take_offer_succeeds(made, take);
    law_take_offer_settles(made, take);
    law_take_offer_net_effect(made, take);
    let post = take_offer_result(made, take).unwrap();
    assert(post.balances.contains_key(make.maker_token_account_a));
    assert(post.offers =~= s.offers);
}

} // verus!
