//! The protocol as a function on ledger states.
//!
//! Each operation is defined here as what it makes of a state: the state
//! that follows, or the reason for which it is refused. The executable
//! operations are proved to compute exactly these results.

use vstd::prelude::*;
use crate::address::Address;
use crate::authority::{derived_authority, recomputed_authority};
use crate::error::EscrowError;
use crate::offer::{MakeOffer, Offer, TakeOffer};
use crate::token::{
    balances_with,
    close_result,
    precision_matches,
    transfer_result,
    Owner,
    TokenAccount,
};

verus! {

/// Everything that the ledger holds.
pub struct LedgerState {
    /// The protocol's own id, under which controlling identities are derived.
    pub program_id: Address,
    /// The registered asset types, each with its precision.
    pub mints: Map<Address, u8>,
    /// The balance of every holding that exists.
    pub balances: Map<TokenAccount, u64>,
    /// The open offers, each under its controlling identity.
    pub offers: Map<Address, Offer>,
}

/// The vault of the offer recorded under `offer`, for the asset `mint`.
pub open spec fn vault_account(offer: Address, mint: Address) -> TokenAccount {
    TokenAccount { owner: Owner::Escrow(offer), mint }
}

/// The holding of `party` in the asset `mint`.
pub open spec fn party_account(party: Address, mint: Address) -> TokenAccount {
    TokenAccount { owner: Owner::Party(party), mint }
}

impl LedgerState {
    /// The vault of the offer recorded under `offer` exists and holds exactly
    /// what was offered.
    pub open spec fn offer_backed(self, offer: Address) -> bool {
        let o = self.offers[offer];
        &&& self.balances.contains_key(vault_account(offer, o.token_mint_a))
        &&& self.balances[vault_account(offer, o.token_mint_a)] == o.token_a_offered
    }

    /// The invariant of the ledger: every open offer is backed by its vault.
    pub open spec fn inv(self) -> bool {
        forall|offer: Address| #[trigger] self.offers.contains_key(offer) ==> self.offer_backed(offer)
    }

    /// The offer recorded under `offer` sits under the identity derived for
    /// its own maker and id, and records the proof derived with it.
    pub open spec fn offer_authentic(self, offer: Address) -> bool {
        let o = self.offers[offer];
        derived_authority(self.program_id, o.maker, o.id) == Some((offer, o.bump))
    }

    /// Every open offer is authentic. This holds of a ledger on which offers
    /// were only ever opened by `make_offer`.
    pub open spec fn authentic(self) -> bool {
        forall|offer: Address| #[trigger]
            self.offers.contains_key(offer) ==> self.offer_authentic(offer)
    }

    /// The identity that the proof recorded under `offer` recomputes to;
    /// nothing where no offer is recorded there.
    pub open spec fn recorded_authority(self, offer: Address) -> Option<Address> {
        if self.offers.contains_key(offer) {
            recomputed_authority(
                self.program_id,
                self.offers[offer].maker,
                self.offers[offer].id,
                self.offers[offer].bump,
            )
        } else {
            None
        }
    }

    /// The open offer that `maker` made under `id`, if there is one.
    pub open spec fn offer_of(self, maker: Address, id: u64) -> Option<Offer> {
        match derived_authority(self.program_id, maker, id) {
            Some((authority, _)) => {
                if self.offers.contains_key(authority) && self.offers[authority].maker == maker
                    && self.offers[authority].id == id {
                    Some(self.offers[authority])
                } else {
                    None
                }
            },
            None => None,
        }
    }
}

/// What taking up an offer that was recorded earlier makes of a state: the
/// identity must be free, else `DuplicateOffer`, and the offer's vault must
/// exist and hold exactly what was offered, else `RecordMismatch`. Nothing
/// moves; the offer is recorded as it is given.
pub open spec fn restore_offer_result(
    s: LedgerState,
    authority: Address,
    offer: Offer,
) -> Result<LedgerState, EscrowError> {
    if s.offers.contains_key(authority) {
        Err(EscrowError::DuplicateOffer)
    } else if !s.balances.contains_key(vault_account(authority, offer.token_mint_a))
        || s.balances[vault_account(authority, offer.token_mint_a)] != offer.token_a_offered {
        Err(EscrowError::RecordMismatch)
    } else {
        Ok(LedgerState { offers: s.offers.insert(authority, offer), ..s })
    }
}

/// What opening an offer under a given derivation makes of a state. Here
/// `derived` is the controlling identity with its proof byte, or nothing
/// where none could be derived. The conditions are tested in this order:
///
/// 1. a controlling identity was derived, else `AuthorityMismatch`;
/// 2. no offer is recorded under it, else `DuplicateOffer`;
/// 3. the maker has authorized the call, else `Unauthorized`;
/// 4. the offer presented is that identity and it controls the vault
///    presented, else `AuthorityMismatch`;
/// 5. the vault is of the asset offered and the asset wanted is registered
///    with the declared precision, else `AssetMismatch`;
/// 6. the vault does not exist yet, else `RecordMismatch`;
/// 7. the deposit into the newly opened vault succeeds as a checked transfer
///    on the maker's authority, else the transfer's own refusal.
///
/// On success the vault holds the deposit and the offer is recorded.
pub open spec fn open_offer_result(
    s: LedgerState,
    ctx: MakeOffer,
    id: u64,
    token_a_offered: u64,
    token_b_wanted: u64,
    derived: Option<(Address, u8)>,
) -> Result<LedgerState, EscrowError> {
    match derived {
        None => Err(EscrowError::AuthorityMismatch),
        Some((authority, bump)) => {
            if s.offers.contains_key(authority) {
                Err(EscrowError::DuplicateOffer)
            } else if !ctx.maker.is_signer {
                Err(EscrowError::Unauthorized)
            } else if ctx.offer != authority || ctx.vault.owner != Owner::Escrow(authority) {
                Err(EscrowError::AuthorityMismatch)
            } else if ctx.vault.mint != ctx.token_mint_a.address || !precision_matches(
                s.mints,
                ctx.token_mint_b,
            ) {
                Err(EscrowError::AssetMismatch)
            } else if s.balances.contains_key(ctx.vault) {
                Err(EscrowError::RecordMismatch)
            } else {
                match transfer_result(
                    s.mints,
                    s.balances.insert(ctx.vault, 0),
                    ctx.maker_token_account_a,
                    ctx.vault,
                    token_a_offered,
                    ctx.token_mint_a,
                    Owner::Party(ctx.maker.key),
                ) {
                    Err(e) => Err(e),
                    Ok(balances) => Ok(
                        LedgerState {
                            balances,
                            offers: s.offers.insert(
                                authority,
                                Offer {
                                    id,
                                    maker: ctx.maker.key,
                                    token_mint_a: ctx.token_mint_a.address,
                                    token_mint_b: ctx.token_mint_b.address,
                                    token_a_offered,
                                    token_b_wanted,
                                    bump,
                                },
                            ),
                            ..s
                        },
                    ),
                }
            }
        },
    }
}

/// What `make_offer` makes of a state: the offer is opened under the
/// controlling identity derived for `(maker, id)`.
pub open spec fn make_offer_result(
    s: LedgerState,
    ctx: MakeOffer,
    id: u64,
    token_a_offered: u64,
    token_b_wanted: u64,
) -> Result<LedgerState, EscrowError> {
    open_offer_result(
        s,
        ctx,
        id,
        token_a_offered,
        token_b_wanted,
        derived_authority(s.program_id, ctx.maker.key, id),
    )
}

/// The three steps that settle `offer` on the balances, each as the asset
/// ledger performs it: the taker pays the maker what is wanted; the vault's
/// entire balance goes to the taker on the derived authority; the emptied
/// vault is dissolved. Before them the taker's holding of the offered asset
/// is opened if it is missing, the holding that the taker pays from must
/// exist, else `RecordMismatch`, and the maker's holding of the wanted asset
/// is opened if it is missing. A refusal at any step is the result.
pub open spec fn settlement(
    mints: Map<Address, u8>,
    balances: Map<TokenAccount, u64>,
    ctx: TakeOffer,
    offer: Offer,
) -> Result<Map<TokenAccount, u64>, EscrowError> {
    let receiving = balances_with(balances, ctx.taker_token_account_a);
    if !receiving.contains_key(ctx.taker_token_account_b) {
        Err(EscrowError::RecordMismatch)
    } else {
        match transfer_result(
            mints,
            balances_with(receiving, ctx.maker_token_account_b),
            ctx.taker_token_account_b,
            ctx.maker_token_account_b,
            offer.token_b_wanted,
            ctx.token_mint_b,
            Owner::Party(ctx.taker.key),
        ) {
            Err(e) => Err(e),
            Ok(paid) => match transfer_result(
                mints,
                paid,
                ctx.vault,
                ctx.taker_token_account_a,
                paid[ctx.vault],
                ctx.token_mint_a,
                Owner::Escrow(ctx.offer),
            ) {
                Err(e) => Err(e),
                Ok(released) => close_result(released, ctx.vault, Owner::Escrow(ctx.offer)),
            },
        }
    }
}

/// What settling an offer makes of a state. Here `recomputed` is the
/// identity that the recorded proof recomputes to, or nothing where it
/// recomputes to none. The conditions are tested in this order:
///
/// 1. an offer is recorded under the identity presented, and its maker and
///    both assets are the ones presented, else `RecordMismatch`;
/// 2. the recomputed identity is the one presented and it controls the
///    vault presented, else `AuthorityMismatch`;
/// 3. the taker has authorized the call, else `Unauthorized`;
/// 4. the holdings to credit are the taker's and the maker's, else `RecordMismatch`;
/// 5. the settlement succeeds, else its own refusal.
///
/// On success the balances are those after the settlement and the offer is
/// no longer recorded.
pub open spec fn settle_offer_result(
    s: LedgerState,
    ctx: TakeOffer,
    recomputed: Option<Address>,
) -> Result<LedgerState, EscrowError> {
    if !s.offers.contains_key(ctx.offer) {
        Err(EscrowError::RecordMismatch)
    } else {
        let offer = s.offers[ctx.offer];
        if offer.maker != ctx.maker || offer.token_mint_a != ctx.token_mint_a.address
            || offer.token_mint_b != ctx.token_mint_b.address {
            Err(EscrowError::RecordMismatch)
        } else if recomputed != Some(ctx.offer) || ctx.vault.owner != Owner::Escrow(ctx.offer) {
            Err(EscrowError::AuthorityMismatch)
        } else if !ctx.taker.is_signer {
            Err(EscrowError::Unauthorized)
        } else if ctx.taker_token_account_a.owner != Owner::Party(ctx.taker.key)
            || ctx.maker_token_account_b.owner != Owner::Party(ctx.maker) {
            Err(EscrowError::RecordMismatch)
        } else {
            match settlement(s.mints, s.balances, ctx, offer) {
                Err(e) => Err(e),
                Ok(balances) => Ok(
                    LedgerState { balances, offers: s.offers.remove(ctx.offer), ..s },
                ),
            }
        }
    }
}

/// What `take_offer` makes of a state: the offer is settled against the
/// identity that its recorded proof recomputes to.
pub open spec fn take_offer_result(
    s: LedgerState,
    ctx: TakeOffer,
) -> Result<LedgerState, EscrowError> {
    settle_offer_result(s, ctx, s.recorded_authority(ctx.offer))
}

/// Taking up a recorded offer keeps every open offer backed by its vault.
pub proof fn lemma_restore_offer_keeps_inv(s: LedgerState, authority: Address, offer: Offer)
    requires
        s.inv(),
        restore_offer_result(s, authority, offer) is Ok,
    ensures
        restore_offer_result(s, authority, offer).unwrap().inv(),
{
    let post = restore_offer_result(s, authority, offer).unwrap();
    assert forall|a: Address| #[trigger] post.offers.contains_key(a) implies post.offer_backed(
        a,
    ) by {
        if a != authority {
            assert(s.offers.contains_key(a));
            assert(s.offer_backed(a));
        }
    }
}

/// Opening an offer keeps every open offer backed by its vault.
pub proof fn lemma_open_offer_keeps_inv(
    s: LedgerState,
    ctx: MakeOffer,
    id: u64,
    token_a_offered: u64,
    token_b_wanted: u64,
    derived: Option<(Address, u8)>,
)
    requires
        s.inv(),
        open_offer_result(s, ctx, id, token_a_offered, token_b_wanted, derived) is Ok,
    ensures
        open_offer_result(s, ctx, id, token_a_offered, token_b_wanted, derived).unwrap().inv(),
{
    let post = open_offer_result(s, ctx, id, token_a_offered, token_b_wanted, derived).unwrap();
    let (authority, bump) = derived.unwrap();
    assert forall|offer: Address| #[trigger] post.offers.contains_key(offer) implies post.offer_backed(
        offer,
    ) by {
        if offer != authority {
            assert(s.offers.contains_key(offer));
            assert(s.offer_backed(offer));
        }
    }
}

/// Settling an offer keeps every other open offer backed by its vault.
pub proof fn lemma_settle_offer_keeps_inv(s: LedgerState, ctx: TakeOffer, recomputed: Option<Address>)
    requires
        s.inv(),
        settle_offer_result(s, ctx, recomputed) is Ok,
    ensures
        settle_offer_result(s, ctx, recomputed).unwrap().inv(),
{
    let post = settle_offer_result(s, ctx, recomputed).unwrap();
    assert(s.offer_backed(ctx.offer));
    assert forall|offer: Address| #[trigger] post.offers.contains_key(offer) implies post.offer_backed(
        offer,
    ) by {
        assert(s.offers.contains_key(offer));
        assert(s.offer_backed(offer));
    }
}

/// `make_offer` keeps every open offer authentic.
pub proof fn lemma_make_offer_keeps_authentic(
    s: LedgerState,
    ctx: MakeOffer,
    id: u64,
    token_a_offered: u64,
    token_b_wanted: u64,
)
    requires
        s.authentic(),
        make_offer_result(s, ctx, id, token_a_offered, token_b_wanted) is Ok,
    ensures
        make_offer_result(s, ctx, id, token_a_offered, token_b_wanted).unwrap().authentic(),
{
    let post = make_offer_result(s, ctx, id, token_a_offered, token_b_wanted).unwrap();
    let (authority, bump) = derived_authority(s.program_id, ctx.maker.key, id).unwrap();
    assert forall|offer: Address| #[trigger] post.offers.contains_key(offer) implies post.offer_authentic(
        offer,
    ) by {
        if offer != authority {
            assert(s.offers.contains_key(offer));
            assert(s.offer_authentic(offer));
        }
    }
}

/// Settling an offer keeps every other open offer authentic.
pub proof fn lemma_settle_offer_keeps_authentic(
    s: LedgerState,
    ctx: TakeOffer,
    recomputed: Option<Address>,
)
    requires
        s.authentic(),
        settle_offer_result(s, ctx, recomputed) is Ok,
    ensures
        settle_offer_result(s, ctx, recomputed).unwrap().authentic(),
{
    let post = settle_offer_result(s, ctx, recomputed).unwrap();
    assert forall|offer: Address| #[trigger] post.offers.contains_key(offer) implies post.offer_authentic(
        offer,
    ) by {
        assert(s.offers.contains_key(offer));
        assert(s.offer_authentic(offer));
    }
}

} // verus!
