//! Escrow-based atomic swap of two fungible assets between a maker and a taker.
//!
//! A maker deposits a quantity of one asset into a vault that only the
//! protocol controls and names the quantity of another asset wanted in return.
//! A taker settles the offer in one indivisible step. Every operation either
//! applies completely or leaves the ledger exactly as it was.

pub mod address;
pub mod authority;
pub mod dex;
pub mod error;
pub mod laws;
pub mod offer;
pub mod registry;
pub mod state;
pub mod token;

pub use address::{Address, Key};
pub use authority::{derive_authority, offer_seeds, offer_signer_seeds, recompute_authority};
pub use dex::{make_offer, open_offer, settle_offer, take_offer, Ledger};
pub use error::EscrowError;
pub use offer::{MakeOffer, Offer, Signer, TakeOffer, OFFER_RECORD_BYTES};
pub use registry::Registry;
pub use token::{transfer_tokens, Mint, Owner, TokenAccount, TokenLedger};
