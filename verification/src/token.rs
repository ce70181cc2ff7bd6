//! The asset ledger: registered asset types and the balance of every holding.
//!
//! A holding is addressed by its controller and its asset, so each identity
//! has one holding per asset. Moving value requires the authority of the
//! holding that is debited.

use vstd::prelude::*;
use crate::address::{Address, Key};
use crate::error::EscrowError;
use crate::registry::Registry;

verus! {

/// Who controls a holding.
#[derive(Clone, Copy, Debug, PartialEq, Eq)]
pub enum Owner {
    /// A party that authorizes operations with its own key.
    Party(Address),
    /// A derived authority. No key exists for it; only the protocol acts in
    /// its name, after recomputing it.
    Escrow(Address),
}

/// A holding of one asset under one controller.
#[derive(Clone, Copy, Debug, PartialEq, Eq)]
pub struct TokenAccount {
    pub owner: Owner,
    pub mint: Address,
}

/// An asset type together with the precision declared for it.
#[derive(Clone, Copy, Debug, PartialEq, Eq)]
pub struct Mint {
    pub address: Address,
    pub decimals: u8,
}

impl Key for Owner {
    fn same(&self, other: &Self) -> (r: bool) {
        match (self, other) {
            (Owner::Party(a), Owner::Party(b)) => a.same(b),
            (Owner::Escrow(a), Owner::Escrow(b)) => a.same(b),
            _ => false,
        }
    }
}

impl Key for TokenAccount {
    fn same(&self, other: &Self) -> (r: bool) {
        self.owner.same(&other.owner) && self.mint.same(&other.mint)
    }
}

/// The declared precision of `mint` is the registered one.
pub open spec fn precision_matches(mints: Map<Address, u8>, mint: Mint) -> bool {
    mints.contains_key(mint.address) && mints[mint.address] == mint.decimals
}

/// The balances after opening `account` with nothing in it, unless it exists.
pub open spec fn balances_with(
    balances: Map<TokenAccount, u64>,
    account: TokenAccount,
) -> Map<TokenAccount, u64> {
    if balances.contains_key(account) {
        balances
    } else {
        balances.insert(account, 0)
    }
}

/// What a checked transfer of `amount` from `from` to `to` does to the
/// balances, or why it is refused. The conditions are tested in this order:
/// both holdings exist; both are of the declared asset, whose precision is
/// the registered one; `authority` controls the debited holding; the debited
/// holding covers the amount; the credited balance stays representable.
/// A transfer from a holding to itself changes nothing.
pub open spec fn transfer_result(
    mints: Map<Address, u8>,
    balances: Map<TokenAccount, u64>,
    from: TokenAccount,
    to: TokenAccount,
    amount: u64,
    mint: Mint,
    authority: Owner,
) -> Result<Map<TokenAccount, u64>, EscrowError> {
    if !balances.contains_key(from) || !balances.contains_key(to) {
        Err(EscrowError::RecordMismatch)
    } else if from.mint != mint.address || to.mint != mint.address {
        Err(EscrowError::AssetMismatch)
    } else if !precision_matches(mints, mint) {
        Err(EscrowError::AssetMismatch)
    } else if authority != from.owner {
        Err(EscrowError::Unauthorized)
    } else if balances[from] < amount {
        Err(EscrowError::InsufficientBalance)
    } else if from == to {
        Ok(balances)
    } else if balances[to] + amount > u64::MAX {
        Err(EscrowError::ArithmeticOverflow)
    } else {
        Ok(
            balances.insert(from, (balances[from] - amount) as u64).insert(
                to,
                (balances[to] + amount) as u64,
            ),
        )
    }
}

/// What dissolving `account` does to the balances, or why it is refused: the
/// holding must exist, be controlled by `authority`, and be empty.
pub open spec fn close_result(
    balances: Map<TokenAccount, u64>,
    account: TokenAccount,
    authority: Owner,
) -> Result<Map<TokenAccount, u64>, EscrowError> {
    if !balances.contains_key(account) {
        Err(EscrowError::RecordMismatch)
    } else if authority != account.owner {
        Err(EscrowError::Unauthorized)
    } else if balances[account] != 0 {
        Err(EscrowError::RecordMismatch)
    } else {
        Ok(balances.remove(account))
    }
}

/// What crediting `amount` of newly issued value to `account` does to the
/// balances, or why it is refused. The holding is opened if it is missing.
pub open spec fn deposit_result(
    mints: Map<Address, u8>,
    balances: Map<TokenAccount, u64>,
    account: TokenAccount,
    amount: u64,
) -> Result<Map<TokenAccount, u64>, EscrowError> {
    if !mints.contains_key(account.mint) {
        Err(EscrowError::AssetMismatch)
    } else if balances_with(balances, account)[account] + amount > u64::MAX {
        Err(EscrowError::ArithmeticOverflow)
    } else {
        Ok(balances.insert(account, (balances_with(balances, account)[account] + amount) as u64))
    }
}

/// The asset ledger.
pub struct TokenLedger {
    mints: Registry<Address, u8>,
    accounts: Registry<TokenAccount, u64>,
}

impl TokenLedger {
    /// The registered asset types, each with its precision.
    pub closed spec fn mints(&self) -> Map<Address, u8> {
        self.mints@
    }

    /// The balance of every holding that exists.
    pub closed spec fn balances(&self) -> Map<TokenAccount, u64> {
        self.accounts@
    }

    /// Internal consistency of the stores.
    pub closed spec fn wf(&self) -> bool {
        self.mints.wf() && self.accounts.wf()
    }

    /// A ledger without assets or holdings.
    pub fn new() -> (t: TokenLedger)
        ensures
            t.wf(),
            t.mints() == Map::<Address, u8>::empty(),
            t.balances() == Map::<TokenAccount, u64>::empty(),
    {
        TokenLedger { mints: Registry::new(), accounts: Registry::new() }
    }

    /// Registers an asset type with its precision. An asset that is already
    /// registered keeps its precision; declaring another one is refused.
    pub fn register_mint(&mut self, mint: &Mint) -> (res: Result<(), EscrowError>)
        requires
            old(self).wf(),
        ensures
            final(self).wf(),
            final(self).balances() == old(self).balances(),
            old(self).mints().contains_key(mint.address) && old(self).mints()[mint.address]
                != mint.decimals ==> res == Err::<(), EscrowError>(EscrowError::AssetMismatch)
                && final(self).mints() == old(self).mints(),
            !(old(self).mints().contains_key(mint.address) && old(self).mints()[mint.address]
                != mint.decimals) ==> res is Ok && final(self).mints() == old(self).mints().insert(
                mint.address,
                mint.decimals,
            ),
    {
        match self.mints.get(&mint.address) {
            Some(d) => {
                if d != mint.decimals {
                    return Err(EscrowError::AssetMismatch);
                }
                assert(self.mints@ =~= self.mints@.insert(mint.address, mint.decimals));
                Ok(())
            },
            None => {
                self.mints.set(mint.address, mint.decimals);
                Ok(())
            },
        }
    }

    /// The registered precision of an asset type.
    pub fn decimals(&self, mint: &Address) -> (r: Option<u8>)
        requires
            self.wf(),
        ensures
            r == (if self.mints().contains_key(*mint) {
                Some(self.mints()[*mint])
            } else {
                None
            }),
    {
        self.mints.get(mint)
    }

    /// The balance of a holding, if it exists.
    pub fn balance(&self, account: &TokenAccount) -> (r: Option<u64>)
        requires
            self.wf(),
        ensures
            r == (if self.balances().contains_key(*account) {
                Some(self.balances()[*account])
            } else {
                None
            }),
    {
        self.accounts.get(account)
    }

    /// Opens `account` with nothing in it, unless it exists.
    pub fn open_account(&mut self, account: &TokenAccount)
        requires
            old(self).wf(),
        ensures
            final(self).wf(),
            final(self).mints() == old(self).mints(),
            final(self).balances() == balances_with(old(self).balances(), *account),
    {
        if !self.accounts.contains(account) {
            self.accounts.set(*account, 0);
        }
    }

    /// Credits newly issued value to a holding, opening it if needed.
    pub fn deposit(&mut self, account: &TokenAccount, amount: u64) -> (res: Result<(), EscrowError>)
        requires
            old(self).wf(),
        ensures
            final(self).wf(),
            final(self).mints() == old(self).mints(),
            match deposit_result(old(self).mints(), old(self).balances(), *account, amount) {
                Ok(b) => res is Ok && final(self).balances() == b,
                Err(e) => res == Err::<(), EscrowError>(e) && final(self).balances() == old(
                    self,
                ).balances(),
            },
    {
        if !self.mints.contains(&account.mint) {
            return Err(EscrowError::AssetMismatch);
        }
        let held: u64 = match self.accounts.get(account) {
            Some(x) => x,
            None => 0,
        };
        if held > u64::MAX - amount {
            return Err(EscrowError::ArithmeticOverflow);
        }
        self.accounts.set(*account, held + amount);
        Ok(())
    }

    /// Dissolves an empty holding on the authority of its controller.
    pub fn close_account(
        &mut self,
        account: &TokenAccount,
        authority: &Owner,
    ) -> (res: Result<(), EscrowError>)
        requires
            old(self).wf(),
        ensures
            final(self).wf(),
            final(self).mints() == old(self).mints(),
            match close_result(old(self).balances(), *account, *authority) {
                Ok(b) => res is Ok && final(self).balances() == b,
                Err(e) => res == Err::<(), EscrowError>(e) && final(self).balances() == old(
                    self,
                ).balances(),
            },
    {
        let held: u64 = match self.accounts.get(account) {
            Some(x) => x,
            None => { return Err(EscrowError::RecordMismatch); },
        };
        if !authority.same(&account.owner) {
            return Err(EscrowError::Unauthorized);
        }
        if held != 0 {
            return Err(EscrowError::RecordMismatch);
        }
        self.accounts.remove(account);
        Ok(())
    }

    /// A separate ledger with the same contents, on which an operation can
    /// be staged before it is committed.
    pub fn duplicate(&self) -> (t: TokenLedger)
        requires
            self.wf(),
        ensures
            t.wf(),
            t.mints() == self.mints(),
            t.balances() == self.balances(),
    {
        TokenLedger { mints: self.mints.duplicate(), accounts: self.accounts.duplicate() }
    }
}

/// Moves `amount` of the asset `mint` from one holding to another on the
/// authority of the controller of the debited holding. Either the whole
/// transfer happens or nothing changes.
pub fn transfer_tokens(
    tokens: &mut TokenLedger,
    from: &TokenAccount,
    to: &TokenAccount,
    amount: &u64,
    mint: &Mint,
    authority: &Owner,
) -> (res: Result<(), EscrowError>)
    requires
        old(tokens).wf(),
    ensures
        final(tokens).wf(),
        final(tokens).mints() == old(tokens).mints(),
        match transfer_result(
            old(tokens).mints(),
            old(tokens).balances(),
            *from,
            *to,
            *amount,
            *mint,
            *authority,
        ) {
            Ok(b) => res is Ok && final(tokens).balances() == b,
            Err(e) => res == Err::<(), EscrowError>(e) && final(tokens).balances() == old(
                tokens,
            ).balances(),
        },
{
    let source: u64 = match tokens.accounts.get(from) {
        Some(x) => x,
        None => { return Err(EscrowError::RecordMismatch); },
    };
    let target: u64 = match tokens.accounts.get(to) {
        Some(x) => x,
        None => { return Err(EscrowError::RecordMismatch); },
    };
    if !from.mint.same(&mint.address) || !to.mint.same(&mint.address) {
        return Err(EscrowError::AssetMismatch);
    }
    match tokens.mints.get(&mint.address) {
        Some(d) => {
            if d != mint.decimals {
                return Err(EscrowError::AssetMismatch);
            }
        },
        None => { return Err(EscrowError::AssetMismatch); },
    }
    if !authority.same(&from.owner) {
        return Err(EscrowError::Unauthorized);
    }
    if source < *amount {
        return Err(EscrowError::InsufficientBalance);
    }
    if from.same(to) {
        return Ok(());
    }
    if target > u64::MAX - *amount {
        return Err(EscrowError::ArithmeticOverflow);
    }
    tokens.accounts.set(*from, source - *amount);
    tokens.accounts.set(*to, target + *amount);
    Ok(())
}

} // verus!
