use new_swap::{transfer_tokens, Address, EscrowError, Key, Mint, Owner, TokenAccount, TokenLedger};

fn addr(n: u8) -> Address {
    Address::new([n; 32])
}

fn party(n: u8, mint: u8) -> TokenAccount {
    TokenAccount { owner: Owner::Party(addr(n)), mint: addr(mint) }
}

fn ledger_with_two_holdings() -> TokenLedger {
    let mut t = TokenLedger::new();
    assert_eq!(t.register_mint(&Mint { address: addr(100), decimals: 6 }), Ok(()));
    assert_eq!(t.register_mint(&Mint { address: addr(101), decimals: 9 }), Ok(()));
    assert_eq!(t.deposit(&party(1, 100), 100), Ok(()));
    assert_eq!(t.deposit(&party(2, 100), 5), Ok(()));
    t
}

#[test]
fn same_decides_equality_of_owners() {
    assert!(Owner::Party(addr(1)).same(&Owner::Party(addr(1))));
    assert!(!Owner::Party(addr(1)).same(&Owner::Party(addr(2))));
    assert!(!Owner::Party(addr(1)).same(&Owner::Escrow(addr(1))));
    assert!(Owner::Escrow(addr(3)).same(&Owner::Escrow(addr(3))));
    assert!(party(1, 100).same(&party(1, 100)));
    assert!(!party(1, 100).same(&party(1, 101)));
}

#[test]
fn register_mint_keeps_first_precision() {
    let mut t = TokenLedger::new();
    assert_eq!(t.decimals(&addr(100)), None);
    assert_eq!(t.register_mint(&Mint { address: addr(100), decimals: 6 }), Ok(()));
    assert_eq!(t.register_mint(&Mint { address: addr(100), decimals: 6 }), Ok(()));
    assert_eq!(
        t.register_mint(&Mint { address: addr(100), decimals: 7 }),
        Err(EscrowError::AssetMismatch)
    );
    assert_eq!(t.decimals(&addr(100)), Some(6));
}

#[test]
fn deposit_opens_and_adds() {
    let mut t = TokenLedger::new();
    assert_eq!(t.deposit(&party(1, 100), 1), Err(EscrowError::AssetMismatch));
    assert_eq!(t.register_mint(&Mint { address: addr(100), decimals: 0 }), Ok(()));
    assert_eq!(t.balance(&party(1, 100)), None);
    assert_eq!(t.deposit(&party(1, 100), 40), Ok(()));
    assert_eq!(t.deposit(&party(1, 100), 2), Ok(()));
    assert_eq!(t.balance(&party(1, 100)), Some(42));
}

#[test]
fn deposit_refuses_overflow() {
    let mut t = TokenLedger::new();
    assert_eq!(t.register_mint(&Mint { address: addr(100), decimals: 0 }), Ok(()));
    assert_eq!(t.deposit(&party(1, 100), u64::MAX), Ok(()));
    assert_eq!(t.deposit(&party(1, 100), 1), Err(EscrowError::ArithmeticOverflow));
    assert_eq!(t.balance(&party(1, 100)), Some(u64::MAX));
    assert_eq!(t.deposit(&party(1, 100), 0), Ok(()));
}

#[test]
fn open_account_keeps_existing_balance() {
    let mut t = ledger_with_two_holdings();
    t.open_account(&party(1, 100));
    t.open_account(&party(3, 100));
    assert_eq!(t.balance(&party(1, 100)), Some(100));
    assert_eq!(t.balance(&party(3, 100)), Some(0));
}

#[test]
fn transfer_moves_exact_amount() {
    let mut t = ledger_with_two_holdings();
    let mint = Mint { address: addr(100), decimals: 6 };
    let r = transfer_tokens(&mut t, &party(1, 100), &party(2, 100), &30, &mint, &Owner::Party(addr(1)));
    assert_eq!(r, Ok(()));
    assert_eq!(t.balance(&party(1, 100)), Some(70));
    assert_eq!(t.balance(&party(2, 100)), Some(35));
}

#[test]
fn transfer_of_whole_balance_and_of_nothing() {
    let mut t = ledger_with_two_holdings();
    let mint = Mint { address: addr(100), decimals: 6 };
    let auth = Owner::Party(addr(1));
    assert_eq!(transfer_tokens(&mut t, &party(1, 100), &party(2, 100), &0, &mint, &auth), Ok(()));
    assert_eq!(t.balance(&party(1, 100)), Some(100));
    assert_eq!(transfer_tokens(&mut t, &party(1, 100), &party(2, 100), &100, &mint, &auth), Ok(()));
    assert_eq!(t.balance(&party(1, 100)), Some(0));
    assert_eq!(t.balance(&party(2, 100)), Some(105));
}

#[test]
fn transfer_refuses_missing_holding() {
    let mut t = ledger_with_two_holdings();
    let mint = Mint { address: addr(100), decimals: 6 };
    let r = transfer_tokens(&mut t, &party(3, 100), &party(2, 100), &1, &mint, &Owner::Party(addr(3)));
    assert_eq!(r, Err(EscrowError::RecordMismatch));
    let r = transfer_tokens(&mut t, &party(1, 100), &party(3, 100), &1, &mint, &Owner::Party(addr(1)));
    assert_eq!(r, Err(EscrowError::RecordMismatch));
    assert_eq!(t.balance(&party(3, 100)), None);
}

#[test]
fn transfer_refuses_wrong_asset_or_precision() {
    let mut t = ledger_with_two_holdings();
    assert_eq!(t.deposit(&party(2, 101), 1), Ok(()));
    let auth = Owner::Party(addr(1));
    let other = Mint { address: addr(101), decimals: 9 };
    let r = transfer_tokens(&mut t, &party(1, 100), &party(2, 100), &1, &other, &auth);
    assert_eq!(r, Err(EscrowError::AssetMismatch));
    let mint = Mint { address: addr(100), decimals: 6 };
    let r = transfer_tokens(&mut t, &party(1, 100), &party(2, 101), &1, &mint, &auth);
    assert_eq!(r, Err(EscrowError::AssetMismatch));
    let coarse = Mint { address: addr(100), decimals: 5 };
    let r = transfer_tokens(&mut t, &party(1, 100), &party(2, 100), &1, &coarse, &auth);
    assert_eq!(r, Err(EscrowError::AssetMismatch));
    assert_eq!(t.balance(&party(1, 100)), Some(100));
    assert_eq!(t.balance(&party(2, 100)), Some(5));
}

#[test]
fn transfer_refuses_foreign_authority() {
    let mut t = ledger_with_two_holdings();
    let mint = Mint { address: addr(100), decimals: 6 };
    let r = transfer_tokens(&mut t, &party(1, 100), &party(2, 100), &1, &mint, &Owner::Party(addr(2)));
    assert_eq!(r, Err(EscrowError::Unauthorized));
    let r = transfer_tokens(&mut t, &party(1, 100), &party(2, 100), &1, &mint, &Owner::Escrow(addr(1)));
    assert_eq!(r, Err(EscrowError::Unauthorized));
    assert_eq!(t.balance(&party(1, 100)), Some(100));
}

#[test]
fn transfer_refuses_more_than_held() {
    let mut t = ledger_with_two_holdings();
    let mint = Mint { address: addr(100), decimals: 6 };
    let r = transfer_tokens(&mut t, &party(1, 100), &party(2, 100), &101, &mint, &Owner::Party(addr(1)));
    assert_eq!(r, Err(EscrowError::InsufficientBalance));
    assert_eq!(t.balance(&party(1, 100)), Some(100));
    assert_eq!(t.balance(&party(2, 100)), Some(5));
}

#[test]
fn transfer_refuses_overflow_of_credit() {
    let mut t = ledger_with_two_holdings();
    assert_eq!(t.deposit(&party(3, 100), u64::MAX - 10), Ok(()));
    let mint = Mint { address: addr(100), decimals: 6 };
    let auth = Owner::Party(addr(1));
    let r = transfer_tokens(&mut t, &party(1, 100), &party(3, 100), &11, &mint, &auth);
    assert_eq!(r, Err(EscrowError::ArithmeticOverflow));
    assert_eq!(t.balance(&party(1, 100)), Some(100));
    assert_eq!(t.balance(&party(3, 100)), Some(u64::MAX - 10));
    let r = transfer_tokens(&mut t, &party(1, 100), &party(3, 100), &10, &mint, &auth);
    assert_eq!(r, Ok(()));
    assert_eq!(t.balance(&party(3, 100)), Some(u64::MAX));
    assert_eq!(t.balance(&party(1, 100)), Some(90));
}

#[test]
fn transfer_to_itself_changes_nothing() {
    let mut t = ledger_with_two_holdings();
    let mint = Mint { address: addr(100), decimals: 6 };
    let auth = Owner::Party(addr(1));
    let r = transfer_tokens(&mut t, &party(1, 100), &party(1, 100), &60, &mint, &auth);
    assert_eq!(r, Ok(()));
    assert_eq!(t.balance(&party(1, 100)), Some(100));
    let r = transfer_tokens(&mut t, &party(1, 100), &party(1, 100), &101, &mint, &auth);
    assert_eq!(r, Err(EscrowError::InsufficientBalance));
}

#[test]
fn close_account_needs_empty_holding_and_authority() {
    let mut t = ledger_with_two_holdings();
    let mint = Mint { address: addr(100), decimals: 6 };
    let auth = Owner::Party(addr(1));
    assert_eq!(t.close_account(&party(3, 100), &Owner::Party(addr(3))), Err(EscrowError::RecordMismatch));
    assert_eq!(t.close_account(&party(1, 100), &Owner::Party(addr(2))), Err(EscrowError::Unauthorized));
    assert_eq!(t.close_account(&party(1, 100), &auth), Err(EscrowError::RecordMismatch));
    assert_eq!(t.balance(&party(1, 100)), Some(100));
    assert_eq!(transfer_tokens(&mut t, &party(1, 100), &party(2, 100), &100, &mint, &auth), Ok(()));
    assert_eq!(t.close_account(&party(1, 100), &auth), Ok(()));
    assert_eq!(t.balance(&party(1, 100)), None);
    assert_eq!(t.balance(&party(2, 100)), Some(105));
}

#[test]
fn duplicate_ledger_is_independent() {
    let t = ledger_with_two_holdings();
    let mut staged = t.duplicate();
    assert_eq!(staged.deposit(&party(1, 100), 1), Ok(()));
    assert_eq!(t.balance(&party(1, 100)), Some(100));
    assert_eq!(staged.balance(&party(1, 100)), Some(101));
    assert_eq!(staged.decimals(&addr(101)), Some(9));
}
