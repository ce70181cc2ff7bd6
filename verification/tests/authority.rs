use anchor_lang::prelude::Pubkey;
use new_swap::{derive_authority, offer_seeds, offer_signer_seeds, recompute_authority, Address};

fn addr(n: u8) -> Address {
    Address::new([n; 32])
}

#[test]
fn offer_seeds_are_label_maker_and_id() {
    let seeds = offer_seeds(&addr(7), 0x0102_0304_0506_0708);
    assert_eq!(seeds.len(), 3);
    assert_eq!(seeds[0], vec![111u8, 102, 102, 101, 114]);
    assert_eq!(seeds[0], b"offer".to_vec());
    assert_eq!(seeds[1], vec![7u8; 32]);
    assert_eq!(seeds[2], vec![8u8, 7, 6, 5, 4, 3, 2, 1]);
}

#[test]
fn offer_seeds_of_small_id() {
    let seeds = offer_seeds(&addr(0), 1);
    assert_eq!(seeds[2], vec![1u8, 0, 0, 0, 0, 0, 0, 0]);
    let seeds = offer_seeds(&addr(0), u64::MAX);
    assert_eq!(seeds[2], vec![255u8; 8]);
}

#[test]
fn signer_seeds_end_with_the_bump() {
    let seeds = offer_signer_seeds(&addr(7), 1, 254);
    assert_eq!(seeds.len(), 4);
    assert_eq!(seeds[0], b"offer".to_vec());
    assert_eq!(seeds[1], vec![7u8; 32]);
    assert_eq!(seeds[2], vec![1u8, 0, 0, 0, 0, 0, 0, 0]);
    assert_eq!(seeds[3], vec![254u8]);
}

#[test]
fn derive_authority_agrees_with_the_address_search() {
    let program = addr(42);
    let maker = addr(7);
    let id: u64 = 1;
    let expected = Pubkey::find_program_address(
        &[b"offer", &maker.bytes, &id.to_le_bytes()],
        &Pubkey::new_from_array(program.bytes),
    );
    let (authority, bump) = derive_authority(&program, &maker, id).unwrap();
    assert_eq!(authority.bytes, expected.0.to_bytes());
    assert_eq!(bump, expected.1);
    assert!(bump >= 1);
}

#[test]
fn derived_authority_is_not_an_argument() {
    let program = addr(42);
    let maker = addr(7);
    let (authority, _) = derive_authority(&program, &maker, 1).unwrap();
    assert_ne!(authority, program);
    assert_ne!(authority, maker);
    assert!(!Pubkey::new_from_array(authority.bytes).is_on_curve());
}

#[test]
fn derive_authority_is_deterministic() {
    let first = derive_authority(&addr(42), &addr(7), 5);
    let second = derive_authority(&addr(42), &addr(7), 5);
    assert!(first.is_some());
    assert_eq!(first, second);
}

#[test]
fn derived_authority_depends_on_every_input() {
    let base = derive_authority(&addr(42), &addr(7), 1).unwrap().0;
    assert_ne!(derive_authority(&addr(42), &addr(7), 2).unwrap().0, base);
    assert_ne!(derive_authority(&addr(42), &addr(8), 1).unwrap().0, base);
    assert_ne!(derive_authority(&addr(43), &addr(7), 1).unwrap().0, base);
}

#[test]
fn recomputation_confirms_the_derivation() {
    let program = addr(42);
    let maker = addr(9);
    for id in [0u64, 1, 2, 77, u64::MAX] {
        let (authority, bump) = derive_authority(&program, &maker, id).unwrap();
        assert_eq!(recompute_authority(&program, &maker, id, bump), Some(authority));
    }
}

#[test]
fn recomputation_with_another_proof_disagrees() {
    let program = addr(42);
    let maker = addr(9);
    let (authority, bump) = derive_authority(&program, &maker, 1).unwrap();
    let other = if bump == 255 { 254 } else { bump + 1 };
    assert_ne!(recompute_authority(&program, &maker, 1, other), Some(authority));
    assert_ne!(recompute_authority(&program, &maker, 2, bump), Some(authority));
    assert_ne!(recompute_authority(&program, &addr(10), 1, bump), Some(authority));
}

#[test]
fn recomputation_agrees_with_the_address_creation() {
    let program = addr(42);
    let maker = addr(7);
    let id: u64 = 3;
    for bump in [255u8, 254, 253, 1, 0] {
        let expected = Pubkey::create_program_address(
            &[b"offer", &maker.bytes, &id.to_le_bytes(), &[bump]],
            &Pubkey::new_from_array(program.bytes),
        )
        .ok()
        .map(|k| k.to_bytes());
        let got = recompute_authority(&program, &maker, id, bump).map(|a| a.bytes);
        assert_eq!(got, expected);
    }
}

#[test]
fn no_higher_bump_derives_an_address() {
    let program = addr(42);
    let maker = addr(7);
    let (_, bump) = derive_authority(&program, &maker, 11).unwrap();
    let mut higher = bump;
    while higher < 255 {
        higher += 1;
        assert_eq!(recompute_authority(&program, &maker, 11, higher), None);
    }
}

#[test]
fn derive_authority_known_answers() {
    let (authority, bump) = derive_authority(&addr(42), &addr(7), 1).unwrap();
    assert_eq!(bump, 251);
    assert_eq!(
        authority.bytes,
        [
            221, 147, 104, 207, 246, 242, 60, 21, 21, 63, 113, 182, 218, 193, 250, 144, 192, 186,
            199, 18, 28, 160, 57, 140, 74, 40, 90, 199, 213, 111, 63, 82
        ]
    );
    let (authority, bump) = derive_authority(&addr(42), &addr(9), 0).unwrap();
    assert_eq!(bump, 255);
    assert_eq!(
        authority.bytes,
        [
            153, 138, 183, 185, 207, 34, 82, 140, 179, 4, 68, 3, 63, 55, 96, 39, 82, 235, 95, 107,
            152, 60, 21, 232, 42, 115, 160, 23, 85, 210, 225, 197
        ]
    );
}

#[test]
fn recompute_authority_known_answers() {
    let expected = Address::new([
        198, 43, 184, 195, 189, 147, 104, 19, 190, 242, 89, 82, 142, 135, 212, 9, 119, 94, 65, 79,
        237, 0, 140, 24, 148, 102, 162, 223, 91, 141, 121, 92,
    ]);
    assert_eq!(recompute_authority(&addr(42), &addr(1), 1, 252), Some(expected));
    assert_eq!(recompute_authority(&addr(42), &addr(1), 1, 253), None);
    assert_eq!(recompute_authority(&addr(42), &addr(1), 1, 254), None);
    assert_eq!(recompute_authority(&addr(42), &addr(1), 1, 255), None);
}
