use anchor_lang::prelude::Pubkey;
use chunk_loader::pda::{
    chunk_holder_address, chunk_holder_seeds, chunk_holder_signer_seeds, find_chunk_holder_address, id,
    same_key, seeds_sign_for,
};
use std::str::FromStr;

#[test]
fn program_address() {
    let expected = Pubkey::from_str("ChUnQ7H46X5UeQJHVgZFBy3hGM95TwWsmvBRwQxVz3JG").unwrap();
    assert_eq!(id(), expected.to_bytes());
}

#[test]
fn seeds_are_tag_owner_and_number() {
    let owner = [0x11u8; 32];
    assert_eq!(
        chunk_holder_seeds(&owner, 0x0403_0201),
        vec![b"CHUNK_HOLDER".to_vec(), owner.to_vec(), vec![1, 2, 3, 4]]
    );
    assert_eq!(
        chunk_holder_signer_seeds(&owner, 5, 254),
        vec![b"CHUNK_HOLDER".to_vec(), owner.to_vec(), vec![5, 0, 0, 0], vec![254]]
    );
}

#[test]
fn address_is_the_one_the_ledger_derives() {
    let program = Pubkey::new_from_array(id());
    for (owner, number) in [([0u8; 32], 0u32), ([7u8; 32], 3), ([0xFFu8; 32], u32::MAX)] {
        let number_bytes = number.to_le_bytes();
        let seeds: [&[u8]; 3] = [b"CHUNK_HOLDER", &owner, &number_bytes];
        let (address, bump) = Pubkey::find_program_address(&seeds, &program);
        assert_eq!(find_chunk_holder_address(&owner, number), Some((address.to_bytes(), bump)));
        assert_eq!(chunk_holder_address(&owner, number, bump), Some(address.to_bytes()));
        assert_ne!(address.to_bytes(), owner);
    }
}

#[test]
fn owners_and_numbers_do_not_collide() {
    let a = find_chunk_holder_address(&[1u8; 32], 1).unwrap().0;
    let b = find_chunk_holder_address(&[1u8; 32], 2).unwrap().0;
    let c = find_chunk_holder_address(&[2u8; 32], 1).unwrap().0;
    assert_ne!(a, b);
    assert_ne!(a, c);
    assert_ne!(b, c);
    assert_eq!(find_chunk_holder_address(&[1u8; 32], 1).unwrap().0, a);
}

#[test]
fn every_bump_agrees_with_the_ledger() {
    let owner = [9u8; 32];
    let program = Pubkey::new_from_array(id());
    let mut refused = 0;
    for bump in 0..=255u8 {
        let seeds: [&[u8]; 4] = [b"CHUNK_HOLDER", &owner, &[6, 0, 0, 0], &[bump]];
        let expected = Pubkey::create_program_address(&seeds, &program).ok().map(|k| k.to_bytes());
        if expected.is_none() {
            refused += 1;
        }
        assert_eq!(chunk_holder_address(&owner, 6, bump), expected);
    }
    assert!(refused > 0);
}

#[test]
fn seeds_sign_only_for_their_address() {
    let owner = [9u8; 32];
    let (address, bump) = find_chunk_holder_address(&owner, 6).unwrap();
    let seeds = chunk_holder_signer_seeds(&owner, 6, bump);
    assert!(seeds_sign_for(&seeds, &address));
    assert!(!seeds_sign_for(&seeds, &owner));
    assert!(!seeds_sign_for(&chunk_holder_seeds(&owner, 6), &address));
    assert!(!seeds_sign_for(&vec![vec![0u8; 33]], &address));
}

#[test]
fn keys_are_compared_byte_by_byte() {
    let a = [5u8; 32];
    let mut b = a;
    assert!(same_key(&a, &b));
    b[31] = 6;
    assert!(!same_key(&a, &b));
    b[31] = 5;
    b[0] = 0;
    assert!(!same_key(&a, &b));
}
