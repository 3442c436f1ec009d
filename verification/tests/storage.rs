use chunk_loader::error::ChunkLoaderError;
use chunk_loader::pda::{chunk_holder_signer_seeds, find_chunk_holder_address, id};
use chunk_loader::utils::{
    check_realloc, init_or_realloc, init_or_realloc_with_admin, ledger_action, realloc, system_transfer,
    AccountState, LedgerAction,
};

fn account(key: u8, lamports: u64, data: &[u8]) -> AccountState {
    AccountState { key: [key; 32], is_signer: false, lamports, data: data.to_vec(), program_id: id() }
}

fn record_with_owner(owner: [u8; 32]) -> AccountState {
    let mut data = vec![1u8];
    data.extend_from_slice(&owner);
    data.extend_from_slice(&[0, 0, 0, 0]);
    AccountState { key: [3u8; 32], is_signer: false, lamports: 400, data, program_id: id() }
}

#[test]
fn transfer_moves_lamports() {
    let mut from = account(1, 100, &[]);
    let mut to = account(2, 5, &[9]);
    assert_eq!(system_transfer(&mut from, &mut to, 40), Ok(()));
    assert_eq!(from, account(1, 60, &[]));
    assert_eq!(to, account(2, 45, &[9]));
    assert_eq!(system_transfer(&mut from, &mut to, 60), Ok(()));
    assert_eq!(from.lamports, 0);
    assert_eq!(to.lamports, 105);
}

#[test]
fn transfer_without_funds_is_refused() {
    let mut from = account(1, 39, &[]);
    let mut to = account(2, 5, &[]);
    assert_eq!(
        system_transfer(&mut from, &mut to, 40),
        Err(ChunkLoaderError::InsufficientFunds { needed: 40, available: 39 })
    );
    assert_eq!(from, account(1, 39, &[]));
    assert_eq!(to, account(2, 5, &[]));
}

#[test]
fn transfer_into_a_full_balance_is_refused() {
    let mut from = account(1, 100, &[]);
    let mut to = account(2, u64::MAX - 1, &[]);
    assert_eq!(system_transfer(&mut from, &mut to, 2), Err(ChunkLoaderError::ArithmeticOverflow));
    assert_eq!(from.lamports, 100);
    assert_eq!(to.lamports, u64::MAX - 1);
    assert_eq!(system_transfer(&mut from, &mut to, 1), Ok(()));
    assert_eq!(to.lamports, u64::MAX);
}

#[test]
fn growing_keeps_the_bytes_and_adds_zeros() {
    let mut record = account(3, 10, &[1, 2, 3]);
    let mut payer = account(4, 100, &[]);
    assert_eq!(realloc(&mut record, &mut payer, 6, 25, false), Ok(()));
    assert_eq!(record.data, vec![1, 2, 3, 0, 0, 0]);
    assert_eq!(record.lamports, 25);
    assert_eq!(payer.lamports, 85);
}

#[test]
fn shrinking_truncates() {
    let mut record = account(3, 10, &[1, 2, 3, 4, 5]);
    let mut payer = account(4, 100, &[]);
    assert_eq!(realloc(&mut record, &mut payer, 2, 4, false), Ok(()));
    assert_eq!(record.data, vec![1, 2]);
    assert_eq!(record.lamports, 10);
    assert_eq!(payer.lamports, 100);
}

#[test]
fn shrinking_with_reclaim_returns_the_excess() {
    let mut record = account(3, 10, &[1, 2, 3, 4, 5]);
    let mut payer = account(4, 100, &[]);
    assert_eq!(realloc(&mut record, &mut payer, 2, 4, true), Ok(()));
    assert_eq!(record.data, vec![1, 2]);
    assert_eq!(record.lamports, 4);
    assert_eq!(payer.lamports, 106);
}

#[test]
fn resizing_to_the_same_size_changes_nothing() {
    let mut record = account(3, 10, &[1, 2, 3]);
    let mut payer = account(4, 100, &[]);
    assert_eq!(realloc(&mut record, &mut payer, 3, 10, true), Ok(()));
    assert_eq!(record, account(3, 10, &[1, 2, 3]));
    assert_eq!(payer, account(4, 100, &[]));
}

#[test]
fn growing_without_funds_is_refused() {
    let mut record = account(3, 10, &[1, 2, 3]);
    let mut payer = account(4, 14, &[]);
    let refused = ChunkLoaderError::InsufficientFunds { needed: 15, available: 14 };
    assert_eq!(check_realloc(&record, &payer, 25, false), Err(refused));
    assert_eq!(realloc(&mut record, &mut payer, 6, 25, false), Err(refused));
    assert_eq!(record, account(3, 10, &[1, 2, 3]));
    assert_eq!(payer, account(4, 14, &[]));
    assert_eq!(check_realloc(&record, &payer, 24, false), Ok(()));
}

#[test]
fn reclaim_into_a_full_balance_is_refused() {
    let mut record = account(3, 10, &[1, 2, 3]);
    let mut payer = account(4, u64::MAX - 5, &[]);
    assert_eq!(realloc(&mut record, &mut payer, 1, 4, true), Err(ChunkLoaderError::ArithmeticOverflow));
    assert_eq!(record, account(3, 10, &[1, 2, 3]));
    assert_eq!(payer.lamports, u64::MAX - 5);
    assert_eq!(realloc(&mut record, &mut payer, 1, 5, true), Ok(()));
    assert_eq!(payer.lamports, u64::MAX);
}

#[test]
fn creation_pays_the_full_cost_and_writes_tag_and_payload() {
    let owner = [5u8; 32];
    let (address, bump) = find_chunk_holder_address(&owner, 1).unwrap();
    let seeds = chunk_holder_signer_seeds(&owner, 1, bump);
    let mut record = AccountState { key: address, is_signer: false, lamports: 0, data: vec![], program_id: [0u8; 32] };
    let mut payer = account(4, 1000, &[]);
    assert_eq!(
        init_or_realloc(&mut record, 6, &[1], &[7, 8, 9], &mut payer, &seeds, false, 300),
        Ok(())
    );
    assert_eq!(record.data, vec![1, 7, 8, 9, 0, 0]);
    assert_eq!(record.program_id, id());
    assert_eq!(record.lamports, 300);
    assert_eq!(payer.lamports, 700);
}

#[test]
fn creation_with_seeds_of_another_address_is_refused() {
    let owner = [5u8; 32];
    let (address, bump) = find_chunk_holder_address(&owner, 1).unwrap();
    let seeds = chunk_holder_signer_seeds(&owner, 2, bump);
    let mut record = AccountState { key: address, is_signer: false, lamports: 0, data: vec![], program_id: [0u8; 32] };
    let mut payer = account(4, 1000, &[]);
    assert_eq!(
        init_or_realloc(&mut record, 6, &[1], &[7, 8, 9], &mut payer, &seeds, false, 300),
        Err(ChunkLoaderError::MissingRequiredSignature)
    );
    assert!(record.data.is_empty());
    assert_eq!(payer.lamports, 1000);
    let too_long = vec![vec![0u8; 33]];
    assert_eq!(
        init_or_realloc(&mut record, 6, &[1], &[7, 8, 9], &mut payer, &too_long, false, 300),
        Err(ChunkLoaderError::MissingRequiredSignature)
    );
}

#[test]
fn creation_without_funds_is_refused() {
    let owner = [5u8; 32];
    let (address, bump) = find_chunk_holder_address(&owner, 1).unwrap();
    let seeds = chunk_holder_signer_seeds(&owner, 1, bump);
    let mut record = AccountState { key: address, is_signer: false, lamports: 0, data: vec![], program_id: [0u8; 32] };
    let mut payer = account(4, 299, &[]);
    assert_eq!(
        init_or_realloc(&mut record, 6, &[1], &[7, 8, 9], &mut payer, &seeds, false, 300),
        Err(ChunkLoaderError::InsufficientFunds { needed: 300, available: 299 })
    );
    assert!(record.data.is_empty());
    assert_eq!(record.lamports, 0);
    assert_eq!(payer.lamports, 299);
}

#[test]
fn resizing_overwrites_the_start_and_keeps_the_rest() {
    let mut record = account(3, 50, &[1, 2, 3, 4, 5, 6]);
    let mut payer = account(4, 1000, &[]);
    assert_eq!(init_or_realloc(&mut record, 8, &[9], &[8, 7], &mut payer, &vec![], false, 60), Ok(()));
    assert_eq!(record.data, vec![9, 8, 7, 4, 5, 6, 0, 0]);
    assert_eq!(record.lamports, 60);
    assert_eq!(payer.lamports, 990);

    assert_eq!(init_or_realloc(&mut record, 4, &[1], &[2, 3], &mut payer, &vec![], true, 20), Ok(()));
    assert_eq!(record.data, vec![1, 2, 3, 4]);
    assert_eq!(record.lamports, 20);
    assert_eq!(payer.lamports, 1030);
}

#[test]
fn payload_that_does_not_fit_is_refused() {
    let mut record = account(3, 50, &[1, 2, 3, 4, 5, 6]);
    let mut payer = account(4, 1000, &[]);
    assert_eq!(
        init_or_realloc(&mut record, 2, &[9], &[8, 7], &mut payer, &vec![], true, 10),
        Err(ChunkLoaderError::AccountDidNotSerialize)
    );
    assert_eq!(record, account(3, 50, &[1, 2, 3, 4, 5, 6]));
    assert_eq!(payer, account(4, 1000, &[]));
    assert_eq!(init_or_realloc(&mut record, 3, &[9], &[8, 7], &mut payer, &vec![], true, 10), Ok(()));
    assert_eq!(record.data, vec![9, 8, 7]);
}

#[test]
fn stored_owner_must_be_the_one_presented() {
    let owner = [5u8; 32];
    let mut record = record_with_owner(owner);
    let before = record.clone();
    let mut payer = account(4, 1000, &[]);
    let mut body = vec![6u8; 32];
    body.extend_from_slice(&[0, 0, 0, 0]);
    assert_eq!(
        init_or_realloc_with_admin(&mut record, 40, &[6u8; 32], &[1], &body, &mut payer, &vec![], false, 500),
        Err(ChunkLoaderError::ConstraintHasOne { stored: owner, presented: [6u8; 32] })
    );
    assert_eq!(record, before);
    assert_eq!(payer, account(4, 1000, &[]));

    let mut nearly = owner;
    nearly[31] = 4;
    assert_eq!(
        init_or_realloc_with_admin(&mut record, 40, &nearly, &[1], &body, &mut payer, &vec![], true, 0),
        Err(ChunkLoaderError::ConstraintHasOne { stored: owner, presented: nearly })
    );
    assert_eq!(record, before);
}

#[test]
fn stored_owner_that_matches_lets_the_record_grow() {
    let owner = [5u8; 32];
    let mut record = record_with_owner(owner);
    let mut payer = account(4, 1000, &[]);
    let mut body = owner.to_vec();
    body.extend_from_slice(&[1, 0, 0, 0, 9, 0, 0, 0, 0]);
    assert_eq!(
        init_or_realloc_with_admin(&mut record, 42, &owner, &[1], &body, &mut payer, &vec![], false, 500),
        Ok(())
    );
    let mut expected = vec![1u8];
    expected.extend_from_slice(&body);
    assert_eq!(record.data, expected);
    assert_eq!(record.lamports, 500);
    assert_eq!(payer.lamports, 900);
}

#[test]
fn storage_too_short_for_an_owner_is_refused() {
    let mut record = account(3, 50, &[1, 2, 3]);
    let mut payer = account(4, 1000, &[]);
    assert_eq!(
        init_or_realloc_with_admin(&mut record, 40, &[2u8; 32], &[1], &[], &mut payer, &vec![], false, 500),
        Err(ChunkLoaderError::AccountDidNotDeserialize)
    );
    assert_eq!(record, account(3, 50, &[1, 2, 3]));
}

#[test]
fn action_of_a_creation() {
    let owner = [5u8; 32];
    let (address, bump) = find_chunk_holder_address(&owner, 1).unwrap();
    let seeds = chunk_holder_signer_seeds(&owner, 1, bump);
    let before = AccountState { key: address, is_signer: false, lamports: 0, data: vec![], program_id: [0u8; 32] };
    let mut record = before.clone();
    let mut payer = account(4, 1000, &[]);
    init_or_realloc(&mut record, 6, &[1], &[7, 8, 9], &mut payer, &seeds, false, 300).unwrap();
    assert_eq!(ledger_action(&before, &record), LedgerAction::Create { lamports: 300, space: 6 });
}

#[test]
fn action_of_a_resizing() {
    let before = account(3, 50, &[1, 2, 3, 4, 5, 6]);
    let mut record = before.clone();
    let mut payer = account(4, 1000, &[]);
    realloc(&mut record, &mut payer, 8, 60, false).unwrap();
    assert_eq!(ledger_action(&before, &record), LedgerAction::Resize { space: 8, paid: 10, reclaimed: 0 });
    let grown = record.clone();
    realloc(&mut record, &mut payer, 2, 20, true).unwrap();
    assert_eq!(ledger_action(&grown, &record), LedgerAction::Resize { space: 2, paid: 0, reclaimed: 40 });
    let shrunk = record.clone();
    realloc(&mut record, &mut payer, 1, 5, false).unwrap();
    assert_eq!(ledger_action(&shrunk, &record), LedgerAction::Resize { space: 1, paid: 0, reclaimed: 0 });
    assert_eq!(ledger_action(&record, &record), LedgerAction::Resize { space: 1, paid: 0, reclaimed: 0 });
}

#[test]
fn action_of_a_closing() {
    let before = account(3, 50, &[1, 2, 3]);
    let after = AccountState { key: [3u8; 32], is_signer: false, lamports: 0, data: vec![], program_id: [0u8; 32] };
    assert_eq!(ledger_action(&before, &after), LedgerAction::Close { lamports: 50 });
}
