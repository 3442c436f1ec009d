//! Closing a record without passing its payload on.

use crate::error::{ChunkLoaderError, ChunkLoaderErrorView};
use crate::pda::{id, same_key, spec_id};
use crate::state::{ChunkHolder, ChunkHolderView};
use crate::utils::{outcome_holds, spec_ledger_action, AccountState, AccountView, LedgerAction, Outcome};
use vstd::prelude::*;

verus! {

/// The accounts of `close_chunks`.
#[derive(Clone, Debug, PartialEq, Eq)]
pub struct CloseChunks {
    /// The owner of the record, who gets its balance.
    pub owner: AccountState,
    /// The record to close.
    pub chunk_holder: AccountState,
}

/// The address of the system program, to which a closed account goes back.
pub open spec fn spec_system_program() -> Seq<u8> {
    Seq::new(32, |i: int| 0u8)
}

/// The record that `chunk_holder` stores for `owner`, or the reason for
/// which `owner` may not use it: the owner has to sign, the account has to
/// belong to this program, its storage has to hold a chunk holder, and that
/// has to name `owner`.
pub open spec fn spec_owned_holder(chunk_holder: AccountView, owner: AccountView) -> Result<ChunkHolderView, ChunkLoaderErrorView> {
    if !owner.is_signer {
        Err(ChunkLoaderErrorView::AccountNotSigner)
    } else if chunk_holder.program_id != spec_id() {
        Err(ChunkLoaderErrorView::AccountOwnedByWrongProgram)
    } else {
        match ChunkHolderView::spec_try_deserialize(chunk_holder.data) {
            Err(e) => Err(e),
            Ok(h) => if h.owner != owner.key {
                Err(ChunkLoaderErrorView::ConstraintHasOne { stored: h.owner, presented: owner.key })
            } else {
                Ok(h)
            },
        }
    }
}

/// Closing an account: its balance goes to `destination`, its storage goes
/// away, and the account goes back to the system program.
pub open spec fn spec_close(account: AccountView, destination: AccountView) -> Outcome {
    if destination.lamports + account.lamports > u64::MAX {
        Err(ChunkLoaderErrorView::ArithmeticOverflow)
    } else {
        Ok((
            AccountView { lamports: 0, data: Seq::empty(), program_id: spec_system_program(), ..account },
            AccountView { lamports: (destination.lamports + account.lamports) as u64, ..destination },
        ))
    }
}

/// A closing is carried out by closing: the destination gets the balance
/// that the account had.
pub proof fn lemma_close_action(account: AccountView, destination: AccountView)
    requires
        account.data.len() > 0,
        spec_close(account, destination) is Ok,
    ensures
        spec_ledger_action(account, spec_close(account, destination)->Ok_0.0) == (LedgerAction::Close {
            lamports: account.lamports,
        }),
{
}

/// Closing the record of an owner: refused where the owner may not use the
/// record.
pub open spec fn spec_close_chunks(chunk_holder: AccountView, owner: AccountView) -> Outcome {
    match spec_owned_holder(chunk_holder, owner) {
        Err(e) => Err(e),
        Ok(_) => spec_close(chunk_holder, owner),
    }
}

/// Reads the record that `chunk_holder` stores and makes sure that `owner`
/// signed, that the account belongs to this program, and that `owner` is the
/// owner that the record names.
pub fn owned_holder(chunk_holder: &AccountState, owner: &AccountState) -> (r: Result<ChunkHolder, ChunkLoaderError>)
    ensures
        match spec_owned_holder(chunk_holder@, owner@) {
            Ok(h) => r matches Ok(x) && x@ == h,
            Err(e) => r matches Err(x) && x@ == e,
        },
{
    if !owner.is_signer {
        return Err(ChunkLoaderError::AccountNotSigner);
    }
    let program_id = id();
    if !same_key(&chunk_holder.program_id, &program_id) {
        return Err(ChunkLoaderError::AccountOwnedByWrongProgram);
    }
    let holder = ChunkHolder::try_deserialize(chunk_holder.data.as_slice())?;
    if !same_key(&holder.owner, &owner.key) {
        return Err(ChunkLoaderError::ConstraintHasOne { stored: holder.owner, presented: owner.key });
    }
    Ok(holder)
}

/// Closes `account`: its balance goes to `destination`, its storage goes
/// away, and it goes back to the system program. Refused, with nothing changed, where `destination` cannot hold the
/// balance.
pub fn close_account(account: &mut AccountState, destination: &mut AccountState) -> (r: Result<(), ChunkLoaderError>)
    ensures
        outcome_holds(
            spec_close(old(account)@, old(destination)@),
            r,
            old(account)@,
            old(destination)@,
            final(account)@,
            final(destination)@,
        ),
{
    if destination.lamports > u64::MAX - account.lamports {
        return Err(ChunkLoaderError::ArithmeticOverflow);
    }
    destination.lamports = destination.lamports + account.lamports;
    account.lamports = 0;
    account.data = Vec::new();
    account.program_id = [0u8; 32];
    assert(account.program_id@ =~= spec_system_program());
    Ok(())
}

/// Closes the record and gives its balance to its owner, passing nothing
/// on. Refused, with nothing changed, where the caller did not sign, where
/// the account belongs to another program, where the storage holds no chunk
/// holder, and where the record names another owner.
pub fn close_chunks(ctx: &mut CloseChunks) -> (r: Result<(), ChunkLoaderError>)
    ensures
        outcome_holds(
            spec_close_chunks(old(ctx).chunk_holder@, old(ctx).owner@),
            r,
            old(ctx).chunk_holder@,
            old(ctx).owner@,
            final(ctx).chunk_holder@,
            final(ctx).owner@,
        ),
{
    match owned_holder(&ctx.chunk_holder, &ctx.owner) {
        Err(e) => Err(e),
        Ok(_) => close_account(&mut ctx.chunk_holder, &mut ctx.owner),
    }
}

} // verus!
