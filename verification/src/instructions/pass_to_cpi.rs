//! Passing the payload of a record on to another program.
//!
//! The call itself is the host's to make. [`pass_to_cpi`] and
//! [`pass_to_cpi_checked`] say what is to be called and with what;
//! [`finish_cpi`] takes what the call returned and closes the record where it
//! succeeded.

use crate::error::{ChunkLoaderError, ChunkLoaderErrorView};
use crate::instructions::close_chunks::{close_account, owned_holder, spec_close, spec_owned_holder};
use crate::reassembly::{spec_join, spec_total_len};
use crate::state::ChunkView;
use crate::utils::{outcome_holds, AccountState, AccountView, Outcome};
use vstd::prelude::*;

verus! {

/// An account that is handed to the invoked program, and what that program
/// may do with it.
#[derive(Clone, Copy, Debug, PartialEq, Eq)]
pub struct AccountMeta {
    /// The account's address.
    pub pubkey: [u8; 32],
    /// Whether the account signs the call.
    pub is_signer: bool,
    /// Whether the invoked program may write to the account.
    pub is_writable: bool,
}

/// A call of another program.
#[derive(Clone, Debug, PartialEq, Eq)]
pub struct Instruction {
    /// The program to call.
    pub program_id: [u8; 32],
    /// The accounts that are handed to it.
    pub accounts: Vec<AccountMeta>,
    /// The payload.
    pub data: Vec<u8>,
}

/// A call as a mathematical value.
pub struct InstructionView {
    pub program_id: Seq<u8>,
    pub accounts: Seq<AccountMeta>,
    pub data: Seq<u8>,
}

impl View for Instruction {
    type V = InstructionView;

    open spec fn view(&self) -> InstructionView {
        InstructionView { program_id: self.program_id@, accounts: self.accounts@, data: self.data@ }
    }
}

/// The accounts of `pass_to_cpi`.
#[derive(Clone, Debug, PartialEq, Eq)]
pub struct PassToCpi {
    /// The owner of the record, who gets its balance once the payload is
    /// passed on.
    pub owner: AccountState,
    /// The record whose payload is passed on.
    pub chunk_holder: AccountState,
    /// The address of the program that gets the payload.
    pub program: [u8; 32],
}

/// The call that passes the payload of the record on: to `program`, with the
/// accounts given, the payload being the data of the chunks by ascending
/// index. Refused where the owner may not use the record.
pub open spec fn spec_pass_to_cpi(
    chunk_holder: AccountView,
    owner: AccountView,
    program: Seq<u8>,
    remaining_accounts: Seq<AccountMeta>,
) -> Result<InstructionView, ChunkLoaderErrorView> {
    match spec_owned_holder(chunk_holder, owner) {
        Err(e) => Err(e),
        Ok(h) => Ok(InstructionView { program_id: program, accounts: remaining_accounts, data: spec_join(h.chunks) }),
    }
}

/// The length of the data of all chunks together, or the largest `usize`
/// where it is more than that.
pub open spec fn spec_capped_len(chunks: Seq<ChunkView>) -> usize {
    if spec_total_len(chunks) <= usize::MAX {
        spec_total_len(chunks) as usize
    } else {
        usize::MAX
    }
}

/// The call that passes the payload on once its length is found to be the
/// expected one.
pub open spec fn spec_pass_to_cpi_checked(
    chunk_holder: AccountView,
    owner: AccountView,
    program: Seq<u8>,
    remaining_accounts: Seq<AccountMeta>,
    expected_length: u16,
) -> Result<InstructionView, ChunkLoaderErrorView> {
    match spec_owned_holder(chunk_holder, owner) {
        Err(e) => Err(e),
        Ok(h) => if spec_total_len(h.chunks) != expected_length {
            Err(ChunkLoaderErrorView::DataLengthMismatch { expected: expected_length, actual: spec_capped_len(h.chunks) })
        } else {
            spec_pass_to_cpi(chunk_holder, owner, program, remaining_accounts)
        },
    }
}

/// What follows the call: after a failure nothing changes and the failure is
/// handed on; after a success the record is closed.
pub open spec fn spec_finish_cpi(chunk_holder: AccountView, owner: AccountView, outcome: Result<(), u64>) -> Outcome {
    match outcome {
        Err(code) => Err(ChunkLoaderErrorView::DownstreamFailure(code)),
        Ok(_) => match spec_owned_holder(chunk_holder, owner) {
            Err(e) => Err(e),
            Ok(_) => spec_close(chunk_holder, owner),
        },
    }
}

/// Puts the chunks of the record together and builds the call that passes
/// the payload on to `ctx.program` with `remaining_accounts`. Nothing is
/// changed: the record is closed by [`finish_cpi`], once the call has been
/// made.
///
/// Refused where the caller did not sign, where the account belongs to
/// another program, where the storage holds no chunk holder, and where the
/// record names another owner.
pub fn pass_to_cpi(ctx: &PassToCpi, remaining_accounts: &Vec<AccountMeta>) -> (r: Result<Instruction, ChunkLoaderError>)
    ensures
        match spec_pass_to_cpi(ctx.chunk_holder@, ctx.owner@, ctx.program@, remaining_accounts@) {
            Ok(call) => r matches Ok(x) && x@ == call,
            Err(e) => r matches Err(x) && x@ == e,
        },
{
    let mut holder = owned_holder(&ctx.chunk_holder, &ctx.owner)?;
    let data = holder.join_chunks();
    let mut accounts: Vec<AccountMeta> = Vec::new();
    let n = remaining_accounts.len();
    let mut i: usize = 0;
    while i < n
        invariant
            i <= n,
            n == remaining_accounts@.len(),
            accounts@ == remaining_accounts@.take(i as int),
        decreases n - i,
    {
        let x = &remaining_accounts[i];
        accounts.push(AccountMeta { pubkey: x.pubkey, is_signer: x.is_signer, is_writable: x.is_writable });
        assert(accounts@ =~= remaining_accounts@.take(i as int + 1));
        i += 1;
    }
    assert(remaining_accounts@.take(n as int) =~= remaining_accounts@);
    Ok(Instruction { program_id: ctx.program, accounts, data })
}

/// As [`pass_to_cpi`], once the data of all chunks together is found to be
/// `expected_length` bytes long. Where it is not, the call is refused with
/// `DataLengthMismatch`: no call is built, so none is made, and the record
/// stays as it is.
pub fn pass_to_cpi_checked(ctx: &PassToCpi, remaining_accounts: &Vec<AccountMeta>, expected_length: u16) -> (r: Result<Instruction, ChunkLoaderError>)
    ensures
        match spec_pass_to_cpi_checked(ctx.chunk_holder@, ctx.owner@, ctx.program@, remaining_accounts@, expected_length) {
            Ok(call) => r matches Ok(x) && x@ == call,
            Err(e) => r matches Err(x) && x@ == e,
        },
        ({
            let held = spec_owned_holder(ctx.chunk_holder@, ctx.owner@);
            held is Ok && spec_total_len(held->Ok_0.chunks) != expected_length ==> r is Err && r->Err_0@ == (
            ChunkLoaderErrorView::DataLengthMismatch {
                expected: expected_length,
                actual: spec_capped_len(held->Ok_0.chunks),
            })
        }),
{
    let holder = owned_holder(&ctx.chunk_holder, &ctx.owner)?;
    match holder.data_len() {
        Some(len) => {
            if len != expected_length as usize {
                return Err(ChunkLoaderError::DataLengthMismatch { expected: expected_length, actual: len });
            }
        },
        None => {
            return Err(ChunkLoaderError::DataLengthMismatch { expected: expected_length, actual: usize::MAX });
        },
    }
    pass_to_cpi(ctx, remaining_accounts)
}

/// Takes what the call of the other program returned. After a failure the
/// failure is handed on as `DownstreamFailure` with its code, and the record
/// and the balances stay as they are. After a success the record is closed
/// and its balance goes to its owner.
pub fn finish_cpi(ctx: &mut PassToCpi, outcome: Result<(), u64>) -> (r: Result<(), ChunkLoaderError>)
    ensures
        outcome_holds(
            spec_finish_cpi(old(ctx).chunk_holder@, old(ctx).owner@, outcome),
            r,
            old(ctx).chunk_holder@,
            old(ctx).owner@,
            final(ctx).chunk_holder@,
            final(ctx).owner@,
        ),
        final(ctx).program == old(ctx).program,
        outcome matches Err(code) ==> {
            &&& r == Err::<(), ChunkLoaderError>(ChunkLoaderError::DownstreamFailure(code))
            &&& final(ctx).chunk_holder@ == old(ctx).chunk_holder@
            &&& final(ctx).owner@ == old(ctx).owner@
        },
{
    match outcome {
        Err(code) => Err(ChunkLoaderError::DownstreamFailure(code)),
        Ok(_) => match owned_holder(&ctx.chunk_holder, &ctx.owner) {
            Err(e) => Err(e),
            Ok(_) => close_account(&mut ctx.chunk_holder, &mut ctx.owner),
        },
    }
}

} // verus!
