//! Accounts as plain values, and the creation and resizing of a record's
//! storage.
//!
//! Every operation here either succeeds and changes the accounts as its
//! contract says, or is refused and changes nothing.

use crate::error::{ChunkLoaderError, ChunkLoaderErrorView};
use crate::pda::{id, same_key, seeds_sign_for, seeds_view, spec_create_program_address, spec_id};
use vstd::prelude::*;
use vstd::slice::slice_subrange;

verus! {

/// What the ledger holds of one account.
#[derive(Clone, Debug, PartialEq, Eq)]
pub struct AccountState {
    /// The account's address.
    pub key: [u8; 32],
    /// Whether the account signed the unit of work.
    pub is_signer: bool,
    /// The account's balance.
    pub lamports: u64,
    /// The account's storage.
    pub data: Vec<u8>,
    /// The address of the program that the account belongs to.
    pub program_id: [u8; 32],
}

/// An account as a mathematical value.
pub struct AccountView {
    pub key: Seq<u8>,
    pub is_signer: bool,
    pub lamports: u64,
    pub data: Seq<u8>,
    pub program_id: Seq<u8>,
}

impl View for AccountState {
    type V = AccountView;

    open spec fn view(&self) -> AccountView {
        AccountView {
            key: self.key@,
            is_signer: self.is_signer,
            lamports: self.lamports,
            data: self.data@,
            program_id: self.program_id@,
        }
    }
}

/// What an operation on a record and a payer leads to: the two accounts
/// after it, or the reason for which it is refused.
pub type Outcome = Result<(AccountView, AccountView), ChunkLoaderErrorView>;

/// Whether a call that was to lead to `expected` did: on success the two
/// accounts are as expected, and on refusal the error is the expected one and
/// both accounts are as they were.
pub open spec fn outcome_holds(
    expected: Outcome,
    r: Result<(), ChunkLoaderError>,
    first_before: AccountView,
    second_before: AccountView,
    first_after: AccountView,
    second_after: AccountView,
) -> bool {
    match expected {
        Ok((first, second)) => r is Ok && first_after == first && second_after == second,
        Err(e) => r matches Err(x) && x@ == e && first_after == first_before && second_after == second_before,
    }
}

/// Storage brought to `space` bytes: the bytes that fit stay, and what is
/// added is zero.
pub open spec fn spec_resized(data: Seq<u8>, space: usize) -> Seq<u8> {
    Seq::new(space as nat, |i: int| if i < data.len() { data[i] } else { 0u8 })
}

/// Storage with `head` written over its start.
pub open spec fn spec_overwritten(data: Seq<u8>, head: Seq<u8>) -> Seq<u8> {
    head + data.subrange(head.len() as int, data.len() as int)
}

/// Moving `lamports` from one account to another.
pub open spec fn spec_system_transfer(from: AccountView, to: AccountView, lamports: u64) -> Outcome {
    if from.lamports < lamports {
        Err(ChunkLoaderErrorView::InsufficientFunds { needed: lamports, available: from.lamports })
    } else if to.lamports + lamports > u64::MAX {
        Err(ChunkLoaderErrorView::ArithmeticOverflow)
    } else {
        Ok((
            AccountView { lamports: (from.lamports - lamports) as u64, ..from },
            AccountView { lamports: (to.lamports + lamports) as u64, ..to },
        ))
    }
}

/// Bringing a record to `space` bytes, for which the ledger asks a balance
/// of `rent_lamports`: the payer makes up what the record lacks, and gets
/// what the record has too much where `claim_extra_lamports` is set.
pub open spec fn spec_realloc(
    account: AccountView,
    payer: AccountView,
    space: usize,
    rent_lamports: u64,
    claim_extra_lamports: bool,
) -> Outcome {
    let resized = spec_resized(account.data, space);
    if rent_lamports > account.lamports {
        if payer.lamports < rent_lamports - account.lamports {
            Err(
                ChunkLoaderErrorView::InsufficientFunds {
                    needed: (rent_lamports - account.lamports) as u64,
                    available: payer.lamports,
                },
            )
        } else {
            Ok((
                AccountView { lamports: rent_lamports, data: resized, ..account },
                AccountView { lamports: (payer.lamports - (rent_lamports - account.lamports)) as u64, ..payer },
            ))
        }
    } else if claim_extra_lamports {
        if payer.lamports + (account.lamports - rent_lamports) > u64::MAX {
            Err(ChunkLoaderErrorView::ArithmeticOverflow)
        } else {
            Ok((
                AccountView { lamports: rent_lamports, data: resized, ..account },
                AccountView { lamports: (payer.lamports + (account.lamports - rent_lamports)) as u64, ..payer },
            ))
        }
    } else {
        Ok((AccountView { data: resized, ..account }, payer))
    }
}

/// Creating a record of `space` bytes at the address that the seeds sign
/// for, the payer giving it the balance that the ledger asks. The record
/// then belongs to this program.
pub open spec fn spec_create(
    account: AccountView,
    payer: AccountView,
    space: usize,
    rent_lamports: u64,
    signers_seeds: Seq<Seq<u8>>,
) -> Outcome {
    if spec_create_program_address(signers_seeds, spec_id()) != Some(account.key) {
        Err(ChunkLoaderErrorView::MissingRequiredSignature)
    } else if payer.lamports < rent_lamports {
        Err(ChunkLoaderErrorView::InsufficientFunds { needed: rent_lamports, available: payer.lamports })
    } else if account.lamports + rent_lamports > u64::MAX {
        Err(ChunkLoaderErrorView::ArithmeticOverflow)
    } else {
        Ok((
            AccountView {
                lamports: (account.lamports + rent_lamports) as u64,
                data: spec_resized(Seq::empty(), space),
                program_id: spec_id(),
                ..account
            },
            AccountView { lamports: (payer.lamports - rent_lamports) as u64, ..payer },
        ))
    }
}

/// Creating or resizing a record and writing the type tag and the payload
/// at its start. Bytes behind the payload stay as the resizing left them.
pub open spec fn spec_init_or_realloc(
    account: AccountView,
    space: usize,
    discriminator: Seq<u8>,
    data: Seq<u8>,
    payer: AccountView,
    signers_seeds: Seq<Seq<u8>>,
    claim_extra_lamports: bool,
    rent_lamports: u64,
) -> Outcome {
    let sized = if account.data.len() == 0 {
        spec_create(account, payer, space, rent_lamports, signers_seeds)
    } else {
        spec_realloc(account, payer, space, rent_lamports, claim_extra_lamports)
    };
    match sized {
        Err(e) => Err(e),
        Ok((record, paid)) => if discriminator.len() + data.len() > space {
            Err(ChunkLoaderErrorView::AccountDidNotSerialize)
        } else {
            Ok((AccountView { data: spec_overwritten(record.data, discriminator + data), ..record }, paid))
        },
    }
}

/// Whether a record with storage names `admin` as its owner: whether the 32
/// bytes behind the type tag are `admin`. `None` where the storage is too
/// short to hold an owner.
pub open spec fn spec_stored_admin(data: Seq<u8>, tag_len: nat) -> Option<Seq<u8>> {
    if data.len() < tag_len + 32 {
        None
    } else {
        Some(data.subrange(tag_len as int, tag_len as int + 32))
    }
}

/// Creating or resizing a record as [`spec_init_or_realloc`] does, once a
/// record that has storage is found to name `admin` as its owner.
pub open spec fn spec_init_or_realloc_with_admin(
    account: AccountView,
    space: usize,
    admin: Seq<u8>,
    discriminator: Seq<u8>,
    data: Seq<u8>,
    payer: AccountView,
    signers_seeds: Seq<Seq<u8>>,
    claim_extra_lamports: bool,
    rent_lamports: u64,
) -> Outcome {
    if account.data.len() > 0 && spec_stored_admin(account.data, discriminator.len()) is None {
        Err(ChunkLoaderErrorView::AccountDidNotDeserialize)
    } else if account.data.len() > 0 && spec_stored_admin(account.data, discriminator.len()) != Some(admin) {
        Err(
            ChunkLoaderErrorView::ConstraintHasOne {
                stored: spec_stored_admin(account.data, discriminator.len()).unwrap(),
                presented: admin,
            },
        )
    } else {
        spec_init_or_realloc(
            account,
            space,
            discriminator,
            data,
            payer,
            signers_seeds,
            claim_extra_lamports,
            rent_lamports,
        )
    }
}

/// What the ledger has to do to a record, and to the balance of the one who
/// pays for it, to bring the record from one state to another. The record's
/// bytes are written afterwards.
#[derive(Clone, Copy, Debug, PartialEq, Eq)]
pub enum LedgerAction {
    /// Create the account with `space` bytes, the payer giving it `lamports`.
    Create {
        lamports: u64,
        space: usize,
    },
    /// Bring the storage to `space` bytes; the payer gives the record `paid`,
    /// and gets `reclaimed` from it.
    Resize {
        space: usize,
        paid: u64,
        reclaimed: u64,
    },
    /// Close the account, the payer getting its balance of `lamports`.
    Close {
        lamports: u64,
    },
}

/// The action that leads from `before` to `after`: a record gets storage by
/// being created and loses it by being closed; whatever else changes is a
/// resizing, with the difference of the balances paid or reclaimed.
pub open spec fn spec_ledger_action(before: AccountView, after: AccountView) -> LedgerAction {
    if before.data.len() == 0 && after.data.len() > 0 {
        LedgerAction::Create {
            lamports: if after.lamports >= before.lamports {
                (after.lamports - before.lamports) as u64
            } else {
                0
            },
            space: after.data.len() as usize,
        }
    } else if before.data.len() > 0 && after.data.len() == 0 {
        LedgerAction::Close { lamports: before.lamports }
    } else {
        LedgerAction::Resize {
            space: after.data.len() as usize,
            paid: if after.lamports >= before.lamports {
                (after.lamports - before.lamports) as u64
            } else {
                0
            },
            reclaimed: if before.lamports >= after.lamports {
                (before.lamports - after.lamports) as u64
            } else {
                0
            },
        }
    }
}

/// A creation is carried out by creating: with the balance that the ledger
/// asks, and the size asked for.
pub proof fn lemma_create_action(
    account: AccountView,
    payer: AccountView,
    space: usize,
    rent_lamports: u64,
    signers_seeds: Seq<Seq<u8>>,
)
    requires
        account.data.len() == 0,
        space > 0,
        spec_create(account, payer, space, rent_lamports, signers_seeds) is Ok,
    ensures
        spec_ledger_action(account, spec_create(account, payer, space, rent_lamports, signers_seeds)->Ok_0.0)
            == (LedgerAction::Create { lamports: rent_lamports, space }),
{
}

/// A resizing is carried out by resizing: the payer gives what the record
/// lacks, and gets what was reclaimed.
pub proof fn lemma_realloc_action(
    account: AccountView,
    payer: AccountView,
    space: usize,
    rent_lamports: u64,
    claim_extra_lamports: bool,
)
    requires
        account.data.len() > 0,
        space > 0,
        spec_realloc(account, payer, space, rent_lamports, claim_extra_lamports) is Ok,
    ensures
        spec_ledger_action(account, spec_realloc(account, payer, space, rent_lamports, claim_extra_lamports)->Ok_0.0)
            == (LedgerAction::Resize {
            space,
            paid: if rent_lamports > account.lamports {
                (rent_lamports - account.lamports) as u64
            } else {
                0
            },
            reclaimed: if rent_lamports < account.lamports && claim_extra_lamports {
                (account.lamports - rent_lamports) as u64
            } else {
                0
            },
        }),
{
}

/// Says what the ledger has to do to bring a record from `before` to
/// `after`.
pub fn ledger_action(before: &AccountState, after: &AccountState) -> (r: LedgerAction)
    ensures
        r == spec_ledger_action(before@, after@),
{
    let paid = if after.lamports >= before.lamports {
        after.lamports - before.lamports
    } else {
        0
    };
    let reclaimed = if before.lamports >= after.lamports {
        before.lamports - after.lamports
    } else {
        0
    };
    if before.data.len() == 0 && after.data.len() > 0 {
        LedgerAction::Create { lamports: paid, space: after.data.len() }
    } else if before.data.len() > 0 && after.data.len() == 0 {
        LedgerAction::Close { lamports: before.lamports }
    } else {
        LedgerAction::Resize { space: after.data.len(), paid, reclaimed }
    }
}

/// Moves `lamports` from `from` to `to`. Refused where `from` has less, or
/// where `to` would hold more than a balance can.
pub fn system_transfer(from: &mut AccountState, to: &mut AccountState, lamports: u64) -> (r: Result<(), ChunkLoaderError>)
    ensures
        outcome_holds(
            spec_system_transfer(old(from)@, old(to)@, lamports),
            r,
            old(from)@,
            old(to)@,
            final(from)@,
            final(to)@,
        ),
{
    if from.lamports < lamports {
        return Err(ChunkLoaderError::InsufficientFunds { needed: lamports, available: from.lamports });
    }
    if to.lamports > u64::MAX - lamports {
        return Err(ChunkLoaderError::ArithmeticOverflow);
    }
    from.lamports = from.lamports - lamports;
    to.lamports = to.lamports + lamports;
    Ok(())
}

/// Brings the storage of `account` to `space` bytes, keeping the bytes that
/// fit and filling what is added with zero, and settles the balance that the
/// ledger asks for that size, `rent_lamports`: `payer` makes up what is
/// missing; what is too much goes to `payer` where `claim_extra_lamports` is
/// set, and stays in the account where it is not.
pub fn realloc(
    account: &mut AccountState,
    payer: &mut AccountState,
    space: usize,
    rent_lamports: u64,
    claim_extra_lamports: bool,
) -> (r: Result<(), ChunkLoaderError>)
    ensures
        outcome_holds(
            spec_realloc(old(account)@, old(payer)@, space, rent_lamports, claim_extra_lamports),
            r,
            old(account)@,
            old(payer)@,
            final(account)@,
            final(payer)@,
        ),
{
    let current_lamports = account.lamports;
    if rent_lamports > current_lamports {
        system_transfer(payer, account, rent_lamports - current_lamports)?;
    } else if claim_extra_lamports {
        let extra = current_lamports - rent_lamports;
        if payer.lamports > u64::MAX - extra {
            return Err(ChunkLoaderError::ArithmeticOverflow);
        }
        account.lamports = rent_lamports;
        payer.lamports = payer.lamports + extra;
    }
    account.data.resize(space, 0u8);
    assert(account.data@ =~= spec_resized(old(account).data@, space));
    Ok(())
}

/// Creates the storage of `account`, or resizes it where it has some, to
/// `space` bytes, and writes `discriminator` and then `data` at its start.
///
/// An account without storage is created at the address that
/// `signers_seeds` sign for, `payer` giving it `rent_lamports`; seeds that do
/// not sign for it are refused with `MissingRequiredSignature`. One with
/// storage is resized as [`realloc`] does. Refused, with nothing changed,
/// where the creation or the resizing is refused, and where `space` does not
/// hold what is to be written.
pub fn init_or_realloc(
    account: &mut AccountState,
    space: usize,
    discriminator: &[u8],
    data: &[u8],
    payer: &mut AccountState,
    signers_seeds: &Vec<Vec<u8>>,
    claim_extra_lamports: bool,
    rent_lamports: u64,
) -> (r: Result<(), ChunkLoaderError>)
    ensures
        outcome_holds(
            spec_init_or_realloc(
                old(account)@,
                space,
                discriminator@,
                data@,
                old(payer)@,
                seeds_view(signers_seeds@),
                claim_extra_lamports,
                rent_lamports,
            ),
            r,
            old(account)@,
            old(payer)@,
            final(account)@,
            final(payer)@,
        ),
        r is Ok ==> final(account)@.data.len() == space,
{
    let fits = discriminator.len() <= space && data.len() <= space - discriminator.len();
    if account.data.len() == 0 {
        if !seeds_sign_for(signers_seeds, &account.key) {
            return Err(ChunkLoaderError::MissingRequiredSignature);
        }
        if payer.lamports < rent_lamports {
            return Err(ChunkLoaderError::InsufficientFunds { needed: rent_lamports, available: payer.lamports });
        }
        if account.lamports > u64::MAX - rent_lamports {
            return Err(ChunkLoaderError::ArithmeticOverflow);
        }
        if !fits {
            return Err(ChunkLoaderError::AccountDidNotSerialize);
        }
        payer.lamports = payer.lamports - rent_lamports;
        account.lamports = account.lamports + rent_lamports;
        account.data.resize(space, 0u8);
        account.program_id = id();
        assert(account.data@ =~= spec_resized(Seq::empty(), space));
    } else {
        if !fits {
            check_realloc(account, payer, rent_lamports, claim_extra_lamports)?;
            return Err(ChunkLoaderError::AccountDidNotSerialize);
        }
        realloc(account, payer, space, rent_lamports, claim_extra_lamports)?;
    }
    let ghost sized = account.data@;
    let head_len = discriminator.len() + data.len();
    let mut written: Vec<u8> = Vec::new();
    written.extend_from_slice(discriminator);
    written.extend_from_slice(data);
    written.extend_from_slice(slice_subrange(account.data.as_slice(), head_len, space));
    assert(written@ =~= spec_overwritten(sized, discriminator@ + data@));
    account.data = written;
    Ok(())
}

/// Whether [`realloc`] would be refused, and why.
pub fn check_realloc(
    account: &AccountState,
    payer: &AccountState,
    rent_lamports: u64,
    claim_extra_lamports: bool,
) -> (r: Result<(), ChunkLoaderError>)
    ensures
        forall|space: usize|
            match #[trigger] spec_realloc(account@, payer@, space, rent_lamports, claim_extra_lamports) {
                Ok(_) => r is Ok,
                Err(e) => r matches Err(x) && x@ == e,
            },
{
    if rent_lamports > account.lamports {
        if payer.lamports < rent_lamports - account.lamports {
            return Err(
                ChunkLoaderError::InsufficientFunds {
                    needed: rent_lamports - account.lamports,
                    available: payer.lamports,
                },
            );
        }
    } else if claim_extra_lamports {
        if payer.lamports > u64::MAX - (account.lamports - rent_lamports) {
            return Err(ChunkLoaderError::ArithmeticOverflow);
        }
    }
    Ok(())
}

/// Creates or resizes a record as [`init_or_realloc`] does, making sure
/// first that a record that already has storage names `admin` as its owner in
/// the 32 bytes behind its type tag.
///
/// A record whose stored owner is another is refused with
/// `ConstraintHasOne`, and one too short to hold an owner with
/// `AccountDidNotDeserialize`; neither account is changed then.
pub fn init_or_realloc_with_admin(
    account: &mut AccountState,
    space: usize,
    admin: &[u8; 32],
    discriminator: &[u8],
    data: &[u8],
    payer: &mut AccountState,
    signers_seeds: &Vec<Vec<u8>>,
    claim_extra_lamports: bool,
    rent_lamports: u64,
) -> (r: Result<(), ChunkLoaderError>)
    ensures
        outcome_holds(
            spec_init_or_realloc_with_admin(
                old(account)@,
                space,
                admin@,
                discriminator@,
                data@,
                old(payer)@,
                seeds_view(signers_seeds@),
                claim_extra_lamports,
                rent_lamports,
            ),
            r,
            old(account)@,
            old(payer)@,
            final(account)@,
            final(payer)@,
        ),
        r is Ok ==> final(account)@.data.len() == space,
        ({
            let stored = spec_stored_admin(old(account)@.data, discriminator@.len());
            stored is Some && stored != Some(admin@) ==> {
                &&& r is Err
                &&& r->Err_0@ == (ChunkLoaderErrorView::ConstraintHasOne { stored: stored.unwrap(), presented: admin@ })
                &&& final(account)@ == old(account)@
                &&& final(payer)@ == old(payer)@
            }
        }),
{
    let have = account.data.len();
    if have > 0 {
        let tag_len = discriminator.len();
        if have < tag_len || have - tag_len < 32 {
            return Err(ChunkLoaderError::AccountDidNotDeserialize);
        }
        let mut existing_admin = [0u8; 32];
        let mut i: usize = 0;
        while i < 32
            invariant
                i <= 32,
                have == account.data@.len(),
                tag_len + 32 <= have,
                forall|j: int| 0 <= j < i ==> existing_admin@[j] == account.data@[tag_len + j],
            decreases 32 - i,
        {
            existing_admin[i] = account.data[tag_len + i];
            i += 1;
        }
        assert(existing_admin@ =~= account.data@.subrange(tag_len as int, tag_len + 32));
        if !same_key(&existing_admin, admin) {
            return Err(ChunkLoaderError::ConstraintHasOne { stored: existing_admin, presented: *admin });
        }
    }
    init_or_realloc(
        account,
        space,
        discriminator,
        data,
        payer,
        signers_seeds,
        claim_extra_lamports,
        rent_lamports,
    )
}

} // verus!
