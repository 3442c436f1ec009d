//! Loading one chunk into a record.

use crate::error::{ChunkLoaderError, ChunkLoaderErrorView};
use crate::pda::{chunk_holder_signer_seeds, find_chunk_holder_address, same_key, spec_chunk_holder_seeds, spec_find_program_address, spec_id, spec_signer_seeds};
use crate::state::{lemma_deserialize_serialize, lemma_serialize_len, spec_chunks_space, Chunk, ChunkHolder, ChunkHolderView, ChunkView};
use crate::utils::{init_or_realloc_with_admin, outcome_holds, spec_init_or_realloc_with_admin, spec_overwritten, spec_resized, AccountState, AccountView, Outcome};
use vstd::prelude::*;

verus! {

/// The accounts of `load_chunk`.
#[derive(Clone, Debug, PartialEq, Eq)]
pub struct LoadChunk {
    /// The caller, who owns the record and pays for its storage.
    pub owner: AccountState,
    /// The record, at the address derived from the owner and the record's
    /// number.
    pub chunk_holder: AccountState,
}

/// Bytes that a record without chunks takes: the type tag, the owner and the
/// number of chunks.
pub const HEADER_SPACE: usize = 37;

/// The size that a record's storage is brought to when `chunk` is loaded:
/// the header and the chunk for a record without storage, and the storage
/// there is and the chunk for any other.
pub open spec fn spec_required_space(data: Seq<u8>, chunk: ChunkView) -> nat {
    if data.len() == 0 {
        (HEADER_SPACE + 5 + chunk.data.len()) as nat
    } else {
        data.len() + 5 + chunk.data.len()
    }
}

/// The record that the storage holds once `chunk` is loaded: a new record of
/// `owner` with this one chunk where there is no storage, and the record
/// stored with the chunk behind its chunks elsewhere.
pub open spec fn spec_appended(data: Seq<u8>, owner: Seq<u8>, chunk: ChunkView) -> Result<ChunkHolderView, ChunkLoaderErrorView> {
    if data.len() == 0 {
        Ok(ChunkHolderView { owner, chunks: seq![chunk] })
    } else {
        match ChunkHolderView::spec_try_deserialize(data) {
            Err(e) => Err(e),
            Ok(h) => Ok(h.push(chunk)),
        }
    }
}

/// Loading `chunk` into the record that `owner` numbered `chunk_holder_id`,
/// the ledger asking `rent_lamports` for the record's new size.
pub open spec fn spec_load_chunk(
    chunk_holder: AccountView,
    owner: AccountView,
    chunk_holder_id: u32,
    chunk: ChunkView,
    rent_lamports: u64,
) -> Outcome {
    if !owner.is_signer {
        Err(ChunkLoaderErrorView::AccountNotSigner)
    } else {
        match spec_find_program_address(spec_chunk_holder_seeds(owner.key, chunk_holder_id), spec_id()) {
            None => Err(ChunkLoaderErrorView::ConstraintSeeds { chunk_holder_id }),
            Some((address, bump)) => if address != chunk_holder.key {
                Err(ChunkLoaderErrorView::ConstraintSeeds { chunk_holder_id })
            } else {
                match spec_appended(chunk_holder.data, owner.key, chunk) {
                    Err(e) => Err(e),
                    Ok(h) => if spec_required_space(chunk_holder.data, chunk) > usize::MAX {
                        Err(ChunkLoaderErrorView::ArithmeticOverflow)
                    } else if !h.serializable() {
                        Err(ChunkLoaderErrorView::AccountDidNotSerialize)
                    } else {
                        spec_init_or_realloc_with_admin(
                            chunk_holder,
                            spec_required_space(chunk_holder.data, chunk) as usize,
                            owner.key,
                            seq![ChunkHolder::DISCRIMINATOR],
                            h.spec_serialize(),
                            owner,
                            spec_signer_seeds(owner.key, chunk_holder_id, bump),
                            false,
                            rent_lamports,
                        )
                    },
                }
            },
        }
    }
}

/// Whether storage holds exactly the record `h`: the type tag and the
/// record's bytes, and nothing behind them.
pub open spec fn spec_stores(data: Seq<u8>, h: ChunkHolderView) -> bool {
    h.serializable() && data == h.spec_record_bytes()
}

/// Once a chunk is loaded into a record without storage, the storage holds
/// exactly a record of the caller with this one chunk: it is as long as the
/// header and the bytes that the chunk takes.
pub proof fn lemma_first_chunk_fills_storage(
    chunk_holder: AccountView,
    owner: AccountView,
    chunk_holder_id: u32,
    chunk: ChunkView,
    rent_lamports: u64,
)
    requires
        chunk_holder.data.len() == 0,
        spec_load_chunk(chunk_holder, owner, chunk_holder_id, chunk, rent_lamports) is Ok,
    ensures
        ({
            let (record, _) = spec_load_chunk(chunk_holder, owner, chunk_holder_id, chunk, rent_lamports)->Ok_0;
            let h = ChunkHolderView { owner: owner.key, chunks: seq![chunk] };
            &&& spec_stores(record.data, h)
            &&& record.data.len() == HEADER_SPACE + spec_chunks_space(h.chunks)
        }),
{
    let h = ChunkHolderView { owner: owner.key, chunks: seq![chunk] };
    let space = spec_required_space(chunk_holder.data, chunk) as usize;
    let head = seq![ChunkHolder::DISCRIMINATOR] + h.spec_serialize();
    lemma_serialize_len(h);
    assert(h.chunks.drop_last().len() == 0);
    assert(spec_chunks_space(h.chunks.drop_last()) == 0);
    assert(spec_chunks_space(h.chunks) == 5 + chunk.data.len());
    assert(head.len() == space);
    let sized = spec_resized(Seq::empty(), space);
    assert(spec_overwritten(sized, head) =~= head);
}

/// Once a chunk is loaded into storage that holds exactly the record `h`, the
/// storage holds exactly `h` with the chunk behind its chunks: it is as long
/// as the header and the bytes that all chunks take, those loaded before and
/// this one.
pub proof fn lemma_next_chunk_fills_storage(
    chunk_holder: AccountView,
    owner: AccountView,
    chunk_holder_id: u32,
    chunk: ChunkView,
    rent_lamports: u64,
    h: ChunkHolderView,
)
    requires
        spec_stores(chunk_holder.data, h),
        spec_load_chunk(chunk_holder, owner, chunk_holder_id, chunk, rent_lamports) is Ok,
    ensures
        ({
            let (record, _) = spec_load_chunk(chunk_holder, owner, chunk_holder_id, chunk, rent_lamports)->Ok_0;
            &&& spec_stores(record.data, h.push(chunk))
            &&& record.data.len() == HEADER_SPACE + spec_chunks_space(h.chunks.push(chunk))
        }),
{
    let data = chunk_holder.data;
    let more = h.push(chunk);
    let space = spec_required_space(data, chunk) as usize;
    let head = seq![ChunkHolder::DISCRIMINATOR] + more.spec_serialize();
    lemma_serialize_len(h);
    lemma_serialize_len(more);
    assert(more.chunks.drop_last() =~= h.chunks);
    assert(spec_chunks_space(more.chunks) == spec_chunks_space(h.chunks) + 5 + chunk.data.len());
    assert(data.subrange(1, data.len() as int) =~= h.spec_serialize() + Seq::<u8>::empty());
    lemma_deserialize_serialize(h, Seq::empty());
    assert(ChunkHolderView::spec_try_deserialize(data) == Ok::<ChunkHolderView, ChunkLoaderErrorView>(h));
    assert(head.len() == space);
    let sized = spec_resized(data, space);
    assert(spec_overwritten(sized, head) =~= head);
}

/// The size that the storage of `chunk_holder` is brought to when `chunk`
/// is loaded, or `None` where that is more than a `usize` holds.
pub fn required_space(chunk_holder: &AccountState, chunk: &Chunk) -> (r: Option<usize>)
    ensures
        r == if spec_required_space(chunk_holder@.data, chunk@) <= usize::MAX {
            Some(spec_required_space(chunk_holder@.data, chunk@) as usize)
        } else {
            None
        },
{
    if chunk.data.len() > usize::MAX - Chunk::INIT_SPACE {
        return None;
    }
    let have = chunk_holder.data.len();
    let base = if have == 0 {
        HEADER_SPACE
    } else {
        have
    };
    base.checked_add(chunk.self_space())
}

/// Loads `chunk` into the record that the caller numbered
/// `chunk_holder_id`, creating the record where it has no storage yet.
/// `rent_lamports` is the balance that the ledger asks for a record of the
/// new size, which [`required_space`] gives.
///
/// The caller has to sign, and the record has to stand at the address
/// derived from the caller and the number. A record with storage has to
/// start with the type tag, hold a chunk holder, and name the caller as its
/// owner. The storage then grows by the bytes that the chunk takes, the
/// caller makes up the balance, and the record is written with the chunk
/// behind the others. Whatever is refused changes nothing.
pub fn load_chunk(ctx: &mut LoadChunk, chunk_holder_id: u32, chunk: Chunk, rent_lamports: u64) -> (r: Result<(), ChunkLoaderError>)
    ensures
        outcome_holds(
            spec_load_chunk(old(ctx).chunk_holder@, old(ctx).owner@, chunk_holder_id, chunk@, rent_lamports),
            r,
            old(ctx).chunk_holder@,
            old(ctx).owner@,
            final(ctx).chunk_holder@,
            final(ctx).owner@,
        ),
        r is Ok ==> final(ctx).chunk_holder@.data.len() == spec_required_space(old(ctx).chunk_holder@.data, chunk@),
{
    if !ctx.owner.is_signer {
        return Err(ChunkLoaderError::AccountNotSigner);
    }
    let owner = ctx.owner.key;
    let bump = match find_chunk_holder_address(&owner, chunk_holder_id) {
        None => {
            return Err(ChunkLoaderError::ConstraintSeeds { chunk_holder_id });
        },
        Some((address, bump)) => {
            if !same_key(&address, &ctx.chunk_holder.key) {
                return Err(ChunkLoaderError::ConstraintSeeds { chunk_holder_id });
            }
            bump
        },
    };
    let space = required_space(&ctx.chunk_holder, &chunk);
    let ghost added = chunk@;
    let data = if ctx.chunk_holder.data.len() == 0 {
        let mut chunks: Vec<Chunk> = Vec::new();
        chunks.push(chunk);
        let holder = ChunkHolder { owner, chunks };
        assert(holder@.chunks =~= seq![added]);
        holder
    } else {
        let mut holder = ChunkHolder::try_deserialize(ctx.chunk_holder.data.as_slice())?;
        let ghost before = holder@;
        holder.chunks.push(chunk);
        assert(holder@.chunks =~= before.chunks.push(added));
        holder
    };
    let space = match space {
        Some(space) => space,
        None => {
            return Err(ChunkLoaderError::ArithmeticOverflow);
        },
    };
    let payload = match data.serialize() {
        Some(payload) => payload,
        None => {
            return Err(ChunkLoaderError::AccountDidNotSerialize);
        },
    };
    let seeds = chunk_holder_signer_seeds(&owner, chunk_holder_id, bump);
    let tag: Vec<u8> = vec![ChunkHolder::DISCRIMINATOR];
    assert(tag@ =~= seq![ChunkHolder::DISCRIMINATOR]);
    init_or_realloc_with_admin(
        &mut ctx.chunk_holder,
        space,
        &owner,
        tag.as_slice(),
        payload.as_slice(),
        &mut ctx.owner,
        &seeds,
        false,
        rent_lamports,
    )
}

} // verus!
