//! A whole upload: chunks loaded one after the other into a record that had
//! no storage, and the payload passed on at the end.

use crate::error::ChunkLoaderErrorView;
use crate::instructions::load_chunk::{lemma_first_chunk_fills_storage, lemma_next_chunk_fills_storage, spec_load_chunk, spec_stores, HEADER_SPACE};
use crate::instructions::pass_to_cpi::{spec_pass_to_cpi, AccountMeta, InstructionView};
use crate::pda::spec_id;
use crate::reassembly::{distinct_indices, lemma_join_ignores_order, lemma_join_is_ascending_concat, sorted_by_index, spec_concat, spec_join};
use crate::state::{lemma_deserialize_serialize, spec_chunks_space, ChunkHolderView, ChunkView};
use crate::utils::{AccountView, Outcome};
use vstd::prelude::*;

verus! {

/// Loading `chunks` one after the other, the ledger asking `rents[i]` for the
/// size of the record once `chunks[i]` is loaded. The first load that is
/// refused ends the upload.
pub open spec fn spec_load_all(
    chunk_holder: AccountView,
    owner: AccountView,
    chunk_holder_id: u32,
    chunks: Seq<ChunkView>,
    rents: Seq<u64>,
) -> Outcome
    decreases chunks.len(),
{
    if chunks.len() == 0 {
        Ok((chunk_holder, owner))
    } else {
        match spec_load_all(chunk_holder, owner, chunk_holder_id, chunks.drop_last(), rents.drop_last()) {
            Err(e) => Err(e),
            Ok((record, payer)) => spec_load_chunk(record, payer, chunk_holder_id, chunks.last(), rents.last()),
        }
    }
}

/// After every load of an upload the storage holds exactly the record of the
/// chunks loaded so far, in the order in which they arrived: it is as long as
/// the header and the bytes that these chunks take, no more and no less. The
/// record belongs to this program and stands where it stood, and the caller
/// is who they were.
pub proof fn lemma_upload_fills_storage(
    chunk_holder: AccountView,
    owner: AccountView,
    chunk_holder_id: u32,
    chunks: Seq<ChunkView>,
    rents: Seq<u64>,
)
    requires
        chunk_holder.data.len() == 0,
        chunks.len() > 0,
        rents.len() == chunks.len(),
        spec_load_all(chunk_holder, owner, chunk_holder_id, chunks, rents) is Ok,
    ensures
        ({
            let (record, payer) = spec_load_all(chunk_holder, owner, chunk_holder_id, chunks, rents)->Ok_0;
            &&& spec_stores(record.data, ChunkHolderView { owner: owner.key, chunks })
            &&& record.data.len() == HEADER_SPACE + spec_chunks_space(chunks)
            &&& record.key == chunk_holder.key
            &&& record.program_id == spec_id()
            &&& payer.key == owner.key
            &&& payer.is_signer
        }),
    decreases chunks.len(),
{
    let earlier = chunks.drop_last();
    let last = chunks.last();
    if chunks.len() == 1 {
        assert(chunks =~= seq![last]);
        lemma_first_chunk_fills_storage(chunk_holder, owner, chunk_holder_id, last, rents.last());
    } else {
        lemma_upload_fills_storage(chunk_holder, owner, chunk_holder_id, earlier, rents.drop_last());
        let (record, payer) = spec_load_all(chunk_holder, owner, chunk_holder_id, earlier, rents.drop_last())->Ok_0;
        let h = ChunkHolderView { owner: owner.key, chunks: earlier };
        lemma_next_chunk_fills_storage(record, payer, chunk_holder_id, last, rents.last(), h);
        assert(earlier.push(last) =~= chunks);
    }
}

/// At the end of an upload the payload that is passed on is the data of the
/// chunks by ascending index.
pub proof fn lemma_upload_is_passed_on(
    chunk_holder: AccountView,
    owner: AccountView,
    chunk_holder_id: u32,
    chunks: Seq<ChunkView>,
    rents: Seq<u64>,
    program: Seq<u8>,
    remaining_accounts: Seq<AccountMeta>,
)
    requires
        chunk_holder.data.len() == 0,
        chunks.len() > 0,
        rents.len() == chunks.len(),
        spec_load_all(chunk_holder, owner, chunk_holder_id, chunks, rents) is Ok,
    ensures
        ({
            let (record, payer) = spec_load_all(chunk_holder, owner, chunk_holder_id, chunks, rents)->Ok_0;
            spec_pass_to_cpi(record, payer, program, remaining_accounts) == Ok::<InstructionView, ChunkLoaderErrorView>(
                InstructionView { program_id: program, accounts: remaining_accounts, data: spec_join(chunks) },
            )
        }),
{
    lemma_upload_fills_storage(chunk_holder, owner, chunk_holder_id, chunks, rents);
    let (record, _) = spec_load_all(chunk_holder, owner, chunk_holder_id, chunks, rents)->Ok_0;
    let h = ChunkHolderView { owner: owner.key, chunks };
    assert(record.data.subrange(1, record.data.len() as int) =~= h.spec_serialize() + Seq::<u8>::empty());
    lemma_deserialize_serialize(h, Seq::empty());
}

/// Two uploads of the same chunks, of distinct indices, in whatever order
/// each, pass on the same payload: the data of the chunks put together by
/// ascending index.
pub proof fn lemma_upload_order_is_free(
    chunk_holder: AccountView,
    owner: AccountView,
    chunk_holder_id: u32,
    chunks: Seq<ChunkView>,
    rents: Seq<u64>,
    reordered: Seq<ChunkView>,
    reordered_rents: Seq<u64>,
    ascending: Seq<ChunkView>,
    program: Seq<u8>,
    remaining_accounts: Seq<AccountMeta>,
)
    requires
        chunk_holder.data.len() == 0,
        chunks.len() > 0,
        distinct_indices(chunks),
        chunks.to_multiset() == reordered.to_multiset(),
        chunks.to_multiset() == ascending.to_multiset(),
        sorted_by_index(ascending),
        rents.len() == chunks.len(),
        reordered_rents.len() == reordered.len(),
        spec_load_all(chunk_holder, owner, chunk_holder_id, chunks, rents) is Ok,
        spec_load_all(chunk_holder, owner, chunk_holder_id, reordered, reordered_rents) is Ok,
    ensures
        ({
            let (record, payer) = spec_load_all(chunk_holder, owner, chunk_holder_id, chunks, rents)->Ok_0;
            let (other_record, other_payer) = spec_load_all(
                chunk_holder,
                owner,
                chunk_holder_id,
                reordered,
                reordered_rents,
            )->Ok_0;
            let call = spec_pass_to_cpi(record, payer, program, remaining_accounts);
            let other_call = spec_pass_to_cpi(other_record, other_payer, program, remaining_accounts);
            &&& call is Ok
            &&& other_call == call
            &&& call->Ok_0.data == spec_concat(ascending)
        }),
{
    chunks.to_multiset_ensures();
    reordered.to_multiset_ensures();
    lemma_upload_is_passed_on(chunk_holder, owner, chunk_holder_id, chunks, rents, program, remaining_accounts);
    lemma_upload_is_passed_on(
        chunk_holder,
        owner,
        chunk_holder_id,
        reordered,
        reordered_rents,
        program,
        remaining_accounts,
    );
    lemma_join_ignores_order(chunks, reordered);
    lemma_join_is_ascending_concat(chunks, ascending);
}

} // verus!
