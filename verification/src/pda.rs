//! Addresses of chunk holders.
//!
//! The address of a record is derived from a fixed tag, the owner and the
//! number that the owner gave the record. The derivation itself, a hash and a
//! test on the curve, is the ledger's: it is called here, not restated.

use anchor_lang::prelude::Pubkey;
use anchor_lang::solana_program::pubkey::PubkeyError;
use vstd::bytes::{spec_u32_to_le_bytes, u32_to_le_bytes};
use vstd::prelude::*;

verus! {

/// Seeds as sequences of bytes.
pub open spec fn seeds_view(seeds: Seq<Vec<u8>>) -> Seq<Seq<u8>> {
    seeds.map_values(|seed: Vec<u8>| seed@)
}

/// The error of an address derivation that the ledger refuses.
#[verifier::external_type_specification]
#[verifier::external_body]
pub struct ExPubkeyError(PubkeyError);

/// The address that `Pubkey::create_program_address` derives from the seeds
/// and the program's address, or `None` where it refuses them.
pub uninterp spec fn spec_create_program_address(seeds: Seq<Seq<u8>>, program_id: Seq<u8>) -> Option<Seq<u8>>;

/// The address and the bump seed that `Pubkey::try_find_program_address`
/// finds for the seeds and the program's address, or `None` where there are
/// none.
pub uninterp spec fn spec_find_program_address(seeds: Seq<Seq<u8>>, program_id: Seq<u8>) -> Option<(Seq<u8>, u8)>;

/// Calls `Pubkey::create_program_address`. The contract gives the outcome a
/// name and says nothing else of it: the address on success, no address on
/// any error.
#[verifier::external_body]
fn create_program_address(seeds: &Vec<Vec<u8>>, program_id: &[u8; 32]) -> (r: Result<[u8; 32], PubkeyError>)
    ensures
        match r {
            Ok(address) => spec_create_program_address(seeds_view(seeds@), program_id@) == Some(address@),
            Err(_) => spec_create_program_address(seeds_view(seeds@), program_id@) is None,
        },
{
    let parts: Vec<&[u8]> = seeds.iter().map(|seed| seed.as_slice()).collect();
    match Pubkey::create_program_address(&parts, &Pubkey::new_from_array(*program_id)) {
        Ok(address) => Ok(address.to_bytes()),
        Err(refused) => Err(refused),
    }
}

/// Calls `Pubkey::try_find_program_address`. The contract gives the outcome
/// a name, and adds what the search is made of: the address found is the one
/// that `Pubkey::create_program_address` derives from the same seeds with
/// the bump seed behind them.
#[verifier::external_body]
fn try_find_program_address(seeds: &Vec<Vec<u8>>, program_id: &[u8; 32]) -> (r: Option<([u8; 32], u8)>)
    ensures
        match r {
            Some((address, bump)) => {
                &&& spec_find_program_address(seeds_view(seeds@), program_id@) == Some((address@, bump))
                &&& spec_create_program_address(seeds_view(seeds@).push(seq![bump]), program_id@) == Some(address@)
            },
            None => spec_find_program_address(seeds_view(seeds@), program_id@) is None,
        },
{
    let parts: Vec<&[u8]> = seeds.iter().map(|seed| seed.as_slice()).collect();
    match Pubkey::try_find_program_address(&parts, &Pubkey::new_from_array(*program_id)) {
        Some((address, bump)) => Some((address.to_bytes(), bump)),
        None => None,
    }
}

/// The address of this program.
pub open spec fn spec_id() -> Seq<u8> {
    seq![
        173u8, 207, 51, 220, 195, 191, 46, 251, 10, 182, 200, 150, 60, 90, 114, 181,
        84, 85, 180, 28, 195, 125, 4, 143, 73, 38, 243, 164, 7, 141, 26, 249,
    ]
}

/// The address of this program.
pub fn id() -> (r: [u8; 32])
    ensures
        r@ == spec_id(),
{
    let r: [u8; 32] = [
        173u8, 207, 51, 220, 195, 191, 46, 251, 10, 182, 200, 150, 60, 90, 114, 181,
        84, 85, 180, 28, 195, 125, 4, 143, 73, 38, 243, 164, 7, 141, 26, 249,
    ];
    assert(r@ =~= spec_id());
    r
}

/// The tag that every chunk holder's address is derived with: the text
/// `CHUNK_HOLDER`.
pub open spec fn spec_seed_tag() -> Seq<u8> {
    seq![67u8, 72, 85, 78, 75, 95, 72, 79, 76, 68, 69, 82]
}

/// The seeds of a chunk holder: the tag, the owner, and the holder's number
/// in four bytes, least significant first.
pub open spec fn spec_chunk_holder_seeds(owner: Seq<u8>, chunk_holder_id: u32) -> Seq<Seq<u8>> {
    seq![spec_seed_tag(), owner, spec_u32_to_le_bytes(chunk_holder_id)]
}

/// The seeds that sign for a chunk holder: its seeds and the bump seed.
pub open spec fn spec_signer_seeds(owner: Seq<u8>, chunk_holder_id: u32, bump: u8) -> Seq<Seq<u8>> {
    spec_chunk_holder_seeds(owner, chunk_holder_id).push(seq![bump])
}

/// The seeds of the chunk holder that `owner` numbered `chunk_holder_id`.
pub fn chunk_holder_seeds(owner: &[u8; 32], chunk_holder_id: u32) -> (seeds: Vec<Vec<u8>>)
    ensures
        seeds_view(seeds@) == spec_chunk_holder_seeds(owner@, chunk_holder_id),
{
    let tag: Vec<u8> = vec![67u8, 72, 85, 78, 75, 95, 72, 79, 76, 68, 69, 82];
    assert(tag@ =~= spec_seed_tag());
    let mut who: Vec<u8> = Vec::new();
    who.extend_from_slice(owner.as_slice());
    assert(who@ =~= owner@);
    let number = u32_to_le_bytes(chunk_holder_id);
    let mut seeds: Vec<Vec<u8>> = Vec::new();
    seeds.push(tag);
    seeds.push(who);
    seeds.push(number);
    assert(seeds_view(seeds@) =~= spec_chunk_holder_seeds(owner@, chunk_holder_id));
    seeds
}

/// The seeds that sign for a chunk holder: its seeds and the bump seed.
pub fn chunk_holder_signer_seeds(owner: &[u8; 32], chunk_holder_id: u32, bump: u8) -> (seeds: Vec<Vec<u8>>)
    ensures
        seeds_view(seeds@) == spec_signer_seeds(owner@, chunk_holder_id, bump),
{
    let mut seeds = chunk_holder_seeds(owner, chunk_holder_id);
    let ghost before = seeds_view(seeds@);
    let last: Vec<u8> = vec![bump];
    assert(last@ =~= seq![bump]);
    seeds.push(last);
    assert(seeds_view(seeds@) =~= before.push(seq![bump]));
    assert(seeds_view(seeds@) =~= spec_signer_seeds(owner@, chunk_holder_id, bump));
    seeds
}

/// Whether the seeds sign for the address under this program: whether
/// `address` is derived from them.
pub fn seeds_sign_for(seeds: &Vec<Vec<u8>>, address: &[u8; 32]) -> (r: bool)
    ensures
        r == (spec_create_program_address(seeds_view(seeds@), spec_id()) == Some(address@)),
{
    let program_id = id();
    match create_program_address(seeds, &program_id) {
        Ok(derived) => same_key(&derived, address),
        Err(_) => false,
    }
}

/// Whether two addresses are the same.
pub fn same_key(a: &[u8; 32], b: &[u8; 32]) -> (r: bool)
    ensures
        r == (a@ == b@),
{
    let mut i: usize = 0;
    while i < 32
        invariant
            i <= 32,
            forall|j: int| 0 <= j < i ==> a@[j] == b@[j],
        decreases 32 - i,
    {
        if a[i] != b[i] {
            return false;
        }
        i += 1;
    }
    assert(a@ =~= b@);
    true
}

/// The address of the chunk holder that `owner` numbered `chunk_holder_id`,
/// with the bump seed that signs for it, or `None` where no address can be
/// derived.
pub fn find_chunk_holder_address(owner: &[u8; 32], chunk_holder_id: u32) -> (r: Option<([u8; 32], u8)>)
    ensures
        match r {
            Some((address, bump)) => {
                &&& spec_find_program_address(spec_chunk_holder_seeds(owner@, chunk_holder_id), spec_id()) == Some((address@, bump))
                &&& spec_create_program_address(spec_signer_seeds(owner@, chunk_holder_id, bump), spec_id()) == Some(address@)
            },
            None => spec_find_program_address(spec_chunk_holder_seeds(owner@, chunk_holder_id), spec_id()) is None,
        },
{
    let seeds = chunk_holder_seeds(owner, chunk_holder_id);
    let program_id = id();
    try_find_program_address(&seeds, &program_id)
}

/// The address that the chunk holder of `owner` and `chunk_holder_id` has
/// with the bump seed `bump`, or `None` where these derive no address.
pub fn chunk_holder_address(owner: &[u8; 32], chunk_holder_id: u32, bump: u8) -> (r: Option<[u8; 32]>)
    ensures
        match r {
            Some(address) => spec_create_program_address(spec_signer_seeds(owner@, chunk_holder_id, bump), spec_id()) == Some(address@),
            None => spec_create_program_address(spec_signer_seeds(owner@, chunk_holder_id, bump), spec_id()) is None,
        },
{
    let seeds = chunk_holder_signer_seeds(owner, chunk_holder_id, bump);
    let program_id = id();
    match create_program_address(&seeds, &program_id) {
        Ok(address) => Some(address),
        Err(_) => None,
    }
}

} // verus!
