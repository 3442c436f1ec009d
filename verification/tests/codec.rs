use anchor_lang::prelude::Pubkey;
use anchor_lang::AnchorSerialize;
use chunk_loader::error::ChunkLoaderError;
use chunk_loader::state::{Chunk, ChunkHolder};

fn sample() -> ChunkHolder {
    ChunkHolder {
        owner: [0x42u8; 32],
        chunks: vec![
            Chunk { index: 9, data: vec![1, 2, 3] },
            Chunk { index: 0, data: vec![] },
            Chunk { index: 255, data: vec![0xFF; 300] },
        ],
    }
}

#[test]
fn chunk_space_is_five_and_the_data() {
    assert_eq!(Chunk::INIT_SPACE, 5);
    assert_eq!(Chunk { index: 0, data: vec![] }.self_space(), 5);
    assert_eq!(Chunk { index: 3, data: vec![0; 1000] }.self_space(), 1005);
    assert_eq!(ChunkHolder::INIT_SPACE, 36);
    assert_eq!(ChunkHolder::DISCRIMINATOR, 1);
}

#[test]
fn record_layout() {
    let holder = ChunkHolder { owner: [0x42u8; 32], chunks: vec![Chunk { index: 9, data: vec![1, 2, 3] }] };
    let mut expected = vec![0x42u8; 32];
    expected.extend_from_slice(&[1, 0, 0, 0]);
    expected.extend_from_slice(&[9, 3, 0, 0, 0, 1, 2, 3]);
    assert_eq!(holder.serialize(), Some(expected));
}

#[test]
fn length_prefix_is_little_endian() {
    let holder = ChunkHolder { owner: [0u8; 32], chunks: vec![Chunk { index: 1, data: vec![7; 0x0102] }] };
    let bytes = holder.serialize().unwrap();
    assert_eq!(&bytes[36..41], &[1, 0x02, 0x01, 0, 0]);
    assert_eq!(bytes.len(), 36 + 5 + 0x0102);
}

#[test]
fn layout_is_the_one_borsh_writes() {
    let holder = sample();
    let chunks: Vec<(u8, Vec<u8>)> = holder.chunks.iter().map(|c| (c.index, c.data.clone())).collect();
    let reference = (Pubkey::new_from_array(holder.owner), chunks).try_to_vec().unwrap();
    assert_eq!(holder.serialize(), Some(reference));
}

#[test]
fn reading_gives_back_what_was_written() {
    let holder = sample();
    let bytes = holder.serialize().unwrap();
    assert_eq!(ChunkHolder::deserialize(&bytes), Some(holder.clone()));
    let mut with_tail = bytes.clone();
    with_tail.extend_from_slice(&[0, 0, 0, 0, 0, 0, 0]);
    assert_eq!(ChunkHolder::deserialize(&with_tail), Some(holder));
}

#[test]
fn reading_an_empty_record() {
    let mut bytes = vec![3u8; 32];
    bytes.extend_from_slice(&[0, 0, 0, 0]);
    assert_eq!(ChunkHolder::deserialize(&bytes), Some(ChunkHolder { owner: [3u8; 32], chunks: vec![] }));
}

#[test]
fn reading_bytes_that_end_too_early() {
    let bytes = sample().serialize().unwrap();
    for cut in [0usize, 35, 36, 40, 43, bytes.len() - 1] {
        assert_eq!(ChunkHolder::deserialize(&bytes[..cut]), None);
    }
    let mut many = vec![3u8; 32];
    many.extend_from_slice(&[0xFF, 0xFF, 0xFF, 0xFF]);
    many.extend_from_slice(&[0, 0, 0, 0, 0]);
    assert_eq!(ChunkHolder::deserialize(&many), None);
}

#[test]
fn type_tag_is_tested_first() {
    let body = sample().serialize().unwrap();
    let mut data = vec![1u8];
    data.extend_from_slice(&body);
    assert_eq!(ChunkHolder::try_deserialize(&data), Ok(sample()));
    data[0] = 0;
    assert_eq!(ChunkHolder::try_deserialize(&data), Err(ChunkLoaderError::AccountDiscriminatorMismatch));
    assert_eq!(ChunkHolder::try_deserialize(&[]), Err(ChunkLoaderError::AccountDiscriminatorMismatch));
    assert_eq!(ChunkHolder::try_deserialize(&[1]), Err(ChunkLoaderError::AccountDidNotDeserialize));
    assert_eq!(ChunkHolder::try_deserialize(&[2]), Err(ChunkLoaderError::AccountDiscriminatorMismatch));
}

#[test]
fn join_sorts_and_concatenates() {
    let mut holder = sample();
    let joined = holder.join_chunks();
    let mut expected = vec![1u8, 2, 3];
    expected.extend_from_slice(&[0xFF; 300]);
    assert_eq!(joined, expected);
    let order: Vec<u8> = holder.chunks.iter().map(|c| c.index).collect();
    assert_eq!(order, vec![0, 9, 255]);
    assert_eq!(holder.owner, [0x42u8; 32]);
}

#[test]
fn join_of_no_chunks_is_empty() {
    let mut holder = ChunkHolder { owner: [0u8; 32], chunks: vec![] };
    assert_eq!(holder.join_chunks(), Vec::<u8>::new());
    assert_eq!(holder.data_len(), Some(0));
}

#[test]
fn join_keeps_equal_indices_in_arrival_order() {
    let mut holder = ChunkHolder {
        owner: [0u8; 32],
        chunks: vec![
            Chunk { index: 2, data: vec![20] },
            Chunk { index: 1, data: vec![10] },
            Chunk { index: 2, data: vec![21] },
            Chunk { index: 0, data: vec![0] },
            Chunk { index: 1, data: vec![11] },
            Chunk { index: 2, data: vec![22] },
        ],
    };
    assert_eq!(holder.join_chunks(), vec![0, 10, 11, 20, 21, 22]);
}

#[test]
fn join_of_many_chunks_in_reverse() {
    let mut holder = ChunkHolder { owner: [0u8; 32], chunks: vec![] };
    for i in (0..=255u8).rev() {
        holder.chunks.push(Chunk { index: i, data: vec![i, i] });
    }
    let joined = holder.join_chunks();
    assert_eq!(joined.len(), 512);
    for i in 0..256usize {
        assert_eq!(joined[2 * i], i as u8);
        assert_eq!(joined[2 * i + 1], i as u8);
    }
}

#[test]
fn data_len_is_the_sum() {
    assert_eq!(sample().data_len(), Some(303));
}

#[test]
fn error_texts() {
    assert_eq!(ChunkLoaderError::ChunkAlreadyLoaded.msg(), "Chunk with this index has already been loaded");
    assert_eq!(
        ChunkLoaderError::DataLengthMismatch { expected: 1, actual: 2 }.msg(),
        "Sum of lengths of chunks does not match the expected length"
    );
    assert_eq!(ChunkLoaderError::DownstreamFailure(3).msg(), "The invoked program failed");
    assert_ne!(
        ChunkLoaderError::ConstraintHasOne { stored: [0u8; 32], presented: [1u8; 32] }.msg(),
        ChunkLoaderError::ConstraintSeeds { chunk_holder_id: 0 }.msg()
    );
    assert_eq!(ChunkLoaderError::MissingRequiredSignature.msg(), "The seeds do not sign for the account");
}
