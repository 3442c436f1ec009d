//! Chunk loader error codes.

use vstd::prelude::*;

verus! {

/// Why an operation of the chunk loader was refused, with what the caller
/// needs to mend it.
#[derive(Clone, Copy, Debug, PartialEq, Eq)]
pub enum ChunkLoaderError {
    /// A chunk with this index has already been loaded.
    ChunkAlreadyLoaded,
    /// The sum of the lengths of the chunks is not the expected length.
    DataLengthMismatch {
        /// The length that the caller expected.
        expected: u16,
        /// The length of the data of all chunks together, or the largest
        /// `usize` where it is more than that.
        actual: usize,
    },
    /// The record's storage does not start with the chunk holder's type tag.
    AccountDiscriminatorMismatch,
    /// The bytes after the type tag are not a chunk holder.
    AccountDidNotDeserialize,
    /// The record does not fit the storage it is to be written to.
    AccountDidNotSerialize,
    /// The caller did not sign.
    AccountNotSigner,
    /// The record's account belongs to another program.
    AccountOwnedByWrongProgram,
    /// The owner stored in the record is not the one presented.
    ConstraintHasOne {
        /// The owner that the record names.
        stored: [u8; 32],
        /// The owner that the caller named.
        presented: [u8; 32],
    },
    /// The record does not stand at the address derived from the caller and
    /// the record's number.
    ConstraintSeeds {
        /// The number that the caller gave for the record.
        chunk_holder_id: u32,
    },
    /// The seeds handed in do not sign for the record's address.
    MissingRequiredSignature,
    /// The payer cannot cover a transfer of storage cost.
    InsufficientFunds {
        /// What the payer has to give.
        needed: u64,
        /// What the payer has.
        available: u64,
    },
    /// A balance would exceed what an account can hold.
    ArithmeticOverflow,
    /// The invoked program failed, with this code.
    DownstreamFailure(u64),
}

/// An error as a mathematical value.
pub enum ChunkLoaderErrorView {
    ChunkAlreadyLoaded,
    DataLengthMismatch { expected: u16, actual: usize },
    AccountDiscriminatorMismatch,
    AccountDidNotDeserialize,
    AccountDidNotSerialize,
    AccountNotSigner,
    AccountOwnedByWrongProgram,
    ConstraintHasOne { stored: Seq<u8>, presented: Seq<u8> },
    ConstraintSeeds { chunk_holder_id: u32 },
    MissingRequiredSignature,
    InsufficientFunds { needed: u64, available: u64 },
    ArithmeticOverflow,
    DownstreamFailure(u64),
}

impl View for ChunkLoaderError {
    type V = ChunkLoaderErrorView;

    open spec fn view(&self) -> ChunkLoaderErrorView {
        match *self {
            ChunkLoaderError::ChunkAlreadyLoaded => ChunkLoaderErrorView::ChunkAlreadyLoaded,
            ChunkLoaderError::DataLengthMismatch { expected, actual } => ChunkLoaderErrorView::DataLengthMismatch {
                expected,
                actual,
            },
            ChunkLoaderError::AccountDiscriminatorMismatch => ChunkLoaderErrorView::AccountDiscriminatorMismatch,
            ChunkLoaderError::AccountDidNotDeserialize => ChunkLoaderErrorView::AccountDidNotDeserialize,
            ChunkLoaderError::AccountDidNotSerialize => ChunkLoaderErrorView::AccountDidNotSerialize,
            ChunkLoaderError::AccountNotSigner => ChunkLoaderErrorView::AccountNotSigner,
            ChunkLoaderError::AccountOwnedByWrongProgram => ChunkLoaderErrorView::AccountOwnedByWrongProgram,
            ChunkLoaderError::ConstraintHasOne { stored, presented } => ChunkLoaderErrorView::ConstraintHasOne {
                stored: stored@,
                presented: presented@,
            },
            ChunkLoaderError::ConstraintSeeds { chunk_holder_id } => ChunkLoaderErrorView::ConstraintSeeds {
                chunk_holder_id,
            },
            ChunkLoaderError::MissingRequiredSignature => ChunkLoaderErrorView::MissingRequiredSignature,
            ChunkLoaderError::InsufficientFunds { needed, available } => ChunkLoaderErrorView::InsufficientFunds {
                needed,
                available,
            },
            ChunkLoaderError::ArithmeticOverflow => ChunkLoaderErrorView::ArithmeticOverflow,
            ChunkLoaderError::DownstreamFailure(code) => ChunkLoaderErrorView::DownstreamFailure(code),
        }
    }
}

impl ChunkLoaderError {
    /// The text of each error.
    pub open spec fn spec_msg(self) -> Seq<char> {
        match self {
            ChunkLoaderError::ChunkAlreadyLoaded => "Chunk with this index has already been loaded"@,
            ChunkLoaderError::DataLengthMismatch { .. } => "Sum of lengths of chunks does not match the expected length"@,
            ChunkLoaderError::AccountDiscriminatorMismatch => "Account discriminator did not match what was expected"@,
            ChunkLoaderError::AccountDidNotDeserialize => "Failed to deserialize the account"@,
            ChunkLoaderError::AccountDidNotSerialize => "Failed to serialize the account"@,
            ChunkLoaderError::AccountNotSigner => "The given account did not sign"@,
            ChunkLoaderError::AccountOwnedByWrongProgram => "The given account is owned by a different program than expected"@,
            ChunkLoaderError::ConstraintHasOne { .. } => "A has one constraint was violated"@,
            ChunkLoaderError::ConstraintSeeds { .. } => "A seeds constraint was violated"@,
            ChunkLoaderError::MissingRequiredSignature => "The seeds do not sign for the account"@,
            ChunkLoaderError::InsufficientFunds { .. } => "Insufficient funds for the transfer of storage cost"@,
            ChunkLoaderError::ArithmeticOverflow => "Account balance overflow"@,
            ChunkLoaderError::DownstreamFailure(_) => "The invoked program failed"@,
        }
    }

    /// A human-readable description of the error.
    pub fn msg(&self) -> (text: &'static str)
        ensures
            text@ == self.spec_msg(),
    {
        match self {
            ChunkLoaderError::ChunkAlreadyLoaded => "Chunk with this index has already been loaded",
            ChunkLoaderError::DataLengthMismatch { .. } => "Sum of lengths of chunks does not match the expected length",
            ChunkLoaderError::AccountDiscriminatorMismatch => "Account discriminator did not match what was expected",
            ChunkLoaderError::AccountDidNotDeserialize => "Failed to deserialize the account",
            ChunkLoaderError::AccountDidNotSerialize => "Failed to serialize the account",
            ChunkLoaderError::AccountNotSigner => "The given account did not sign",
            ChunkLoaderError::AccountOwnedByWrongProgram => "The given account is owned by a different program than expected",
            ChunkLoaderError::ConstraintHasOne { .. } => "A has one constraint was violated",
            ChunkLoaderError::ConstraintSeeds { .. } => "A seeds constraint was violated",
            ChunkLoaderError::MissingRequiredSignature => "The seeds do not sign for the account",
            ChunkLoaderError::InsufficientFunds { .. } => "Insufficient funds for the transfer of storage cost",
            ChunkLoaderError::ArithmeticOverflow => "Account balance overflow",
            ChunkLoaderError::DownstreamFailure(_) => "The invoked program failed",
        }
    }
}

} // verus!
