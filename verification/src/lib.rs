//! Chunk loader: collects a large payload in small chunks inside a ledger
//! record, then reassembles it and hands it to another program in one call.
//!
//! Ledger accounts are held as plain values ([`utils::AccountState`]); every
//! operation is a verified function from the accounts before to the accounts
//! after, and leaves them untouched when it is refused.

pub mod error;
pub mod instructions;
pub mod pda;
pub mod reassembly;
pub mod state;
pub mod upload;
pub mod utils;

pub use crate::error::ChunkLoaderError;
pub use crate::instructions::{close_chunks, load_chunk, pass_to_cpi};
pub use crate::state::{Chunk, ChunkHolder};
