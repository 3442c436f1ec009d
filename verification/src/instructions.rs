//! The three entry points: loading a chunk, passing the payload on, and
//! closing a record.

pub mod close_chunks;
pub mod load_chunk;
pub mod pass_to_cpi;

pub use self::close_chunks::{close_chunks, CloseChunks};
pub use self::load_chunk::{load_chunk, LoadChunk};
pub use self::pass_to_cpi::{finish_cpi, pass_to_cpi, pass_to_cpi_checked, AccountMeta, Instruction, PassToCpi};
