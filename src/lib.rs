//! Erasure coding of payloads into one chunk per validator, and recovery of
//! the payload from any sufficiently large subset of those chunks.
//!
//! The field arithmetic is done by the `reed-solomon-novelpoly` crate; this
//! library derives and validates the code parameters, checks the chunks that
//! are handed in, and states what each operation returns.
#![allow(non_snake_case)]

pub mod types;
pub mod params;
mod codec;
pub mod coding;
pub mod laws;

pub use types::{Chunk, ChunksList, DataBlock, NPRSResult};
pub use params::{recovery_threshold, code_params, CodeParams, MAX_VALIDATORS};
pub use coding::{ECCR_get_recovery_threshold, ECCR_obtain_chunks, ECCR_reconstruct};
