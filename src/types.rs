use vstd::prelude::*;

verus! {

/// Outcome of an erasure-coding operation.
#[derive(Debug, Clone, Copy, PartialEq, Eq, Structural)]
pub enum NPRSResult {
    /// No error
    Success,
    /// Returned when there are too many validators.
    TooManyValidators,
    /// Cannot encode something for zero or one validator
    NotEnoughValidators,
    /// Cannot reconstruct: wrong number of validators.
    WrongValidatorCount,
    /// Not enough chunks present.
    NotEnoughChunks,
    /// Too many chunks present.
    TooManyChunks,
    /// Chunks not of uniform length or the chunks are empty.
    NonUniformChunks,
    /// An uneven byte-length of a shard is not valid for `GF(2^16)` encoding.
    UnevenLength,
    /// Chunk index out of bounds.
    ChunkIndexOutOfBounds {
        /// index of invalid chunk
        chunk_index: u64,
        /// number of validators
        n_validators: u64,
    },
    /// Bad payload in reconstructed bytes.
    BadPayload,
    /// Invalid branch proof.
    InvalidBranchProof,
    /// Branch out of bounds.
    BranchOutOfBounds,
    /// Unknown error
    UnknownReconstruction,
    /// Unknown error
    UnknownCodeParam,
}

/// An owned byte buffer: a payload or one shard of it.
/// An empty buffer stands for a missing shard.
pub struct DataBlock {
    pub array: Vec<u8>,
}

/// One shard, tagged with the validator slot it belongs to.
pub struct Chunk {
    pub data: DataBlock,
    pub index: u64,
}

/// An owned list of chunks.
pub struct ChunksList {
    pub data: Vec<Chunk>,
}

impl DataBlock {
    pub open spec fn view(&self) -> Seq<u8> {
        self.array@
    }
}

impl Chunk {
    /// The bytes of the chunk.
    pub open spec fn bytes(&self) -> Seq<u8> {
        self.data.array@
    }

    /// A chunk with no bytes is treated as absent.
    pub open spec fn is_absent(&self) -> bool {
        self.data.array@.len() == 0
    }
}

impl ChunksList {
    pub open spec fn view(&self) -> Seq<Chunk> {
        self.data@
    }
}

} // verus!
