use vstd::prelude::*;

verus! {

/// The ways a call on a resampler can be refused.
#[derive(Debug, Clone, Copy, PartialEq, Eq, Structural)]
pub enum ResampleError {
    /// The outer input sequence does not hold one entry per channel.
    WrongNumberOfInputChannels { expected: usize, actual: usize },
    /// The outer output sequence does not hold one entry per channel.
    WrongNumberOfOutputChannels { expected: usize, actual: usize },
    /// The channel mask does not hold one entry per channel.
    WrongNumberOfMaskChannels { expected: usize, actual: usize },
    /// An active input channel holds fewer frames than the next chunk needs.
    InsufficientInputBufferSize { channel: usize, expected: usize, actual: usize },
    /// An active output channel has room for fewer frames than the next chunk writes.
    InsufficientOutputBufferSize { channel: usize, expected: usize, actual: usize },
    /// A chunk size of zero, or larger than the one the resampler was made with.
    InvalidChunkSize { max: usize, requested: usize },
    /// The resampler does not support changing its chunk size.
    ChunkSizeNotAdjustable,
    /// The resampler is synchronous and its ratio cannot be changed.
    SyncNotAdjustable,
}

} // verus!
