//! Reading and writing WAV containers, chunk by chunk.
//!
//! Every chunk of metadata is kept: the RIFF header, the format chunk (with
//! its extensible part), the data chunk, and the optional FACT and PEAK
//! chunks. Sample bytes are carried as they are; turning them into samples is
//! left to the caller. Peak amplitudes are kept as their IEEE-754 bit
//! patterns.
//!
//! Decoding walks the bytes chunk by chunk, dispatching on each magic tag,
//! skips zero filler bytes, and folds the chunks into a `Wave` (a later chunk
//! of a kind replaces an earlier one). Encoding writes the chunks in the
//! canonical order RIFF, format, data, FACT, PEAK.

pub mod chunk;
pub mod laws;
pub mod le;
pub mod read;
pub mod wave;
pub mod write;

pub use chunk::{
    BitDepth, DataChunk, ExtensibleFormat, FactChunk, FormatChunk, Peak, PeakChunk, RiffChunk,
    WaveFormat, WaverlyError,
};
pub use read::{read_step, Chunk};
pub use wave::Wave;
