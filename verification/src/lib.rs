//! Re-framing, silence trimming and amplitude-envelope extraction for AAC
//! elementary streams.
//!
//! The library covers the logic of the pipeline: synthesis of the 7-byte
//! ADTS framing header ([`adts`]), the keep/drop policy for decoded audio
//! ([`silence`]), the amplitude envelope ([`waveform`]), and the state
//! machine that drives the decode engine one access unit at a time
//! ([`session`]). Container demuxing and file I/O stay with the caller.

pub mod adts;
pub mod silence;
pub mod waveform;
pub mod session;
mod engine;
