//! Streaming bookkeeping of a phase vocoder.
//!
//! The engine keeps, for each channel of audio, a queue of pending input
//! samples, an overlap-add accumulator and a queue of finished output samples.
//! It decides when an analysis sub-frame is due, hands out the analysis window
//! of each channel, takes back the overlap-added synthesis window, advances all
//! channels by one hop in lockstep, and drains finished samples.  The sample
//! type is generic: the spectral arithmetic is done by the caller.

mod config;
mod engine;
mod laws;
mod phase;

pub use config::{effective_frame_size, hop_size};
pub use engine::Engine;
pub use laws::{
    lemma_commit_deterministic, lemma_commit_keeps_channels_matching, lemma_drain_deterministic,
    lemma_push_deterministic, lemma_push_keeps_channels_matching,
};
pub use phase::round_quotient_to_even;
