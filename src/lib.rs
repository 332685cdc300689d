//! Speech transcription with Whisper models: acquiring the model's files with
//! progress reports, cutting the audio into windows, decoding each window by
//! beam search over a scoring oracle, stitching the windows' tokens into one
//! transcript, and keeping a run's output well ordered.
use vstd::prelude::*;

pub mod beam;
pub mod download;
pub mod event;
pub mod language;
pub mod model;
pub mod run;
pub mod stitch;
pub mod text;
pub mod transcribe;
pub mod whisper;
pub mod windows;

verus! {

/// Number of audio samples per second that every buffer handed to the library is expected to hold.
pub const SAMPLE_RATE: u32 = 16000;

} // verus!
