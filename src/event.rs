use vstd::prelude::*;

verus! {

/// What a transcription run reports, in order, to its consumer.
///
/// Offsets are sample indices into the audio buffer; `remaining_ms` and
/// `elapsed_ms` are milliseconds.
pub enum Event {
    /// A file of the model starts to download.
    DownloadStarted { file: String },
    /// A file of the model has `offset` of its `len` bytes; `percentage` is the
    /// whole percent done.
    DownloadProgress {
        file: String,
        offset: usize,
        len: usize,
        percentage: u32,
        elapsed_ms: u64,
        remaining_ms: u64,
    },
    /// A file of the model is on disk.
    DownloadCompleted { file: String },
    /// Transcript of the audio between two offsets; `windows_done` of
    /// `windows_total` windows have been decoded (a total of 0 when the
    /// backend does not know it in advance).
    Segment {
        start_offset: usize,
        end_offset: usize,
        windows_done: usize,
        windows_total: usize,
        transcription: String,
    },
}

/// Failures of a run. Each one ends the run.
pub enum Error {
    /// The model's files could not be fetched.
    Download(String),
    /// Reading a file failed.
    Io(String),
    /// The audio could not be decoded.
    AudioDecoder(String),
    /// The audio's duration could not be found.
    AudioDuration,
    /// The model's files could not be loaded.
    ModelLoad(String),
    /// The tokenizer failed or lacks a token the decoder needs.
    Tokenizer(String),
    /// The inference backend failed.
    Oracle(String),
}

impl Event {
    /// Whether this is a transcript segment.
    pub fn is_segment(&self) -> (r: bool)
        ensures
            r == (self is Segment),
    {
        match self {
            Event::Segment { .. } => true,
            _ => false,
        }
    }
}

} // verus!
