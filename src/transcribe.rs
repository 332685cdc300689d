use crate::beam::{beam_search, BeamError, BeamParams, ScoringOracle};
use crate::event::{Error, Event};
use crate::language::Language;
use crate::stitch::{chunk_overlap, find_chunk_overlap};
use crate::windows::AudioWindows;
use tokenizers::Tokenizer;
use vstd::prelude::*;
use vstd::string::*;

verus! {

#[verifier::external_type_specification]
#[verifier::external_body]
pub struct ExTokenizer(tokenizers::Tokenizer);

/// Largest number of alignments tried when stitching two windows.
pub const MAX_N_OFFSETS: usize = 30;

/// Fewest agreeing tokens for two windows to be stitched.
pub const MIN_N_OVERLAPS: usize = 3;

/// Number of nodes the decoder keeps.
pub const BEAM_WIDTH: usize = 5;

/// Most tokens the decoder adds to the initial ones.
pub const MAX_DEPTH: usize = 30;

/// Number of first steps in which control tokens cannot be chosen.
pub const MASKED_STEPS: usize = 2;

/// Sizes of the audio encoder that bound a window.
pub struct WhisperModelConfig {
    pub n_audio_ctx: usize,
    pub n_mels: usize,
}

impl WhisperModelConfig {
    /// Number of frames the encoder takes at once.
    pub fn audio_encoder_ctx_size(&self) -> (r: usize)
        ensures
            r == self.n_audio_ctx,
    {
        self.n_audio_ctx
    }

    /// Number of mel bands of a frame.
    pub fn audio_encoder_mel_size(&self) -> (r: usize)
        ensures
            r == self.n_mels,
    {
        self.n_mels
    }
}

/// Control tokens of the Whisper vocabulary.
pub enum SpecialToken {
    EndOfText,
    StartOfTranscript,
    Transcribe,
    NoTimeStamps,
    Language(Language),
}

impl SpecialToken {
    pub open spec fn text_spec(self) -> Seq<char> {
        match self {
            SpecialToken::EndOfText => "<|endoftext|>"@,
            SpecialToken::StartOfTranscript => "<|startoftranscript|>"@,
            SpecialToken::Transcribe => "<|transcribe|>"@,
            SpecialToken::NoTimeStamps => "<|notimestamps|>"@,
            SpecialToken::Language(l) => "<|"@ + l.code_spec() + "|>"@,
        }
    }

    /// The token as it is written in the vocabulary.
    pub fn text(&self) -> (r: String)
        ensures
            r@ == self.text_spec(),
    {
        match self {
            SpecialToken::EndOfText => String::from_str("<|endoftext|>"),
            SpecialToken::StartOfTranscript => String::from_str("<|startoftranscript|>"),
            SpecialToken::Transcribe => String::from_str("<|transcribe|>"),
            SpecialToken::NoTimeStamps => String::from_str("<|notimestamps|>"),
            SpecialToken::Language(l) => {
                let mut s = String::from_str("<|");
                s.append(l.code());
                s.append("|>");
                s
            },
        }
    }
}

/// Relies on `tokenizers::Tokenizer::token_to_id`: the id of `token` in the
/// vocabulary, if it is in it.
#[verifier::external_body]
fn token_to_id(tokenizer: &Tokenizer, token: &str) -> Option<u32> {
    tokenizer.token_to_id(token)
}

/// Relies on `tokenizers::Tokenizer::get_vocab_size` with added tokens
/// counted: the number of vocabulary entries.
#[verifier::external_body]
fn vocab_size(tokenizer: &Tokenizer) -> usize {
    tokenizer.get_vocab_size(true)
}

/// A vocabulary entry is taken for a control token when decoding it alone,
/// control tokens left out, gives the empty text.
pub fn is_special_decoding(decoded: &Result<String, String>) -> (r: bool)
    ensures
        r == (decoded matches Ok(s) && s@.len() == 0),
{
    match decoded {
        Ok(s) => s.as_str().unicode_len() == 0,
        Err(_) => false,
    }
}

/// The prompt that starts every window: start of transcript, language,
/// transcribe, no timestamps; `None` when one of them is missing.
pub fn prompt_tokens(
    start: Option<u32>,
    language: Option<u32>,
    transcribe: Option<u32>,
    no_timestamps: Option<u32>,
) -> (r: Option<Vec<usize>>)
    ensures
        (start is Some && language is Some && transcribe is Some && no_timestamps is Some) <==> r is Some,
        r matches Some(v) ==> v@ == seq![
            start->0 as usize,
            language->0 as usize,
            transcribe->0 as usize,
            no_timestamps->0 as usize,
        ],
{
    match (start, language, transcribe, no_timestamps) {
        (Some(a), Some(b), Some(c), Some(d)) => {
            let v = vec![a as usize, b as usize, c as usize, d as usize];
            assert(v@ =~= seq![a as usize, b as usize, c as usize, d as usize]);
            Some(v)
        },
        _ => None,
    }
}

/// Token ids in the tokenizer's width; `None` if one does not fit.
pub fn to_ids(tokens: &[usize]) -> (r: Option<Vec<u32>>)
    ensures
        (forall|i: int| 0 <= i < tokens@.len() ==> tokens@[i] <= u32::MAX) <==> r is Some,
        r matches Some(v) ==> v@.len() == tokens@.len() && forall|i: int|
            0 <= i < tokens@.len() ==> v@[i] == tokens@[i],
{
    let mut v: Vec<u32> = Vec::new();
    let mut i: usize = 0;
    while i < tokens.len()
        invariant
            i <= tokens@.len(),
            v@.len() == i,
            forall|j: int| 0 <= j < i ==> v@[j] == tokens@[j],
            forall|j: int| 0 <= j < i ==> tokens@[j] <= u32::MAX,
        decreases tokens@.len() - i,
    {
        if tokens[i] > u32::MAX as usize {
            return None;
        }
        v.push(tokens[i] as u32);
        i = i + 1;
    }
    Some(v)
}

/// The tokens that frame every window's decoding.
pub struct TokenUtility {
    pub initial_tokens: Vec<usize>,
    pub end_token: usize,
    /// `special[t]` tells whether vocabulary entry `t` is a control token.
    pub special: Vec<bool>,
}

/// What the tokenizer says of the prompt's tokens and of its vocabulary.
pub struct PromptIds {
    pub start: Option<u32>,
    pub language: Option<u32>,
    pub transcribe: Option<u32>,
    pub no_timestamps: Option<u32>,
    pub end: Option<u32>,
    pub vocab_size: usize,
}

/// `special[t]` holds exactly when `decoded[t]`, the text of entry `t`
/// decoded alone with control tokens left out, is empty.
pub open spec fn special_of(decoded: Seq<Result<String, String>>) -> Seq<bool> {
    decoded.map_values(|d: Result<String, String>| d matches Ok(s) && s@.len() == 0)
}

impl TokenUtility {
    /// Looks up the prompt tokens for `language`, the end-of-text token and
    /// the vocabulary size.
    pub fn lookup(tokenizer: &Tokenizer, language: Language) -> (r: PromptIds) {
        PromptIds {
            start: token_to_id(tokenizer, SpecialToken::StartOfTranscript.text().as_str()),
            language: token_to_id(tokenizer, SpecialToken::Language(language).text().as_str()),
            transcribe: token_to_id(tokenizer, SpecialToken::Transcribe.text().as_str()),
            no_timestamps: token_to_id(tokenizer, SpecialToken::NoTimeStamps.text().as_str()),
            end: token_to_id(tokenizer, SpecialToken::EndOfText.text().as_str()),
            vocab_size: vocab_size(tokenizer),
        }
    }

    /// The prompt, the end token and the control-token mask, from the looked-up
    /// ids and the decoding of each vocabulary entry alone; a missing token is
    /// a tokenizer error.
    pub fn from_lookups(ids: &PromptIds, decoded: &Vec<Result<String, String>>) -> (r: Result<
        TokenUtility,
        Error,
    >)
        ensures
            (ids.start is Some && ids.language is Some && ids.transcribe is Some
                && ids.no_timestamps is Some && ids.end is Some) <==> r is Ok,
            r matches Err(e) ==> e is Tokenizer,
            r matches Ok(u) ==> {
                &&& u.initial_tokens@ == seq![
                    ids.start->0 as usize,
                    ids.language->0 as usize,
                    ids.transcribe->0 as usize,
                    ids.no_timestamps->0 as usize,
                ]
                &&& u.end_token == ids.end->0 as usize
                &&& u.special@ == special_of(decoded@)
            },
    {
        let initial_tokens = match prompt_tokens(ids.start, ids.language, ids.transcribe, ids.no_timestamps) {
            Some(v) => v,
            None => {
                return Err(Error::Tokenizer(String::from_str("missing prompt token")));
            },
        };
        let end_token = match ids.end {
            Some(e) => e as usize,
            None => {
                return Err(Error::Tokenizer(String::from_str("missing end-of-text token")));
            },
        };
        let mut special: Vec<bool> = Vec::new();
        let mut t: usize = 0;
        while t < decoded.len()
            invariant
                t <= decoded.len(),
                special@ == special_of(decoded@.subrange(0, t as int)),
            decreases decoded.len() - t,
        {
            special.push(is_special_decoding(&decoded[t]));
            assert(special@ =~= special_of(decoded@.subrange(0, t as int + 1)));
            t = t + 1;
        }
        assert(decoded@.subrange(0, t as int) =~= decoded@);
        Ok(TokenUtility { initial_tokens, end_token, special })
    }
}

/// Tokens of one window to turn into a segment, with the audio they cover.
pub struct Flush {
    pub from: usize,
    pub to: usize,
    pub start_offset: usize,
    pub end_offset: usize,
}

/// Where stitching cuts: an overlap is used only when it does not reach into
/// tokens already sent.
pub open spec fn usable_cut(tokens: Seq<usize>, last_sent: nat, new: Seq<usize>) -> Option<
    (usize, usize),
> {
    match chunk_overlap(tokens, new, MAX_N_OFFSETS as int, MIN_N_OVERLAPS as int) {
        Some((p, c)) => if p >= last_sent {
            Some((p, c))
        } else {
            None
        },
        None => None,
    }
}

/// The tokens accepted so far in a run, how many were sent, and where the
/// audio of the next segment starts.
pub struct TranscriptState {
    pub tokens: Vec<usize>,
    pub last_sent: usize,
    pub start_offset: usize,
}

impl TranscriptState {
    pub open spec fn wf(&self) -> bool {
        self.last_sent <= self.tokens.len()
    }

    pub fn new() -> (r: TranscriptState)
        ensures
            r.wf(),
            r.tokens@.len() == 0,
            r.last_sent == 0,
            r.start_offset == 0,
    {
        TranscriptState { tokens: Vec::new(), last_sent: 0, start_offset: 0 }
    }

    /// Takes the tokens of the next window, whose audio ends at `end_offset`.
    /// The last window flushes everything not yet sent. Another window is
    /// stitched onto the accepted tokens where an overlap is found, and
    /// flushes up to the cut; without one its tokens are held back.
    pub fn accept_window(&mut self, new: &Vec<usize>, is_last: bool, end_offset: usize) -> (r:
        Option<Flush>)
        requires
            old(self).wf(),
        ensures
            final(self).wf(),
            is_last ==> {
                &&& final(self).tokens@ == old(self).tokens@ + new@
                &&& r == Some(
                    Flush {
                        from: old(self).last_sent,
                        to: final(self).tokens.len(),
                        start_offset: old(self).start_offset,
                        end_offset,
                    },
                )
                &&& final(self).last_sent == final(self).tokens.len()
                &&& final(self).start_offset == end_offset
            },
            !is_last ==> match usable_cut(old(self).tokens@, old(self).last_sent as nat, new@) {
                Some((p, c)) => {
                    &&& final(self).tokens@ == old(self).tokens@.subrange(0, p as int)
                        + new@.subrange(c as int, new@.len() as int)
                    &&& r == Some(
                        Flush {
                            from: old(self).last_sent,
                            to: p,
                            start_offset: old(self).start_offset,
                            end_offset,
                        },
                    )
                    &&& final(self).last_sent == p
                    &&& final(self).start_offset == end_offset
                },
                None => {
                    &&& final(self).tokens@ == old(self).tokens@ + new@
                    &&& r is None
                    &&& final(self).last_sent == old(self).last_sent
                    &&& final(self).start_offset == old(self).start_offset
                },
            },
    {
        if is_last {
            let from = self.last_sent;
            let start_offset = self.start_offset;
            self.extend_tokens(new, 0);
            self.last_sent = self.tokens.len();
            self.start_offset = end_offset;
            return Some(Flush { from, to: self.tokens.len(), start_offset, end_offset });
        }
        match find_chunk_overlap(self.tokens.as_slice(), new.as_slice(), MAX_N_OFFSETS, MIN_N_OVERLAPS) {
            Some((p, c)) => {
                if p >= self.last_sent {
                    let from = self.last_sent;
                    let start_offset = self.start_offset;
                    self.tokens.truncate(p);
                    self.extend_tokens(new, c);
                    self.last_sent = p;
                    self.start_offset = end_offset;
                    Some(Flush { from, to: p, start_offset, end_offset })
                } else {
                    self.extend_tokens(new, 0);
                    None
                }
            },
            None => {
                self.extend_tokens(new, 0);
                None
            },
        }
    }

    fn extend_tokens(&mut self, new: &Vec<usize>, from: usize)
        requires
            from <= new.len(),
        ensures
            final(self).tokens@ == old(self).tokens@ + new@.subrange(from as int, new@.len() as int),
            final(self).last_sent == old(self).last_sent,
            final(self).start_offset == old(self).start_offset,
    {
        let mut i: usize = from;
        while i < new.len()
            invariant
                from <= i <= new.len(),
                self.tokens@ == old(self).tokens@ + new@.subrange(from as int, i as int),
                self.last_sent == old(self).last_sent,
                self.start_offset == old(self).start_offset,
            decreases new.len() - i,
        {
            self.tokens.push(new[i]);
            assert(new@.subrange(from as int, i as int + 1) =~= new@.subrange(from as int, i as int).push(new@[i as int]));
            assert(self.tokens@ =~= old(self).tokens@ + new@.subrange(from as int, i as int + 1));
            i = i + 1;
        }
    }
}

/// A segment whose tokens are still to be turned into text.
pub struct PendingSegment {
    pub ids: Vec<u32>,
    pub start_offset: usize,
    pub end_offset: usize,
    pub windows_done: usize,
    pub windows_total: usize,
}

impl PendingSegment {
    /// The segment with `decoded`, the text of `ids` with control tokens left
    /// out; a decoding failure is a tokenizer error.
    pub fn into_event(self, decoded: Result<String, String>) -> (r: Result<Event, Error>)
        ensures
            decoded matches Err(m) ==> r == Err::<Event, Error>(Error::Tokenizer(m)),
            decoded matches Ok(text) ==> r == Ok::<Event, Error>(
                Event::Segment {
                    start_offset: self.start_offset,
                    end_offset: self.end_offset,
                    windows_done: self.windows_done,
                    windows_total: self.windows_total,
                    transcription: text,
                },
            ),
    {
        match decoded {
            Ok(transcription) => Ok(
                Event::Segment {
                    start_offset: self.start_offset,
                    end_offset: self.end_offset,
                    windows_done: self.windows_done,
                    windows_total: self.windows_total,
                    transcription,
                },
            ),
            Err(m) => Err(Error::Tokenizer(m)),
        }
    }
}

/// The decoding of one run's audio, window by window.
pub struct Transcription {
    pub windows: AudioWindows,
    pub next: usize,
    pub state: TranscriptState,
    pub utility: TokenUtility,
    pub params: BeamParams,
}

impl Transcription {
    pub open spec fn wf(&self) -> bool {
        &&& self.windows.wf()
        &&& self.next <= self.windows.count
        &&& self.state.wf()
    }

    /// A decoding of `n_samples` samples in windows of `window_samples`
    /// samples that overlap by `overlap`.
    pub fn new(n_samples: usize, window_samples: usize, overlap: usize, utility: TokenUtility) -> (r:
        Transcription)
        ensures
            r.wf(),
            r.next == 0,
            r.windows.n_samples == n_samples,
            r.windows.window == window_samples,
            r.windows.shift == crate::windows::shift_of(window_samples as nat, overlap as nat),
            r.state.tokens@.len() == 0,
            r.state.last_sent == 0,
            r.state.start_offset == 0,
            r.utility == utility,
            r.params == (BeamParams {
                width: BEAM_WIDTH,
                max_depth: MAX_DEPTH,
                end_token: utility.end_token,
                masked_steps: MASKED_STEPS,
            }),
    {
        let params = BeamParams {
            width: BEAM_WIDTH,
            max_depth: MAX_DEPTH,
            end_token: utility.end_token,
            masked_steps: MASKED_STEPS,
        };
        Transcription {
            windows: AudioWindows::new(n_samples, window_samples, overlap),
            next: 0,
            state: TranscriptState::new(),
            utility,
            params,
        }
    }

    /// Decodes windows until one yields a segment, and returns it with the
    /// token ids to turn into its text; `None` once every window is decoded.
    /// The last window always yields one. A segment's audio starts where the
    /// previous one ended and ends where the next window starts, or at the end
    /// of the buffer for the last window. A failure ends the decoding.
    pub fn next_event<O: ScoringOracle>(&mut self, oracle: &mut O) -> (r: Option<
        Result<PendingSegment, Error>,
    >)
        requires
            old(self).wf(),
        ensures
            final(self).wf(),
            final(self).windows == old(self).windows,
            final(self).utility == old(self).utility,
            final(self).params == old(self).params,
            old(self).next == old(self).windows.count <==> r is None,
            r is None ==> final(self).next == old(self).next && final(self).state == old(self).state,
            r matches Some(Err(_)) ==> final(self).next == final(self).windows.count,
            r matches Some(Ok(p)) ==> {
                &&& p.windows_done == final(self).next
                &&& p.windows_total == final(self).windows.count
                &&& old(self).next < final(self).next
                &&& p.start_offset == old(self).state.start_offset
                &&& p.end_offset == final(self).state.start_offset
                &&& p.end_offset == if final(self).next == final(self).windows.count {
                    final(self).windows.n_samples as int
                } else {
                    final(self).windows.start(final(self).next as nat) as int
                }
                &&& old(self).state.last_sent <= final(self).state.last_sent
                &&& p.ids@.len() == final(self).state.last_sent - old(self).state.last_sent
                &&& forall|i: int|
                    0 <= i < p.ids@.len() ==> p.ids@[i] == final(self).state.tokens@[old(
                        self,
                    ).state.last_sent + i]
            },
    {
        let total = self.windows.len();
        let ghost first_sent = self.state.last_sent;
        while self.next < total
            invariant
                self.wf(),
                total == self.windows.count,
                self.windows == old(self).windows,
                self.utility == old(self).utility,
                self.params == old(self).params,
                old(self).next <= self.next,
                old(self).next == self.next || self.next < total,
                old(self).next == self.next ==> self.state == old(self).state,
                self.state.start_offset == old(self).state.start_offset,
                self.state.last_sent == old(self).state.last_sent,
            decreases total - self.next,
        {
            let idx = self.next;
            let (start, end) = self.windows.bounds(idx);
            if let Err(msg) = oracle.select_window(start, end) {
                self.next = total;
                return Some(Err(Error::Oracle(msg)));
            }
            let tokens = match beam_search(
                &*oracle,
                self.utility.initial_tokens.clone(),
                self.utility.special.clone(),
                self.params,
            ) {
                Ok(t) => t,
                Err(BeamError::Oracle(msg)) => {
                    self.next = total;
                    return Some(Err(Error::Oracle(msg)));
                },
                Err(BeamError::Shape) => {
                    self.next = total;
                    return Some(Err(Error::Oracle(String::from_str("malformed scores"))));
                },
            };
            let is_last = idx + 1 == total;
            let end_offset = if is_last {
                self.windows.n_samples
            } else {
                self.windows.bounds(idx + 1).0
            };
            self.next = idx + 1;
            if let Some(flush) = self.state.accept_window(&tokens, is_last, end_offset) {
                let slice = slice_of(&self.state.tokens, flush.from, flush.to);
                return match to_ids(slice.as_slice()) {
                    Some(ids) => Some(
                        Ok(
                            PendingSegment {
                                ids,
                                start_offset: flush.start_offset,
                                end_offset: flush.end_offset,
                                windows_done: idx + 1,
                                windows_total: total,
                            },
                        ),
                    ),
                    None => {
                        self.next = total;
                        Some(Err(Error::Tokenizer(String::from_str("token id out of range"))))
                    },
                };
            }
        }
        None
    }
}

/// The tokens `v[from..to]`.
fn slice_of(v: &Vec<usize>, from: usize, to: usize) -> (r: Vec<usize>)
    requires
        from <= to <= v.len(),
    ensures
        r@ == v@.subrange(from as int, to as int),
{
    let mut r: Vec<usize> = Vec::new();
    let mut i: usize = from;
    while i < to
        invariant
            from <= i <= to <= v.len(),
            r@ == v@.subrange(from as int, i as int),
        decreases to - i,
    {
        r.push(v[i]);
        assert(r@ =~= v@.subrange(from as int, i as int + 1));
        i = i + 1;
    }
    r
}

} // verus!
