use std::collections::HashMap;

use simple_whisper::beam::ScoringOracle;
use simple_whisper::event::{Error, Event};
use simple_whisper::language::Language;
use simple_whisper::model::ModelFiles;
use simple_whisper::run::{Phase, Run};
use simple_whisper::transcribe::{
    is_special_decoding, prompt_tokens, to_ids, PendingSegment, PromptIds, SpecialToken,
    TokenUtility, Transcription, TranscriptState,
};
use tokenizers::models::wordlevel::WordLevel;
use tokenizers::{AddedToken, Tokenizer};

const WORDS: [&str; 9] = [
    "[UNK]",
    "hello",
    "world",
    "again",
    "<|endoftext|>",
    "<|startoftranscript|>",
    "<|en|>",
    "<|transcribe|>",
    "<|notimestamps|>",
];

fn tokenizer() -> Tokenizer {
    let vocab: HashMap<String, u32> =
        WORDS.iter().enumerate().map(|(i, w)| (w.to_string(), i as u32)).collect();
    let model = WordLevel::builder().vocab(vocab).unk_token("[UNK]".to_string()).build().unwrap();
    let mut t = Tokenizer::new(model);
    let specials: Vec<AddedToken> = WORDS[4..].iter().map(|w| AddedToken::from(*w, true)).collect();
    t.add_special_tokens(&specials);
    t
}

fn utility(t: &Tokenizer, language: Language) -> Result<TokenUtility, Error> {
    let ids = TokenUtility::lookup(t, language);
    let decoded: Vec<Result<String, String>> = (0..ids.vocab_size)
        .map(|i| t.decode(&[i as u32], true).map_err(|e| e.to_string()))
        .collect();
    TokenUtility::from_lookups(&ids, &decoded)
}

fn decoded(t: &Tokenizer, p: PendingSegment) -> Result<Event, Error> {
    let text = t.decode(&p.ids, true).map_err(|e| e.to_string());
    p.into_event(text)
}

/// Answers with the scripted words of the current window, one after the other.
struct ScriptOracle {
    scripts: Vec<Vec<usize>>,
    window: usize,
    windows_seen: Vec<(usize, usize)>,
}

impl ScoringOracle for ScriptOracle {
    fn select_window(&mut self, start: usize, end: usize) -> Result<(), String> {
        self.window = self.windows_seen.len();
        self.windows_seen.push((start, end));
        Ok(())
    }

    fn score(&self, batch: &Vec<Vec<usize>>) -> Result<Vec<Vec<i64>>, String> {
        let script = &self.scripts[self.window];
        Ok(batch
            .iter()
            .map(|seq| {
                let mut row = vec![-1000i64; WORDS.len()];
                let step = seq.len() - 4;
                if step < script.len() && seq[4..] == script[..step] {
                    row[script[step]] = 0;
                }
                row
            })
            .collect())
    }
}

fn text_of(e: &Event) -> String {
    match e {
        Event::Segment { transcription, .. } => transcription.clone(),
        _ => panic!("expected a segment"),
    }
}

#[test]
fn special_tokens_are_written_as_in_the_vocabulary() {
    assert_eq!(SpecialToken::Language(Language::Italian).text(), "<|it|>");
    assert_eq!(SpecialToken::StartOfTranscript.text(), "<|startoftranscript|>");
    assert_eq!(SpecialToken::EndOfText.text(), "<|endoftext|>");
}

#[test]
fn prompt_and_ids_are_checked() {
    assert_eq!(prompt_tokens(Some(5), Some(6), Some(7), Some(8)), Some(vec![5, 6, 7, 8]));
    assert_eq!(prompt_tokens(Some(5), None, Some(7), Some(8)), None);
    assert_eq!(to_ids(&[1, 2, 3]), Some(vec![1u32, 2, 3]));
    assert_eq!(to_ids(&[1, usize::MAX]), None);
    assert!(is_special_decoding(&Ok(String::new())));
    assert!(!is_special_decoding(&Ok("a".to_string())));
    assert!(!is_special_decoding(&Err(String::new())));
}

#[test]
fn token_utility_reads_the_tokenizer() {
    let t = tokenizer();
    let u = utility(&t, Language::English).ok().unwrap();
    assert_eq!(u.initial_tokens, vec![5, 6, 7, 8]);
    assert_eq!(u.end_token, 4);
    assert_eq!(u.special, vec![false, false, false, false, true, true, true, true, true]);
    assert!(matches!(utility(&t, Language::Italian), Err(Error::Tokenizer(_))));
}

#[test]
fn transcript_state_holds_back_until_a_cut() {
    let mut s = TranscriptState::new();
    assert!(s.accept_window(&vec![1, 2, 3, 4], false, 10).is_none());
    assert_eq!(s.tokens, vec![1, 2, 3, 4]);
    let f = s.accept_window(&vec![2, 3, 4, 5], false, 20).unwrap();
    assert_eq!((f.from, f.to, f.start_offset, f.end_offset), (0, 1, 0, 20));
    assert_eq!(s.tokens, vec![1, 2, 3, 4, 5]);
    let f = s.accept_window(&vec![9], true, 30).unwrap();
    assert_eq!((f.from, f.to, f.start_offset, f.end_offset), (1, 6, 20, 30));
    assert_eq!(s.tokens, vec![1, 2, 3, 4, 5, 9]);
}

fn download(run: &mut Run, file: &str, len: usize, out: &mut Vec<Event>) {
    out.extend(run.download_started(len, file, 0));
    out.extend(run.download_progress(len / 2, 5));
    out.extend(run.download_progress(len - len / 2, 10));
    out.extend(run.download_completed());
}

#[test]
fn two_missing_files_then_one_segment_per_window() {
    let files = ModelFiles {
        repo: "r".to_string(),
        revision: "main".to_string(),
        config: None,
        model: "weights.bin".to_string(),
        tokenizer: Some("tokenizer.json".to_string()),
    };
    let mut run = Run::new();
    let mut out: Vec<Event> = Vec::new();
    for f in files.required_files() {
        download(&mut run, &f, 100, &mut out);
    }
    run.downloads_closed();
    assert_eq!(run.phase, Phase::Decoding);
    let kinds: Vec<&str> = out
        .iter()
        .map(|e| match e {
            Event::DownloadStarted { .. } => "started",
            Event::DownloadProgress { .. } => "progress",
            Event::DownloadCompleted { .. } => "completed",
            Event::Segment { .. } => "segment",
        })
        .collect();
    assert_eq!(
        kinds,
        vec!["started", "progress", "progress", "completed", "started", "progress", "progress", "completed"]
    );
    assert!(matches!(&out[0], Event::DownloadStarted { file } if file == "tokenizer.json"));
    assert!(matches!(&out[7], Event::DownloadCompleted { file } if file == "weights.bin"));
    assert!(run.download_started(5, "late", 0).is_none());

    let t = tokenizer();
    let u = utility(&t, Language::English).ok().unwrap();
    let mut oracle = ScriptOracle { scripts: vec![vec![1, 2, 4]], window: 0, windows_seen: vec![] };
    let mut tr = Transcription::new(1000, 4000, 0, u);
    let mut segments = Vec::new();
    while let Some(item) = tr.next_event(&mut oracle) {
        let e = decoded(&t, item.ok().unwrap()).ok().unwrap();
        segments.push(run.segment(e).unwrap());
    }
    run.finish();
    assert_eq!(run.phase, Phase::Done);
    assert_eq!(segments.len(), 1);
    assert_eq!(text_of(&segments[0]), "hello world");
    assert!(matches!(
        segments[0],
        Event::Segment { start_offset: 0, end_offset: 1000, windows_done: 1, windows_total: 1, .. }
    ));
    assert_eq!(oracle.windows_seen, vec![(0, 1000)]);
}

#[test]
fn windows_are_stitched_and_the_last_flushes() {
    let t = tokenizer();
    let u = utility(&t, Language::English).ok().unwrap();
    let mut oracle = ScriptOracle {
        scripts: vec![vec![1, 2, 4], vec![1, 3, 4], vec![2, 3, 4]],
        window: 0,
        windows_seen: vec![],
    };
    let mut tr = Transcription::new(25, 10, 0, u);
    let mut events = Vec::new();
    while let Some(item) = tr.next_event(&mut oracle) {
        events.push(decoded(&t, item.ok().unwrap()).ok().unwrap());
    }
    assert_eq!(oracle.windows_seen, vec![(0, 10), (10, 20), (20, 25)]);
    assert_eq!(events.len(), 2);
    assert!(matches!(events[0], Event::Segment { windows_done: 2, windows_total: 3, start_offset: 0, end_offset: 20, .. }));
    assert!(matches!(events[1], Event::Segment { windows_done: 3, windows_total: 3, start_offset: 20, end_offset: 25, .. }));
    assert_eq!(text_of(&events[0]), "");
    assert_eq!(text_of(&events[1]), "hello again world again");
}

#[test]
fn segments_wait_for_the_downloads() {
    let mut run = Run::new();
    let seg = |w: usize| Event::Segment {
        start_offset: 0,
        end_offset: 0,
        windows_done: w,
        windows_total: 2,
        transcription: String::new(),
    };
    assert!(run.segment(seg(1)).is_none());
    run.downloads_closed();
    assert!(run.segment(seg(1)).is_some());
    assert!(run.segment(seg(1)).is_none());
    assert!(run.download_started(1, "x", 0).is_none());
    assert!(run.segment(seg(2)).is_some());
}

#[test]
fn only_the_first_failure_is_sent() {
    let mut run = Run::new();
    assert!(matches!(run.fail(Error::Download("offline".to_string())), Some(Error::Download(_))));
    assert_eq!(run.phase, Phase::Failed);
    assert!(run.fail(Error::AudioDuration).is_none());
    run.downloads_closed();
    assert_eq!(run.phase, Phase::Failed);
}

struct FailingOracle;

impl ScoringOracle for FailingOracle {
    fn select_window(&mut self, _start: usize, _end: usize) -> Result<(), String> {
        Err("no audio".to_string())
    }

    fn score(&self, _batch: &Vec<Vec<usize>>) -> Result<Vec<Vec<i64>>, String> {
        Err("unused".to_string())
    }
}

#[test]
fn oracle_failure_ends_the_decoding() {
    let t = tokenizer();
    let u = utility(&t, Language::English).ok().unwrap();
    let mut tr = Transcription::new(30, 10, 0, u);
    assert!(matches!(tr.next_event(&mut FailingOracle), Some(Err(Error::Oracle(ref m))) if m == "no audio"));
    assert!(tr.next_event(&mut FailingOracle).is_none());
}

#[test]
fn lookups_make_the_prompt_and_mask() {
    let ids = PromptIds {
        start: Some(5),
        language: Some(6),
        transcribe: Some(7),
        no_timestamps: Some(8),
        end: Some(4),
        vocab_size: 3,
    };
    let decoded = vec![Ok("a".to_string()), Ok(String::new()), Err("bad".to_string())];
    let u = TokenUtility::from_lookups(&ids, &decoded).ok().unwrap();
    assert_eq!(u.initial_tokens, vec![5, 6, 7, 8]);
    assert_eq!(u.end_token, 4);
    assert_eq!(u.special, vec![false, true, false]);
    let missing = PromptIds { end: None, ..ids };
    assert!(matches!(TokenUtility::from_lookups(&missing, &decoded), Err(Error::Tokenizer(_))));
}

#[test]
fn pending_segment_takes_its_text() {
    let p = |ids: Vec<u32>| PendingSegment { ids, start_offset: 3, end_offset: 9, windows_done: 2, windows_total: 4 };
    assert!(matches!(
        p(vec![1]).into_event(Ok("hi".to_string())),
        Ok(Event::Segment { start_offset: 3, end_offset: 9, windows_done: 2, windows_total: 4, ref transcription }) if transcription == "hi"
    ));
    assert!(matches!(p(vec![1]).into_event(Err("boom".to_string())), Err(Error::Tokenizer(ref m)) if m == "boom"));
}

#[test]
fn no_window_left_yields_nothing() {
    let t = tokenizer();
    let u = utility(&t, Language::English).ok().unwrap();
    let mut tr = Transcription::new(0, 10, 0, u);
    assert!(tr.next_event(&mut FailingOracle).is_none());
}
