use crate::language::Language;
use crate::model::Model;
use crate::SAMPLE_RATE;
use vstd::prelude::*;
use vstd::string::*;

verus! {

/// A configured transcription: the audio's language, the model, and how the
/// run behaves.
pub struct Whisper {
    pub language: Language,
    pub model: Model,
    pub progress_bar: bool,
    pub force_download: bool,
    pub force_single_segment: bool,
}

/// Why a `Whisper` could not be built.
pub enum WhisperBuilderError {
    /// A field without a default was not set.
    UninitializedField(&'static str),
    /// The language and the model do not go together.
    ValidationError(String),
}

/// Collects the settings of a `Whisper`; `build` checks them.
pub struct WhisperBuilder {
    pub language: Option<Language>,
    pub model: Option<Model>,
    pub progress_bar: Option<bool>,
    pub force_download: Option<bool>,
    pub force_single_segment: Option<bool>,
}

/// A language other than English asked of a model that knows only English.
pub open spec fn incompatible(language: Language, model: Model) -> bool {
    language != Language::English && !model.is_multilingual_spec()
}

/// The message of a `ValidationError`.
pub open spec fn incompatibility_message(language: Language, model: Model) -> Seq<char> {
    "The requested language "@ + language.code_spec() + " is not compatible with "@
        + model.display_spec() + " model"@
}

impl Default for WhisperBuilder {
    fn default() -> (r: WhisperBuilder)
        ensures
            r.language is None,
            r.model is None,
            r.progress_bar is None,
            r.force_download is None,
            r.force_single_segment is None,
    {
        WhisperBuilder {
            language: None,
            model: None,
            progress_bar: None,
            force_download: None,
            force_single_segment: None,
        }
    }
}

impl WhisperBuilder {
    pub fn language(self, language: Language) -> (r: WhisperBuilder)
        ensures
            r == (WhisperBuilder { language: Some(language), ..self }),
    {
        WhisperBuilder { language: Some(language), ..self }
    }

    pub fn model(self, model: Model) -> (r: WhisperBuilder)
        ensures
            r == (WhisperBuilder { model: Some(model), ..self }),
    {
        WhisperBuilder { model: Some(model), ..self }
    }

    pub fn progress_bar(self, progress_bar: bool) -> (r: WhisperBuilder)
        ensures
            r == (WhisperBuilder { progress_bar: Some(progress_bar), ..self }),
    {
        WhisperBuilder { progress_bar: Some(progress_bar), ..self }
    }

    pub fn force_download(self, force_download: bool) -> (r: WhisperBuilder)
        ensures
            r == (WhisperBuilder { force_download: Some(force_download), ..self }),
    {
        WhisperBuilder { force_download: Some(force_download), ..self }
    }

    pub fn force_single_segment(self, force_single_segment: bool) -> (r: WhisperBuilder)
        ensures
            r == (WhisperBuilder { force_single_segment: Some(force_single_segment), ..self }),
    {
        WhisperBuilder { force_single_segment: Some(force_single_segment), ..self }
    }

    /// Refuses a non-English language with an English-only model.
    fn validate(&self) -> (r: Result<(), WhisperBuilderError>)
        ensures
            r is Err <==> (self.language matches Some(l) && self.model matches Some(m)
                && incompatible(l, m)),
            r matches Err(e) ==> (e matches WhisperBuilderError::ValidationError(msg)
                && msg@ == incompatibility_message(self.language->0, self.model->0)),
    {
        if let (Some(l), Some(m)) = (self.language, self.model) {
            if !l.is_english() && !m.is_multilingual() {
                let mut msg = String::from_str("The requested language ");
                msg.append(l.code());
                msg.append(" is not compatible with ");
                msg.append(m.display());
                msg.append(" model");
                return Err(WhisperBuilderError::ValidationError(msg));
            }
        }
        Ok(())
    }

    /// The configured `Whisper`. The check of the language against the model
    /// comes first, then the fields without a default; the flags default to
    /// false.
    pub fn build(&self) -> (r: Result<Whisper, WhisperBuilderError>)
        ensures
            (self.language matches Some(l) && self.model matches Some(m) && incompatible(l, m))
                ==> (r matches Err(WhisperBuilderError::ValidationError(msg)) && msg@
                == incompatibility_message(self.language->0, self.model->0)),
            !(self.language matches Some(l) && self.model matches Some(m) && incompatible(l, m))
                ==> match (self.language, self.model) {
                (Some(l), Some(m)) => r == Ok::<Whisper, WhisperBuilderError>(
                    Whisper {
                        language: l,
                        model: m,
                        progress_bar: self.progress_bar.unwrap_or(false),
                        force_download: self.force_download.unwrap_or(false),
                        force_single_segment: self.force_single_segment.unwrap_or(false),
                    },
                ),
                (None, _) => r matches Err(WhisperBuilderError::UninitializedField(f)) && f@
                    == "language"@,
                (Some(_), None) => r matches Err(WhisperBuilderError::UninitializedField(f))
                    && f@ == "model"@,
            },
    {
        self.validate()?;
        let language = match self.language {
            Some(l) => l,
            None => {
                return Err(WhisperBuilderError::UninitializedField("language"));
            },
        };
        let model = match self.model {
            Some(m) => m,
            None => {
                return Err(WhisperBuilderError::UninitializedField("model"));
            },
        };
        Ok(
            Whisper {
                language,
                model,
                progress_bar: match self.progress_bar {
                    Some(b) => b,
                    None => false,
                },
                force_download: match self.force_download {
                    Some(b) => b,
                    None => false,
                },
                force_single_segment: match self.force_single_segment {
                    Some(b) => b,
                    None => false,
                },
            },
        )
    }
}

impl Whisper {
    /// Length in milliseconds (rounded down) of `samples` samples at `SAMPLE_RATE`.
    pub fn get_audio_duration(samples: usize) -> (r: u64)
        ensures
            r == samples as nat * 1000 / SAMPLE_RATE as nat,
    {
        (samples / 16) as u64
    }
}

} // verus!
