use simple_whisper::language::Language;
use simple_whisper::model::Model;
use simple_whisper::whisper::{WhisperBuilder, WhisperBuilderError};

#[test]
fn incompatible_lang_model() {
    let error = WhisperBuilder::default()
        .language(Language::Italian)
        .model(Model::BaseEn)
        .build()
        .err()
        .unwrap();
    assert!(matches!(error, WhisperBuilderError::ValidationError(_)));
}

#[test]
fn compatible_lang_model() {
    WhisperBuilder::default()
        .language(Language::Italian)
        .model(Model::Base)
        .build()
        .ok()
        .unwrap();
}

#[test]
fn incompatible_pairing_message_names_both() {
    match WhisperBuilder::default()
        .language(Language::German)
        .model(Model::TinyEnQ8_0)
        .build()
    {
        Err(WhisperBuilderError::ValidationError(msg)) => assert_eq!(
            msg,
            "The requested language de is not compatible with Tiny - tiny_en-q8_0 model"
        ),
        _ => panic!("expected a validation error"),
    }
}

#[test]
fn english_with_english_only_model_builds() {
    let w = WhisperBuilder::default()
        .language(Language::English)
        .model(Model::SmallEn)
        .force_download(true)
        .build()
        .ok()
        .unwrap();
    assert_eq!(w.language, Language::English);
    assert_eq!(w.model, Model::SmallEn);
    assert!(w.force_download);
    assert!(!w.progress_bar);
    assert!(!w.force_single_segment);
}

#[test]
fn missing_fields_are_reported() {
    match WhisperBuilder::default().model(Model::Base).build() {
        Err(WhisperBuilderError::UninitializedField(f)) => assert_eq!(f, "language"),
        _ => panic!("expected a missing language"),
    }
    match WhisperBuilder::default().language(Language::French).build() {
        Err(WhisperBuilderError::UninitializedField(f)) => assert_eq!(f, "model"),
        _ => panic!("expected a missing model"),
    }
}

#[test]
fn validation_comes_before_missing_fields() {
    let r = WhisperBuilder::default()
        .language(Language::Italian)
        .model(Model::MediumEn)
        .build();
    assert!(matches!(r, Err(WhisperBuilderError::ValidationError(_))));
}

#[test]
fn audio_duration_in_milliseconds() {
    assert_eq!(simple_whisper::whisper::Whisper::get_audio_duration(16000), 1000);
    assert_eq!(simple_whisper::whisper::Whisper::get_audio_duration(8008), 500);
    assert_eq!(simple_whisper::whisper::Whisper::get_audio_duration(0), 0);
}
