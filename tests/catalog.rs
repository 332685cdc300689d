use simple_whisper::language::Language;
use simple_whisper::model::Model;

#[test]
fn languages_are_listed_once_each() {
    let all = Language::all();
    assert_eq!(all.len(), 99);
    assert_eq!(all[0], Language::English);
    assert_eq!(all[98], Language::Sundanese);
    assert_eq!(Language::English.message(), "English - en");
    assert_eq!(Language::Hawaiian.code(), "haw");
    assert_eq!(Language::Italian.name(), "Italian");
}

#[test]
fn language_codes_are_parsed() {
    assert_eq!(Language::from_code("en"), Some(Language::English));
    assert_eq!(Language::from_code("it"), Some(Language::Italian));
    assert_eq!(Language::from_code("haw"), Some(Language::Hawaiian));
    assert_eq!(Language::from_code("zy"), None);
    assert_eq!(Language::from_code(""), None);
    assert!(Language::English.is_english());
    assert!(!Language::Italian.is_english());
}

#[test]
fn models_are_listed_once_each() {
    let all = Model::all();
    assert_eq!(all.len(), 33);
    assert_eq!(all[0], Model::Tiny);
    assert_eq!(all[32], Model::LargeV3TurboQ8_0);
    assert_eq!(Model::default(), Model::Base);
    assert_eq!(Language::default(), Language::English);
}

#[test]
fn model_codes_are_parsed() {
    assert_eq!(Model::from_code("tiny_en"), Some(Model::TinyEn));
    assert_eq!(Model::from_code("medium_en-q5_0"), Some(Model::MediumEnQ5_0));
    assert_eq!(Model::from_code("large_v3_turbo-q8_0"), Some(Model::LargeV3TurboQ8_0));
    assert_eq!(Model::from_code("huge"), None);
}

#[test]
fn multilingual_follows_the_shown_name() {
    assert!(Model::Base.is_multilingual());
    assert!(Model::Medium.is_multilingual());
    assert!(Model::LargeV3Turbo.is_multilingual());
    assert!(!Model::BaseEn.is_multilingual());
    assert!(!Model::TinyEnQ8_0.is_multilingual());
    assert!(!Model::BaseEnQ5_1.is_multilingual());
    let english_only = Model::all().iter().filter(|m| !m.is_multilingual()).count();
    assert_eq!(english_only, 12);
}

#[test]
fn coordinates_point_at_the_weights() {
    let c = Model::BaseEn.hf_coordinates();
    assert_eq!(c.repo, "ggerganov/whisper.cpp");
    assert_eq!(c.revision, "main");
    assert_eq!(c.model, "ggml-base.en.bin");
    assert!(c.config.is_none());
    assert!(c.tokenizer.is_none());
    assert_eq!(c.required_files(), vec!["ggml-base.en.bin".to_string()]);
    assert_eq!(Model::LargeV3TurboQ5_0.hf_coordinates().model, "ggml-large-v3-turbo-q5_0.bin");
}
