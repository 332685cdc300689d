use crate::text::{contains_pair, has_pair, str_eq};
use vstd::prelude::*;

verus! {

/// Number of model variants.
pub const N_MODELS: usize = 33;

/// Repository that holds the model files.
pub const MODEL_REPO: &'static str = "ggerganov/whisper.cpp";

/// Revision of the repository that is used.
pub const MODEL_REVISION: &'static str = "main";

#[verifier::external_type_specification]
#[verifier::external_body]
pub struct ExPathBuf(std::path::PathBuf);

/// The supported Whisper models.
#[derive(Clone, Copy, Debug, PartialEq, Eq, Structural)]
pub enum Model {
    Tiny,
    TinyQ5_1,
    TinyQ8_0,
    TinyEn,
    TinyEnQ5_1,
    TinyEnQ8_0,
    Base,
    BaseQ5_1,
    BaseQ8_0,
    BaseEn,
    BaseEnQ5_1,
    BaseEnQ8_0,
    Small,
    SmallQ5_1,
    SmallQ8_0,
    SmallEn,
    SmallEnQ5_1,
    SmallEnQ8_0,
    Medium,
    MediumQ5_0,
    MediumQ8_0,
    MediumEn,
    MediumEnQ5_0,
    MediumEnQ8_0,
    Large,
    LargeV2,
    LargeV2Q5_0,
    LargeV2Q8_0,
    LargeV3,
    LargeV3Q5_0,
    LargeV3Turbo,
    LargeV3TurboQ5_0,
    LargeV3TurboQ8_0,
}

/// Where a model's files are found: a repository, a revision, the weights
/// file, and the configuration and tokenizer files where the model has them.
pub struct ModelFiles {
    pub repo: String,
    pub revision: String,
    pub config: Option<String>,
    pub model: String,
    pub tokenizer: Option<String>,
}

/// The local paths of a model's files once acquired.
pub struct LocalModel {
    pub config: Option<std::path::PathBuf>,
    pub model: std::path::PathBuf,
    pub tokenizer: Option<std::path::PathBuf>,
    pub model_type: Model,
}

impl ModelFiles {
    /// The files to fetch, in the order they are fetched: tokenizer, then
    /// configuration, then weights.
    pub open spec fn required_spec(&self) -> Seq<Seq<char>> {
        let a = match self.tokenizer {
            Some(t) => seq![t@],
            None => seq![],
        };
        let b = match self.config {
            Some(c) => seq![c@],
            None => seq![],
        };
        a + b + seq![self.model@]
    }

    /// The files to fetch, in the order they are fetched.
    pub fn required_files(&self) -> (r: Vec<String>)
        ensures
            r@.map_values(|s: String| s@) == self.required_spec(),
    {
        let mut r: Vec<String> = Vec::new();
        if let Some(t) = &self.tokenizer {
            r.push(t.clone());
        }
        if let Some(c) = &self.config {
            r.push(c.clone());
        }
        r.push(self.model.clone());
        assert(r@.map_values(|s: String| s@) =~= self.required_spec());
        r
    }
}

impl Model {
    /// The code that names the model, as in `base_en`.
    pub open spec fn code_spec(self) -> Seq<char> {
        match self {
            Model::Tiny => "tiny"@,
            Model::TinyQ5_1 => "tiny-q5_1"@,
            Model::TinyQ8_0 => "tiny-q8_0"@,
            Model::TinyEn => "tiny_en"@,
            Model::TinyEnQ5_1 => "tiny_en-q5_1"@,
            Model::TinyEnQ8_0 => "tiny_en-q8_0"@,
            Model::Base => "base"@,
            Model::BaseQ5_1 => "base-q5_1"@,
            Model::BaseQ8_0 => "base-q8_0"@,
            Model::BaseEn => "base_en"@,
            Model::BaseEnQ5_1 => "base_en-q5_1"@,
            Model::BaseEnQ8_0 => "base_en-q8_0"@,
            Model::Small => "small"@,
            Model::SmallQ5_1 => "small-q5_1"@,
            Model::SmallQ8_0 => "small-q8_0"@,
            Model::SmallEn => "small_en"@,
            Model::SmallEnQ5_1 => "small_en-q5_1"@,
            Model::SmallEnQ8_0 => "small_en-q8_0"@,
            Model::Medium => "medium"@,
            Model::MediumQ5_0 => "medium-q5_0"@,
            Model::MediumQ8_0 => "medium-q8_0"@,
            Model::MediumEn => "medium_en"@,
            Model::MediumEnQ5_0 => "medium_en-q5_0"@,
            Model::MediumEnQ8_0 => "medium_en-q8_0"@,
            Model::Large => "large"@,
            Model::LargeV2 => "large_v2"@,
            Model::LargeV2Q5_0 => "large_v2-q5_0"@,
            Model::LargeV2Q8_0 => "large_v2-q8_0"@,
            Model::LargeV3 => "large_v3"@,
            Model::LargeV3Q5_0 => "large_v3-q5_0"@,
            Model::LargeV3Turbo => "large_v3_turbo"@,
            Model::LargeV3TurboQ5_0 => "large_v3_turbo-q5_0"@,
            Model::LargeV3TurboQ8_0 => "large_v3_turbo-q8_0"@,
        }
    }

    /// The code that names the model, as in `base_en`.
    pub fn code(&self) -> (r: &'static str)
        ensures
            r@ == self.code_spec(),
    {
        match self {
            Model::Tiny => "tiny",
            Model::TinyQ5_1 => "tiny-q5_1",
            Model::TinyQ8_0 => "tiny-q8_0",
            Model::TinyEn => "tiny_en",
            Model::TinyEnQ5_1 => "tiny_en-q5_1",
            Model::TinyEnQ8_0 => "tiny_en-q8_0",
            Model::Base => "base",
            Model::BaseQ5_1 => "base-q5_1",
            Model::BaseQ8_0 => "base-q8_0",
            Model::BaseEn => "base_en",
            Model::BaseEnQ5_1 => "base_en-q5_1",
            Model::BaseEnQ8_0 => "base_en-q8_0",
            Model::Small => "small",
            Model::SmallQ5_1 => "small-q5_1",
            Model::SmallQ8_0 => "small-q8_0",
            Model::SmallEn => "small_en",
            Model::SmallEnQ5_1 => "small_en-q5_1",
            Model::SmallEnQ8_0 => "small_en-q8_0",
            Model::Medium => "medium",
            Model::MediumQ5_0 => "medium-q5_0",
            Model::MediumQ8_0 => "medium-q8_0",
            Model::MediumEn => "medium_en",
            Model::MediumEnQ5_0 => "medium_en-q5_0",
            Model::MediumEnQ8_0 => "medium_en-q8_0",
            Model::Large => "large",
            Model::LargeV2 => "large_v2",
            Model::LargeV2Q5_0 => "large_v2-q5_0",
            Model::LargeV2Q8_0 => "large_v2-q8_0",
            Model::LargeV3 => "large_v3",
            Model::LargeV3Q5_0 => "large_v3-q5_0",
            Model::LargeV3Turbo => "large_v3_turbo",
            Model::LargeV3TurboQ5_0 => "large_v3_turbo-q5_0",
            Model::LargeV3TurboQ8_0 => "large_v3_turbo-q8_0",
        }
    }

    /// How the model is shown: its family and its code.
    pub open spec fn display_spec(self) -> Seq<char> {
        match self {
            Model::Tiny => "Tiny - tiny"@,
            Model::TinyQ5_1 => "Tiny - tiny-q5_1"@,
            Model::TinyQ8_0 => "Tiny - tiny-q8_0"@,
            Model::TinyEn => "TinyEn - tiny_en"@,
            Model::TinyEnQ5_1 => "TinyEn - tiny_en-q5_1"@,
            Model::TinyEnQ8_0 => "Tiny - tiny_en-q8_0"@,
            Model::Base => "Base - base"@,
            Model::BaseQ5_1 => "Base - base-q5_1"@,
            Model::BaseQ8_0 => "Base - base-q8_0"@,
            Model::BaseEn => "BaseEn - base_en"@,
            Model::BaseEnQ5_1 => "BaseEn -base_en-q5_1"@,
            Model::BaseEnQ8_0 => "BaseEn - base_en-q8_0"@,
            Model::Small => "Small - small"@,
            Model::SmallQ5_1 => "Small - small-q5_1"@,
            Model::SmallQ8_0 => "Small - small-q8_0"@,
            Model::SmallEn => "SmallEn - small_en"@,
            Model::SmallEnQ5_1 => "SmallEn - small_en-q5_1"@,
            Model::SmallEnQ8_0 => "SmallEn - small_en-q8_0"@,
            Model::Medium => "Medium - medium"@,
            Model::MediumQ5_0 => "Medium - medium-q5_0"@,
            Model::MediumQ8_0 => "Medium - medium-q8_0"@,
            Model::MediumEn => "MediumEn - medium_en"@,
            Model::MediumEnQ5_0 => "MediumEn - medium_en-q5_0"@,
            Model::MediumEnQ8_0 => "MediumEn - medium_en-q8_0"@,
            Model::Large => "Large V1 - large"@,
            Model::LargeV2 => "Large V2 - large_v2"@,
            Model::LargeV2Q5_0 => "Large V2 - large_v2-q5_0"@,
            Model::LargeV2Q8_0 => "Large V2 - large_v2-q8_0"@,
            Model::LargeV3 => "Large V3 - large_v3"@,
            Model::LargeV3Q5_0 => "Large V3 - large_v3-q5_0"@,
            Model::LargeV3Turbo => "Large V3 Turbo - large_v3_turbo"@,
            Model::LargeV3TurboQ5_0 => "Large V3 Turbo - large_v3_turbo-q5_0"@,
            Model::LargeV3TurboQ8_0 => "Large V3 Turbo - large_v3_turbo-q8_0"@,
        }
    }

    /// How the model is shown: its family and its code.
    pub fn display(&self) -> (r: &'static str)
        ensures
            r@ == self.display_spec(),
    {
        match self {
            Model::Tiny => "Tiny - tiny",
            Model::TinyQ5_1 => "Tiny - tiny-q5_1",
            Model::TinyQ8_0 => "Tiny - tiny-q8_0",
            Model::TinyEn => "TinyEn - tiny_en",
            Model::TinyEnQ5_1 => "TinyEn - tiny_en-q5_1",
            Model::TinyEnQ8_0 => "Tiny - tiny_en-q8_0",
            Model::Base => "Base - base",
            Model::BaseQ5_1 => "Base - base-q5_1",
            Model::BaseQ8_0 => "Base - base-q8_0",
            Model::BaseEn => "BaseEn - base_en",
            Model::BaseEnQ5_1 => "BaseEn -base_en-q5_1",
            Model::BaseEnQ8_0 => "BaseEn - base_en-q8_0",
            Model::Small => "Small - small",
            Model::SmallQ5_1 => "Small - small-q5_1",
            Model::SmallQ8_0 => "Small - small-q8_0",
            Model::SmallEn => "SmallEn - small_en",
            Model::SmallEnQ5_1 => "SmallEn - small_en-q5_1",
            Model::SmallEnQ8_0 => "SmallEn - small_en-q8_0",
            Model::Medium => "Medium - medium",
            Model::MediumQ5_0 => "Medium - medium-q5_0",
            Model::MediumQ8_0 => "Medium - medium-q8_0",
            Model::MediumEn => "MediumEn - medium_en",
            Model::MediumEnQ5_0 => "MediumEn - medium_en-q5_0",
            Model::MediumEnQ8_0 => "MediumEn - medium_en-q8_0",
            Model::Large => "Large V1 - large",
            Model::LargeV2 => "Large V2 - large_v2",
            Model::LargeV2Q5_0 => "Large V2 - large_v2-q5_0",
            Model::LargeV2Q8_0 => "Large V2 - large_v2-q8_0",
            Model::LargeV3 => "Large V3 - large_v3",
            Model::LargeV3Q5_0 => "Large V3 - large_v3-q5_0",
            Model::LargeV3Turbo => "Large V3 Turbo - large_v3_turbo",
            Model::LargeV3TurboQ5_0 => "Large V3 Turbo - large_v3_turbo-q5_0",
            Model::LargeV3TurboQ8_0 => "Large V3 Turbo - large_v3_turbo-q8_0",
        }
    }

    /// Name of the weights file in the repository.
    pub open spec fn file_spec(self) -> Seq<char> {
        match self {
            Model::Tiny => "ggml-tiny.bin"@,
            Model::TinyQ5_1 => "ggml-tiny-q5_1.bin"@,
            Model::TinyQ8_0 => "ggml-tiny-q8_0.bin"@,
            Model::TinyEn => "ggml-tiny.en.bin"@,
            Model::TinyEnQ5_1 => "ggml-tiny.en-q5_1.bin"@,
            Model::TinyEnQ8_0 => "ggml-tiny.en-q8_0.bin"@,
            Model::Base => "ggml-base.bin"@,
            Model::BaseQ5_1 => "ggml-base-q5_1.bin"@,
            Model::BaseQ8_0 => "ggml-base-q8_0.bin"@,
            Model::BaseEn => "ggml-base.en.bin"@,
            Model::BaseEnQ5_1 => "ggml-base.en-q5_1.bin"@,
            Model::BaseEnQ8_0 => "ggml-base.en-q8_0.bin"@,
            Model::Small => "ggml-small.bin"@,
            Model::SmallQ5_1 => "ggml-small-q5_1.bin"@,
            Model::SmallQ8_0 => "ggml-small-q8_0.bin"@,
            Model::SmallEn => "ggml-small.en.bin"@,
            Model::SmallEnQ5_1 => "ggml-small.en-q5_1.bin"@,
            Model::SmallEnQ8_0 => "ggml-small.en-q8_0.bin"@,
            Model::Medium => "ggml-medium.bin"@,
            Model::MediumQ5_0 => "ggml-medium-q5_0.bin"@,
            Model::MediumQ8_0 => "ggml-medium-q8_0.bin"@,
            Model::MediumEn => "ggml-medium.en.bin"@,
            Model::MediumEnQ5_0 => "ggml-medium.en-q5_0.bin"@,
            Model::MediumEnQ8_0 => "ggml-medium.en-q8_0.bin"@,
            Model::Large => "ggml-large-v1.bin"@,
            Model::LargeV2 => "ggml-large-v2.bin"@,
            Model::LargeV2Q5_0 => "ggml-large-v2-q5_0.bin"@,
            Model::LargeV2Q8_0 => "ggml-large-v2-q8_0.bin"@,
            Model::LargeV3 => "ggml-large-v3.bin"@,
            Model::LargeV3Q5_0 => "ggml-large-v3-q5_0.bin"@,
            Model::LargeV3Turbo => "ggml-large-v3-turbo.bin"@,
            Model::LargeV3TurboQ5_0 => "ggml-large-v3-turbo-q5_0.bin"@,
            Model::LargeV3TurboQ8_0 => "ggml-large-v3-turbo-q8_0.bin"@,
        }
    }

    /// Name of the weights file in the repository.
    pub fn weights_file(&self) -> (r: &'static str)
        ensures
            r@ == self.file_spec(),
    {
        match self {
            Model::Tiny => "ggml-tiny.bin",
            Model::TinyQ5_1 => "ggml-tiny-q5_1.bin",
            Model::TinyQ8_0 => "ggml-tiny-q8_0.bin",
            Model::TinyEn => "ggml-tiny.en.bin",
            Model::TinyEnQ5_1 => "ggml-tiny.en-q5_1.bin",
            Model::TinyEnQ8_0 => "ggml-tiny.en-q8_0.bin",
            Model::Base => "ggml-base.bin",
            Model::BaseQ5_1 => "ggml-base-q5_1.bin",
            Model::BaseQ8_0 => "ggml-base-q8_0.bin",
            Model::BaseEn => "ggml-base.en.bin",
            Model::BaseEnQ5_1 => "ggml-base.en-q5_1.bin",
            Model::BaseEnQ8_0 => "ggml-base.en-q8_0.bin",
            Model::Small => "ggml-small.bin",
            Model::SmallQ5_1 => "ggml-small-q5_1.bin",
            Model::SmallQ8_0 => "ggml-small-q8_0.bin",
            Model::SmallEn => "ggml-small.en.bin",
            Model::SmallEnQ5_1 => "ggml-small.en-q5_1.bin",
            Model::SmallEnQ8_0 => "ggml-small.en-q8_0.bin",
            Model::Medium => "ggml-medium.bin",
            Model::MediumQ5_0 => "ggml-medium-q5_0.bin",
            Model::MediumQ8_0 => "ggml-medium-q8_0.bin",
            Model::MediumEn => "ggml-medium.en.bin",
            Model::MediumEnQ5_0 => "ggml-medium.en-q5_0.bin",
            Model::MediumEnQ8_0 => "ggml-medium.en-q8_0.bin",
            Model::Large => "ggml-large-v1.bin",
            Model::LargeV2 => "ggml-large-v2.bin",
            Model::LargeV2Q5_0 => "ggml-large-v2-q5_0.bin",
            Model::LargeV2Q8_0 => "ggml-large-v2-q8_0.bin",
            Model::LargeV3 => "ggml-large-v3.bin",
            Model::LargeV3Q5_0 => "ggml-large-v3-q5_0.bin",
            Model::LargeV3Turbo => "ggml-large-v3-turbo.bin",
            Model::LargeV3TurboQ5_0 => "ggml-large-v3-turbo-q5_0.bin",
            Model::LargeV3TurboQ8_0 => "ggml-large-v3-turbo-q8_0.bin",
        }
    }

    pub open spec fn index_spec(self) -> nat {
        match self {
            Model::Tiny => 0,
            Model::TinyQ5_1 => 1,
            Model::TinyQ8_0 => 2,
            Model::TinyEn => 3,
            Model::TinyEnQ5_1 => 4,
            Model::TinyEnQ8_0 => 5,
            Model::Base => 6,
            Model::BaseQ5_1 => 7,
            Model::BaseQ8_0 => 8,
            Model::BaseEn => 9,
            Model::BaseEnQ5_1 => 10,
            Model::BaseEnQ8_0 => 11,
            Model::Small => 12,
            Model::SmallQ5_1 => 13,
            Model::SmallQ8_0 => 14,
            Model::SmallEn => 15,
            Model::SmallEnQ5_1 => 16,
            Model::SmallEnQ8_0 => 17,
            Model::Medium => 18,
            Model::MediumQ5_0 => 19,
            Model::MediumQ8_0 => 20,
            Model::MediumEn => 21,
            Model::MediumEnQ5_0 => 22,
            Model::MediumEnQ8_0 => 23,
            Model::Large => 24,
            Model::LargeV2 => 25,
            Model::LargeV2Q5_0 => 26,
            Model::LargeV2Q8_0 => 27,
            Model::LargeV3 => 28,
            Model::LargeV3Q5_0 => 29,
            Model::LargeV3Turbo => 30,
            Model::LargeV3TurboQ5_0 => 31,
            Model::LargeV3TurboQ8_0 => 32,
        }
    }

    /// The model at position `i` of `all()`.
    pub fn from_index(i: usize) -> (r: Option<Model>)
        ensures
            i < N_MODELS <==> r is Some,
            r matches Some(m) ==> m.index_spec() == i,
    {
        match i {
            0 => Some(Model::Tiny),
            1 => Some(Model::TinyQ5_1),
            2 => Some(Model::TinyQ8_0),
            3 => Some(Model::TinyEn),
            4 => Some(Model::TinyEnQ5_1),
            5 => Some(Model::TinyEnQ8_0),
            6 => Some(Model::Base),
            7 => Some(Model::BaseQ5_1),
            8 => Some(Model::BaseQ8_0),
            9 => Some(Model::BaseEn),
            10 => Some(Model::BaseEnQ5_1),
            11 => Some(Model::BaseEnQ8_0),
            12 => Some(Model::Small),
            13 => Some(Model::SmallQ5_1),
            14 => Some(Model::SmallQ8_0),
            15 => Some(Model::SmallEn),
            16 => Some(Model::SmallEnQ5_1),
            17 => Some(Model::SmallEnQ8_0),
            18 => Some(Model::Medium),
            19 => Some(Model::MediumQ5_0),
            20 => Some(Model::MediumQ8_0),
            21 => Some(Model::MediumEn),
            22 => Some(Model::MediumEnQ5_0),
            23 => Some(Model::MediumEnQ8_0),
            24 => Some(Model::Large),
            25 => Some(Model::LargeV2),
            26 => Some(Model::LargeV2Q5_0),
            27 => Some(Model::LargeV2Q8_0),
            28 => Some(Model::LargeV3),
            29 => Some(Model::LargeV3Q5_0),
            30 => Some(Model::LargeV3Turbo),
            31 => Some(Model::LargeV3TurboQ5_0),
            32 => Some(Model::LargeV3TurboQ8_0),
            _ => None,
        }
    }

    pub open spec fn is_multilingual_spec(self) -> bool {
        !has_pair(self.display_spec(), 'e', 'n')
    }

    /// True if the model supports several languages: English-only models are
    /// the ones whose shown name holds `en`.
    pub fn is_multilingual(&self) -> (r: bool)
        ensures
            r == self.is_multilingual_spec(),
    {
        !contains_pair(self.display(), 'e', 'n')
    }

    /// Every model, each once, in a fixed order.
    pub fn all() -> (r: Vec<Model>)
        ensures
            r.len() == N_MODELS,
            forall|i: int| 0 <= i < r.len() ==> (#[trigger] r[i]).index_spec() == i,
    {
        let mut r: Vec<Model> = Vec::new();
        let mut i: usize = 0;
        while i < N_MODELS
            invariant
                i <= N_MODELS,
                r.len() == i,
                forall|j: int| 0 <= j < r.len() ==> (#[trigger] r[j]).index_spec() == j,
            decreases N_MODELS - i,
        {
            match Model::from_index(i) {
                Some(m) => r.push(m),
                None => {},
            }
            i = i + 1;
        }
        r
    }

    /// The model whose code is `code`, if any.
    pub fn from_code(code: &str) -> (r: Option<Model>)
        ensures
            r matches Some(m) ==> m.code_spec() == code@,
            r is None ==> forall|m: Model| #[trigger] m.code_spec() != code@,
    {
        let mut i: usize = 0;
        while i < N_MODELS
            invariant
                i <= N_MODELS,
                forall|m: Model| #[trigger] m.index_spec() < i ==> m.code_spec() != code@,
            decreases N_MODELS - i,
        {
            if let Some(m) = Model::from_index(i) {
                if str_eq(m.code(), code) {
                    return Some(m);
                }
                assert forall|k: Model| #[trigger] k.index_spec() < i + 1 implies k.code_spec() != code@ by {
                    if k.index_spec() == i {
                        assert(k == m);
                    }
                }
            }
            i = i + 1;
        }
        assert forall|m: Model| #[trigger] m.code_spec() != code@ by {
            assert(m.index_spec() < N_MODELS);
        }
        None
    }

    /// Where the model's files are found.
    pub fn hf_coordinates(&self) -> (r: ModelFiles)
        ensures
            r.repo@ == MODEL_REPO@,
            r.revision@ == MODEL_REVISION@,
            r.model@ == self.file_spec(),
            r.config is None,
            r.tokenizer is None,
    {
        ModelFiles {
            repo: MODEL_REPO.to_owned(),
            revision: MODEL_REVISION.to_owned(),
            config: None,
            model: self.weights_file().to_owned(),
            tokenizer: None,
        }
    }
}

impl Default for Model {
    fn default() -> (r: Model)
        ensures
            r == Model::Base,
    {
        Model::Base
    }
}

} // verus!
