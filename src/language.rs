use crate::text::str_eq;
use vstd::prelude::*;

verus! {

/// Number of languages the tokenizer supports.
pub const N_LANGUAGES: usize = 99;

/// Languages supported by the tokenizer.
#[derive(Clone, Copy, Debug, PartialEq, Eq, Structural)]
pub enum Language {
    English,
    Chinese,
    German,
    Spanish,
    Russian,
    Korean,
    French,
    Japanese,
    Portuguese,
    Turkish,
    Polish,
    Catalan,
    Dutch,
    Arabic,
    Swedish,
    Italian,
    Indonesian,
    Hindi,
    Finnish,
    Vietnamese,
    Hebrew,
    Ukrainian,
    Greek,
    Malay,
    Czech,
    Romanian,
    Danish,
    Hungarian,
    Tamil,
    Norwegian,
    Thai,
    Urdu,
    Croatian,
    Bulgarian,
    Lithuanian,
    Latin,
    Maori,
    Malayalam,
    Welsh,
    Slovak,
    Telugu,
    Persian,
    Latvian,
    Bengali,
    Serbian,
    Azerbaijani,
    Slovenian,
    Kannada,
    Estonian,
    Macedonian,
    Breton,
    Basque,
    Icelandic,
    Armenian,
    Nepali,
    Mongolian,
    Bosnian,
    Kazakh,
    Albanian,
    Swahili,
    Galician,
    Marathi,
    Punjabi,
    Sinhala,
    Khmer,
    Shona,
    Yoruba,
    Somali,
    Afrikaans,
    Occitan,
    Georgian,
    Belarusian,
    Tajik,
    Sindhi,
    Gujarati,
    Amharic,
    Yiddish,
    Lao,
    Uzbek,
    Faroese,
    HaitianCreole,
    Pashto,
    Turkmen,
    Nynorsk,
    Maltese,
    Sanskrit,
    Luxembourgish,
    Myanmar,
    Tibetan,
    Tagalog,
    Malagasy,
    Assamese,
    Tatar,
    Hawaiian,
    Lingala,
    Hausa,
    Bashkir,
    Javanese,
    Sundanese,
}

impl Language {
    /// Position of the language in `all()`.
    pub open spec fn index_spec(self) -> nat {
        match self {
            Language::English => 0,
            Language::Chinese => 1,
            Language::German => 2,
            Language::Spanish => 3,
            Language::Russian => 4,
            Language::Korean => 5,
            Language::French => 6,
            Language::Japanese => 7,
            Language::Portuguese => 8,
            Language::Turkish => 9,
            Language::Polish => 10,
            Language::Catalan => 11,
            Language::Dutch => 12,
            Language::Arabic => 13,
            Language::Swedish => 14,
            Language::Italian => 15,
            Language::Indonesian => 16,
            Language::Hindi => 17,
            Language::Finnish => 18,
            Language::Vietnamese => 19,
            Language::Hebrew => 20,
            Language::Ukrainian => 21,
            Language::Greek => 22,
            Language::Malay => 23,
            Language::Czech => 24,
            Language::Romanian => 25,
            Language::Danish => 26,
            Language::Hungarian => 27,
            Language::Tamil => 28,
            Language::Norwegian => 29,
            Language::Thai => 30,
            Language::Urdu => 31,
            Language::Croatian => 32,
            Language::Bulgarian => 33,
            Language::Lithuanian => 34,
            Language::Latin => 35,
            Language::Maori => 36,
            Language::Malayalam => 37,
            Language::Welsh => 38,
            Language::Slovak => 39,
            Language::Telugu => 40,
            Language::Persian => 41,
            Language::Latvian => 42,
            Language::Bengali => 43,
            Language::Serbian => 44,
            Language::Azerbaijani => 45,
            Language::Slovenian => 46,
            Language::Kannada => 47,
            Language::Estonian => 48,
            Language::Macedonian => 49,
            Language::Breton => 50,
            Language::Basque => 51,
            Language::Icelandic => 52,
            Language::Armenian => 53,
            Language::Nepali => 54,
            Language::Mongolian => 55,
            Language::Bosnian => 56,
            Language::Kazakh => 57,
            Language::Albanian => 58,
            Language::Swahili => 59,
            Language::Galician => 60,
            Language::Marathi => 61,
            Language::Punjabi => 62,
            Language::Sinhala => 63,
            Language::Khmer => 64,
            Language::Shona => 65,
            Language::Yoruba => 66,
            Language::Somali => 67,
            Language::Afrikaans => 68,
            Language::Occitan => 69,
            Language::Georgian => 70,
            Language::Belarusian => 71,
            Language::Tajik => 72,
            Language::Sindhi => 73,
            Language::Gujarati => 74,
            Language::Amharic => 75,
            Language::Yiddish => 76,
            Language::Lao => 77,
            Language::Uzbek => 78,
            Language::Faroese => 79,
            Language::HaitianCreole => 80,
            Language::Pashto => 81,
            Language::Turkmen => 82,
            Language::Nynorsk => 83,
            Language::Maltese => 84,
            Language::Sanskrit => 85,
            Language::Luxembourgish => 86,
            Language::Myanmar => 87,
            Language::Tibetan => 88,
            Language::Tagalog => 89,
            Language::Malagasy => 90,
            Language::Assamese => 91,
            Language::Tatar => 92,
            Language::Hawaiian => 93,
            Language::Lingala => 94,
            Language::Hausa => 95,
            Language::Bashkir => 96,
            Language::Javanese => 97,
            Language::Sundanese => 98,
        }
    }

    /// The language code, as in `<|en|>`.
    pub open spec fn code_spec(self) -> Seq<char> {
        match self {
            Language::English => "en"@,
            Language::Chinese => "zh"@,
            Language::German => "de"@,
            Language::Spanish => "es"@,
            Language::Russian => "ru"@,
            Language::Korean => "ko"@,
            Language::French => "fr"@,
            Language::Japanese => "ja"@,
            Language::Portuguese => "pt"@,
            Language::Turkish => "tr"@,
            Language::Polish => "pl"@,
            Language::Catalan => "ca"@,
            Language::Dutch => "nl"@,
            Language::Arabic => "ar"@,
            Language::Swedish => "sv"@,
            Language::Italian => "it"@,
            Language::Indonesian => "id"@,
            Language::Hindi => "hi"@,
            Language::Finnish => "fi"@,
            Language::Vietnamese => "vi"@,
            Language::Hebrew => "he"@,
            Language::Ukrainian => "uk"@,
            Language::Greek => "el"@,
            Language::Malay => "ms"@,
            Language::Czech => "cs"@,
            Language::Romanian => "ro"@,
            Language::Danish => "da"@,
            Language::Hungarian => "hu"@,
            Language::Tamil => "ta"@,
            Language::Norwegian => "no"@,
            Language::Thai => "th"@,
            Language::Urdu => "ur"@,
            Language::Croatian => "hr"@,
            Language::Bulgarian => "bg"@,
            Language::Lithuanian => "lt"@,
            Language::Latin => "la"@,
            Language::Maori => "mi"@,
            Language::Malayalam => "ml"@,
            Language::Welsh => "cy"@,
            Language::Slovak => "sk"@,
            Language::Telugu => "te"@,
            Language::Persian => "fa"@,
            Language::Latvian => "lv"@,
            Language::Bengali => "bn"@,
            Language::Serbian => "sr"@,
            Language::Azerbaijani => "az"@,
            Language::Slovenian => "sl"@,
            Language::Kannada => "kn"@,
            Language::Estonian => "et"@,
            Language::Macedonian => "mk"@,
            Language::Breton => "br"@,
            Language::Basque => "eu"@,
            Language::Icelandic => "is"@,
            Language::Armenian => "hy"@,
            Language::Nepali => "ne"@,
            Language::Mongolian => "mn"@,
            Language::Bosnian => "bs"@,
            Language::Kazakh => "kk"@,
            Language::Albanian => "sq"@,
            Language::Swahili => "sw"@,
            Language::Galician => "gl"@,
            Language::Marathi => "mr"@,
            Language::Punjabi => "pa"@,
            Language::Sinhala => "si"@,
            Language::Khmer => "km"@,
            Language::Shona => "sn"@,
            Language::Yoruba => "yo"@,
            Language::Somali => "so"@,
            Language::Afrikaans => "af"@,
            Language::Occitan => "oc"@,
            Language::Georgian => "ka"@,
            Language::Belarusian => "be"@,
            Language::Tajik => "tg"@,
            Language::Sindhi => "sd"@,
            Language::Gujarati => "gu"@,
            Language::Amharic => "am"@,
            Language::Yiddish => "yi"@,
            Language::Lao => "lo"@,
            Language::Uzbek => "uz"@,
            Language::Faroese => "fo"@,
            Language::HaitianCreole => "ht"@,
            Language::Pashto => "ps"@,
            Language::Turkmen => "tk"@,
            Language::Nynorsk => "nn"@,
            Language::Maltese => "mt"@,
            Language::Sanskrit => "sa"@,
            Language::Luxembourgish => "lb"@,
            Language::Myanmar => "my"@,
            Language::Tibetan => "bo"@,
            Language::Tagalog => "tl"@,
            Language::Malagasy => "mg"@,
            Language::Assamese => "as"@,
            Language::Tatar => "tt"@,
            Language::Hawaiian => "haw"@,
            Language::Lingala => "ln"@,
            Language::Hausa => "ha"@,
            Language::Bashkir => "ba"@,
            Language::Javanese => "jw"@,
            Language::Sundanese => "su"@,
        }
    }

    /// The language code, as in `<|en|>`.
    pub fn code(&self) -> (r: &'static str)
        ensures
            r@ == self.code_spec(),
    {
        match self {
            Language::English => "en",
            Language::Chinese => "zh",
            Language::German => "de",
            Language::Spanish => "es",
            Language::Russian => "ru",
            Language::Korean => "ko",
            Language::French => "fr",
            Language::Japanese => "ja",
            Language::Portuguese => "pt",
            Language::Turkish => "tr",
            Language::Polish => "pl",
            Language::Catalan => "ca",
            Language::Dutch => "nl",
            Language::Arabic => "ar",
            Language::Swedish => "sv",
            Language::Italian => "it",
            Language::Indonesian => "id",
            Language::Hindi => "hi",
            Language::Finnish => "fi",
            Language::Vietnamese => "vi",
            Language::Hebrew => "he",
            Language::Ukrainian => "uk",
            Language::Greek => "el",
            Language::Malay => "ms",
            Language::Czech => "cs",
            Language::Romanian => "ro",
            Language::Danish => "da",
            Language::Hungarian => "hu",
            Language::Tamil => "ta",
            Language::Norwegian => "no",
            Language::Thai => "th",
            Language::Urdu => "ur",
            Language::Croatian => "hr",
            Language::Bulgarian => "bg",
            Language::Lithuanian => "lt",
            Language::Latin => "la",
            Language::Maori => "mi",
            Language::Malayalam => "ml",
            Language::Welsh => "cy",
            Language::Slovak => "sk",
            Language::Telugu => "te",
            Language::Persian => "fa",
            Language::Latvian => "lv",
            Language::Bengali => "bn",
            Language::Serbian => "sr",
            Language::Azerbaijani => "az",
            Language::Slovenian => "sl",
            Language::Kannada => "kn",
            Language::Estonian => "et",
            Language::Macedonian => "mk",
            Language::Breton => "br",
            Language::Basque => "eu",
            Language::Icelandic => "is",
            Language::Armenian => "hy",
            Language::Nepali => "ne",
            Language::Mongolian => "mn",
            Language::Bosnian => "bs",
            Language::Kazakh => "kk",
            Language::Albanian => "sq",
            Language::Swahili => "sw",
            Language::Galician => "gl",
            Language::Marathi => "mr",
            Language::Punjabi => "pa",
            Language::Sinhala => "si",
            Language::Khmer => "km",
            Language::Shona => "sn",
            Language::Yoruba => "yo",
            Language::Somali => "so",
            Language::Afrikaans => "af",
            Language::Occitan => "oc",
            Language::Georgian => "ka",
            Language::Belarusian => "be",
            Language::Tajik => "tg",
            Language::Sindhi => "sd",
            Language::Gujarati => "gu",
            Language::Amharic => "am",
            Language::Yiddish => "yi",
            Language::Lao => "lo",
            Language::Uzbek => "uz",
            Language::Faroese => "fo",
            Language::HaitianCreole => "ht",
            Language::Pashto => "ps",
            Language::Turkmen => "tk",
            Language::Nynorsk => "nn",
            Language::Maltese => "mt",
            Language::Sanskrit => "sa",
            Language::Luxembourgish => "lb",
            Language::Myanmar => "my",
            Language::Tibetan => "bo",
            Language::Tagalog => "tl",
            Language::Malagasy => "mg",
            Language::Assamese => "as",
            Language::Tatar => "tt",
            Language::Hawaiian => "haw",
            Language::Lingala => "ln",
            Language::Hausa => "ha",
            Language::Bashkir => "ba",
            Language::Javanese => "jw",
            Language::Sundanese => "su",
        }
    }

    /// A line for listings: the language's name and code.
    pub open spec fn message_spec(self) -> Seq<char> {
        match self {
            Language::English => "English - en"@,
            Language::Chinese => "Chinese - zh"@,
            Language::German => "German - de"@,
            Language::Spanish => "Spanish - es"@,
            Language::Russian => "Russian - ru"@,
            Language::Korean => "Korean - ko"@,
            Language::French => "French - fr"@,
            Language::Japanese => "Japanese - ja"@,
            Language::Portuguese => "Portuguese - pt"@,
            Language::Turkish => "Turkish - tr"@,
            Language::Polish => "Polish - pl"@,
            Language::Catalan => "Catalan - ca"@,
            Language::Dutch => "Dutch - nl"@,
            Language::Arabic => "Arabic - ar"@,
            Language::Swedish => "Swedish - sv"@,
            Language::Italian => "Italian - it"@,
            Language::Indonesian => "Indonesian - id"@,
            Language::Hindi => "Hindi - hi"@,
            Language::Finnish => "Finnish - fi"@,
            Language::Vietnamese => "Vietnamese - vi"@,
            Language::Hebrew => "Hebrew - he"@,
            Language::Ukrainian => "Ukrainian - uk"@,
            Language::Greek => "Greek - el"@,
            Language::Malay => "Malay - ms"@,
            Language::Czech => "Czech - cs"@,
            Language::Romanian => "Romanian - ro"@,
            Language::Danish => "Danish - da"@,
            Language::Hungarian => "Hungarian - hu"@,
            Language::Tamil => "Tamil - ta"@,
            Language::Norwegian => "Norwegian - no"@,
            Language::Thai => "Thai - th"@,
            Language::Urdu => "Urdu - ur"@,
            Language::Croatian => "Croatian - hr"@,
            Language::Bulgarian => "Bulgarian - bg"@,
            Language::Lithuanian => "Lithuanian - lt"@,
            Language::Latin => "Latin - la"@,
            Language::Maori => "Maori - mi"@,
            Language::Malayalam => "Malayalam - ml"@,
            Language::Welsh => "Welsh - cy"@,
            Language::Slovak => "Slovak - sk"@,
            Language::Telugu => "Telugu - te"@,
            Language::Persian => "Persian - fa"@,
            Language::Latvian => "Latvian - lv"@,
            Language::Bengali => "Bengali - bn"@,
            Language::Serbian => "Serbian - sr"@,
            Language::Azerbaijani => "Azerbaijani - az"@,
            Language::Slovenian => "Slovenian - sl"@,
            Language::Kannada => "Kannada - kn"@,
            Language::Estonian => "Estonian - et"@,
            Language::Macedonian => "Macedonian - mk"@,
            Language::Breton => "Breton - br"@,
            Language::Basque => "Basque - eu"@,
            Language::Icelandic => "Icelandic - is"@,
            Language::Armenian => "Armenian - hy"@,
            Language::Nepali => "Nepali - ne"@,
            Language::Mongolian => "Mongolian - mn"@,
            Language::Bosnian => "Bosnian - bs"@,
            Language::Kazakh => "Kazakh - kk"@,
            Language::Albanian => "Albanian - sq"@,
            Language::Swahili => "Swahili - sw"@,
            Language::Galician => "Galician - gl"@,
            Language::Marathi => "Marathi - mr"@,
            Language::Punjabi => "Punjabi - pa"@,
            Language::Sinhala => "Sinhala - si"@,
            Language::Khmer => "Khmer - km"@,
            Language::Shona => "Shona - sn"@,
            Language::Yoruba => "Yoruba - yo"@,
            Language::Somali => "Somali - so"@,
            Language::Afrikaans => "Afrikaans - af"@,
            Language::Occitan => "Occitan - oc"@,
            Language::Georgian => "Georgian - ka"@,
            Language::Belarusian => "Belarusian - be"@,
            Language::Tajik => "Tajik - tg"@,
            Language::Sindhi => "Sindhi - sd"@,
            Language::Gujarati => "Gujarati - gu"@,
            Language::Amharic => "Amharic - am"@,
            Language::Yiddish => "Yiddish - yi"@,
            Language::Lao => "Lao - lo"@,
            Language::Uzbek => "Uzbek - uz"@,
            Language::Faroese => "Faroese - fo"@,
            Language::HaitianCreole => "HaitianCreole - ht"@,
            Language::Pashto => "Pashto - ps"@,
            Language::Turkmen => "Turkmen - tk"@,
            Language::Nynorsk => "Nynorsk - nn"@,
            Language::Maltese => "Maltese - mt"@,
            Language::Sanskrit => "Sanskrit - sa"@,
            Language::Luxembourgish => "Luxembourgish - lb"@,
            Language::Myanmar => "Myanmar - my"@,
            Language::Tibetan => "Tibetan - bo"@,
            Language::Tagalog => "Tagalog - tl"@,
            Language::Malagasy => "Malagasy - mg"@,
            Language::Assamese => "Assamese - as"@,
            Language::Tatar => "Tatar - tt"@,
            Language::Hawaiian => "Hawaiian - haw"@,
            Language::Lingala => "Lingala - ln"@,
            Language::Hausa => "Hausa - ha"@,
            Language::Bashkir => "Bashkir - ba"@,
            Language::Javanese => "Javanese - jw"@,
            Language::Sundanese => "Sundanese - su"@,
        }
    }

    pub fn message(&self) -> (r: &'static str)
        ensures
            r@ == self.message_spec(),
    {
        match self {
            Language::English => "English - en",
            Language::Chinese => "Chinese - zh",
            Language::German => "German - de",
            Language::Spanish => "Spanish - es",
            Language::Russian => "Russian - ru",
            Language::Korean => "Korean - ko",
            Language::French => "French - fr",
            Language::Japanese => "Japanese - ja",
            Language::Portuguese => "Portuguese - pt",
            Language::Turkish => "Turkish - tr",
            Language::Polish => "Polish - pl",
            Language::Catalan => "Catalan - ca",
            Language::Dutch => "Dutch - nl",
            Language::Arabic => "Arabic - ar",
            Language::Swedish => "Swedish - sv",
            Language::Italian => "Italian - it",
            Language::Indonesian => "Indonesian - id",
            Language::Hindi => "Hindi - hi",
            Language::Finnish => "Finnish - fi",
            Language::Vietnamese => "Vietnamese - vi",
            Language::Hebrew => "Hebrew - he",
            Language::Ukrainian => "Ukrainian - uk",
            Language::Greek => "Greek - el",
            Language::Malay => "Malay - ms",
            Language::Czech => "Czech - cs",
            Language::Romanian => "Romanian - ro",
            Language::Danish => "Danish - da",
            Language::Hungarian => "Hungarian - hu",
            Language::Tamil => "Tamil - ta",
            Language::Norwegian => "Norwegian - no",
            Language::Thai => "Thai - th",
            Language::Urdu => "Urdu - ur",
            Language::Croatian => "Croatian - hr",
            Language::Bulgarian => "Bulgarian - bg",
            Language::Lithuanian => "Lithuanian - lt",
            Language::Latin => "Latin - la",
            Language::Maori => "Maori - mi",
            Language::Malayalam => "Malayalam - ml",
            Language::Welsh => "Welsh - cy",
            Language::Slovak => "Slovak - sk",
            Language::Telugu => "Telugu - te",
            Language::Persian => "Persian - fa",
            Language::Latvian => "Latvian - lv",
            Language::Bengali => "Bengali - bn",
            Language::Serbian => "Serbian - sr",
            Language::Azerbaijani => "Azerbaijani - az",
            Language::Slovenian => "Slovenian - sl",
            Language::Kannada => "Kannada - kn",
            Language::Estonian => "Estonian - et",
            Language::Macedonian => "Macedonian - mk",
            Language::Breton => "Breton - br",
            Language::Basque => "Basque - eu",
            Language::Icelandic => "Icelandic - is",
            Language::Armenian => "Armenian - hy",
            Language::Nepali => "Nepali - ne",
            Language::Mongolian => "Mongolian - mn",
            Language::Bosnian => "Bosnian - bs",
            Language::Kazakh => "Kazakh - kk",
            Language::Albanian => "Albanian - sq",
            Language::Swahili => "Swahili - sw",
            Language::Galician => "Galician - gl",
            Language::Marathi => "Marathi - mr",
            Language::Punjabi => "Punjabi - pa",
            Language::Sinhala => "Sinhala - si",
            Language::Khmer => "Khmer - km",
            Language::Shona => "Shona - sn",
            Language::Yoruba => "Yoruba - yo",
            Language::Somali => "Somali - so",
            Language::Afrikaans => "Afrikaans - af",
            Language::Occitan => "Occitan - oc",
            Language::Georgian => "Georgian - ka",
            Language::Belarusian => "Belarusian - be",
            Language::Tajik => "Tajik - tg",
            Language::Sindhi => "Sindhi - sd",
            Language::Gujarati => "Gujarati - gu",
            Language::Amharic => "Amharic - am",
            Language::Yiddish => "Yiddish - yi",
            Language::Lao => "Lao - lo",
            Language::Uzbek => "Uzbek - uz",
            Language::Faroese => "Faroese - fo",
            Language::HaitianCreole => "HaitianCreole - ht",
            Language::Pashto => "Pashto - ps",
            Language::Turkmen => "Turkmen - tk",
            Language::Nynorsk => "Nynorsk - nn",
            Language::Maltese => "Maltese - mt",
            Language::Sanskrit => "Sanskrit - sa",
            Language::Luxembourgish => "Luxembourgish - lb",
            Language::Myanmar => "Myanmar - my",
            Language::Tibetan => "Tibetan - bo",
            Language::Tagalog => "Tagalog - tl",
            Language::Malagasy => "Malagasy - mg",
            Language::Assamese => "Assamese - as",
            Language::Tatar => "Tatar - tt",
            Language::Hawaiian => "Hawaiian - haw",
            Language::Lingala => "Lingala - ln",
            Language::Hausa => "Hausa - ha",
            Language::Bashkir => "Bashkir - ba",
            Language::Javanese => "Javanese - jw",
            Language::Sundanese => "Sundanese - su",
        }
    }

    /// The language's name in English.
    pub open spec fn name_spec(self) -> Seq<char> {
        match self {
            Language::English => "English"@,
            Language::Chinese => "Chinese"@,
            Language::German => "German"@,
            Language::Spanish => "Spanish"@,
            Language::Russian => "Russian"@,
            Language::Korean => "Korean"@,
            Language::French => "French"@,
            Language::Japanese => "Japanese"@,
            Language::Portuguese => "Portuguese"@,
            Language::Turkish => "Turkish"@,
            Language::Polish => "Polish"@,
            Language::Catalan => "Catalan"@,
            Language::Dutch => "Dutch"@,
            Language::Arabic => "Arabic"@,
            Language::Swedish => "Swedish"@,
            Language::Italian => "Italian"@,
            Language::Indonesian => "Indonesian"@,
            Language::Hindi => "Hindi"@,
            Language::Finnish => "Finnish"@,
            Language::Vietnamese => "Vietnamese"@,
            Language::Hebrew => "Hebrew"@,
            Language::Ukrainian => "Ukrainian"@,
            Language::Greek => "Greek"@,
            Language::Malay => "Malay"@,
            Language::Czech => "Czech"@,
            Language::Romanian => "Romanian"@,
            Language::Danish => "Danish"@,
            Language::Hungarian => "Hungarian"@,
            Language::Tamil => "Tamil"@,
            Language::Norwegian => "Norwegian"@,
            Language::Thai => "Thai"@,
            Language::Urdu => "Urdu"@,
            Language::Croatian => "Croatian"@,
            Language::Bulgarian => "Bulgarian"@,
            Language::Lithuanian => "Lithuanian"@,
            Language::Latin => "Latin"@,
            Language::Maori => "Maori"@,
            Language::Malayalam => "Malayalam"@,
            Language::Welsh => "Welsh"@,
            Language::Slovak => "Slovak"@,
            Language::Telugu => "Telugu"@,
            Language::Persian => "Persian"@,
            Language::Latvian => "Latvian"@,
            Language::Bengali => "Bengali"@,
            Language::Serbian => "Serbian"@,
            Language::Azerbaijani => "Azerbaijani"@,
            Language::Slovenian => "Slovenian"@,
            Language::Kannada => "Kannada"@,
            Language::Estonian => "Estonian"@,
            Language::Macedonian => "Macedonian"@,
            Language::Breton => "Breton"@,
            Language::Basque => "Basque"@,
            Language::Icelandic => "Icelandic"@,
            Language::Armenian => "Armenian"@,
            Language::Nepali => "Nepali"@,
            Language::Mongolian => "Mongolian"@,
            Language::Bosnian => "Bosnian"@,
            Language::Kazakh => "Kazakh"@,
            Language::Albanian => "Albanian"@,
            Language::Swahili => "Swahili"@,
            Language::Galician => "Galician"@,
            Language::Marathi => "Marathi"@,
            Language::Punjabi => "Punjabi"@,
            Language::Sinhala => "Sinhala"@,
            Language::Khmer => "Khmer"@,
            Language::Shona => "Shona"@,
            Language::Yoruba => "Yoruba"@,
            Language::Somali => "Somali"@,
            Language::Afrikaans => "Afrikaans"@,
            Language::Occitan => "Occitan"@,
            Language::Georgian => "Georgian"@,
            Language::Belarusian => "Belarusian"@,
            Language::Tajik => "Tajik"@,
            Language::Sindhi => "Sindhi"@,
            Language::Gujarati => "Gujarati"@,
            Language::Amharic => "Amharic"@,
            Language::Yiddish => "Yiddish"@,
            Language::Lao => "Lao"@,
            Language::Uzbek => "Uzbek"@,
            Language::Faroese => "Faroese"@,
            Language::HaitianCreole => "HaitianCreole"@,
            Language::Pashto => "Pashto"@,
            Language::Turkmen => "Turkmen"@,
            Language::Nynorsk => "Nynorsk"@,
            Language::Maltese => "Maltese"@,
            Language::Sanskrit => "Sanskrit"@,
            Language::Luxembourgish => "Luxembourgish"@,
            Language::Myanmar => "Myanmar"@,
            Language::Tibetan => "Tibetan"@,
            Language::Tagalog => "Tagalog"@,
            Language::Malagasy => "Malagasy"@,
            Language::Assamese => "Assamese"@,
            Language::Tatar => "Tatar"@,
            Language::Hawaiian => "Hawaiian"@,
            Language::Lingala => "Lingala"@,
            Language::Hausa => "Hausa"@,
            Language::Bashkir => "Bashkir"@,
            Language::Javanese => "Javanese"@,
            Language::Sundanese => "Sundanese"@,
        }
    }

    pub fn name(&self) -> (r: &'static str)
        ensures
            r@ == self.name_spec(),
    {
        match self {
            Language::English => "English",
            Language::Chinese => "Chinese",
            Language::German => "German",
            Language::Spanish => "Spanish",
            Language::Russian => "Russian",
            Language::Korean => "Korean",
            Language::French => "French",
            Language::Japanese => "Japanese",
            Language::Portuguese => "Portuguese",
            Language::Turkish => "Turkish",
            Language::Polish => "Polish",
            Language::Catalan => "Catalan",
            Language::Dutch => "Dutch",
            Language::Arabic => "Arabic",
            Language::Swedish => "Swedish",
            Language::Italian => "Italian",
            Language::Indonesian => "Indonesian",
            Language::Hindi => "Hindi",
            Language::Finnish => "Finnish",
            Language::Vietnamese => "Vietnamese",
            Language::Hebrew => "Hebrew",
            Language::Ukrainian => "Ukrainian",
            Language::Greek => "Greek",
            Language::Malay => "Malay",
            Language::Czech => "Czech",
            Language::Romanian => "Romanian",
            Language::Danish => "Danish",
            Language::Hungarian => "Hungarian",
            Language::Tamil => "Tamil",
            Language::Norwegian => "Norwegian",
            Language::Thai => "Thai",
            Language::Urdu => "Urdu",
            Language::Croatian => "Croatian",
            Language::Bulgarian => "Bulgarian",
            Language::Lithuanian => "Lithuanian",
            Language::Latin => "Latin",
            Language::Maori => "Maori",
            Language::Malayalam => "Malayalam",
            Language::Welsh => "Welsh",
            Language::Slovak => "Slovak",
            Language::Telugu => "Telugu",
            Language::Persian => "Persian",
            Language::Latvian => "Latvian",
            Language::Bengali => "Bengali",
            Language::Serbian => "Serbian",
            Language::Azerbaijani => "Azerbaijani",
            Language::Slovenian => "Slovenian",
            Language::Kannada => "Kannada",
            Language::Estonian => "Estonian",
            Language::Macedonian => "Macedonian",
            Language::Breton => "Breton",
            Language::Basque => "Basque",
            Language::Icelandic => "Icelandic",
            Language::Armenian => "Armenian",
            Language::Nepali => "Nepali",
            Language::Mongolian => "Mongolian",
            Language::Bosnian => "Bosnian",
            Language::Kazakh => "Kazakh",
            Language::Albanian => "Albanian",
            Language::Swahili => "Swahili",
            Language::Galician => "Galician",
            Language::Marathi => "Marathi",
            Language::Punjabi => "Punjabi",
            Language::Sinhala => "Sinhala",
            Language::Khmer => "Khmer",
            Language::Shona => "Shona",
            Language::Yoruba => "Yoruba",
            Language::Somali => "Somali",
            Language::Afrikaans => "Afrikaans",
            Language::Occitan => "Occitan",
            Language::Georgian => "Georgian",
            Language::Belarusian => "Belarusian",
            Language::Tajik => "Tajik",
            Language::Sindhi => "Sindhi",
            Language::Gujarati => "Gujarati",
            Language::Amharic => "Amharic",
            Language::Yiddish => "Yiddish",
            Language::Lao => "Lao",
            Language::Uzbek => "Uzbek",
            Language::Faroese => "Faroese",
            Language::HaitianCreole => "HaitianCreole",
            Language::Pashto => "Pashto",
            Language::Turkmen => "Turkmen",
            Language::Nynorsk => "Nynorsk",
            Language::Maltese => "Maltese",
            Language::Sanskrit => "Sanskrit",
            Language::Luxembourgish => "Luxembourgish",
            Language::Myanmar => "Myanmar",
            Language::Tibetan => "Tibetan",
            Language::Tagalog => "Tagalog",
            Language::Malagasy => "Malagasy",
            Language::Assamese => "Assamese",
            Language::Tatar => "Tatar",
            Language::Hawaiian => "Hawaiian",
            Language::Lingala => "Lingala",
            Language::Hausa => "Hausa",
            Language::Bashkir => "Bashkir",
            Language::Javanese => "Javanese",
            Language::Sundanese => "Sundanese",
        }
    }

    pub fn is_english(&self) -> (r: bool)
        ensures
            r == (*self == Language::English),
    {
        match self {
            Language::English => true,
            _ => false,
        }
    }

    /// The language at position `i` of `all()`.
    pub fn from_index(i: usize) -> (r: Option<Language>)
        ensures
            i < N_LANGUAGES <==> r is Some,
            r matches Some(l) ==> l.index_spec() == i,
    {
        match i {
            0 => Some(Language::English),
            1 => Some(Language::Chinese),
            2 => Some(Language::German),
            3 => Some(Language::Spanish),
            4 => Some(Language::Russian),
            5 => Some(Language::Korean),
            6 => Some(Language::French),
            7 => Some(Language::Japanese),
            8 => Some(Language::Portuguese),
            9 => Some(Language::Turkish),
            10 => Some(Language::Polish),
            11 => Some(Language::Catalan),
            12 => Some(Language::Dutch),
            13 => Some(Language::Arabic),
            14 => Some(Language::Swedish),
            15 => Some(Language::Italian),
            16 => Some(Language::Indonesian),
            17 => Some(Language::Hindi),
            18 => Some(Language::Finnish),
            19 => Some(Language::Vietnamese),
            20 => Some(Language::Hebrew),
            21 => Some(Language::Ukrainian),
            22 => Some(Language::Greek),
            23 => Some(Language::Malay),
            24 => Some(Language::Czech),
            25 => Some(Language::Romanian),
            26 => Some(Language::Danish),
            27 => Some(Language::Hungarian),
            28 => Some(Language::Tamil),
            29 => Some(Language::Norwegian),
            30 => Some(Language::Thai),
            31 => Some(Language::Urdu),
            32 => Some(Language::Croatian),
            33 => Some(Language::Bulgarian),
            34 => Some(Language::Lithuanian),
            35 => Some(Language::Latin),
            36 => Some(Language::Maori),
            37 => Some(Language::Malayalam),
            38 => Some(Language::Welsh),
            39 => Some(Language::Slovak),
            40 => Some(Language::Telugu),
            41 => Some(Language::Persian),
            42 => Some(Language::Latvian),
            43 => Some(Language::Bengali),
            44 => Some(Language::Serbian),
            45 => Some(Language::Azerbaijani),
            46 => Some(Language::Slovenian),
            47 => Some(Language::Kannada),
            48 => Some(Language::Estonian),
            49 => Some(Language::Macedonian),
            50 => Some(Language::Breton),
            51 => Some(Language::Basque),
            52 => Some(Language::Icelandic),
            53 => Some(Language::Armenian),
            54 => Some(Language::Nepali),
            55 => Some(Language::Mongolian),
            56 => Some(Language::Bosnian),
            57 => Some(Language::Kazakh),
            58 => Some(Language::Albanian),
            59 => Some(Language::Swahili),
            60 => Some(Language::Galician),
            61 => Some(Language::Marathi),
            62 => Some(Language::Punjabi),
            63 => Some(Language::Sinhala),
            64 => Some(Language::Khmer),
            65 => Some(Language::Shona),
            66 => Some(Language::Yoruba),
            67 => Some(Language::Somali),
            68 => Some(Language::Afrikaans),
            69 => Some(Language::Occitan),
            70 => Some(Language::Georgian),
            71 => Some(Language::Belarusian),
            72 => Some(Language::Tajik),
            73 => Some(Language::Sindhi),
            74 => Some(Language::Gujarati),
            75 => Some(Language::Amharic),
            76 => Some(Language::Yiddish),
            77 => Some(Language::Lao),
            78 => Some(Language::Uzbek),
            79 => Some(Language::Faroese),
            80 => Some(Language::HaitianCreole),
            81 => Some(Language::Pashto),
            82 => Some(Language::Turkmen),
            83 => Some(Language::Nynorsk),
            84 => Some(Language::Maltese),
            85 => Some(Language::Sanskrit),
            86 => Some(Language::Luxembourgish),
            87 => Some(Language::Myanmar),
            88 => Some(Language::Tibetan),
            89 => Some(Language::Tagalog),
            90 => Some(Language::Malagasy),
            91 => Some(Language::Assamese),
            92 => Some(Language::Tatar),
            93 => Some(Language::Hawaiian),
            94 => Some(Language::Lingala),
            95 => Some(Language::Hausa),
            96 => Some(Language::Bashkir),
            97 => Some(Language::Javanese),
            98 => Some(Language::Sundanese),
            _ => None,
        }
    }

    /// Every language, each once, in a fixed order.
    pub fn all() -> (r: Vec<Language>)
        ensures
            r.len() == N_LANGUAGES,
            forall|i: int| 0 <= i < r.len() ==> (#[trigger] r[i]).index_spec() == i,
    {
        let mut r: Vec<Language> = Vec::new();
        let mut i: usize = 0;
        while i < N_LANGUAGES
            invariant
                i <= N_LANGUAGES,
                r.len() == i,
                forall|j: int| 0 <= j < r.len() ==> (#[trigger] r[j]).index_spec() == j,
            decreases N_LANGUAGES - i,
        {
            match Language::from_index(i) {
                Some(l) => r.push(l),
                None => {},
            }
            i = i + 1;
        }
        r
    }

    /// The language whose code is `code`, if any.
    pub fn from_code(code: &str) -> (r: Option<Language>)
        ensures
            r matches Some(l) ==> l.code_spec() == code@,
            r is None ==> forall|l: Language| #[trigger] l.code_spec() != code@,
    {
        let mut i: usize = 0;
        while i < N_LANGUAGES
            invariant
                i <= N_LANGUAGES,
                forall|l: Language| #[trigger] l.index_spec() < i ==> l.code_spec() != code@,
            decreases N_LANGUAGES - i,
        {
            if let Some(l) = Language::from_index(i) {
                if str_eq(l.code(), code) {
                    return Some(l);
                }
                assert forall|m: Language| #[trigger] m.index_spec() < i + 1 implies m.code_spec() != code@ by {
                    if m.index_spec() == i {
                        assert(m == l);
                    }
                }
            }
            i = i + 1;
        }
        assert forall|l: Language| #[trigger] l.code_spec() != code@ by {
            assert(l.index_spec() < N_LANGUAGES);
        }
        None
    }
}

impl Default for Language {
    fn default() -> (r: Language)
        ensures
            r == Language::English,
    {
        Language::English
    }
}

} // verus!
