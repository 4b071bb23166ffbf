use crate::text::opt_text;
use crate::text::str_eq;
use vstd::prelude::*;

verus! {

/// The sample rate of the audio that recognisers are given.
pub const ASR_SAMPLE_RATE: u32 = 16000;

/// The request to transcribe a segment. The audio itself stays with the
/// caller; `samples` is its length, mono at `sample_rate`.
#[derive(Debug)]
pub struct AsrRequest {
    pub samples: usize,
    /// Language hint, such as `en` or `de`.
    pub language_hint: Option<String>,
    pub sample_rate: u32,
}

/// Configuration for a streaming recognition session.
#[derive(Debug)]
pub struct StreamingConfig {
    /// Language hint, such as `en` or `de`.
    pub language_hint: Option<String>,
    /// Sample rate; the pipeline always gives 16000.
    pub sample_rate: u32,
}

/// The request for a segment of `samples` samples, with the configured language as the hint.
pub fn request_for(samples: usize, language: &Option<String>) -> (request: AsrRequest)
    ensures
        request.samples == samples,
        opt_text(request.language_hint) == opt_text(*language),
        request.sample_rate == ASR_SAMPLE_RATE,
{
    AsrRequest {
        samples,
        language_hint: match language {
            Some(l) => Some(l.clone()),
            None => None,
        },
        sample_rate: ASR_SAMPLE_RATE,
    }
}

/// The configuration of a stream, with the configured language as the hint.
pub fn stream_config_for(language: &Option<String>) -> (config: StreamingConfig)
    ensures
        opt_text(config.language_hint) == opt_text(*language),
        config.sample_rate == ASR_SAMPLE_RATE,
{
    StreamingConfig {
        language_hint: match language {
            Some(l) => Some(l.clone()),
            None => None,
        },
        sample_rate: ASR_SAMPLE_RATE,
    }
}

/// How the remote recogniser is told to read the audio.
#[derive(Clone, Copy, Debug, PartialEq, Eq, Structural)]
pub enum AudioEncoding {
    /// Sixteen-bit signed little-endian samples.
    Linear16,
}

/// What the remote recogniser is told with the audio.
#[derive(Debug)]
pub struct RecognitionConfig {
    pub encoding: AudioEncoding,
    pub sample_rate_hertz: i32,
    pub language_code: String,
    pub max_alternatives: i32,
    pub model: String,
    pub enable_automatic_punctuation: bool,
}

/// The language code that the remote recogniser takes for a hint: the
/// four languages it knows are given their region; any other hint goes as
/// it is; without a hint, English.
pub open spec fn language_code_text(hint: Option<Seq<char>>) -> Seq<char> {
    match hint {
        None => "en-US"@,
        Some(l) => if l == "en"@ {
            "en-US"@
        } else if l == "de"@ {
            "de-DE"@
        } else if l == "fr"@ {
            "fr-FR"@
        } else if l == "es"@ {
            "es-ES"@
        } else {
            l
        },
    }
}

/// The sample rate as the remote recogniser takes it: in 32 bits, signed.
pub open spec fn rate_hertz(sample_rate: u32) -> i32 {
    if sample_rate <= i32::MAX {
        sample_rate as i32
    } else {
        (sample_rate - 0x1_0000_0000) as i32
    }
}

/// The remote recogniser: where it is and which model it runs.
#[derive(Debug)]
pub struct RemoteNimBackend {
    endpoint: String,
    model_name: String,
}

impl RemoteNimBackend {
    /// A recogniser at `endpoint` running `model_name`, or its default model where none is named.
    pub fn new(endpoint: &str, model_name: Option<&str>) -> (backend: RemoteNimBackend)
        ensures
            backend.endpoint_text() == endpoint@,
            backend.model_text() == match model_name {
                Some(m) => m@,
                None => Seq::<char>::empty(),
            },
    {
        RemoteNimBackend {
            endpoint: endpoint.to_owned(),
            model_name: match model_name {
                Some(m) => m.to_owned(),
                None => String::new(),
            },
        }
    }

    /// Where the recogniser is.
    pub closed spec fn endpoint_text(&self) -> Seq<char> {
        self.endpoint@
    }

    /// Which model the recogniser runs; empty for its default.
    pub closed spec fn model_text(&self) -> Seq<char> {
        self.model_name@
    }

    /// Where the recogniser is.
    pub fn endpoint(&self) -> (endpoint: &str)
        ensures
            endpoint@ == self.endpoint_text(),
    {
        self.endpoint.as_str()
    }

    /// What the recogniser is told with audio of the given language and rate.
    pub fn make_config(&self, language_hint: Option<&str>, sample_rate: u32) -> (config:
        RecognitionConfig)
        ensures
            config.encoding == AudioEncoding::Linear16,
            config.sample_rate_hertz == rate_hertz(sample_rate),
            config.language_code@ == language_code_text(
                match language_hint {
                    Some(l) => Some(l@),
                    None => None,
                },
            ),
            config.max_alternatives == 1,
            config.model@ == self.model_text(),
            config.enable_automatic_punctuation,
    {
        let language_code: String = match language_hint {
            None => "en-US".to_owned(),
            Some(l) => if str_eq(l, "en") {
                "en-US".to_owned()
            } else if str_eq(l, "de") {
                "de-DE".to_owned()
            } else if str_eq(l, "fr") {
                "fr-FR".to_owned()
            } else if str_eq(l, "es") {
                "es-ES".to_owned()
            } else {
                l.to_owned()
            },
        };
        let sample_rate_hertz: i32 = if sample_rate <= 0x7fff_ffff {
            sample_rate as i32
        } else {
            ((sample_rate - 0x8000_0000) as i32) - 0x7fff_ffff - 1
        };
        RecognitionConfig {
            encoding: AudioEncoding::Linear16,
            sample_rate_hertz,
            language_code,
            max_alternatives: 1,
            model: self.model_name.clone(),
            enable_automatic_punctuation: true,
        }
    }

    /// The recogniser's name.
    pub fn name(&self) -> (name: &'static str)
        ensures
            name@ == "remote_nim"@,
    {
        "remote_nim"
    }

    /// Whether the recogniser knows a language: English, German, French and Spanish.
    pub fn supports_language(&self, lang: &str) -> (supported: bool)
        ensures
            supported == (lang@ == "en"@ || lang@ == "de"@ || lang@ == "fr"@ || lang@ == "es"@),
    {
        str_eq(lang, "en") || str_eq(lang, "de") || str_eq(lang, "fr") || str_eq(lang, "es")
    }

    /// Whether the recogniser gives partial results while audio arrives: it does.
    pub fn supports_streaming(&self) -> (streaming: bool)
        ensures
            streaming,
    {
        true
    }
}

} // verus!
