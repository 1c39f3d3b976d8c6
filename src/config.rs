use vstd::prelude::*;

verus! {

/// The language the service speaks.
#[derive(Debug, Clone, PartialEq, Eq)]
pub enum Language {
    EnUs,
    EnGb,
    DeDe,
    FrFr,
    EsEs,
    ItIt,
    JaJp,
    ZhCn,
    /// Any other BCP 47 language tag.
    Custom(String),
}

/// A named voice of the service.
#[derive(Debug, Clone, PartialEq, Eq)]
pub struct Voice {
    pub name: String,
}

/// The encoding of the synthesized audio.
#[derive(Debug, Clone, Copy, PartialEq, Eq)]
pub enum AudioFormat {
    Riff16Khz16BitMonoPcm,
    Riff24Khz16BitMonoPcm,
    Raw16Khz16BitMonoPcm,
    Raw24Khz16BitMonoPcm,
    Audio16Khz32KBitRateMonoMp3,
    Audio24Khz48KBitRateMonoMp3,
    Ogg16Khz16BitMonoOpus,
    Webm24Khz16BitMonoOpus,
}

/// The client device, as reported to the service.
#[derive(Debug, Clone, PartialEq, Eq)]
pub struct Device {
    pub manufacturer: String,
    pub model: String,
    pub version: String,
}

/// Synthesis settings, built up one call at a time.
#[derive(Debug, Clone)]
pub struct Config {
    pub output_format: AudioFormat,
    pub device: Option<Device>,
    pub language: Language,
    pub voice: Option<Voice>,
    pub bookmark_enabled: bool,
    pub word_boundary_enabled: bool,
    pub punctuation_boundary_enabled: bool,
    pub sentence_boundary_enabled: bool,
    pub session_end_enabled: bool,
    pub viseme_enabled: bool,
    pub auto_detect_language: bool,
}

impl Config {
    /// The default settings: US English, 16 kHz RIFF PCM, no voice or device chosen, session
    /// end events and language auto-detection on, every other event off.
    pub fn new() -> (r: Self)
        ensures
            r.output_format == AudioFormat::Riff16Khz16BitMonoPcm,
            r.device is None,
            r.language == Language::EnUs,
            r.voice is None,
            !r.bookmark_enabled,
            !r.word_boundary_enabled,
            !r.punctuation_boundary_enabled,
            !r.sentence_boundary_enabled,
            r.session_end_enabled,
            !r.viseme_enabled,
            r.auto_detect_language,
    {
        Config {
            output_format: AudioFormat::Riff16Khz16BitMonoPcm,
            device: None,
            language: Language::EnUs,
            voice: None,
            bookmark_enabled: false,
            word_boundary_enabled: false,
            punctuation_boundary_enabled: false,
            sentence_boundary_enabled: false,
            session_end_enabled: true,
            viseme_enabled: false,
            auto_detect_language: true,
        }
    }

    /// Chooses the language to speak.
    pub fn with_language(self, language: Language) -> (r: Self)
        ensures
            r == (Config { language, ..self }),
    {
        Config { language, ..self }
    }

    /// Chooses the voice to speak with.
    pub fn with_voice(self, voice: Voice) -> (r: Self)
        ensures
            r == (Config { voice: Some(voice), ..self }),
    {
        Config { voice: Some(voice), ..self }
    }

    /// Chooses the encoding of the synthesized audio.
    pub fn with_output_format(self, output_format: AudioFormat) -> (r: Self)
        ensures
            r == (Config { output_format, ..self }),
    {
        Config { output_format, ..self }
    }

    /// Asks for bookmark events.
    pub fn enable_bookmark(self) -> (r: Self)
        ensures
            r == (Config { bookmark_enabled: true, ..self }),
    {
        Config { bookmark_enabled: true, ..self }
    }

    /// Asks for word boundary events.
    pub fn enable_word_boundary(self) -> (r: Self)
        ensures
            r == (Config { word_boundary_enabled: true, ..self }),
    {
        Config { word_boundary_enabled: true, ..self }
    }

    /// Asks for punctuation boundary events.
    pub fn enable_punctuation_boundary(self) -> (r: Self)
        ensures
            r == (Config { punctuation_boundary_enabled: true, ..self }),
    {
        Config { punctuation_boundary_enabled: true, ..self }
    }

    /// Asks for sentence boundary events.
    pub fn enable_sentence_boundary(self) -> (r: Self)
        ensures
            r == (Config { sentence_boundary_enabled: true, ..self }),
    {
        Config { sentence_boundary_enabled: true, ..self }
    }

    /// Asks for the session end event.
    pub fn enable_session_end(self) -> (r: Self)
        ensures
            r == (Config { session_end_enabled: true, ..self }),
    {
        Config { session_end_enabled: true, ..self }
    }

    /// Asks for viseme events.
    pub fn enable_viseme(self) -> (r: Self)
        ensures
            r == (Config { viseme_enabled: true, ..self }),
    {
        Config { viseme_enabled: true, ..self }
    }

    /// Turns language auto-detection off.
    pub fn disable_auto_detect_language(self) -> (r: Self)
        ensures
            r == (Config { auto_detect_language: false, ..self }),
    {
        Config { auto_detect_language: false, ..self }
    }

    /// Records the client device reported to the service.
    pub fn set_device(self, device: Device) -> (r: Self)
        ensures
            r == (Config { device: Some(device), ..self }),
    {
        Config { device: Some(device), ..self }
    }
}

} // verus!
