//! Voice I/O abstraction layer: speech-to-text and text-to-speech
//! interfaces with deterministic mock implementations.
//!
//! Wake-word detection over raw audio samples is a floating-point signal
//! computation and lives with the surrounding application; the mock
//! detector's configuration lives here so its word list can be reasoned
//! about.

use crate::error::AgentError;
use crate::policy::clone_strings;
use crate::types::VoiceTranscription;
use vstd::prelude::*;

verus! {

/// Interface to speech-to-text.
pub trait SpeechToText: Send + Sync {
    /// Transcribes audio to text.
    fn transcribe(&self, audio_data: &[u8]) -> Result<VoiceTranscription, AgentError>;

    /// The languages the engine supports.
    fn supported_languages(&self) -> Vec<String>;
}

/// Interface to text-to-speech.
pub trait TextToSpeech: Send + Sync {
    /// Synthesizes text to audio bytes.
    fn speak(&self, text: &str, voice: Option<&str>) -> Result<Vec<u8>, AgentError>;

    /// The voices the engine offers.
    fn available_voices(&self) -> Vec<String>;
}

/// Mock wake-word detector configuration: the word list alone; detection
/// over audio samples is supplied by the surrounding application.
#[derive(Debug)]
pub struct MockWakeWordDetector {
    pub wake_words: Vec<String>,
}

impl MockWakeWordDetector {
    pub fn new(wake_words: Vec<String>) -> (r: Self)
        ensures
            r.wake_words == wake_words,
    {
        MockWakeWordDetector { wake_words }
    }

    /// The wake words this detector recognizes.
    pub fn wake_words(&self) -> (r: Vec<String>)
        ensures
            r@ == self.wake_words@,
    {
        clone_strings(&self.wake_words)
    }
}

impl Default for MockWakeWordDetector {
    fn default() -> (r: Self)
        ensures
            r.wake_words@.len() == 1,
            r.wake_words@[0]@ == "hey agent"@,
    {
        let mut words: Vec<String> = Vec::new();
        words.push(String::from_str("hey agent"));
        MockWakeWordDetector::new(words)
    }
}

/// Mock speech-to-text for testing: a fixed transcription.
#[derive(Debug)]
pub struct MockSpeechToText {
    pub languages: Vec<String>,
}

impl MockSpeechToText {
    pub fn new() -> (r: Self)
        ensures
            r.languages@.len() == 1,
            r.languages@[0]@ == "en"@,
    {
        let mut languages: Vec<String> = Vec::new();
        languages.push(String::from_str("en"));
        MockSpeechToText { languages }
    }
}

impl Default for MockSpeechToText {
    fn default() -> (r: Self)
        ensures
            r.languages@.len() == 1,
            r.languages@[0]@ == "en"@,
    {
        MockSpeechToText::new()
    }
}

impl SpeechToText for MockSpeechToText {
    /// Always succeeds with a fixed English transcription whose duration
    /// mirrors the audio length.
    fn transcribe(&self, audio_data: &[u8]) -> (r: Result<VoiceTranscription, AgentError>)
        ensures
            r is Ok,
            r->Ok_0.text@ == "This is a mock transcription"@,
            r->Ok_0.confidence == 950,
            r->Ok_0.language@ == "en"@,
            audio_data@.len() <= u32::MAX ==> r->Ok_0.duration_ms == audio_data@.len(),
    {
        let len = audio_data.len();
        let duration_ms: u32 = if len > 4294967295usize {
            4294967295u32
        } else {
            len as u32
        };
        Ok(
            VoiceTranscription {
                text: String::from_str("This is a mock transcription"),
                confidence: 950,
                language: String::from_str("en"),
                duration_ms,
            },
        )
    }

    fn supported_languages(&self) -> (r: Vec<String>)
        ensures
            r@ == self.languages@,
    {
        clone_strings(&self.languages)
    }
}

/// Mock text-to-speech for testing: silent audio proportional to the
/// text.
#[derive(Debug)]
pub struct MockTextToSpeech {
    pub voices: Vec<String>,
}

impl MockTextToSpeech {
    pub fn new() -> (r: Self)
        ensures
            r.voices@.len() == 1,
            r.voices@[0]@ == "default"@,
    {
        let mut voices: Vec<String> = Vec::new();
        voices.push(String::from_str("default"));
        MockTextToSpeech { voices }
    }
}

impl Default for MockTextToSpeech {
    fn default() -> (r: Self)
        ensures
            r.voices@.len() == 1,
            r.voices@[0]@ == "default"@,
    {
        MockTextToSpeech::new()
    }
}

impl TextToSpeech for MockTextToSpeech {
    /// Succeeds with a hundred zero bytes per byte of text, for any text
    /// whose synthetic length fits the machine.
    fn speak(&self, text: &str, voice: Option<&str>) -> (r: Result<Vec<u8>, AgentError>)
        ensures
            text@.len() * 100 <= usize::MAX ==> (r is Ok && r->Ok_0@ == Seq::new(
                (text@.len() * 100) as nat,
                |i: int| 0u8,
            )),
            r is Err ==> r->Err_0 is Voice,
    {
        let n = text.unicode_len();
        if n > usize::MAX / 100 {
            proof {
                vstd::arithmetic::mul::lemma_mul_inequality(
                    usize::MAX as int / 100 + 1,
                    n as int,
                    100,
                );
            }
            return Err(AgentError::Voice(String::from_str("Text too long to synthesize")));
        }
        let mut out: Vec<u8> = Vec::new();
        let total = n * 100;
        let mut i: usize = 0;
        while i < total
            invariant
                i <= total,
                out@ =~= Seq::new(i as nat, |j: int| 0u8),
            decreases total - i,
        {
            out.push(0u8);
            proof {
                assert(out@ =~= Seq::new((i + 1) as nat, |j: int| 0u8));
            }
            i = i + 1;
        }
        Ok(out)
    }

    fn available_voices(&self) -> (r: Vec<String>)
        ensures
            r@ == self.voices@,
    {
        clone_strings(&self.voices)
    }
}

/// Speech-to-text behind a local `whisper.cpp` model: a placeholder that
/// has not been wired up.
#[derive(Debug)]
pub struct WhisperSttProvider {
    pub model_path: String,
}

impl WhisperSttProvider {
    pub fn new(model_path: String) -> (r: Self)
        ensures
            r.model_path == model_path,
    {
        WhisperSttProvider { model_path }
    }
}

impl SpeechToText for WhisperSttProvider {
    /// Always fails: the integration is not provided here.
    fn transcribe(&self, audio_data: &[u8]) -> (r: Result<VoiceTranscription, AgentError>)
        ensures
            r is Err,
            r->Err_0 is Voice,
    {
        Err(
            AgentError::Voice(
                String::from_str(
                    "Whisper.cpp integration not yet implemented. Use MockSpeechToText for testing.",
                ),
            ),
        )
    }

    fn supported_languages(&self) -> (r: Vec<String>)
        ensures
            r@.len() == 10,
            r@[0]@ == "en"@,
    {
        let mut langs: Vec<String> = Vec::new();
        langs.push(String::from_str("en"));
        langs.push(String::from_str("es"));
        langs.push(String::from_str("fr"));
        langs.push(String::from_str("de"));
        langs.push(String::from_str("it"));
        langs.push(String::from_str("pt"));
        langs.push(String::from_str("nl"));
        langs.push(String::from_str("pl"));
        langs.push(String::from_str("ru"));
        langs.push(String::from_str("zh"));
        langs
    }
}

/// Text-to-speech behind a local Piper model: a placeholder that has not
/// been wired up.
#[derive(Debug)]
pub struct PiperTtsProvider {
    pub model_path: String,
}

impl PiperTtsProvider {
    pub fn new(model_path: String) -> (r: Self)
        ensures
            r.model_path == model_path,
    {
        PiperTtsProvider { model_path }
    }
}

impl TextToSpeech for PiperTtsProvider {
    /// Always fails: the integration is not provided here.
    fn speak(&self, text: &str, voice: Option<&str>) -> (r: Result<Vec<u8>, AgentError>)
        ensures
            r is Err,
            r->Err_0 is Voice,
    {
        Err(
            AgentError::Voice(
                String::from_str(
                    "Piper TTS integration not yet implemented. Use MockTextToSpeech for testing.",
                ),
            ),
        )
    }

    fn available_voices(&self) -> (r: Vec<String>)
        ensures
            r@.len() == 1,
            r@[0]@ == "en_US-lessac-medium"@,
    {
        let mut voices: Vec<String> = Vec::new();
        voices.push(String::from_str("en_US-lessac-medium"));
        voices
    }
}

} // verus!
