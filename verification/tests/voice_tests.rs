use agent_core::voice::MockSpeechToText;
use agent_core::voice::MockTextToSpeech;
use agent_core::voice::MockWakeWordDetector;
use agent_core::voice::SpeechToText;
use agent_core::voice::TextToSpeech;

#[test]
fn test_mock_stt() {
    let stt = MockSpeechToText::new();
    let audio = vec![0u8; 1000];

    let transcription = stt.transcribe(&audio).unwrap();
    assert!(!transcription.text.is_empty());
    assert_eq!(transcription.language, "en");
}

#[test]
fn test_mock_tts() {
    let tts = MockTextToSpeech::new();
    let text = "Hello world";

    let audio = tts.speak(text, None).unwrap();
    assert!(!audio.is_empty());
}

#[test]
fn mock_wake_word_list() {
    let detector = MockWakeWordDetector::default();
    assert_eq!(detector.wake_words(), vec!["hey agent"]);
}

#[test]
fn mock_stt_duration_mirrors_audio() {
    let stt = MockSpeechToText::new();
    let audio = vec![0u8; 1234];
    let transcription = stt.transcribe(&audio).unwrap();
    assert_eq!(transcription.duration_ms, 1234);
    assert_eq!(transcription.confidence, 950);
    assert_eq!(stt.supported_languages(), vec!["en"]);
}

#[test]
fn mock_tts_length_is_proportional() {
    let tts = MockTextToSpeech::new();
    let audio = tts.speak("Hello world", None).unwrap();
    assert_eq!(audio.len(), "Hello world".len() * 100);
    assert!(audio.iter().all(|b| *b == 0));
    assert_eq!(tts.available_voices(), vec!["default"]);
}
