use agent_core::llm::LlmProvider;
use agent_core::llm::MockLlmProvider;
use agent_core::llm::OllamaProvider;
use agent_core::types::LlmOptions;

#[test]
fn test_mock_provider() {
    let provider = MockLlmProvider::new();
    let options = LlmOptions::default();

    let response = provider.complete("What's the weather?", &options).unwrap();
    assert!(response.text.contains("weather") || response.text.contains("sunny"));
}

#[test]
fn test_mock_provider_time() {
    let provider = MockLlmProvider::new();
    let options = LlmOptions::default();

    let response = provider.complete("What time is it?", &options).unwrap();
    assert!(response.text.contains("time") || response.text.contains("PM"));
}

#[test]
fn test_ollama_provider_creation() {
    let provider = OllamaProvider::new("llama2".to_string());
    assert_eq!(provider.name(), "ollama-llama2");
}

#[test]
fn test_ollama_provider_with_endpoint() {
    let provider = OllamaProvider::with_endpoint(
        "llama2".to_string(),
        "http://localhost:11434".to_string(),
    );
    assert_eq!(provider.name(), "ollama-llama2");
}

#[test]
fn mock_provider_counts_tokens() {
    let provider = MockLlmProvider::new();
    let options = LlmOptions::default();

    let response = provider.complete("tell me the time now please", &options).unwrap();
    assert_eq!(response.text, "It is currently 3:00 PM.");
    assert_eq!(response.finish_reason, "stop");
    assert_eq!(response.usage.prompt_tokens, 6);
    assert_eq!(response.usage.completion_tokens, 5);
    assert_eq!(response.usage.total_tokens, 11);
}

#[test]
fn mock_provider_fallback_reply() {
    let provider = MockLlmProvider::new();
    let options = LlmOptions::default();

    let response = provider.complete("open the pod bay doors", &options).unwrap();
    assert_eq!(response.text, "I understand. How can I help you?");
}

#[test]
fn ollama_urls_follow_the_endpoint() {
    let provider = OllamaProvider::with_endpoint("llama2".to_string(), "http://host:9999".to_string());
    assert_eq!(provider.generate_url(), "http://host:9999/api/generate");
    assert_eq!(provider.tags_url(), "http://host:9999/api/tags");
}

#[test]
fn ollama_response_shaping() {
    let provider = OllamaProvider::new("llama2".to_string());
    let done = provider.shape_response("hi".to_string(), true, Some(3), Some(7));
    assert_eq!(done.finish_reason, "stop");
    assert_eq!(done.usage.prompt_tokens, 3);
    assert_eq!(done.usage.completion_tokens, 7);
    assert_eq!(done.usage.total_tokens, 10);

    let cut = provider.shape_response("hi".to_string(), false, None, None);
    assert_eq!(cut.finish_reason, "length");
    assert_eq!(cut.usage.total_tokens, 0);
}
