//! Language-model abstraction layer.
//!
//! The core depends only on the [`LlmProvider`] interface, never a
//! concrete provider, so any implementation can be substituted with a
//! deterministic test double. The mock provider's replies and token
//! accounting are verified exactly; a provider that talks to a real
//! server over the network lives with the surrounding application.

use crate::error::AgentError;
use crate::text::has_sub;
use crate::text::word_count;
use crate::types::LlmOptions;
use crate::types::LlmResponse;
use crate::types::LlmUsage;
use vstd::prelude::*;

verus! {

/// Interface to a language model: complete a prompt under sampling
/// options. Implementations are supplied by callers; no behavior is
/// assumed of them.
pub trait LlmProvider: Send + Sync {
    /// Completes a prompt.
    fn complete(&self, prompt: &str, options: &LlmOptions) -> Result<LlmResponse, AgentError>;

    /// The provider's name.
    fn name(&self) -> &str;

    /// Whether the provider is ready to serve completions.
    fn is_available(&self) -> bool {
        true
    }
}

/// The mock provider's canned reply to a prompt.
pub open spec fn mock_reply(p: Seq<char>) -> Seq<char> {
    if has_sub(p, "weather"@) {
        "The weather is sunny today."@
    } else if has_sub(p, "time"@) {
        "It is currently 3:00 PM."@
    } else {
        "I understand. How can I help you?"@
    }
}

/// Mock language-model provider for testing: canned replies, word-count
/// token accounting.
#[derive(Debug)]
pub struct MockLlmProvider {
    pub name: String,
}

impl MockLlmProvider {
    pub fn new() -> (r: Self)
        ensures
            r.name@ == "mock"@,
    {
        MockLlmProvider { name: String::from_str("mock") }
    }
}

impl Default for MockLlmProvider {
    fn default() -> (r: Self)
        ensures
            r.name@ == "mock"@,
    {
        MockLlmProvider::new()
    }
}

impl LlmProvider for MockLlmProvider {
    /// Always succeeds with the canned reply for the prompt; the usage
    /// counts whitespace-separated words on both sides.
    fn complete(&self, prompt: &str, options: &LlmOptions) -> (r: Result<LlmResponse, AgentError>)
        ensures
            r is Ok,
            r->Ok_0.text@ == mock_reply(prompt@),
            r->Ok_0.finish_reason@ == "stop"@,
            r->Ok_0.usage.prompt_tokens == token_clamp(word_count(prompt@)),
            r->Ok_0.usage.completion_tokens == token_clamp(word_count(mock_reply(prompt@))),
            r->Ok_0.usage.total_tokens == r->Ok_0.usage.prompt_tokens
                + r->Ok_0.usage.completion_tokens,
    {
        let text: &str = if crate::text::contains_str(prompt, "weather") {
            "The weather is sunny today."
        } else if crate::text::contains_str(prompt, "time") {
            "It is currently 3:00 PM."
        } else {
            "I understand. How can I help you?"
        };
        let prompt_tokens = clamp_count(crate::text::count_words(prompt));
        let completion_tokens = clamp_count(crate::text::count_words(text));
        proof {
            lemma_word_count_small(text@);
            lemma_word_count_small(prompt@);
        }
        Ok(
            LlmResponse {
                text: String::from_str(text),
                finish_reason: String::from_str("stop"),
                usage: LlmUsage {
                    prompt_tokens,
                    completion_tokens,
                    total_tokens: prompt_tokens + completion_tokens,
                },
            },
        )
    }

    fn name(&self) -> (r: &str)
        ensures
            r@ == self.name@,
    {
        self.name.as_str()
    }
}

/// Word counts fit a 32-bit counter after clamping; a count never exceeds
/// the character count.
proof fn lemma_word_count_small(s: Seq<char>)
    ensures
        word_count(s) <= s.len(),
        word_count(s) >= 0,
{
    lemma_word_count_from_small(s, false);
}

proof fn lemma_word_count_from_small(s: Seq<char>, in_word: bool)
    ensures
        0 <= crate::text::word_count_from(s, in_word) <= s.len(),
    decreases s.len(),
{
    if s.len() > 0 {
        lemma_word_count_from_small(s.drop_first(), !crate::text::is_space_char(s[0]));
    }
}

/// A word count as the token counter carries it: clamped so that the sum
/// of two counts still fits.
pub open spec fn token_clamp(n: int) -> int {
    if n > 2147483647 {
        2147483647
    } else {
        n
    }
}

/// Clamps a word count to the token counter's range.
fn clamp_count(n: usize) -> (r: u32)
    ensures
        r == token_clamp(n as int),
{
    if n > 2147483647 {
        2147483647
    } else {
        n as u32
    }
}

/// Local language-model provider: a placeholder for an in-process model
/// behind a model file on disk.
#[derive(Debug)]
pub struct LocalLlmProvider {
    pub name: String,
    pub model_path: String,
}

impl LocalLlmProvider {
    pub fn new(model_path: String) -> (r: Self)
        ensures
            r.name@ == "local-llama"@,
            r.model_path == model_path,
    {
        LocalLlmProvider { name: String::from_str("local-llama"), model_path }
    }
}

/// Relies on `std::path::Path::exists`: whether a file is present at the
/// path; the answer depends on the state of the disk, so nothing is
/// assumed of it.
#[verifier::external_body]
fn model_file_exists(path: &str) -> bool {
    std::path::Path::new(path).exists()
}

impl LlmProvider for LocalLlmProvider {
    /// Always fails: the in-process integration is not provided here.
    fn complete(&self, prompt: &str, options: &LlmOptions) -> (r: Result<LlmResponse, AgentError>)
        ensures
            r is Err,
            r->Err_0 is Llm,
    {
        Err(
            AgentError::Llm(
                String::from_str(
                    "Local LLM integration not yet implemented. Use MockLlmProvider for testing.",
                ),
            ),
        )
    }

    fn name(&self) -> (r: &str)
        ensures
            r@ == self.name@,
    {
        self.name.as_str()
    }

    fn is_available(&self) -> bool {
        model_file_exists(self.model_path.as_str())
    }
}

/// Provider backed by a local Ollama server. The network call itself is
/// made by the surrounding application; this type holds the connection
/// parameters and the verified request and response shaping.
#[derive(Debug)]
pub struct OllamaProvider {
    pub name: String,
    pub base_url: String,
    pub model: String,
}

impl OllamaProvider {
    /// A provider for `model` at the default local endpoint.
    pub fn new(model: String) -> (r: Self)
        ensures
            r.name@ == "ollama-"@ + model@,
            r.base_url@ == "http://localhost:11434"@,
            r.model == model,
    {
        let mut name = String::from_str("ollama-");
        name.append(model.as_str());
        OllamaProvider { name, base_url: String::from_str("http://localhost:11434"), model }
    }

    /// A provider for `model` at a custom endpoint.
    pub fn with_endpoint(model: String, base_url: String) -> (r: Self)
        ensures
            r.name@ == "ollama-"@ + model@,
            r.base_url == base_url,
            r.model == model,
    {
        let mut name = String::from_str("ollama-");
        name.append(model.as_str());
        OllamaProvider { name, base_url, model }
    }

    pub fn name(&self) -> (r: &str)
        ensures
            r@ == self.name@,
    {
        self.name.as_str()
    }

    /// The completion endpoint this provider posts to.
    pub fn generate_url(&self) -> (r: String)
        ensures
            r@ == self.base_url@ + "/api/generate"@,
    {
        let mut url = self.base_url.clone();
        url.append("/api/generate");
        url
    }

    /// The liveness endpoint this provider probes.
    pub fn tags_url(&self) -> (r: String)
        ensures
            r@ == self.base_url@ + "/api/tags"@,
    {
        let mut url = self.base_url.clone();
        url.append("/api/tags");
        url
    }

    /// Shapes a raw server answer into a completion response: the text as
    /// given, `stop` when the server finished and `length` otherwise, and
    /// token counts defaulting to zero.
    pub fn shape_response(
        &self,
        text: String,
        done: bool,
        prompt_eval_count: Option<u32>,
        eval_count: Option<u32>,
    ) -> (r: LlmResponse)
        requires
            (match prompt_eval_count {
                Some(p) => p,
                None => 0,
            }) + (match eval_count {
                Some(e) => e,
                None => 0,
            }) <= u32::MAX,
        ensures
            r.text == text,
            r.finish_reason@ == (if done {
                "stop"@
            } else {
                "length"@
            }),
            r.usage.prompt_tokens == (match prompt_eval_count {
                Some(p) => p,
                None => 0u32,
            }),
            r.usage.completion_tokens == (match eval_count {
                Some(e) => e,
                None => 0u32,
            }),
            r.usage.total_tokens == r.usage.prompt_tokens + r.usage.completion_tokens,
    {
        let prompt_tokens = match prompt_eval_count {
            Some(p) => p,
            None => 0,
        };
        let completion_tokens = match eval_count {
            Some(e) => e,
            None => 0,
        };
        LlmResponse {
            text,
            finish_reason: if done {
                String::from_str("stop")
            } else {
                String::from_str("length")
            },
            usage: LlmUsage {
                prompt_tokens,
                completion_tokens,
                total_tokens: prompt_tokens + completion_tokens,
            },
        }
    }
}

} // verus!
