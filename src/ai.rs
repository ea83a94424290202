//! The interfaces of AI requests and responses, and what an AI service can do.
use vstd::prelude::*;

use crate::language::Language;

verus! {

/// A request to an AI service.
pub trait AiRequest {
    type Context;

    type Options;

    fn context(&self) -> &Self::Context;

    fn options(&self) -> &Self::Options;

    fn request_type(&self) -> &str;
}

/// A response of an AI service.
pub trait AiResponse {
    type Content;

    type Metadata;

    fn content(&self) -> &Self::Content;

    fn metadata(&self) -> &Self::Metadata;

    fn trace_id(&self) -> &str;
}

/// The language tag that an AI request carries for source in `language`: the identifier of
/// Rust, Python, JavaScript or TypeScript, `unknown` for the others.
pub fn language_tag(language: &Language) -> (r: &'static str)
    ensures
        r@ == match language {
            Language::Rust => "rust"@,
            Language::Python => "python"@,
            Language::JavaScript => "javascript"@,
            Language::TypeScript => "typescript"@,
            _ => "unknown"@,
        },
{
    match language {
        Language::Rust => "rust",
        Language::Python => "python",
        Language::JavaScript => "javascript",
        Language::TypeScript => "typescript",
        _ => "unknown",
    }
}

/// What an AI service can do.
#[derive(Debug, Clone, PartialEq)]
pub struct AiCapabilities {
    pub supports_completion: bool,
    pub supports_explanation: bool,
    pub supports_refactoring: bool,
    pub supports_documentation: bool,
    pub supports_test_generation: bool,
    pub supports_complexity_analysis: bool,
    pub supports_smell_detection: bool,
    pub supports_optimization: bool,
    pub supports_code_generation: bool,
    pub supports_streaming: bool,
    pub max_tokens: Option<usize>,
    pub supported_languages: Vec<String>,
}

impl Default for AiCapabilities {
    /// Everything but streaming, no token limit, for Rust, Python and JavaScript.
    fn default() -> (r: AiCapabilities)
        ensures
            r.supports_completion && r.supports_explanation && r.supports_refactoring
                && r.supports_documentation && r.supports_test_generation
                && r.supports_complexity_analysis && r.supports_smell_detection
                && r.supports_optimization && r.supports_code_generation,
            !r.supports_streaming,
            r.max_tokens is None,
            r.supported_languages@.len() == 3,
            r.supported_languages@[0]@ == "rust"@,
            r.supported_languages@[1]@ == "python"@,
            r.supported_languages@[2]@ == "javascript"@,
    {
        let mut supported_languages: Vec<String> = Vec::new();
        supported_languages.push("rust".to_owned());
        supported_languages.push("python".to_owned());
        supported_languages.push("javascript".to_owned());
        AiCapabilities {
            supports_completion: true,
            supports_explanation: true,
            supports_refactoring: true,
            supports_documentation: true,
            supports_test_generation: true,
            supports_complexity_analysis: true,
            supports_smell_detection: true,
            supports_optimization: true,
            supports_code_generation: true,
            supports_streaming: false,
            max_tokens: None,
            supported_languages,
        }
    }
}

} // verus!
