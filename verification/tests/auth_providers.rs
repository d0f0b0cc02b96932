//! Provider policy and secret masking.

use microclaw_core::auth::{is_openai_codex_provider, mask_secret, provider_allows_empty_api_key};

#[test]
fn test_provider_allows_empty_api_key() {
    assert!(provider_allows_empty_api_key("ollama"));
    assert!(provider_allows_empty_api_key("openai-codex"));
    assert!(!provider_allows_empty_api_key("openai"));
}

#[test]
fn test_is_openai_codex_provider() {
    assert!(is_openai_codex_provider("openai-codex"));
    assert!(is_openai_codex_provider("OPENAI-CODEX"));
    assert!(!is_openai_codex_provider("openai"));
}

#[test]
fn test_mask_secret() {
    assert_eq!(mask_secret("abcdefghi"), "abc***hi");
    assert_eq!(mask_secret("abc"), "***");
}
