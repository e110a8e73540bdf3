use ollama::catalog::{DEFAULT_TOKENS, MAXIMUM_TOKENS};
use ollama::{get_max_tokens, KeepAlive, Model};

#[test]
fn llama32_window_is_clamped_to_ceiling() {
    assert_eq!(get_max_tokens("llama3.2"), 16384);
    assert_eq!(get_max_tokens("llama3.2"), MAXIMUM_TOKENS);
    assert_eq!(get_max_tokens("llama3.2:3b"), 16384);
}

#[test]
fn unknown_family_gets_default_window() {
    assert_eq!(get_max_tokens("my-own-model"), 4096);
    assert_eq!(get_max_tokens("my-own-model:7b"), DEFAULT_TOKENS);
    assert_eq!(get_max_tokens(""), 4096);
}

#[test]
fn small_and_mid_families_keep_their_window() {
    assert_eq!(get_max_tokens("phi"), 2048);
    assert_eq!(get_max_tokens("tinyllama:latest"), 2048);
    assert_eq!(get_max_tokens("llama2:13b"), 4096);
    assert_eq!(get_max_tokens("gemma2:9b"), 8192);
    assert_eq!(get_max_tokens("codellama:7b"), 16384);
}

#[test]
fn large_families_are_clamped() {
    assert_eq!(get_max_tokens("mistral:7b"), 16384);
    assert_eq!(get_max_tokens("qwen3-coder:30b"), 16384);
    assert_eq!(get_max_tokens("gpt-oss:20b"), 16384);
}

#[test]
fn family_is_text_before_first_colon() {
    // "phi3" is listed, "phi3x" is not: the whole family must match.
    assert_eq!(get_max_tokens("phi:3:extra"), 2048);
    assert_eq!(get_max_tokens("phi3x"), 4096);
    assert_eq!(get_max_tokens(":phi"), 4096);
}

#[test]
fn model_new_strips_latest_suffix() {
    let m = Model::new("llama2:latest", None, None, None, None, None);
    assert_eq!(m.id(), "llama2:latest");
    assert_eq!(m.display_name(), "llama2");
    assert_eq!(m.display_name, Some("llama2".to_string()));
    assert_eq!(m.max_token_count(), 4096);
    assert!(m.keep_alive == Some(KeepAlive::indefinite()));
}

#[test]
fn model_new_without_suffix_has_no_display_name() {
    let m = Model::new("llama3.2:3b", None, None, Some(true), Some(false), None);
    assert_eq!(m.display_name, None);
    assert_eq!(m.display_name(), "llama3.2:3b");
    assert_eq!(m.max_token_count(), 16384);
    assert_eq!(m.supports_tools, Some(true));
    assert_eq!(m.supports_vision, Some(false));
    assert_eq!(m.supports_thinking, None);
}

#[test]
fn model_new_keeps_explicit_display_name() {
    let m = Model::new("qwen3:latest", Some("Qwen 3"), Some(8000), None, None, Some(true));
    assert_eq!(m.display_name(), "Qwen 3");
    assert_eq!(m.max_token_count(), 8000);
}

#[test]
fn model_new_clamps_explicit_window() {
    let m = Model::new("custom", None, Some(200000), None, None, None);
    assert_eq!(m.max_token_count(), 16384);
    let m = Model::new("custom", None, Some(0), None, None, None);
    assert_eq!(m.max_token_count(), 1);
}

#[test]
fn keep_alive_default_is_indefinite() {
    assert!(KeepAlive::default() == KeepAlive::Seconds(-1));
    assert!(KeepAlive::indefinite() == KeepAlive::Seconds(-1));
    assert!(KeepAlive::Duration("5m".to_string()) == KeepAlive::Duration("5m".to_string()));
    assert!(KeepAlive::Duration("5m".to_string()) != KeepAlive::Seconds(300));
}
