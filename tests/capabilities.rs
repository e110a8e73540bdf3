use ollama::{InfoValue, ModelShow};

fn text(k: &str, v: &str) -> (String, InfoValue) {
    (k.to_string(), InfoValue::Text(v.to_string()))
}

fn count(k: &str, v: u64) -> (String, InfoValue) {
    (k.to_string(), InfoValue::Count(v))
}

fn other(k: &str) -> (String, InfoValue) {
    (k.to_string(), InfoValue::Other)
}

#[test]
fn parse_show_model() {
    let model_info = vec![
        text("general.architecture", "llama"),
        text("general.basename", "Llama-3.2"),
        count("general.file_type", 15),
        text("general.finetune", "Instruct"),
        other("general.languages"),
        count("general.parameter_count", 3212749888),
        count("general.quantization_version", 2),
        text("general.size_label", "3B"),
        other("general.tags"),
        text("general.type", "model"),
        count("llama.attention.head_count", 24),
        count("llama.attention.head_count_kv", 8),
        count("llama.attention.key_length", 128),
        other("llama.attention.layer_norm_rms_epsilon"),
        count("llama.attention.value_length", 128),
        count("llama.block_count", 28),
        count("llama.context_length", 131072),
        count("llama.embedding_length", 3072),
        count("llama.feed_forward_length", 8192),
        count("llama.rope.dimension_count", 128),
        count("llama.rope.freq_base", 500000),
        count("llama.vocab_size", 128256),
        count("tokenizer.ggml.bos_token_id", 128000),
        count("tokenizer.ggml.eos_token_id", 128009),
        other("tokenizer.ggml.merges"),
        text("tokenizer.ggml.model", "gpt2"),
        text("tokenizer.ggml.pre", "llama-bpe"),
        other("tokenizer.ggml.token_type"),
        other("tokenizer.ggml.tokens"),
    ];
    let capabilities = vec!["completion".to_string(), "tools".to_string()];
    let result = ModelShow::from_document(capabilities, Some(model_info));
    assert!(result.supports_tools());
    assert!(result.capabilities.contains(&"tools".to_string()));
    assert!(result.capabilities.contains(&"completion".to_string()));

    assert_eq!(result.architecture, Some("llama".to_string()));
    assert_eq!(result.context_length, Some(131072));
}

#[test]
fn capability_queries() {
    let show = ModelShow::from_document(vec!["vision".to_string(), "thinking".to_string()], None);
    assert!(!show.supports_tools());
    assert!(show.supports_vision());
    assert!(show.supports_thinking());
    assert_eq!(show.architecture, None);
    assert_eq!(show.context_length, None);
}

#[test]
fn context_length_needs_matching_architecture() {
    let info = vec![text("general.architecture", "qwen2"), count("llama.context_length", 4096)];
    let show = ModelShow::from_document(Vec::new(), Some(info));
    assert_eq!(show.architecture, Some("qwen2".to_string()));
    assert_eq!(show.context_length, None);
}

#[test]
fn non_string_architecture_is_ignored() {
    let info = vec![count("general.architecture", 3), count("3.context_length", 10)];
    let show = ModelShow::from_document(Vec::new(), Some(info));
    assert_eq!(show.architecture, None);
    assert_eq!(show.context_length, None);
}
