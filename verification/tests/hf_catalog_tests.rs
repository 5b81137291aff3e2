use gaia::hf_catalog::{
    contains_token, estimate_vram_tenths, extract_languages, infer_backend_support, infer_categories,
    infer_display_name, infer_family, infer_recommended_use, is_gated, is_text_generation_model,
    normalize_pipeline_tag, normalize_tags, size_tokens, GatedField, HfModelMeta,
};

#[test]
fn backend_support_requires_text_generation_signals() {
    let (vllm, tgi) = infer_backend_support(
        &["chat".to_owned()],
        "text-generation",
        &[],
        "org/chat-model",
    );
    assert!(vllm && tgi);

    let (vllm, tgi) = infer_backend_support(
        &["embeddings".to_owned()],
        "feature-extraction",
        &[],
        "org/embedding-model",
    );
    assert!(!vllm && !tgi);
}

#[test]
fn contains_token_respects_boundaries() {
    assert!(contains_token("nice chat model", "chat"));
    assert!(!contains_token("chatter model", "chat"));
    assert!(contains_token("model-7b-chat", "chat"));
}

#[test]
fn contains_token_lowercases_keyword_and_matches_substrings_with_symbols() {
    assert!(contains_token("a qwen chat", "CHAT"));
    assert!(contains_token("xtext-generationx", "text-generation"));
    assert!(!contains_token("anything", ""));
    assert!(contains_token("chat", "chat"));
}

#[test]
fn gguf_tag_disables_backend_support() {
    let (vllm, tgi) = infer_backend_support(
        &["chat".to_owned()],
        "text-generation",
        &["gguf".to_owned()],
        "org/model",
    );
    assert!(!vllm && !tgi);
}

#[test]
fn recommended_use_follows_category_priority() {
    assert_eq!(
        infer_recommended_use(&["chat".to_owned(), "embeddings".to_owned()]),
        "Text embeddings and semantic search"
    );
    assert_eq!(
        infer_recommended_use(&["code".to_owned(), "chat".to_owned()]),
        "Coding assistant and developer chat"
    );
    assert_eq!(
        infer_recommended_use(&["code".to_owned()]),
        "General language model inference"
    );
    assert_eq!(infer_recommended_use(&[]), "General language model inference");
}

#[test]
fn infer_categories_orders_and_flags_lightweight() {
    let categories = infer_categories(
        "org/Tiny-Chat-3B-Instruct",
        &vec!["text-generation".to_owned()],
        "text-generation",
        &vec![],
        30,
    );
    assert_eq!(categories[0], "chat");
    assert!(categories.contains(&"lightweight".to_owned()));
}

#[test]
fn gguf_models_are_not_text_generation_targets() {
    let meta = HfModelMeta {
        id: None,
        tags: vec!["gguf".to_owned()],
        pipeline_tag: Some("text-generation".to_owned()),
        card_names: vec![],
        card_languages: vec![],
        gated: GatedField::Other,
    };
    assert!(!is_text_generation_model(&meta, "org/model-gguf"));
}

#[test]
fn estimate_vram_scales_with_params() {
    let (fp16, int8, int4) = estimate_vram_tenths(70);
    assert_eq!(fp16, 160);
    assert_eq!(int8, 100);
    assert_eq!(int4, 60);
}

#[test]
fn text_generation_is_read_from_pipeline_or_tags() {
    let mut meta = HfModelMeta {
        id: Some("org/chat".to_owned()),
        tags: vec![" Conversational ".to_owned()],
        pipeline_tag: None,
        card_names: vec![],
        card_languages: vec![],
        gated: GatedField::Str("auto".to_owned()),
    };
    assert!(is_text_generation_model(&meta, "fallback"));
    assert!(is_gated(&meta.gated));
    meta.tags = vec!["feature-extraction".to_owned()];
    assert!(!is_text_generation_model(&meta, "fallback"));
    assert!(!is_gated(&GatedField::Bool(false)));
    assert!(!is_gated(&GatedField::Str("false".to_owned())));
    assert_eq!(normalize_tags(&vec![" A ".to_owned(), "  ".to_owned(), "b".to_owned()]), vec!["a".to_owned(), "b".to_owned()]);
    assert_eq!(normalize_pipeline_tag(&Some(" Text-Generation ".to_owned())), "text-generation");
}

#[test]
fn names_and_families_are_inferred_from_ids() {
    assert_eq!(infer_family("meta-llama/Llama-3.1-8B-Instruct"), "llama");
    assert_eq!(infer_family("Qwen/Qwen2.5-7B-Instruct"), "qwen");
    assert_eq!(infer_display_name("org/tiny-chat_model", &vec![]), "Tiny Chat Model");
    assert_eq!(infer_display_name("org/x", &vec![None, Some(" Nice Name ".to_owned())]), "Nice Name");
    assert_eq!(
        extract_languages(&vec!["en".to_owned(), "language:FR".to_owned(), "xx".to_owned()], &vec!["en".to_owned(), "de".to_owned()]),
        vec!["en".to_owned(), "de".to_owned(), "fr".to_owned()]
    );
}

#[test]
fn size_tokens_respect_boundaries() {
    let tokens = size_tokens("Qwen3-30B-A3B");
    let found: Vec<(String, String, char)> = tokens.iter().map(|t| (t.integer.clone(), t.fraction.clone(), t.unit)).collect();
    assert_eq!(found, vec![("30".to_owned(), "".to_owned(), 'b'), ("3".to_owned(), "".to_owned(), 'b')]);
    assert!(size_tokens("model-8bit-quantized").is_empty());
    let tokens = size_tokens("Qwen/Qwen2.5-7B-Instruct");
    let found: Vec<(String, String, char)> = tokens.iter().map(|t| (t.integer.clone(), t.fraction.clone(), t.unit)).collect();
    assert_eq!(found, vec![("7".to_owned(), "".to_owned(), 'b')]);
    let tokens = size_tokens("1t");
    let found: Vec<(String, String, char)> = tokens.iter().map(|t| (t.integer.clone(), t.fraction.clone(), t.unit)).collect();
    assert_eq!(found, vec![("1".to_owned(), "".to_owned(), 't')]);
    assert!(size_tokens("no size here").is_empty());
    let tokens = size_tokens("0.5b and 350m and 1,000m");
    let found: Vec<(String, String, char)> = tokens.iter().map(|t| (t.integer.clone(), t.fraction.clone(), t.unit)).collect();
    assert_eq!(
        found,
        vec![
            ("0".to_owned(), "5".to_owned(), 'b'),
            ("350".to_owned(), "".to_owned(), 'm'),
            ("1000".to_owned(), "".to_owned(), 'm'),
        ]
    );
}
