use gaia::config::{
    is_prod_security_profile, normalize_model_revision, normalize_security_profile, AppConfig,
    ConfigError,
};

#[test]
fn normalize_model_revision_accepts_valid_sha_and_lowercases() {
    let sha = "0123456789ABCDEF0123456789ABCDEF01234567";
    let normalized = normalize_model_revision(Some(sha)).expect("valid sha must be accepted");
    assert_eq!(
        normalized,
        Some("0123456789abcdef0123456789abcdef01234567".to_owned())
    );
}

#[test]
fn normalize_model_revision_rejects_non_commit_values() {
    assert!(
        normalize_model_revision(Some("main")).is_err(),
        "branch names must be rejected"
    );
    assert!(
        normalize_model_revision(Some("1234")).is_err(),
        "short hashes must be rejected"
    );
}

#[test]
fn normalize_security_profile_behaves_as_expected() {
    assert_eq!(
        normalize_security_profile(None).expect("default profile should resolve"),
        "dev"
    );
    assert_eq!(
        normalize_security_profile(Some(" PROD ")).expect("profile should normalize"),
        "prod"
    );
    assert!(
        normalize_security_profile(Some("staging")).is_err(),
        "unsupported profile must fail"
    );
}

#[test]
fn to_serve_config_sanitizes_container_name() {
    let mut config = AppConfig::default();
    config.model.id = "Org/My-Model:Very-Long-Name-With-Many-Characters-1234567890".to_owned();
    config.backend.name = "vllm".to_owned();

    let serve = config.to_serve_config(None, "/home/user/.cache/huggingface".to_owned());
    let suffix = serve
        .container_name
        .strip_prefix("gaia-vllm-")
        .expect("container name must include backend prefix");

    assert!(
        suffix.len() <= 32,
        "sanitized model fragment should be capped to 32 characters"
    );
    assert!(
        suffix
            .chars()
            .all(|ch| ch.is_ascii_lowercase() || ch.is_ascii_digit() || ch == '-'),
        "sanitized fragment should contain only lowercase/digits/dashes"
    );
    assert!(!suffix.starts_with('-'));
    assert!(!suffix.ends_with('-'));
}

#[test]
fn serve_config_builds_openai_urls() {
    let config = AppConfig::default();
    let serve = config.to_serve_config(None, "/home/user/.cache/huggingface".to_owned());
    assert_eq!(serve.openai_base_url(), "http://0.0.0.0:8000/v1");
    assert_eq!(
        serve.chat_completions_url(),
        "http://0.0.0.0:8000/v1/chat/completions"
    );
}

#[test]
fn is_prod_security_profile_is_case_insensitive() {
    assert!(is_prod_security_profile("prod"));
    assert!(is_prod_security_profile("PrOd"));
    assert!(!is_prod_security_profile("dev"));
}

#[test]
fn normalize_model_revision_trims_and_treats_blank_as_missing() {
    assert_eq!(normalize_model_revision(None).unwrap(), None);
    assert_eq!(normalize_model_revision(Some("   ")).unwrap(), None);
    assert_eq!(
        normalize_model_revision(Some("  abcdefabcdefabcdefabcdefabcdefabcdefabcd\n")).unwrap(),
        Some("abcdefabcdefabcdefabcdefabcdefabcdefabcd".to_owned())
    );
}

#[test]
fn normalize_model_revision_error_names_the_rejected_value() {
    let error = normalize_model_revision(Some(" main ")).unwrap_err();
    assert_eq!(
        error.message(),
        "Model revision must be an immutable 40-character commit SHA. Received `main`."
    );
    let sha_with_g = "g123456789abcdef0123456789abcdef01234567";
    assert!(matches!(
        normalize_model_revision(Some(sha_with_g)),
        Err(ConfigError::InvalidModelRevision(_))
    ));
}

#[test]
fn normalize_security_profile_error_quotes_original_input() {
    let error = normalize_security_profile(Some(" Staging ")).unwrap_err();
    assert_eq!(
        error.message(),
        "Unsupported security profile ` Staging `. Use `dev` or `prod`."
    );
    assert_eq!(normalize_security_profile(Some("Dev")).unwrap(), "dev");
    assert!(normalize_security_profile(Some("")).is_err());
}

#[test]
fn default_config_matches_documented_defaults() {
    let config = AppConfig::default();
    assert_eq!(config.server.host, "0.0.0.0");
    assert_eq!(config.server.port, 8000);
    assert_eq!(config.server.api_key, "local-key");
    assert_eq!(config.backend.name, "vllm");
    assert_eq!(config.backend.mode, "docker");
    assert_eq!(config.model.id, "Qwen/Qwen2.5-7B-Instruct");
    assert_eq!(config.model.revision, None);
    assert_eq!(config.model.quantization_profile, "balanced");
    assert_eq!(config.model.max_model_len, 8192);
    assert_eq!(config.chatbot.port, 3000);
    assert_eq!(config.security.profile, "dev");
}

#[test]
fn container_name_is_lowercased_and_dash_separated() {
    let config = AppConfig::default();
    let serve = config.to_serve_config(Some("hf_x".to_owned()), "/cache".to_owned());
    assert_eq!(serve.container_name, "gaia-vllm-qwen-qwen2-5-7b-instruct");
    assert_eq!(serve.hf_token.as_deref(), Some("hf_x"));
    assert_eq!(serve.huggingface_cache_dir, "/cache");
    assert!(!serve.detach);
}

#[test]
fn container_fragment_keeps_a_trailing_dash_cut_at_thirty_two() {
    let mut config = AppConfig::default();
    config.model.id = "abcdefghijklmnopqrstuvwxyz01234/x".to_owned();
    let serve = config.to_serve_config(None, "/cache".to_owned());
    assert_eq!(
        serve.container_name,
        "gaia-vllm-abcdefghijklmnopqrstuvwxyz01234-"
    );
}

#[test]
fn container_fragments_stay_short_and_plain() {
    let mut config = AppConfig::default();
    config.backend.name = "tgi".to_owned();
    for id in ["--Org//Model--", "a", "abcdefghijklmnopqrstuvwxyz0123456789", "Ünïcode/Model"] {
        config.model.id = id.to_owned();
        let serve = config.to_serve_config(None, "/cache".to_owned());
        let fragment = serve.container_name.strip_prefix("gaia-tgi-").unwrap().to_owned();
        assert!(fragment.chars().count() <= 32);
        assert!(fragment.chars().all(|c| c.is_ascii_alphanumeric() || c == '-'));
        assert!(!fragment.starts_with('-'));
    }
    config.model.id = "--Org//Model--".to_owned();
    assert_eq!(config.to_serve_config(None, "/c".to_owned()).container_name, "gaia-tgi-org--model");
}
