use gaia::backend::{backend_from_name, BackendAvailability};
use gaia::config::{AppConfig, ConfigError};
use gaia::model_catalog::{ModelCatalog, ModelEntry};
use gaia::serve::{
    apply_cli_overrides, apply_quantization_profile, finish_serve_config, generate_local_key,
    launch_preview, model_requires_hf_token, redact_command, resolve_api_key,
    resolve_security_profile, ServeArgs, ServeError,
};

fn no_args() -> ServeArgs {
    ServeArgs {
        backend: None,
        model: None,
        model_revision: None,
        host: None,
        port: None,
        api_key: None,
        security_profile: None,
        dtype: None,
        quantization: None,
        max_model_len: None,
        detach: false,
        dry_run: true,
        force: false,
        no_save: true,
        quantization_profile: None,
        mock: false,
    }
}

fn entry(id: &str, gated: bool) -> ModelEntry {
    ModelEntry {
        id: id.to_owned(),
        display_name: id.to_owned(),
        family: "test".to_owned(),
        params_tenths_b: 70,
        categories: vec!["chat".to_owned()],
        recommended_use: "chat".to_owned(),
        min_vram_fp16_tenths_gb: 160,
        min_vram_int8_tenths_gb: 100,
        min_vram_int4_tenths_gb: 60,
        supports_vllm: true,
        supports_tgi: true,
        gated,
    }
}

#[test]
fn serve_rejects_non_sha_model_revision() {
    let mut config = AppConfig::default();
    let mut args = no_args();
    args.backend = Some("VLLM".to_owned());
    args.model_revision = Some("main".to_owned());
    let result = apply_cli_overrides(&mut config, &args);
    match result {
        Err(ConfigError::InvalidModelRevision(v)) => assert_eq!(v, "main"),
        other => panic!("expected an invalid revision, got {:?}", other),
    }
    let message = ServeError::Config(ConfigError::InvalidModelRevision("main".to_owned())).message();
    assert!(message.contains("Model revision must be an immutable 40-character commit SHA"));
    assert_eq!(config.backend.name, "vllm");
}

#[test]
fn serve_overrides_apply_every_given_option() {
    let mut config = AppConfig::default();
    let mut args = no_args();
    args.model = Some("org/other".to_owned());
    args.port = Some(9001);
    args.host = Some("127.0.0.1".to_owned());
    args.security_profile = Some(" PROD ".to_owned());
    args.quantization_profile = Some("MEMORY".to_owned());
    args.max_model_len = Some(4096);
    assert!(apply_cli_overrides(&mut config, &args).is_ok());
    assert_eq!(config.model.id, "org/other");
    assert_eq!(config.server.port, 9001);
    assert_eq!(config.server.host, "127.0.0.1");
    assert_eq!(config.security.profile, "prod");
    assert_eq!(config.model.quantization_profile, "memory");
    assert_eq!(config.model.max_model_len, 4096);
}

#[test]
fn serve_overrides_reject_unknown_security_profile() {
    let mut config = AppConfig::default();
    let mut args = no_args();
    args.security_profile = Some("staging".to_owned());
    match apply_cli_overrides(&mut config, &args) {
        Err(ConfigError::UnsupportedSecurityProfile(v)) => assert_eq!(v, "staging"),
        other => panic!("expected an unsupported profile, got {:?}", other),
    }
}

#[test]
fn quantization_profiles_set_dtype_and_quantization() {
    let mut config = AppConfig::default();
    assert!(apply_quantization_profile(&mut config, Some("memory")).is_ok());
    assert_eq!(config.model.quantization, "int4");
    assert_eq!(config.model.dtype, "auto");

    let mut config = AppConfig::default();
    assert!(apply_quantization_profile(&mut config, Some("Speed")).is_ok());
    assert_eq!(config.model.quantization, "int8");
    assert_eq!(config.model.quantization_profile, "speed");

    let mut config = AppConfig::default();
    let err = apply_quantization_profile(&mut config, Some("turbo")).unwrap_err();
    assert!(err
        .message()
        .contains("Unsupported quantization profile `turbo`"));
}

#[test]
fn security_profile_comes_from_environment_when_not_given() {
    let mut config = AppConfig::default();
    let args = no_args();
    let prod = resolve_security_profile(&mut config, &args, Some("Prod".to_owned())).unwrap();
    assert!(prod);
    assert_eq!(config.security.profile, "prod");

    let mut config = AppConfig::default();
    let prod = resolve_security_profile(&mut config, &args, None).unwrap();
    assert!(!prod);
    assert_eq!(config.security.profile, "dev");
}

#[test]
fn serve_prod_requires_explicit_api_key() {
    let mut config = AppConfig::default();
    let mut args = no_args();
    args.security_profile = Some("prod".to_owned());
    args.backend = Some("vllm".to_owned());
    args.model = Some("Qwen/Qwen2.5-7B-Instruct".to_owned());
    apply_cli_overrides(&mut config, &args).unwrap();
    let prod = resolve_security_profile(&mut config, &args, None).unwrap();
    assert!(prod);
    let result = resolve_api_key(&mut config, &args, None, prod, "local-fresh".to_owned());
    let err = result.unwrap_err();
    assert!(matches!(err, ServeError::ProdRequiresApiKey));
    assert!(err.message().contains("requires an explicit API key"));
}

#[test]
fn dev_replaces_placeholder_api_key() {
    let mut config = AppConfig::default();
    let args = no_args();
    let replaced = resolve_api_key(&mut config, &args, None, false, "local-fresh".to_owned()).unwrap();
    assert!(replaced);
    assert_eq!(config.server.api_key, "local-fresh");

    let mut config = AppConfig::default();
    let kept = resolve_api_key(&mut config, &args, Some("env-key".to_owned()), true, "x".to_owned()).unwrap();
    assert!(!kept);
    assert_eq!(config.server.api_key, "env-key");
}

#[test]
fn generated_local_keys_have_the_documented_shape() {
    let key = generate_local_key();
    assert_eq!(key.len(), 26);
    assert!(key.starts_with("local-"));
    assert!(key[6..].chars().all(|c| c.is_ascii_alphanumeric()));
}

#[test]
fn finish_serve_config_carries_settings_and_detach() {
    let config = AppConfig::default();
    let mut args = no_args();
    args.detach = true;
    let sc = finish_serve_config(&config, &args, Some("hf".to_owned()), "/cache".to_owned()).unwrap();
    assert!(sc.detach);
    assert_eq!(sc.model_id, "Qwen/Qwen2.5-7B-Instruct");
    assert_eq!(sc.port, 8000);
    assert_eq!(sc.hf_token, Some("hf".to_owned()));
    assert_eq!(sc.huggingface_cache_dir, "/cache");
}

#[test]
fn gated_models_are_read_from_the_catalog() {
    let catalog = ModelCatalog { models: vec![entry("org/open", false), entry("org/gated", true)] };
    assert!(model_requires_hf_token(&catalog, "org/gated"));
    assert!(!model_requires_hf_token(&catalog, "org/open"));
    assert!(!model_requires_hf_token(&catalog, "org/unknown"));
}

#[test]
fn redact_command_hides_plain_and_quoted_secrets() {
    assert_eq!(
        redact_command("docker run -e KEY=secret x", &["secret"]),
        "docker run -e KEY=[REDACTED] x"
    );
    assert_eq!(redact_command("echo 'a b'", &["a b"]), "echo '[REDACTED]'");
    assert_eq!(redact_command("keep me", &[""]), "keep me");
}

#[test]
fn unavailable_backend_stops_before_anything_is_shown() {
    let backend = backend_from_name("vllm").unwrap();
    let config = AppConfig::default();
    let sc = config.to_serve_config(None, "/cache".to_owned());
    let availability = BackendAvailability::unavailable("Docker is not installed");
    let (lines, err) = launch_preview(&backend, &sc, &availability, false, false, false, false);
    assert!(lines.is_empty());
    match err {
        Some(ServeError::BackendUnavailable(name, reason)) => {
            assert_eq!(name, "vLLM");
            assert_eq!(reason, "Docker is not installed");
        }
        other => panic!("unexpected {:?}", other),
    }
}

#[test]
fn launch_preview_shows_header_warning_and_redacted_command() {
    let backend = backend_from_name("vllm").unwrap();
    let mut config = AppConfig::default();
    config.server.api_key = "topsecret".to_owned();
    let sc = config.to_serve_config(None, "/cache".to_owned());
    let availability = BackendAvailability::unavailable("no GPU");
    let (lines, err) = launch_preview(&backend, &sc, &availability, false, false, false, true);
    assert!(err.is_none());
    assert_eq!(lines[0], "Launching backend: vLLM");
    assert_eq!(lines[1], "Security profile: dev");
    assert_eq!(lines[2], "Model: Qwen/Qwen2.5-7B-Instruct");
    assert_eq!(lines[3], "Warning: no GPU");
    assert_eq!(lines[4], "Docker command:");
    assert!(lines[5].starts_with("  docker"));
    assert!(!lines[5].contains("topsecret"));
    assert!(lines[5].contains("[REDACTED]"));
}

#[test]
fn gated_model_without_token_stops_under_prod() {
    let backend = backend_from_name("tgi").unwrap();
    let config = AppConfig::default();
    let sc = config.to_serve_config(None, "/cache".to_owned());
    let availability = BackendAvailability::available("ok");
    let (lines, err) = launch_preview(&backend, &sc, &availability, true, true, false, false);
    assert_eq!(lines.len(), 3);
    assert!(matches!(err, Some(ServeError::GatedModelNeedsToken(_))));
}

#[test]
fn a_key_is_drawn_only_when_dev_replaces_a_placeholder() {
    let args = no_args();
    let mut config = AppConfig::default();
    assert!(gaia::serve::resolve_or_generate_api_key(&mut config, &args, None, false).unwrap());
    assert_eq!(config.server.api_key.len(), 26);
    assert!(config.server.api_key.starts_with("local-"));

    let mut config = AppConfig::default();
    config.server.api_key = "my-key".to_owned();
    assert!(!gaia::serve::resolve_or_generate_api_key(&mut config, &args, None, false).unwrap());
    assert_eq!(config.server.api_key, "my-key");

    let mut config = AppConfig::default();
    let err = gaia::serve::resolve_or_generate_api_key(&mut config, &args, None, true).unwrap_err();
    assert!(matches!(err, ServeError::ProdRequiresApiKey));
    assert_eq!(config.server.api_key, "local-key");
}
