use gaia::artifacts::{
    deployment_spec, maybe_enforce_prod_compose, plan_compose, plan_k8s, plan_systemd,
    shell_escape, ArtifactError, GenerateComposeArgs, GenerateK8sArgs, GenerateSystemdArgs,
};
use gaia::config::{AppConfig, ConfigError};

const SHA: &str = "0123456789abcdef0123456789abcdef01234567";

fn compose_args() -> GenerateComposeArgs {
    GenerateComposeArgs {
        backend: None,
        model: None,
        model_revision: None,
        output: None,
        security_profile: None,
    }
}

#[test]
fn prod_compose_drops_the_fallback_key() {
    let service = "      - GAIA_API_KEY=${GAIA_API_KEY:-local-key}\n".to_owned();
    assert_eq!(
        maybe_enforce_prod_compose(service.clone(), true),
        "      - GAIA_API_KEY=${GAIA_API_KEY}\n"
    );
    assert_eq!(maybe_enforce_prod_compose(service.clone(), false), service);
}

#[test]
fn compose_for_vllm_lists_one_service() {
    let (text, prod) =
        plan_compose(AppConfig::default(), &compose_args(), None, None, "/cache".to_owned()).unwrap();
    assert!(!prod);
    assert!(text.starts_with("services:\n  gaia-vllm:\n"));
    assert!(text.contains("${GAIA_API_KEY:-local-key}"));
    assert!(text.contains("/cache:/data/hf-cache:rw"));
}

#[test]
fn compose_under_prod_from_environment() {
    let (text, prod) = plan_compose(
        AppConfig::default(),
        &compose_args(),
        Some("prod".to_owned()),
        None,
        "/cache".to_owned(),
    )
    .unwrap();
    assert!(prod);
    assert!(!text.contains("local-key"));
}

#[test]
fn compose_errors_name_their_cause() {
    let mut args = compose_args();
    args.security_profile = Some("staging".to_owned());
    match plan_compose(AppConfig::default(), &args, None, None, "/c".to_owned()) {
        Err(ArtifactError::Config(ConfigError::UnsupportedSecurityProfile(v))) => assert_eq!(v, "staging"),
        other => panic!("unexpected {:?}", other),
    }

    let mut args = compose_args();
    args.model_revision = Some("main".to_owned());
    match plan_compose(AppConfig::default(), &args, None, None, "/c".to_owned()) {
        Err(ArtifactError::Config(ConfigError::InvalidModelRevision(v))) => assert_eq!(v, "main"),
        other => panic!("unexpected {:?}", other),
    }

    let mut args = compose_args();
    args.backend = Some("nope".to_owned());
    let err = plan_compose(AppConfig::default(), &args, None, None, "/c".to_owned()).unwrap_err();
    assert_eq!(err.message(), "Unsupported backend `nope` for compose generation");
}

#[test]
fn deployment_spec_knows_each_backend() {
    let (image, port, args) = deployment_spec("tgi", "org/m", None).unwrap();
    assert!(image.starts_with("ghcr.io/huggingface/text-generation-inference@sha256:"));
    assert_eq!(port, 80);
    assert!(args.contains("--model-id"));
    assert!(args.contains("org/m"));

    let (_, port, _) = deployment_spec("vllm", "org/m", Some(SHA)).unwrap();
    assert_eq!(port, 8000);
    let (_, port, _) = deployment_spec("sglang", "org/m", None).unwrap();
    assert_eq!(port, 30000);
    let (_, port, _) = deployment_spec("llama.cpp", "org/m", None).unwrap();
    assert_eq!(port, 8080);

    match deployment_spec("unknown", "org/m", None) {
        Err(ArtifactError::UnsupportedK8sBackend(b)) => assert_eq!(b, "unknown"),
        other => panic!("unexpected {:?}", other),
    }
}

#[test]
fn k8s_plan_names_namespace_and_output() {
    let args = GenerateK8sArgs {
        backend: Some("llama.cpp".to_owned()),
        model: Some("org/m".to_owned()),
        model_revision: None,
        namespace: Some("ml".to_owned()),
        replicas: 2,
        output: None,
    };
    let plan = plan_k8s(AppConfig::default(), &args).unwrap();
    assert_eq!(plan.namespace, "ml");
    assert_eq!(plan.output, "k8s-llama-cpp.yaml");
    assert!(plan.yaml.contains("name: gaia-llama-cpp"));
    assert!(plan.yaml.contains("namespace: ml"));
    assert!(plan.yaml.contains("replicas: 2"));
}

#[test]
fn k8s_plan_rejects_unknown_backend() {
    let args = GenerateK8sArgs {
        backend: Some("other".to_owned()),
        model: None,
        model_revision: None,
        namespace: None,
        replicas: 1,
        output: Some("x.yaml".to_owned()),
    };
    let err = plan_k8s(AppConfig::default(), &args).unwrap_err();
    assert_eq!(err.message(), "Unsupported backend `other` for Kubernetes generation");
}

#[test]
fn systemd_plan_writes_the_unit() {
    let args = GenerateSystemdArgs {
        backend: Some("vllm".to_owned()),
        model: Some("org/m".to_owned()),
        model_revision: Some(SHA.to_uppercase()),
        user: None,
        output: None,
        mock: true,
    };
    let plan = plan_systemd(AppConfig::default(), &args).unwrap();
    assert_eq!(plan.output, "gaia-vllm.service");
    assert!(plan.unit.starts_with("[Unit]\nDescription=gaia vllm org/m\n"));
    assert!(plan.unit.contains("User=gaia\n"));
    assert!(plan.unit.contains(&format!(
        "ExecStart=/usr/local/bin/gaia serve --backend vllm --model org/m --model-revision {} --host 0.0.0.0 --port 8000 --mock\n",
        SHA
    )));
    assert!(plan.unit.ends_with("[Install]\nWantedBy=multi-user.target\n"));
}

#[test]
fn shell_escape_quotes_only_when_needed() {
    assert_eq!(shell_escape("plain-value_1.2/x:y@z"), "plain-value_1.2/x:y@z");
    assert_eq!(shell_escape("has space"), "'has space'");
    assert_eq!(shell_escape("it's"), "'it'\\''s'");
    assert_eq!(shell_escape(""), "");
}

#[test]
fn kubernetes_runs_the_backends_pinned_images() {
    let config = gaia::config::AppConfig::default().to_serve_config(None, "/cache".to_owned());
    for backend in gaia::backend::all_backends() {
        let (image, _, _) = gaia::artifacts::deployment_spec(backend.name(), "org/m", None).unwrap();
        assert!(image.contains("@sha256:"));
        assert!(backend.build_docker_command(&config).args.iter().any(|a| a == image));
    }
    let (mock_image, _, _) = gaia::artifacts::deployment_spec("mock", "org/m", None).unwrap();
    assert!(mock_image.contains("@sha256:"));
}
