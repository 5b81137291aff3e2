use std::collections::BTreeSet;

use gaia::backend::{all_backends, backend_from_name, ServingBackend};
use gaia::config::{AppConfig, ServeConfig};
use gaia::machine::{DockerStatus, GpuInfo, MachineSpecs};

fn machine(docker: bool, daemon: bool, gpu: bool) -> MachineSpecs {
    MachineSpecs {
        os_name: "Linux".to_owned(),
        kernel_version: None,
        cpu_cores: 8,
        ram_total_mib: 65536,
        docker: DockerStatus {
            installed: docker,
            daemon_accessible: daemon,
            version: None,
            details: None,
        },
        gpu: if gpu {
            Some(GpuInfo {
                name: "Test GPU".to_owned(),
                vram_mib: 24576,
                driver_version: None,
                cuda_version: None,
            })
        } else {
            None
        },
        hf_token_present: false,
        warnings: Vec::new(),
    }
}

fn serve_config() -> ServeConfig {
    let mut config = AppConfig::default();
    config.model.revision = Some("0123456789abcdef0123456789abcdef01234567".to_owned());
    let mut serve = config.to_serve_config(Some("hf_secret".to_owned()), "/home/u/.cache/huggingface".to_owned());
    serve.quantization = "awq".to_owned();
    serve
}

#[test]
fn backend_from_name_supports_case_and_aliases() {
    assert_eq!(
        backend_from_name("vLLM").expect("vLLM must resolve").name(),
        "vllm"
    );
    assert_eq!(
        backend_from_name("llama.cpp")
            .expect("llama.cpp alias must resolve")
            .name(),
        "llamacpp"
    );
    assert_eq!(
        backend_from_name("llamacpp")
            .expect("llamacpp canonical name must resolve")
            .name(),
        "llamacpp"
    );
}

#[test]
fn backend_from_name_rejects_unknown_backend() {
    assert!(backend_from_name("unknown-backend").is_none());
}

#[test]
fn all_backends_contains_expected_unique_entries() {
    let names = all_backends()
        .into_iter()
        .map(|backend| backend.name().to_owned())
        .collect::<BTreeSet<_>>();

    let expected = ["vllm", "tgi", "sglang", "llamacpp", "ollama"]
        .into_iter()
        .map(str::to_owned)
        .collect::<BTreeSet<_>>();

    assert_eq!(names, expected);
}

#[test]
fn availability_follows_docker_and_gpu() {
    let vllm = backend_from_name("vllm").unwrap();
    let no_docker = vllm.is_available(&machine(false, false, true));
    assert!(!no_docker.available);
    assert_eq!(no_docker.reason, "Docker is not installed.");
    let no_daemon = vllm.is_available(&machine(true, false, true));
    assert_eq!(no_daemon.reason, "Docker daemon is not accessible.");
    let no_gpu = vllm.is_available(&machine(true, true, false));
    assert_eq!(no_gpu.reason, "NVIDIA GPU is required for vLLM docker mode.");
    assert!(vllm.is_available(&machine(true, true, true)).available);

    let ollama = backend_from_name("ollama").unwrap();
    let cpu = ollama.is_available(&machine(true, true, false));
    assert!(cpu.available);
    assert_eq!(
        cpu.reason,
        "Docker available (CPU mode possible; performance can be limited)."
    );
    let llama = backend_from_name("LLAMACPP").unwrap();
    assert_eq!(
        llama.is_available(&machine(true, true, true)).reason,
        "Docker available (GPU detected, can use CUDA builds)."
    );
    assert_eq!(
        backend_from_name("tgi").unwrap().is_available(&machine(true, true, false)).reason,
        "NVIDIA GPU is recommended for TGI."
    );
    assert_eq!(
        backend_from_name("sglang").unwrap().display_name(),
        "SGLang"
    );
}

#[test]
fn vllm_docker_command_has_expected_arguments() {
    let config = serve_config();
    let command = backend_from_name("vllm").unwrap().build_docker_command(&config);
    assert_eq!(command.program, "docker");
    let expected: Vec<String> = [
        "run", "--rm", "--name", "gaia-vllm-qwen-qwen2-5-7b-instruct", "--runtime", "nvidia",
        "--gpus", "all", "-p", "8000:8000", "--security-opt", "no-new-privileges:true",
        "--cap-drop", "ALL", "--read-only", "--tmpfs", "/tmp", "--user", "1000:1000", "-v",
        "/home/u/.cache/huggingface:/data/hf-cache:rw", "--ipc=host", "-e", "HF_HOME", "-e",
        "HUGGINGFACE_HUB_CACHE", "-e", "TRANSFORMERS_CACHE", "-e", "HF_TOKEN",
        "vllm/vllm-openai@sha256:70a098d90dbab428a001d9e852fc0fc8d67da5beb03e7851a22247653bf35923",
        "--model", "Qwen/Qwen2.5-7B-Instruct", "--host", "0.0.0.0", "--port", "8000", "--dtype",
        "auto", "--api-key", "local-key", "--revision", "0123456789abcdef0123456789abcdef01234567",
        "--max-model-len", "8192", "--quantization", "awq",
    ]
    .iter()
    .map(|s| s.to_string())
    .collect();
    assert_eq!(command.args, expected);
    let env: Vec<(String, String)> = command.env.clone();
    assert!(env.contains(&("HF_TOKEN".to_owned(), "hf_secret".to_owned())));
    assert!(env.contains(&("HF_HOME".to_owned(), "/data/hf-cache".to_owned())));
    assert_eq!(env.len(), 4);
    assert!(command.working_dir.is_none());
}

#[test]
fn llamacpp_command_passes_quantization_and_no_token() {
    let mut config = serve_config();
    config.detach = true;
    config.hf_token = None;
    let command = backend_from_name("llama.cpp").unwrap().build_docker_command(&config);
    assert!(command.args.contains(&"LLAMACPP_QUANT=awq".to_owned()));
    assert!(command.args.contains(&"-d".to_owned()));
    assert!(command.args.contains(&"8000:8080".to_owned()));
    assert!(!command.args.contains(&"--gpus".to_owned()));
    assert!(command.env.is_empty());
}

#[test]
fn tgi_compose_service_mentions_revision_and_port() {
    let config = serve_config();
    let service = backend_from_name("tgi").unwrap().build_compose_service(&config);
    assert!(service.starts_with("  gaia-tgi:\n    image: ghcr.io/huggingface/text-generation-inference@sha256:"));
    assert!(service.contains("      - \"8000:80\"\n"));
    assert!(service.ends_with("      - --revision\n      - \"0123456789abcdef0123456789abcdef01234567\"\n"));
    assert!(!service.contains("local-key\n      - --revision") );
}

#[test]
fn compose_services_never_embed_the_api_key() {
    let mut config = serve_config();
    config.api_key = "super-secret-key".to_owned();
    for backend in all_backends() {
        let service = backend.build_compose_service(&config);
        assert!(!service.contains("super-secret-key"), "{}", backend.name());
    }
}

#[test]
fn ollama_compose_adds_token_line_only_with_token() {
    let mut config = serve_config();
    let with_token = backend_from_name("ollama").unwrap().build_compose_service(&config);
    assert!(with_token.ends_with("      - HF_TOKEN=${HF_TOKEN}\n"));
    config.hf_token = None;
    let without = backend_from_name("ollama").unwrap().build_compose_service(&config);
    assert!(without.ends_with("      - OLLAMA_MODELS=/data/ollama\n"));
}

#[test]
fn api_base_url_uses_host_and_port() {
    let mut config = serve_config();
    config.host = "127.0.0.1".to_owned();
    config.port = 30000;
    let backend: ServingBackend = backend_from_name("sglang").unwrap();
    assert_eq!(backend.api_base_url(&config), "http://127.0.0.1:30000/v1");
}

#[test]
fn every_backend_runs_an_image_pinned_by_digest() {
    let config = serve_config();
    for backend in all_backends() {
        let command = backend.build_docker_command(&config);
        let pinned: Vec<&String> = command.args.iter().filter(|a| a.contains("@sha256:")).collect();
        assert_eq!(pinned.len(), 1, "{}", backend.name());
        let compose = backend.build_compose_service(&config);
        assert!(compose.contains(&format!("    image: {}\n", pinned[0])), "{}", backend.name());
    }
}
