use gaia::cli::{
    apply_selection, benchmark_target, chatbot_env_file, chatbot_url, discover_sort,
    mock_status_line, recommend_backend, refresh_options, split_lines, tail_lines,
    target_container, BenchmarkArgs, RefreshArgs, SortMode,
};
use gaia::config::AppConfig;
use gaia::machine::{DockerStatus, GpuInfo, MachineSpecs};
use gaia::output::{connection_examples, final_summary, mask_secret, truncate};
use gaia::recommendation::PreferredBackend;
use gaia::refresh::DiscoverSort;
use gaia::selector::SelectorResult;

fn strings(items: &[&str]) -> Vec<String> {
    items.iter().map(|s| s.to_string()).collect()
}

fn bench_args(requests: usize) -> BenchmarkArgs {
    BenchmarkArgs {
        base_url: None,
        api_key: None,
        model: None,
        requests,
        prompt: "Hello".to_owned(),
        mock: false,
    }
}

fn refresh_args() -> RefreshArgs {
    RefreshArgs {
        discover_limit: 0,
        sort: SortMode::Downloads,
        ids: vec![],
        search: None,
        from_existing: "catalog/models.yaml".to_owned(),
        no_existing: false,
        output: "catalog/models.generated.yaml".to_owned(),
        dry_run: false,
        allow_non_text_generation: false,
        timeout: 25,
    }
}

#[test]
fn secrets_are_masked_in_the_summary() {
    assert_eq!(mask_secret("abcdef"), "***");
    assert_eq!(mask_secret("abcdefgh"), "abc***fgh");
    assert_eq!(truncate("abc", 5), "abc  ");
    assert_eq!(truncate("abcdefgh", 6), "abc...");
    let lines = final_summary("vllm", "org/m", "http://h:1/v1", "local-secretkey");
    assert_eq!(lines.len(), 10);
    assert_eq!(lines[0], "");
    assert_eq!(lines[2], "| Your LLM server is running                                  |");
    assert!(lines[4].starts_with("| Backend:        vllm"));
    assert!(lines[7].starts_with("| Chat endpoint:  http://h:1/v1/chat/completions"));
    assert!(lines[8].contains("loc***key"));
    assert!(!lines[8].contains("secret"));
    for line in &lines[4..9] {
        assert_eq!(line.chars().count(), 62);
    }
    assert_eq!(lines[1].chars().count(), 63);
}

#[test]
fn connection_examples_name_the_endpoint_and_model() {
    let lines = connection_examples("http://h:1/v1", "org/m");
    assert!(lines.iter().any(|l| l.contains("http://h:1/v1/chat/completions")));
    assert!(lines.iter().any(|l| l.contains("\"model\":\"org/m\"")));
}

#[test]
fn status_lines_describe_the_mock_process() {
    assert_eq!(mock_status_line(Some(42), true), "Mock API: running (pid 42)");
    assert_eq!(mock_status_line(Some(7), false), "Mock API: stopped (pid 7)");
    assert_eq!(mock_status_line(None, false), "Mock API: not configured.");
    assert_eq!(target_container(&None, "gaia-vllm-x"), "gaia-vllm-x");
    assert_eq!(target_container(&Some("c".to_owned()), "gaia-vllm-x"), "c");
}

#[test]
fn lines_split_like_str_lines() {
    let text = "a\r\nb\n\nc\n";
    assert_eq!(split_lines(text), text.lines().map(String::from).collect::<Vec<_>>());
    assert_eq!(split_lines(""), Vec::<String>::new());
    assert_eq!(tail_lines("1\n2\n3\n4", 2), strings(&["3", "4"]));
    assert_eq!(tail_lines("1\n2", 5), strings(&["1", "2"]));
}

#[test]
fn recommendations_filter_by_the_given_or_preferred_backend() {
    assert_eq!(recommend_backend(&Some("tgi".to_owned()), PreferredBackend::Vllm), Some("tgi".to_owned()));
    assert_eq!(recommend_backend(&None, PreferredBackend::Vllm), Some("vllm".to_owned()));
    assert_eq!(recommend_backend(&None, PreferredBackend::NoBackend), None);
}

#[test]
fn a_selection_updates_backend_model_port_and_key() {
    let mut config = AppConfig::default();
    config.model.revision = Some("0123456789abcdef0123456789abcdef01234567".to_owned());
    let selection = SelectorResult {
        backend: "tgi".to_owned(),
        model_id: "org/m".to_owned(),
        port: 9100,
        api_key: "k".to_owned(),
    };
    apply_selection(&mut config, &selection);
    assert_eq!(config.backend.name, "tgi");
    assert_eq!(config.backend.mode, "docker");
    assert_eq!(config.model.id, "org/m");
    assert!(config.model.revision.is_none());
    assert_eq!(config.server.port, 9100);
    assert_eq!(config.server.api_key, "k");
}

#[test]
fn benchmark_target_needs_requests_and_trims_slashes() {
    assert_eq!(
        benchmark_target(&bench_args(0), "http://h/v1", "k", "m").err(),
        Some("`--requests` must be greater than zero.".to_owned())
    );
    let mut args = bench_args(3);
    args.base_url = Some("http://x/v1//".to_owned());
    let target = benchmark_target(&args, "http://h/v1", "k", "m").unwrap();
    assert_eq!(target.base_url, "http://x/v1");
    assert_eq!(target.api_key, "k");
    assert_eq!(target.model, "m");
}

#[test]
fn chatbot_helpers_build_url_and_env_file() {
    assert_eq!(chatbot_url(&None, 3000), "http://localhost:3000");
    assert_eq!(chatbot_url(&Some("http://x".to_owned()), 3000), "http://x");
    assert_eq!(
        chatbot_env_file("http://h/v1", "k", "org/m"),
        "VITE_LLM_BASE_URL=http://h/v1\nVITE_LLM_API_KEY=k\nVITE_LLM_MODEL=org/m\n"
    );
}

#[test]
fn refresh_options_come_from_the_arguments() {
    assert_eq!(discover_sort(SortMode::Downloads), DiscoverSort::Downloads);
    let err = refresh_options(&refresh_args(), vec![], None).unwrap_err();
    assert_eq!(err, "No model ids to refresh. Provide --ids, --discover-limit, or a valid --from-existing file.");

    let mut args = refresh_args();
    args.ids = strings(&["org/new"]);
    let options = refresh_options(&args, strings(&["org/old"]), Some("tok".to_owned())).unwrap();
    assert_eq!(options.seed_ids, strings(&["org/old", "org/new"]));
    assert_eq!(options.discover_sort, DiscoverSort::Downloads);
    assert_eq!(options.token, Some("tok".to_owned()));

    args.no_existing = true;
    let options = refresh_options(&args, strings(&["org/old"]), None).unwrap();
    assert_eq!(options.seed_ids, strings(&["org/new"]));
}

fn sized(id: &str, params_tenths_b: u32, vram_fp16: u32) -> gaia::model_catalog::ModelEntry {
    gaia::model_catalog::ModelEntry {
        id: id.to_owned(),
        display_name: id.to_owned(),
        family: "f".to_owned(),
        params_tenths_b,
        categories: vec!["chat".to_owned()],
        recommended_use: "chat".to_owned(),
        min_vram_fp16_tenths_gb: vram_fp16,
        min_vram_int8_tenths_gb: vram_fp16 * 6 / 10,
        min_vram_int4_tenths_gb: vram_fp16 * 4 / 10,
        supports_vllm: true,
        supports_tgi: true,
        gated: false,
    }
}

#[test]
fn models_are_listed_by_size_keeping_catalog_order() {
    let sorted = gaia::cli::models_by_size(vec![
        sized("c", 70, 160),
        sized("a", 30, 80),
        sized("d", 70, 160),
        sized("b", 5, 40),
    ]);
    let ids: Vec<&str> = sorted.iter().map(|m| m.id.as_str()).collect();
    assert_eq!(ids, vec!["b", "a", "c", "d"]);
}

#[test]
fn recommended_only_keeps_models_that_fit() {
    let machine = MachineSpecs {
        os_name: "Linux".to_owned(),
        kernel_version: None,
        cpu_cores: 8,
        ram_total_mib: 65536,
        docker: DockerStatus { installed: true, daemon_accessible: true, version: None, details: None },
        gpu: Some(GpuInfo { name: "g".to_owned(), vram_mib: 24576, driver_version: None, cuda_version: None }),
        hf_token_present: false,
        warnings: vec![],
    };
    let models = vec![sized("small", 30, 80), sized("huge", 7000, 14400)];
    let rows = gaia::cli::models_table(&Some(machine.clone()), models, true);
    assert_eq!(rows.len(), 1);
    assert_eq!(rows[0].0.id, "small");
    assert!(rows[0].1.unwrap().is_positive());

    let models = vec![sized("small", 30, 80), sized("huge", 7000, 14400)];
    let rows = gaia::cli::models_table(&None, models, false);
    assert_eq!(rows.len(), 2);
    assert!(rows.iter().all(|(_, fit)| fit.is_none()));
}

fn gpu_machine() -> MachineSpecs {
    MachineSpecs {
        os_name: "Linux".to_owned(),
        kernel_version: None,
        cpu_cores: 8,
        ram_total_mib: 65536,
        docker: DockerStatus { installed: true, daemon_accessible: true, version: None, details: None },
        gpu: Some(GpuInfo { name: "g".to_owned(), vram_mib: 24576, driver_version: None, cuda_version: None }),
        hf_token_present: false,
        warnings: vec![],
    }
}

#[test]
fn model_table_rows_format_each_cell() {
    let make = || {
        let mut model = sized("org/m", 75, 160);
        model.categories = strings(&["chat", "code"]);
        model.supports_tgi = false;
        model
    };
    let rows = gaia::cli::model_table_rows(&vec![(make(), None), (make(), Some(gaia::recommendation::FitStatus::Easy))]);
    assert_eq!(rows[0], strings(&["org/m", "f", "7.5B", "yes", "no", "chat,code", "-"]));
    assert_eq!(rows[1][6], "easy");
}

#[test]
fn recommendation_rows_stop_at_the_limit() {
    let machine = gpu_machine();
    let catalog = gaia::model_catalog::ModelCatalog {
        models: vec![sized("a", 30, 80), sized("b", 70, 160), sized("c", 5, 40)],
    };
    let recs = gaia::recommendation::RecommendationEngine::recommend_models(&machine, &catalog, None);
    let rows = gaia::cli::recommendation_rows(&recs, 2);
    assert_eq!(rows.len(), 2);
    assert_eq!(rows[0][0], recs[0].model.id);
    assert_eq!(rows[0][2], recs[0].status.as_badge());
    assert_eq!(rows[0][3], recs[0].explanation);
    assert_eq!(gaia::cli::recommendation_rows(&recs, 10).len(), 3);
}

#[test]
fn backend_rows_list_every_backend_with_its_availability() {
    let rows = gaia::cli::backend_rows(&gpu_machine());
    let names: Vec<&str> = rows.iter().map(|r| r[0].as_str()).collect();
    assert_eq!(names, vec!["vLLM", "Text Generation Inference", "SGLang", "llama.cpp", "Ollama"]);
    assert!(rows.iter().all(|r| r[1] == "yes" || r[1] == "no"));
    assert_eq!(rows[0][1], "yes");
}

#[test]
fn the_chatbot_dev_server_runs_npm_in_its_directory() {
    let (spec, log) = gaia::process::dev_server_command("/tmp/chat", 5173);
    assert_eq!(spec.program, "npm");
    assert_eq!(spec.args, strings(&["run", "dev", "--", "--host", "0.0.0.0", "--port", "5173"]));
    assert_eq!(spec.working_dir.as_deref(), Some("/tmp/chat"));
    assert_eq!(log, "/tmp/chat/gaia-chatbot.log");
}
