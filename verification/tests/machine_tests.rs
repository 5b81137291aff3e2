use gaia::machine::{
    cuda_version_from, docker_from_probes, machine_warnings, parse_gpu_query, token_present,
    trim_line, DockerStatus, ProbeResult,
};
use gaia::process::{
    expand_tilde, expand_tilde_in, join_path, mock_api_command_args, mock_dry_run_line,
    mock_paths, parse_pid, proc_path,
};
use gaia::recommendation::FitStatus;
use gaia::selector::WizardMode;
use gaia::tui::{
    backend_viewport, boolean_badge, fit_badge, footer_text, format_tenths, model_list_title, EventHandler, KeyKind,
    Theme, ThemeColor,
};

fn probe(success: bool, stdout: &str, stderr: &str, error: Option<&str>) -> ProbeResult {
    ProbeResult {
        success,
        stdout: stdout.to_owned(),
        stderr: stderr.to_owned(),
        error: error.map(|e| e.to_owned()),
    }
}

#[test]
fn expand_tilde_keeps_non_tilde_paths_unchanged() {
    assert_eq!(expand_tilde("/tmp/gaia-config.toml"), "/tmp/gaia-config.toml");
}

#[test]
fn tilde_paths_resolve_against_home() {
    assert_eq!(expand_tilde_in("~/x/y", &Some("/home/u".to_owned())), "/home/u/x/y");
    assert_eq!(expand_tilde_in("~/x", &None), "~/x");
    assert_eq!(expand_tilde_in("~x", &Some("/home/u".to_owned())), "~x");
}

#[test]
fn paths_join_like_path_join() {
    assert_eq!(join_path("/a", "b"), "/a/b");
    assert_eq!(join_path("/a/", "b"), "/a/b");
    assert_eq!(join_path("/a", "/b"), "/b");
    assert_eq!(join_path("", "b"), "b");
    let paths = mock_paths("/home/u/.config");
    assert_eq!(paths.state_dir, "/home/u/.config/gaia/state");
    assert_eq!(paths.pid_file, "/home/u/.config/gaia/state/mock-api.pid");
    assert_eq!(paths.log_file, "/home/u/.config/gaia/state/mock-api.log");
    assert_eq!(proc_path(123), "/proc/123");
}

#[test]
fn pid_files_parse_like_u32_from_str() {
    assert_eq!(parse_pid(" 4242\n"), Some(4242));
    assert_eq!(parse_pid("+7"), Some(7));
    assert_eq!(parse_pid("4294967295"), Some(u32::MAX));
    assert_eq!(parse_pid("4294967296"), None);
    assert_eq!(parse_pid("12a"), None);
    assert_eq!(parse_pid(""), None);
    assert_eq!(parse_pid("+"), None);
}

#[test]
fn mock_launch_arguments_and_dry_run_line() {
    assert_eq!(
        mock_api_command_args("0.0.0.0", 8000, "org/m", "k"),
        vec!["__mock-api", "--host", "0.0.0.0", "--port", "8000", "--model", "org/m", "--api-key", "k"]
    );
    assert_eq!(
        mock_dry_run_line("127.0.0.1", 9000, "org/m"),
        "Mock API command: gaia __mock-api --host 127.0.0.1 --port 9000 --model org/m --api-key [REDACTED]"
    );
}

#[test]
fn docker_status_comes_from_the_probes() {
    let missing = docker_from_probes(&probe(false, "", "", Some("not found")), &probe(false, "", "", None));
    assert!(!missing.installed);
    assert_eq!(missing.details, Some("not found".to_owned()));

    let ok = docker_from_probes(&probe(true, "Docker version 27.0\nmore", "", None), &probe(true, "", "", None));
    assert!(ok.installed && ok.daemon_accessible);
    assert_eq!(ok.version, Some("Docker version 27.0".to_owned()));
    assert_eq!(ok.details, None);

    let denied = docker_from_probes(&probe(true, "v", "", None), &probe(false, "", "  permission denied \nx", None));
    assert!(denied.installed && !denied.daemon_accessible);
    assert_eq!(denied.details, Some("permission denied".to_owned()));
    assert_eq!(trim_line("   "), None);
}

#[test]
fn gpu_queries_are_read_or_explained() {
    let q = parse_gpu_query(&probe(true, "NVIDIA RTX 4090, 24564 MiB, 550.54\n", "", None)).unwrap();
    assert_eq!(q.name, "NVIDIA RTX 4090");
    assert_eq!(q.memory_raw, "24564 MiB");
    assert_eq!(q.driver_version, Some("550.54".to_owned()));
    assert_eq!(
        parse_gpu_query(&probe(false, "", "", Some("no such file"))).unwrap_err(),
        "NVIDIA GPU detection skipped (no such file)."
    );
    assert_eq!(
        parse_gpu_query(&probe(false, "", "", None)).unwrap_err(),
        "NVIDIA GPU detection failed: nvidia-smi exited with an error"
    );
    assert_eq!(parse_gpu_query(&probe(true, "", "", None)).unwrap_err(), "nvidia-smi returned an empty GPU list.");
    assert_eq!(parse_gpu_query(&probe(true, "name only", "", None)).unwrap_err(), "Unable to parse GPU memory.");
}

#[test]
fn cuda_version_is_read_from_nvidia_smi() {
    let out = "+---+\n| NVIDIA-SMI 550.54   Driver Version: 550.54   CUDA Version: 12.4     |\n";
    assert_eq!(cuda_version_from(out), Some("12.4".to_owned()));
    assert_eq!(cuda_version_from("nothing here"), None);
}

#[test]
fn warnings_list_gpu_then_docker() {
    let docker = DockerStatus { installed: false, daemon_accessible: false, version: None, details: None };
    assert_eq!(
        machine_warnings(Some("gpu".to_owned()), &docker),
        vec!["gpu".to_owned(), "Docker is not installed.".to_owned()]
    );
    let docker = DockerStatus { installed: true, daemon_accessible: true, version: None, details: None };
    assert!(machine_warnings(None, &docker).is_empty());
    assert!(token_present(&Some("hf_x".to_owned())));
    assert!(!token_present(&Some("  ".to_owned())));
    assert!(!token_present(&None));
}

#[test]
fn badges_and_timing_follow_the_theme() {
    let (label, style) = fit_badge(FitStatus::RequiresMultiGpu);
    assert_eq!(label, " multi-gpu ");
    assert_eq!(style.bg, Some(ThemeColor::LightRed));
    assert!(style.bold);
    let (text, style) = boolean_badge("docker", false);
    assert_eq!(text, " docker:missing ");
    assert_eq!(style.bg, Some(ThemeColor::DarkGray));
    assert_eq!(Theme::selected_row().bg, Some(ThemeColor::LightCyan));

    let events = EventHandler::new(250);
    assert_eq!(events.poll_timeout_ms(100), 150);
    assert_eq!(events.poll_timeout_ms(400), 0);
    assert!(events.tick_due(250));
    assert!(!events.tick_due(249));
    assert!(EventHandler::accepts_key(KeyKind::Repeat));
    assert!(!EventHandler::accepts_key(KeyKind::Release));
}

#[test]
fn backend_viewport_keeps_the_selection_visible() {
    // Nine rows: three backends fit.
    assert_eq!(backend_viewport(5, 0, 9), (0, 3));
    assert_eq!(backend_viewport(5, 2, 9), (1, 4));
    assert_eq!(backend_viewport(5, 4, 9), (2, 5));
    // Everything fits in a tall panel.
    assert_eq!(backend_viewport(5, 4, 40), (0, 5));
    // A tiny panel still shows one backend.
    assert_eq!(backend_viewport(5, 3, 1), (3, 4));
}

#[test]
fn footer_and_titles_follow_the_mode() {
    assert_eq!(footer_text(WizardMode::Search, false, None), "Search: type text | Enter apply | Esc cancel");
    assert_eq!(footer_text(WizardMode::Browse, true, None), "No model selected.");
    assert_eq!(footer_text(WizardMode::Browse, true, Some("https://hf.co/a/b".to_owned())), "https://hf.co/a/b");
    assert!(footer_text(WizardMode::Browse, false, None).starts_with("Enter: select"));
    assert_eq!(
        model_list_title("vLLM", "all", "All sizes", ""),
        " Models | backend=vLLM | category=all | size=All sizes | search=none "
    );
    assert_eq!(
        model_list_title("TGI", "chat", "<= 8B", "qwen"),
        " Models | backend=TGI | category=chat | size=<= 8B | search=qwen | press x to clear "
    );
    assert_eq!(format_tenths(70), "7.0");
    assert_eq!(format_tenths(5), "0.5");
    assert_eq!(format_tenths(1234), "123.4");
}

fn sample_machine(gpu: bool, warnings: Vec<String>) -> gaia::machine::MachineSpecs {
    gaia::machine::MachineSpecs {
        os_name: "Ubuntu 24.04".to_owned(),
        kernel_version: Some("6.8.0".to_owned()),
        cpu_cores: 16,
        ram_total_mib: 64205,
        docker: DockerStatus { installed: true, daemon_accessible: false, version: None, details: None },
        gpu: if gpu {
            Some(gaia::machine::GpuInfo {
                name: "RTX 4090".to_owned(),
                vram_mib: 24576,
                driver_version: Some("550.54".to_owned()),
                cuda_version: None,
            })
        } else {
            None
        },
        hf_token_present: false,
        warnings,
    }
}

#[test]
fn doctor_machine_section_lists_the_machine() {
    let lines = gaia::cli::machine_section_lines(&sample_machine(true, vec!["Docker daemon is not reachable.".to_owned()]));
    assert_eq!(
        lines,
        vec![
            "",
            "Machine",
            "-------",
            "OS: Ubuntu 24.04",
            "Kernel: 6.8.0",
            "CPU cores: 16",
            "RAM: 62.7 GB",
            "Docker: installed (version unknown)",
            "Docker daemon: not reachable",
            "HF_TOKEN: missing (optional unless using gated models)",
            "GPU: RTX 4090 (24.0 GB VRAM)",
            "NVIDIA driver: 550.54",
            "",
            "Warnings:",
            "  - Docker daemon is not reachable.",
        ]
    );
    let lines = gaia::cli::machine_section_lines(&sample_machine(false, vec![]));
    assert_eq!(lines.last().unwrap(), "GPU: none detected");
}

#[test]
fn recommend_command_reports_runtime_context() {
    let lines = gaia::cli::recommend_header_lines(&None, &sample_machine(false, vec![]));
    assert_eq!(lines[0], "gaia recommend");
    assert!(lines.iter().any(|l| l.starts_with("Backend filter:")));
    assert!(lines.iter().any(|l| l.starts_with("GPU:")));
    assert_eq!(lines[2], "Backend filter: none (showing all compatible models)");
    assert_eq!(lines[3], "GPU: none detected");
    let lines = gaia::cli::recommend_header_lines(&Some("tgi".to_owned()), &sample_machine(true, vec![]));
    assert_eq!(lines[2], "Backend filter: tgi");
    assert_eq!(lines[3], "GPU: RTX 4090 (24.0 GB)");
    assert_eq!(lines[4], "RAM: 62.7 GB");
}
