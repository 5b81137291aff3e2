use gaia::machine::{DockerStatus, GpuInfo, MachineSpecs};
use gaia::model_catalog::{ModelCatalog, ModelEntry};
use gaia::panels::{
    backend_panel, details_title, header_line, machine_panel, modal, model_details, model_list, model_row, Modal,
    StyledLine,
};
use gaia::selector::{Key, KeyCode};
use gaia::tui::{StyleSpec, ThemeColor};
use gaia::wizard::{AppState, SelectorInput};

fn entry(id: &str, params_tenths_b: u32, gated: bool) -> ModelEntry {
    ModelEntry {
        id: id.to_owned(),
        display_name: format!("{id} display"),
        family: "alpha".to_owned(),
        params_tenths_b,
        categories: vec!["chat".to_owned(), "code".to_owned()],
        recommended_use: "chat".to_owned(),
        min_vram_fp16_tenths_gb: 160,
        min_vram_int8_tenths_gb: 90,
        min_vram_int4_tenths_gb: 55,
        supports_vllm: true,
        supports_tgi: false,
        gated,
    }
}

fn machine(gpu: bool) -> MachineSpecs {
    MachineSpecs {
        os_name: "Linux".to_owned(),
        kernel_version: None,
        cpu_cores: 16,
        ram_total_mib: 66048,
        docker: DockerStatus { installed: true, daemon_accessible: false, version: None, details: None },
        gpu: if gpu {
            Some(GpuInfo {
                name: "RTX 4090".to_owned(),
                vram_mib: 24576,
                driver_version: Some("550.1".to_owned()),
                cuda_version: None,
            })
        } else {
            None
        },
        hf_token_present: true,
        warnings: vec![],
    }
}

fn app_with(models: Vec<ModelEntry>) -> AppState {
    let mut m = machine(true);
    m.docker.daemon_accessible = true;
    AppState::new(SelectorInput {
        machine: m,
        catalog: ModelCatalog { models },
        default_backend: "vllm".to_owned(),
        default_model: None,
        default_port: 8000,
        default_api_key: String::new(),
    })
}

fn texts(line: &StyledLine) -> Vec<String> {
    line.spans.iter().map(|s| s.text.clone()).collect()
}

fn joined(line: &StyledLine) -> String {
    texts(line).concat()
}

#[test]
fn machine_panel_lists_gpu_ram_cores_docker_token_and_driver() {
    let lines = machine_panel(&machine(true));
    let shown: Vec<String> = lines.iter().map(joined).collect();
    assert_eq!(
        shown,
        vec![
            "GPU: RTX 4090 (24.0 GB)  gpu:ok ",
            "RAM: 64.5 GB",
            "CPU: 16 cores",
            "Docker: missing/locked",
            "HF_TOKEN: present",
            "NVIDIA driver: 550.1",
        ]
    );
    let badge = &lines[0].spans[2];
    assert_eq!(
        badge.style,
        Some(StyleSpec { fg: Some(ThemeColor::Black), bg: Some(ThemeColor::LightGreen), bold: false })
    );
    assert_eq!(lines[3].spans[1].style.unwrap().fg, Some(ThemeColor::LightRed));
}

#[test]
fn machine_panel_without_gpu_has_no_driver_line() {
    let lines = machine_panel(&machine(false));
    assert_eq!(lines.len(), 5);
    assert_eq!(joined(&lines[0]), "GPU: none detected  gpu:missing ");
}

#[test]
fn backend_panel_marks_the_cursor_and_keeps_it_in_view() {
    let mut app = app_with(vec![entry("org/a", 70, false)]);
    let lines = backend_panel(&app, 9);
    // Seven rows hold three backends, the first under the cursor.
    assert_eq!(lines.len(), 6);
    assert_eq!(texts(&lines[0])[0], "> ");
    assert_eq!(texts(&lines[0])[1], "vLLM    ");
    assert!(texts(&lines[0]).contains(&" recommended ".to_owned()));
    assert_eq!(texts(&lines[2])[0], "  ");
    assert!(joined(&lines[1]).starts_with("    "));
    app.backend_index = 4;
    let lines = backend_panel(&app, 9);
    assert_eq!(lines.len(), 6);
    assert_eq!(texts(&lines[4])[1], "Ollama  ");
    assert_eq!(texts(&lines[4])[0], "> ");
}

#[test]
fn model_rows_show_size_fit_and_tags() {
    let app = app_with(vec![entry("org/a-very-long-model-identifier-for-display-purposes", 75, true)]);
    let row = model_row(&app.models[0]);
    let t = texts(&row);
    assert_eq!(t[0], format!("{:<36}", "org/a-very-long-model-identifie..."));
    assert_eq!(t[1], "  7.5B ");
    assert!(t.contains(&" gated ".to_owned()));
    assert_eq!(model_list(&app).len(), 1);
}

#[test]
fn empty_model_list_says_so() {
    let app = app_with(vec![]);
    let lines = model_list(&app);
    assert_eq!(lines.len(), 1);
    assert_eq!(joined(&lines[0]), "No model matches the current filters.");
    assert_eq!(joined(&model_details(&app)[0]), "Select a model to view details.");
}

#[test]
fn details_show_the_selected_model() {
    let app = app_with(vec![entry("org/a", 70, false)]);
    let lines = model_details(&app);
    let shown: Vec<String> = lines.iter().map(joined).collect();
    assert_eq!(shown[0], "Model: org/a display");
    assert_eq!(shown[3], "Params: 7.0B");
    assert_eq!(shown[4], "Categories: chat, code");
    assert_eq!(shown[8], "VRAM GB (FP16/INT8/INT4): 16.0/9.0/5.5");
    assert_eq!(shown[11], "Supports: vLLM=yes | TGI=no | SGLang=yes");
    assert_eq!(shown[12], "          llama.cpp=yes | Ollama=yes");
    assert_eq!(details_title(true), " Model details [focus] | Space to return ");
}

#[test]
fn header_counts_models_and_shows_status() {
    let app = app_with(vec![entry("org/a", 70, false), entry("org/b", 30, false)]);
    let line = header_line(&app);
    let t = texts(&line);
    assert_eq!(t[1], "vLLM");
    assert_eq!(t[4], "2");
    assert_eq!(t[6], "| Use arrows to explore models, then press Enter.");
}

#[test]
fn modal_follows_the_mode() {
    let mut app = app_with(vec![entry("org/a", 70, false)]);
    assert!(matches!(modal(&app), Modal::Hidden));
    app.handle_key(Key { code: KeyCode::Char('/'), ctrl: false });
    app.handle_key(Key { code: KeyCode::Char('q'), ctrl: false });
    match modal(&app) {
        Modal::Input { title, lines } => {
            assert_eq!(title, " Search model ");
            assert_eq!(joined(&lines[2]), "> q_");
        }
        _ => panic!("expected the search field"),
    }
    app.handle_key(Key { code: KeyCode::Esc, ctrl: false });
    app.handle_key(Key { code: KeyCode::Char('s'), ctrl: false });
    match modal(&app) {
        Modal::Selection { title, options, highlighted } => {
            assert_eq!(title, " Size filter ");
            assert_eq!(options, vec!["All sizes", "<= 8B", "<= 14B", "<= 32B"]);
            assert_eq!(highlighted, Some(0));
        }
        _ => panic!("expected the size picker"),
    }
}

#[test]
fn confirm_shows_local_key_when_none_typed() {
    let mut app = app_with(vec![entry("org/a", 70, false)]);
    app.handle_key(Key { code: KeyCode::Enter, ctrl: false });
    app.handle_key(Key { code: KeyCode::Enter, ctrl: false });
    app.handle_key(Key { code: KeyCode::Enter, ctrl: false });
    match modal(&app) {
        Modal::Confirm { title, lines } => {
            assert_eq!(title, " Confirm launch ");
            let shown: Vec<String> = lines.iter().map(joined).collect();
            assert_eq!(shown[2], "Backend: vLLM");
            assert_eq!(shown[3], "Model: org/a");
            assert_eq!(shown[4], "API port: 8000");
            assert_eq!(shown[5], "API key: local-key");
        }
        _ => panic!("expected the confirmation"),
    }
}
