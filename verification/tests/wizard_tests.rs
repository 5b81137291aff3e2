use gaia::machine::{DockerStatus, GpuInfo, MachineSpecs};
use gaia::model_catalog::{ModelCatalog, ModelEntry};
use gaia::selector::{AppAction, Key, KeyCode, SizeFilter, WizardMode};
use gaia::refresh::{session_refresh_options, DiscoverSort, SESSION_DISCOVER_LIMIT};
use gaia::wizard::{AppState, SelectorInput};

fn entry(id: &str, family: &str, params_tenths_b: u32, category: &str) -> ModelEntry {
    ModelEntry {
        id: id.to_owned(),
        display_name: id.to_owned(),
        family: family.to_owned(),
        params_tenths_b,
        categories: vec![category.to_owned()],
        recommended_use: category.to_owned(),
        min_vram_fp16_tenths_gb: params_tenths_b * 2 + 20,
        min_vram_int8_tenths_gb: params_tenths_b + 20,
        min_vram_int4_tenths_gb: params_tenths_b / 2 + 20,
        supports_vllm: true,
        supports_tgi: true,
        gated: false,
    }
}

fn machine() -> MachineSpecs {
    MachineSpecs {
        os_name: "Linux".to_owned(),
        kernel_version: None,
        cpu_cores: 16,
        ram_total_mib: 65536,
        docker: DockerStatus {
            installed: true,
            daemon_accessible: true,
            version: Some("Docker version 27".to_owned()),
            details: None,
        },
        gpu: Some(GpuInfo {
            name: "RTX".to_owned(),
            vram_mib: 24576,
            driver_version: None,
            cuda_version: None,
        }),
        hf_token_present: false,
        warnings: vec![],
    }
}

fn new_app() -> AppState {
    AppState::new(SelectorInput {
        machine: machine(),
        catalog: ModelCatalog {
            models: vec![
                entry("org/alpha-7b", "alpha", 70, "chat"),
                entry("org/beta-3b", "beta", 30, "code"),
            ],
        },
        default_backend: "vllm".to_owned(),
        default_model: Some("org/beta-3b".to_owned()),
        default_port: 8000,
        default_api_key: "local-key".to_owned(),
    })
}

fn press(app: &mut AppState, code: KeyCode) -> AppAction {
    app.handle_key(Key { code, ctrl: false })
}

fn type_text(app: &mut AppState, text: &str) {
    for ch in text.chars() {
        press(app, KeyCode::Char(ch));
    }
}

#[test]
fn the_selector_starts_on_the_default_model() {
    let app = new_app();
    assert_eq!(app.mode, WizardMode::Browse);
    assert_eq!(app.models.len(), 2);
    assert_eq!(app.selected_model().unwrap().id, "org/beta-3b");
    assert_eq!(app.current_backend().id, "vllm");
    assert_eq!(app.port_input, "8000");
    assert_eq!(app.category_options, vec!["all".to_owned(), "chat".to_owned(), "code".to_owned()]);
    assert_eq!(app.size_label(), "All sizes");
    assert_eq!(app.category_label(), "all");
    assert_eq!(app.selected_model_hf_url(), Some("https://hf.co/org/beta-3b".to_owned()));
    assert_eq!(app.backend_availability.len(), 5);
}

#[test]
fn search_filters_and_clearing_restores_the_list() {
    let mut app = new_app();
    let before: Vec<String> = app.models.iter().map(|m| m.id.clone()).collect();
    press(&mut app, KeyCode::Char('/'));
    assert_eq!(app.mode, WizardMode::Search);
    type_text(&mut app, "ALPHA");
    press(&mut app, KeyCode::Enter);
    assert_eq!(app.mode, WizardMode::Browse);
    assert_eq!(app.search_query, "ALPHA");
    assert_eq!(app.models.len(), 1);
    assert_eq!(app.models[0].id, "org/alpha-7b");
    assert_eq!(app.status_message, "Search applied: ALPHA");

    press(&mut app, KeyCode::Char('x'));
    assert_eq!(app.search_query, "");
    let after: Vec<String> = app.models.iter().map(|m| m.id.clone()).collect();
    assert_eq!(after, before);
}

#[test]
fn the_size_filter_hides_larger_models() {
    let mut app = new_app();
    press(&mut app, KeyCode::Char('s'));
    assert_eq!(app.mode, WizardMode::SizePicker);
    press(&mut app, KeyCode::Down);
    press(&mut app, KeyCode::Enter);
    assert_eq!(app.mode, WizardMode::Browse);
    assert_eq!(app.size_filter, SizeFilter::UpTo8B);
    assert_eq!(app.models.len(), 2);
    assert!(SizeFilter::UpTo8B.allows(80));
    assert!(!SizeFilter::UpTo8B.allows(81));
}

#[test]
fn a_full_walk_confirms_a_launch() {
    let mut app = new_app();
    press(&mut app, KeyCode::Enter);
    assert_eq!(app.mode, WizardMode::PortInput);
    for _ in 0..4 {
        press(&mut app, KeyCode::Backspace);
    }
    press(&mut app, KeyCode::Enter);
    assert_eq!(app.mode, WizardMode::PortInput);
    assert_eq!(app.status_message, "Invalid port. Please enter a value between 1 and 65535.");
    type_text(&mut app, "91000");
    assert_eq!(app.port_input, "91000");
    press(&mut app, KeyCode::Backspace);
    press(&mut app, KeyCode::Enter);
    assert_eq!(app.mode, WizardMode::ApiKeyInput);
    for _ in 0.."local-key".len() {
        press(&mut app, KeyCode::Backspace);
    }
    press(&mut app, KeyCode::Enter);
    assert_eq!(app.mode, WizardMode::Confirm);
    assert_eq!(app.api_key_input, "local-key");
    match press(&mut app, KeyCode::Enter) {
        AppAction::Confirmed(result) => {
            assert_eq!(result.backend, "vllm");
            assert_eq!(result.model_id, "org/beta-3b");
            assert_eq!(result.port, 9100);
            assert_eq!(result.api_key, "local-key");
        }
        other => panic!("expected a confirmed launch, got {:?}", other),
    }
}

#[test]
fn quitting_and_escaping_cancel() {
    let mut app = new_app();
    assert!(matches!(press(&mut app, KeyCode::Char('q')), AppAction::Cancelled));
    let mut app = new_app();
    assert!(matches!(press(&mut app, KeyCode::Esc), AppAction::Cancelled));
}

#[test]
fn switching_backend_cycles_and_keeps_the_selection() {
    let mut app = new_app();
    press(&mut app, KeyCode::Char('b'));
    assert_eq!(app.current_backend().id, "tgi");
    assert_eq!(app.status_message, "Backend switched to TGI.");
    assert_eq!(app.selected_model().unwrap().id, "org/beta-3b");
    let before = app.spinner_tick;
    app.on_tick();
    assert_eq!(app.spinner_tick, before + 1);
}

#[test]
fn refreshing_the_catalog_runs_once_and_applies_the_outcome() {
    let mut app = new_app();
    assert!(matches!(press(&mut app, KeyCode::Char('r')), AppAction::RefreshCatalog));
    assert!(app.catalog_refreshing);
    assert_eq!(app.status_message, "Refreshing catalog in the background...");
    assert!(matches!(press(&mut app, KeyCode::Char('r')), AppAction::NoAction));
    assert_eq!(app.status_message, "Catalog refresh already running.");

    let refreshed = ModelCatalog {
        models: vec![
            entry("org/alpha-7b", "alpha", 70, "chat"),
            entry("org/beta-3b", "beta", 30, "code"),
            entry("org/gamma-1b", "gamma", 10, "vision"),
        ],
    };
    app.apply_catalog_refresh(Ok(refreshed));
    assert!(!app.catalog_refreshing);
    assert_eq!(app.status_message, "Catalog refreshed: 3 models.");
    assert_eq!(app.models.len(), 3);
    assert_eq!(app.selected_model().unwrap().id, "org/beta-3b");
    assert_eq!(app.category_options, vec!["all".to_owned(), "chat".to_owned(), "code".to_owned(), "vision".to_owned()]);
    assert_eq!(app.category_picker_index, 0);

    assert!(matches!(press(&mut app, KeyCode::Char('r')), AppAction::RefreshCatalog));
    app.apply_catalog_refresh(Err("HTTP 500".to_owned()));
    assert!(!app.catalog_refreshing);
    assert_eq!(app.status_message, "Catalog refresh failed: HTTP 500");
    assert_eq!(app.models.len(), 3);
}

#[test]
fn session_refresh_seeds_with_the_catalog_ids() {
    let app = new_app();
    let options = session_refresh_options(&app.catalog, Some("tok".to_owned()));
    assert_eq!(options.seed_ids, vec!["org/alpha-7b".to_owned(), "org/beta-3b".to_owned()]);
    assert_eq!(options.discover_limit, SESSION_DISCOVER_LIMIT);
    assert_eq!(options.discover_sort, DiscoverSort::Trending);
    assert_eq!(options.token, Some("tok".to_owned()));
}
