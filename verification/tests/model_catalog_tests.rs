use gaia::model_catalog::{ModelCatalog, ModelEntry};

fn make_model(
    id: &str,
    params_tenths_b: u32,
    categories: &[&str],
    supports_vllm: bool,
    supports_tgi: bool,
) -> ModelEntry {
    ModelEntry {
        id: id.to_owned(),
        display_name: id.to_owned(),
        family: "test".to_owned(),
        params_tenths_b,
        categories: categories.iter().map(|item| (*item).to_owned()).collect(),
        recommended_use: "tests".to_owned(),
        min_vram_fp16_tenths_gb: 80,
        min_vram_int8_tenths_gb: 60,
        min_vram_int4_tenths_gb: 40,
        supports_vllm,
        supports_tgi,
        gated: false,
    }
}

#[test]
fn supports_backend_maps_aliases_and_defaults() {
    let model = make_model("test/model", 70, &["instruct"], true, false);

    assert!(model.supports_backend("vllm"));
    assert!(!model.supports_backend("tgi"));
    assert!(model.supports_backend("sglang"));
    assert!(model.supports_backend("llamacpp"));
    assert!(model.supports_backend("llama.cpp"));
    assert!(model.supports_backend("ollama"));
    assert!(!model.supports_backend("unknown"));
}

#[test]
fn filtered_applies_category_size_and_backend_constraints() {
    let catalog = ModelCatalog {
        models: vec![
            make_model("provider/model-a", 70, &["instruct"], true, false),
            make_model("provider/model-b", 200, &["chat"], false, true),
        ],
    };

    let filtered = catalog.filtered(Some("InStruct"), Some(100), Some("vllm"));
    assert_eq!(filtered.len(), 1);
    assert_eq!(filtered[0].id, "provider/model-a");
}

#[test]
fn categories_label_joins_with_commas() {
    let model = make_model(
        "provider/model",
        70,
        &["instruct", "chat", "code"],
        true,
        true,
    );
    assert_eq!(model.categories_label(), "instruct,chat,code");
}

#[test]
fn filtered_without_constraints_keeps_everything_in_order() {
    let catalog = ModelCatalog {
        models: vec![
            make_model("a", 70, &["chat"], true, true),
            make_model("b", 700, &[], false, false),
        ],
    };
    let all = catalog.filtered(None, None, None);
    assert_eq!(all.len(), 2);
    assert_eq!(all[1].id, "b");
    assert!(catalog.filtered(None, Some(69), None).is_empty());
    assert_eq!(catalog.filtered(None, None, Some("TGI")).len(), 1);
    assert_eq!(catalog.filtered(None, None, Some("ollama")).len(), 2);
    assert!(make_model("c", 1, &[], true, true).categories_label().is_empty());
}
