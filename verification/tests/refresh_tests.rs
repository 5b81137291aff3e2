use gaia::mock_api::Json;
use gaia::model_catalog::ModelEntry;
use gaia::refresh::{
    clean_seed_ids, config_url, deduplicate_keep_order, discover_request_url, finish_report,
    metadata_url, refresh_model_ids, sort_entries, urlencode, DiscoverSort, RefreshOptions,
    RefreshReport,
};

fn entry(id: &str, params_tenths_b: u32) -> ModelEntry {
    ModelEntry {
        id: id.to_owned(),
        display_name: id.to_owned(),
        family: "test".to_owned(),
        params_tenths_b,
        categories: vec![],
        recommended_use: "general".to_owned(),
        min_vram_fp16_tenths_gb: 40,
        min_vram_int8_tenths_gb: 30,
        min_vram_int4_tenths_gb: 20,
        supports_vllm: true,
        supports_tgi: true,
        gated: false,
    }
}

fn strings(items: &[&str]) -> Vec<String> {
    items.iter().map(|s| s.to_string()).collect()
}

#[test]
fn default_options_keep_only_a_real_token() {
    let options = RefreshOptions::new(Some("  ".to_owned()));
    assert!(options.token.is_none());
    assert_eq!(options.timeout_secs, 25);
    assert_eq!(options.discover_limit, 0);
    assert_eq!(options.discover_sort, DiscoverSort::Trending);
    let options = RefreshOptions::new(Some("hf_abc".to_owned()));
    assert_eq!(options.token, Some("hf_abc".to_owned()));
}

#[test]
fn sort_fields_match_the_api() {
    assert_eq!(DiscoverSort::Trending.api_field(), "trendingScore");
    assert_eq!(DiscoverSort::Downloads.api_field(), "downloads");
}

#[test]
fn deduplicate_keeps_first_occurrences_in_order() {
    let out = deduplicate_keep_order(strings(&["b", "a", "b", "c", "a"]));
    assert_eq!(out, strings(&["b", "a", "c"]));
    // Running it again changes nothing.
    assert_eq!(deduplicate_keep_order(out.clone()), out);
}

#[test]
fn seed_ids_are_trimmed_and_blanks_dropped() {
    assert_eq!(clean_seed_ids(&strings(&[" org/a ", "", "  ", "org/b"])), strings(&["org/a", "org/b"]));
}

#[test]
fn urlencode_escapes_reserved_bytes() {
    assert_eq!(urlencode("qwen coder"), "qwen%20coder");
    assert_eq!(urlencode("a-b_c.d~e"), "a-b_c.d~e");
    assert_eq!(urlencode("é"), "%C3%A9");
}

#[test]
fn request_urls_are_built_from_the_options() {
    let mut options = RefreshOptions::new(None);
    options.discover_limit = 50;
    options.search = Some(" llama 3 ".to_owned());
    assert_eq!(
        discover_request_url(&options, "downloads"),
        "https://huggingface.co/api/models?limit=50&sort=downloads&direction=-1&pipeline_tag=text-generation&full=true&search=llama%203"
    );
    options.search = Some("   ".to_owned());
    assert!(!discover_request_url(&options, "trendingScore").contains("search"));
    assert_eq!(metadata_url("org/m"), "https://huggingface.co/api/models/org/m?full=true");
    assert_eq!(config_url("org/m"), "https://huggingface.co/org/m/raw/main/config.json");
}

#[test]
fn refresh_ids_join_seeds_and_discovery() {
    let mut options = RefreshOptions::new(None);
    options.seed_ids = strings(&["org/a", " org/b "]);
    let ids = refresh_model_ids(&options, strings(&["org/b", "org/c"])).unwrap();
    assert_eq!(ids, strings(&["org/a", "org/b"]));

    options.discover_limit = 10;
    let ids = refresh_model_ids(&options, strings(&["org/b", "org/c"])).unwrap();
    assert_eq!(ids, strings(&["org/a", "org/b", "org/c"]));

    let empty = RefreshOptions::new(None);
    assert_eq!(
        refresh_model_ids(&empty, vec![]).unwrap_err(),
        "No model ids to refresh. Provide seed ids or enable discovery."
    );
}

#[test]
fn entries_sort_by_size_then_lowercase_id() {
    let sorted = sort_entries(vec![entry("org/Zeta", 70), entry("org/beta", 70), entry("org/small", 5), entry("org/Alpha", 70)]);
    let ids: Vec<&str> = sorted.iter().map(|e| e.id.as_str()).collect();
    assert_eq!(ids, vec!["org/small", "org/Alpha", "org/beta", "org/Zeta"]);
}

#[test]
fn finishing_an_empty_refresh_is_refused() {
    let report = RefreshReport { entries: vec![], skipped: strings(&["x"]), errors: strings(&["e1", "e2"]) };
    assert_eq!(finish_report(report).unwrap_err(), "No catalog entries generated (2 errors, 1 skipped).");

    let report = RefreshReport { entries: vec![entry("b", 20), entry("a", 10)], skipped: vec![], errors: vec![] };
    let done = finish_report(report).unwrap();
    assert_eq!(done.entries[0].id, "a");
    assert_eq!(done.entries[1].id, "b");
}

fn jstr(s: &str) -> gaia::mock_api::Json {
    gaia::mock_api::Json::Str(s.to_owned())
}

fn jobj(fields: Vec<(&str, gaia::mock_api::Json)>) -> gaia::mock_api::Json {
    gaia::mock_api::Json::Obj(fields.into_iter().map(|(k, v)| (k.to_owned(), v)).collect())
}

#[test]
fn metadata_fields_are_read_from_the_answer() {
    let raw = jobj(vec![
        ("id", jstr("org/Model-7B")),
        ("tags", Json::Arr(vec![jstr("Chat"), Json::Int(3), jstr("en")])),
        ("pipeline_tag", jstr("text-generation")),
        ("gated", jstr("manual")),
        ("cardData", jobj(vec![("model_name", jstr("Model 7B")), ("language", jstr("fr"))])),
    ]);
    let meta = gaia::refresh::meta_from_json(&raw);
    assert_eq!(meta.id.as_deref(), Some("org/Model-7B"));
    assert_eq!(meta.tags, vec!["Chat".to_owned(), "en".to_owned()]);
    assert_eq!(meta.pipeline_tag.as_deref(), Some("text-generation"));
    assert_eq!(meta.card_names, vec![Some("Model 7B".to_owned()), None, None]);
    assert_eq!(meta.card_languages, vec!["fr".to_owned()]);
    assert!(matches!(meta.gated, gaia::hf_catalog::GatedField::Str(ref s) if s == "manual"));
}

#[test]
fn metadata_that_is_not_an_object_is_refused_and_non_generators_skipped() {
    let refused = gaia::refresh::read_model_metadata(&Json::Arr(vec![]), "org/m", false);
    assert_eq!(refused.unwrap_err(), "Invalid model metadata payload from HF API.");
    let embedder = jobj(vec![("pipeline_tag", jstr("feature-extraction"))]);
    assert!(gaia::refresh::read_model_metadata(&embedder, "org/embed", false).unwrap().is_none());
    assert!(gaia::refresh::read_model_metadata(&embedder, "org/embed", true).unwrap().is_some());
    let generator = jobj(vec![("pipeline_tag", jstr("text-generation"))]);
    assert!(gaia::refresh::read_model_metadata(&generator, "org/gen", false).unwrap().is_some());
}

#[test]
fn discovery_lists_the_string_ids_in_order() {
    let payload = Json::Arr(vec![
        jobj(vec![("id", jstr("a/one"))]),
        jobj(vec![("id", Json::Int(2))]),
        jobj(vec![("id", jstr("b/two"))]),
    ]);
    assert_eq!(gaia::refresh::discovered_ids(&payload), vec!["a/one".to_owned(), "b/two".to_owned()]);
    assert!(gaia::refresh::discovered_ids(&jobj(vec![])).is_empty());
    assert_eq!(gaia::refresh::discover_fallback(DiscoverSort::Trending), Some("downloads"));
    assert_eq!(gaia::refresh::discover_fallback(DiscoverSort::Downloads), None);
}

#[test]
fn each_model_outcome_is_filed_in_the_report() {
    let mut report = RefreshReport { entries: vec![], skipped: vec![], errors: vec![] };
    gaia::refresh::record_outcome(&mut report, "org/a", Ok(Some(entry("org/a", 70))));
    gaia::refresh::record_outcome(&mut report, "org/b", Ok(None));
    gaia::refresh::record_outcome(&mut report, "org/c", Err("HTTP 404".to_owned()));
    assert_eq!(report.entries.len(), 1);
    assert_eq!(report.skipped, vec!["org/b".to_owned()]);
    assert_eq!(report.errors, vec!["org/c: HTTP 404".to_owned()]);
    match gaia::refresh::model_progress(0, 3, "org/a") {
        gaia::refresh::RefreshProgress::Model { index, total, id } => {
            assert_eq!((index, total, id.as_str()), (1, 3, "org/a"));
        }
        _ => panic!("expected a model step"),
    }
}
