use gaia::machine::{DockerStatus, GpuInfo, MachineSpecs};
use gaia::model_catalog::{ModelCatalog, ModelEntry};
use gaia::recommendation::{FitStatus, PreferredBackend, RecommendationEngine};

/// A machine whose sizes are given in tenths of a gigabyte.
fn machine_specs(vram_tenths_gb: Option<u32>, ram_total_tenths_gb: u32) -> MachineSpecs {
    MachineSpecs {
        os_name: "Linux".to_owned(),
        kernel_version: Some("test-kernel".to_owned()),
        cpu_cores: 16,
        ram_total_mib: ram_total_tenths_gb as u64 * 1024 / 10,
        docker: DockerStatus {
            installed: true,
            daemon_accessible: true,
            version: Some("Docker test".to_owned()),
            details: None,
        },
        gpu: vram_tenths_gb.map(|vram| GpuInfo {
            name: "Test GPU".to_owned(),
            vram_mib: vram as u64 * 1024 / 10,
            driver_version: None,
            cuda_version: None,
        }),
        hf_token_present: false,
        warnings: Vec::new(),
    }
}

fn model_entry(id: &str, params: u32, fp16: u32, int8: u32, int4: u32) -> ModelEntry {
    ModelEntry {
        id: id.to_owned(),
        display_name: id.to_owned(),
        family: "test".to_owned(),
        params_tenths_b: params,
        categories: vec!["instruct".to_owned()],
        recommended_use: "tests".to_owned(),
        min_vram_fp16_tenths_gb: fp16,
        min_vram_int8_tenths_gb: int8,
        min_vram_int4_tenths_gb: int4,
        supports_vllm: true,
        supports_tgi: true,
        gated: false,
    }
}

#[test]
fn preferred_backend_requires_docker_and_gpu() {
    let machine_with_gpu = machine_specs(Some(240), 640);
    assert_eq!(
        RecommendationEngine::preferred_backend(&machine_with_gpu),
        PreferredBackend::Vllm
    );

    let machine_without_gpu = machine_specs(None, 640);
    assert_eq!(
        RecommendationEngine::preferred_backend(&machine_without_gpu),
        PreferredBackend::NoBackend
    );
}

#[test]
fn evaluate_fit_without_gpu_is_not_recommended() {
    let machine = machine_specs(None, 640);
    let model = model_entry("provider/model", 70, 80, 60, 40);
    let (status, explanation) = RecommendationEngine::evaluate_fit(&machine, &model);

    assert_eq!(status, FitStatus::NotRecommended);
    assert!(explanation.contains("No NVIDIA GPU"));
}

#[test]
fn evaluate_fit_downgrades_when_ram_is_insufficient() {
    let machine = machine_specs(Some(160), 100);
    let model = model_entry("provider/model", 80, 120, 80, 60);
    let (status, explanation) = RecommendationEngine::evaluate_fit(&machine, &model);

    assert_eq!(status, FitStatus::Fits);
    assert!(explanation.contains("fits FP16 minimum"));
    assert_eq!(explanation, "VRAM 16.0 GB fits FP16 minimum (12.0 GB).");
}

#[test]
fn evaluate_fit_marks_large_models_as_multi_gpu_when_needed() {
    let machine = machine_specs(Some(60), 2560);
    let model = model_entry("provider/large-model", 700, 240, 160, 80);
    let (status, _) = RecommendationEngine::evaluate_fit(&machine, &model);
    assert_eq!(status, FitStatus::RequiresMultiGpu);
}

#[test]
fn recommend_models_sorts_by_rank_then_model_size() {
    let machine = machine_specs(Some(180), 2560);
    let small_easy = model_entry("provider/small", 70, 80, 60, 40);
    let large_easy = model_entry("provider/large", 200, 80, 60, 40);
    let tight = model_entry("provider/tight", 120, 200, 170, 80);

    let catalog = ModelCatalog {
        models: vec![large_easy, tight, small_easy],
    };

    let recommendations = RecommendationEngine::recommend_models(&machine, &catalog, None);
    let ordered_ids = recommendations
        .iter()
        .map(|recommendation| recommendation.model.id.as_str())
        .collect::<Vec<_>>();

    assert_eq!(
        ordered_ids,
        vec!["provider/small", "provider/large", "provider/tight"]
    );
}

#[test]
fn fit_explanations_print_one_decimal() {
    let machine = machine_specs(Some(245), 2560);
    let (status, explanation) =
        RecommendationEngine::evaluate_fit(&machine, &model_entry("m", 70, 160, 100, 60));
    assert_eq!(status, FitStatus::Easy);
    assert_eq!(
        explanation,
        "VRAM 24.5 GB comfortably exceeds FP16 target (16.0 GB)."
    );
    let (status, explanation) =
        RecommendationEngine::evaluate_fit(&machine, &model_entry("m", 70, 300, 200, 60));
    assert_eq!(status, FitStatus::Tight);
    assert_eq!(
        explanation,
        "VRAM 24.5 GB is below FP16 but above INT8 threshold (20.0 GB)."
    );
}

#[test]
fn ram_shortfall_turns_quantization_into_not_recommended() {
    let machine = machine_specs(Some(60), 100);
    let (status, explanation) =
        RecommendationEngine::evaluate_fit(&machine, &model_entry("m", 140, 300, 200, 60));
    assert_eq!(status, FitStatus::NotRecommended);
    assert_eq!(explanation, "Current VRAM is too low for a reliable deployment.");
    assert_eq!(FitStatus::RequiresQuantization.rank(), 3);
    assert!(FitStatus::Tight.is_positive());
    assert!(!FitStatus::RequiresMultiGpu.is_positive());
    assert_eq!(FitStatus::RequiresMultiGpu.as_badge(), "requires multi-gpu");
}

#[test]
fn recommend_models_applies_backend_filter_and_keeps_ties_in_order() {
    let machine = machine_specs(Some(180), 2560);
    let mut no_tgi = model_entry("provider/no-tgi", 70, 80, 60, 40);
    no_tgi.supports_tgi = false;
    let first = model_entry("provider/first", 70, 80, 60, 40);
    let second = model_entry("provider/second", 70, 80, 60, 40);
    let catalog = ModelCatalog {
        models: vec![first, no_tgi, second],
    };
    let recs = RecommendationEngine::recommend_models(&machine, &catalog, Some("TGI"));
    let ids: Vec<&str> = recs.iter().map(|r| r.model.id.as_str()).collect();
    assert_eq!(ids, vec!["provider/first", "provider/second"]);
    assert_eq!(PreferredBackend::Vllm.as_str(), Some("vllm"));
    assert_eq!(PreferredBackend::NoBackend.as_str(), None);
    assert_eq!(PreferredBackend::Tgi.display_name(), "TGI");
}

fn mib_machine(vram_mib: u64, ram_total_mib: u64) -> MachineSpecs {
    let mut m = machine_specs(Some(0), 0);
    m.gpu.as_mut().unwrap().vram_mib = vram_mib;
    m.ram_total_mib = ram_total_mib;
    m
}

#[test]
fn a_card_reporting_24564_mib_just_fits_a_22_gb_target() {
    // 24564 MiB is 23.988 GB: below 22 + 2 GB of headroom, above 22 GB.
    let model = model_entry("org/m", 100, 220, 140, 90);
    let (status, why) = RecommendationEngine::evaluate_fit(&mib_machine(24564, 65536), &model);
    assert_eq!(status, FitStatus::Fits);
    assert_eq!(why, "VRAM 24.0 GB fits FP16 minimum (22.0 GB).");
    let (status, _) = RecommendationEngine::evaluate_fit(&mib_machine(24576, 65536), &model);
    assert_eq!(status, FitStatus::Easy);
}

#[test]
fn ram_just_under_the_need_plus_a_tenth_downgrades() {
    // An 8B model needs 16 GB; 15.88 GB + 0.1 is still short, 15.95 GB + 0.1 is not.
    let model = model_entry("org/m", 80, 180, 110, 70);
    let (short, _) = RecommendationEngine::evaluate_fit(&mib_machine(24576, 16261), &model);
    assert_eq!(short, FitStatus::Fits);
    let (enough, _) = RecommendationEngine::evaluate_fit(&mib_machine(24576, 16333), &model);
    assert_eq!(enough, FitStatus::Easy);
}

#[test]
fn memory_is_printed_like_the_exact_gigabytes_to_one_decimal() {
    assert_eq!(gaia::machine::format_gb(24564), "24.0");
    assert_eq!(gaia::machine::format_gb(66048), "64.5");
    // 256 MiB is exactly 0.25 GB: the tie goes to the even tenth.
    assert_eq!(gaia::machine::format_gb(256), "0.2");
    assert_eq!(gaia::machine::format_gb(768), "0.8");
}
