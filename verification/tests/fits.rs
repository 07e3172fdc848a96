//! How variants fit, and how a context does.
use llm_panel::context_fit::{
    advice_text, analyze_llama_context, analyze_vllm_context, effective_gpu_mem_util,
    llama_kv_bytes_per_token, vram_context_for_budget, warning_text, ContextFitReport,
    ContextFitStatus, LlamaFitInput, VllmFitInput, MIB, PARTS_PER_BYTE,
};
use llm_panel::fit::{
    best_variant, compare_variant_fit, rank_variants, score_variant, FitVerdict, FormatSupport,
    HardwareProfile, ModelArchInfo, VariantInput,
};

fn hw(name: &str, vram: u64, bandwidth: u32) -> HardwareProfile {
    HardwareProfile {
        gpu_name: name.to_string(),
        vram_total_mb: vram,
        bandwidth_gbs: bandwidth,
        bandwidth_known: true,
        ram_total_mb: 0,
        ram_usable_mb: 0,
        ram_potential_mb: 0,
        ram_bandwidth_gbs: 65,
    }
}

fn hw_12gb() -> HardwareProfile {
    hw("NVIDIA GeForce RTX 5070 Ti Laptop GPU", 12227, 672)
}

fn arch(params_m: u64, layers: usize, heads: usize, dim: usize) -> ModelArchInfo {
    ModelArchInfo {
        params_m: Some(params_m),
        context: 32768,
        n_layers: Some(layers),
        n_kv_heads: Some(heads),
        head_dim: Some(dim),
    }
}

fn arch_0_5b() -> ModelArchInfo {
    arch(494, 24, 2, 64)
}

fn arch_7b() -> ModelArchInfo {
    arch(7_600, 32, 8, 128)
}

fn arch_14b() -> ModelArchInfo {
    arch(14_700, 40, 8, 128)
}

fn variant(quant: &str, is_gguf: bool) -> VariantInput {
    VariantInput { quant_str: quant.to_string(), weight_bytes: None, params_m: None, is_gguf }
}

fn variant_gguf_sized(quant: &str, size: u64) -> VariantInput {
    VariantInput {
        quant_str: quant.to_string(),
        weight_bytes: Some(size),
        params_m: None,
        is_gguf: true,
    }
}

#[test]
fn test_comfortable_small_model() {
    let r = score_variant(&hw_12gb(), &variant("fp16", false), &arch_0_5b(), None);
    assert_eq!(r.verdict, FitVerdict::Comfortable);
    assert!(r.score > 70, "score = {}", r.score);
    assert_eq!(r.format_support, FormatSupport::Native);
    assert!(r.usable_context > 0);
}

#[test]
fn test_doesnt_fit_7b_fp16() {
    let r = score_variant(&hw_12gb(), &variant("fp16", false), &arch_7b(), None);
    assert_eq!(r.verdict, FitVerdict::DoesNotFit);
    assert_eq!(r.reason, "Does not fit — needs ~17.6 GB but GPU has 11.9 GB VRAM.");
}

#[test]
fn seven_billion_in_four_bits_are_comfortable() {
    // Weights of 4.18 GiB and an overhead of 2.44 GiB take 55 hundredths of the card.
    let r = score_variant(&hw_12gb(), &variant("awq", false), &arch_7b(), None);
    assert_eq!(r.vram_pct, 55);
    assert_eq!(r.verdict, FitVerdict::Comfortable);
}

#[test]
fn test_doesnt_fit_14b_fp16() {
    let r = score_variant(&hw_12gb(), &variant("fp16", false), &arch_14b(), None);
    assert_eq!(r.verdict, FitVerdict::DoesNotFit);
    assert!(r.score <= 25, "score = {} (should be crushed)", r.score);
}

#[test]
fn test_gguf_uses_exact_weight() {
    // A GGUF file of 4.5 GB = 4_831_838_208 bytes
    let v = variant_gguf_sized("gguf", 4_831_838_208);
    let r = score_variant(&hw_12gb(), &v, &arch_7b(), None);
    assert_eq!(r.verdict, FitVerdict::Comfortable);
    assert_eq!(r.format_support, FormatSupport::Experimental);
    assert!(r.usable_context > 0, "GGUF comfortable fit must have positive usable context");
    assert_eq!(r.weight, 4_831_838_208 * PARTS_PER_BYTE);
}

#[test]
fn test_gguf_usable_context_non_zero() {
    let v = variant_gguf_sized("gguf", 4_831_838_208);
    let r = score_variant(&hw_12gb(), &v, &arch_7b(), None);
    assert_eq!(r.verdict, FitVerdict::Comfortable);
    assert!(r.usable_context > 0);
}

#[test]
fn test_context_display_sub_1000() {
    let v = variant_gguf_sized("gguf", 9_073_000_000); // ~8.45 GB
    let r = score_variant(&hw_12gb(), &v, &arch_7b(), None);
    assert_eq!(r.verdict, FitVerdict::Constrained);
    assert!(r.usable_context < 1000);
    assert!(r.usable_context >= 512);
    assert!(r.reason.contains(&format!("{} tokens", r.usable_context)));
    assert!(!r.reason.contains("0k"));
}

#[test]
fn measured_speed_counts_before_the_estimate() {
    let hw = hw_12gb();
    let v = variant("awq", false);
    let arch = arch_7b();
    let r_est = score_variant(&hw, &v, &arch, None);
    let r_faster = score_variant(&hw, &v, &arch, Some(80_000_000));
    let r_slower = score_variant(&hw, &v, &arch, Some(10_000_000));
    assert_eq!(r_faster.measured_tok_s, Some(80_000_000));
    assert!(r_faster.est_tok_s.is_some());
    assert_eq!(r_est.est_tok_s, Some(80_382_775));
    assert_eq!(r_faster.score, r_est.score);
    assert!(r_est.score > r_slower.score);
    assert_eq!(r_slower.est_tok_s, r_est.est_tok_s);
}

#[test]
fn measured_speed_makes_the_bandwidth_irrelevant() {
    let slow_card = hw("one", 12227, 100);
    let fast_card = hw("two", 12227, 2000);
    let a = score_variant(&slow_card, &variant("awq", false), &arch_7b(), Some(5_000_000));
    let b = score_variant(&fast_card, &variant("awq", false), &arch_7b(), Some(5_000_000));
    assert_eq!(a.score, b.score);
    assert_ne!(a.est_tok_s, b.est_tok_s);
}

#[test]
fn test_rank_variants_native_before_gguf() {
    let hw = hw_12gb();
    let arch = arch_0_5b();
    let v_fp16 = variant("fp16", false);
    let v_gguf = variant_gguf_sized("gguf", 500_000_000);
    let r_fp16 = score_variant(&hw, &v_fp16, &arch, None);
    let r_gguf = score_variant(&hw, &v_gguf, &arch, None);
    let mut results = vec![(v_gguf, r_gguf), (v_fp16, r_fp16)];
    rank_variants(&mut results);
    assert!(!results[0].0.is_gguf, "Native should rank first");
}

#[test]
fn test_compare_variant_fit() {
    let v_native = variant("fp16", false);
    let v_gguf = variant("gguf", true);
    let mut r1 = score_variant(&hw_12gb(), &v_native, &arch_0_5b(), None);
    let mut r2 = score_variant(&hw_12gb(), &v_gguf, &arch_0_5b(), None);
    // Higher score comes first
    r1.score = 90;
    r2.score = 80;
    assert_eq!(
        compare_variant_fit((&v_native, &r1), (&v_gguf, &r2)),
        std::cmp::Ordering::Less
    );
    // Equal score: native before gguf
    r2.score = 90;
    assert_eq!(
        compare_variant_fit((&v_native, &r1), (&v_gguf, &r2)),
        std::cmp::Ordering::Less
    );
    assert_eq!(
        compare_variant_fit((&v_gguf, &r2), (&v_native, &r1)),
        std::cmp::Ordering::Greater
    );
}

#[test]
fn test_best_variant_preferred_format() {
    let hw = hw_12gb();
    let arch = arch_0_5b();
    let v_fp16 = variant("fp16", false);
    let v_fp8 = variant("fp8", false);
    let r_fp16 = score_variant(&hw, &v_fp16, &arch, None);
    let r_fp8 = score_variant(&hw, &v_fp8, &arch, None);
    let results = vec![(v_fp16, r_fp16), (v_fp8, r_fp8)];
    let idx = best_variant(&results, None);
    assert!(idx < results.len());
    let idx_pref = best_variant(&results, Some("fp8"));
    assert_eq!(results[idx_pref].0.quant_str, "fp8");
}

#[test]
fn test_gguf_usable_context_with_missing_dims() {
    let hw = hw("RTX 4090", 24576, 1008);
    // Arch with missing layer dims but known params
    let arch = ModelArchInfo {
        params_m: Some(27_000),
        context: 131072,
        n_layers: None,
        n_kv_heads: None,
        head_dim: None,
    };
    let v_gguf = VariantInput {
        quant_str: "q4_k_m".to_string(),
        weight_bytes: Some(16_000_000_000), // ~14.9 GB
        params_m: Some(27_000),
        is_gguf: true,
    };
    let res = score_variant(&hw, &v_gguf, &arch, None);
    assert!(res.usable_context > 0, "usable context should not be 0");
    assert!(res.est_tok_s.is_some(), "est speed should be present");
    assert!(res.est_tok_s.unwrap() > 10_000_000, "est speed should be reasonable");
}

fn bytes_of_gib(n: f64) -> Option<u64> {
    Some((n * 1024.0 * 1024.0 * 1024.0) as u64)
}

fn qwen_vllm(requested_context: usize) -> VllmFitInput {
    VllmFitInput {
        model_id: "Qwen/Qwen2.5-Coder-7B-Instruct-GPTQ-Int4".to_string(),
        requested_context,
        native_context: Some(32_768),
        context_estimated: false,
        weight_bytes: bytes_of_gib(5.27),
        weight_source: "local_cache".to_string(),
        n_layers: Some(28),
        n_kv_heads: Some(4),
        head_dim: Some(128),
        kv_cache_dtype: "auto".to_string(),
        vram_total_mb: Some(12_227),
        vram_free_mb: Some(12_200),
        ram_total_mb: Some(23_000),
        ram_available_mb: Some(22_000),
        gpu_mem_util: 8_500,
        vram_overhead_bytes: 2_500 * 1024 * 1024,
        max_context_cap: None,
        ram_overflow_enabled: true,
        manual_ram_limit_mb: None,
        safety_reserve_mb: 4_096,
        cpu_offload_gb: 0,
        kv_offload_gb: 0,
    }
}

fn vllm(input: &VllmFitInput) -> ContextFitReport {
    analyze_vllm_context(input)
}

fn max_vram(r: &ContextFitReport) -> usize {
    r.figures.as_ref().map(|f| f.max_vram_context).unwrap_or_default()
}

fn no_overflow(r: &ContextFitReport) -> usize {
    r.figures.as_ref().map(|f| f.max_context_no_overflow).unwrap_or_default()
}

fn with_overflow(r: &ContextFitReport) -> usize {
    r.figures.as_ref().map(|f| f.max_context_with_overflow).unwrap_or_default()
}

fn overflow_enabled(r: &ContextFitReport) -> bool {
    r.figures.as_ref().map(|f| f.overflow_enabled).unwrap_or_default()
}

fn warnings(r: &ContextFitReport) -> Vec<String> {
    r.warnings.iter().map(|w| warning_text(*w, "auto")).collect()
}

#[test]
fn vllm_qwen_32k_fits_fp16_kv() {
    let report = vllm(&qwen_vllm(32_768));
    assert_eq!(report.decision.status, ContextFitStatus::Fits);
    assert!(report.decision.fits);
    assert!(max_vram(&report) >= 32_768);
    assert!(report.figures.map(|f| f.vram_headroom).unwrap_or_default() > 0);
}

#[test]
fn vllm_over_native_context_does_not_fit_even_with_memory() {
    let mut input = qwen_vllm(65_536);
    input.native_context = Some(32_768);
    let report = vllm(&input);
    assert_eq!(report.decision.status, ContextFitStatus::DoesNotFit);
    assert!(!report.decision.fits);
    assert!(warnings(&report).iter().any(|w| w.contains("native")));
}

#[test]
fn vllm_recommends_fp8_for_oversized_context() {
    let mut input = qwen_vllm(65_536);
    input.native_context = Some(131_072);
    let report = vllm(&input);
    assert_eq!(report.decision.status, ContextFitStatus::DoesNotFit);
    assert!(report.decision.recommend_fp8);
    assert!(report.decision.recommended_context.unwrap_or_default() >= 32_768);
    assert!(!advice_text(report.decision.advice).is_empty());
}

#[test]
fn vllm_reports_no_overflow_and_potential_overflow_limits() {
    let mut input = qwen_vllm(32_768);
    input.vram_free_mb = Some(9_700);
    input.kv_offload_gb = 0;
    let report = vllm(&input);
    assert!(no_overflow(&report) < 32_768);
    assert!(with_overflow(&report) >= 32_768);
    assert!(!overflow_enabled(&report));
    assert!(
        report.figures.and_then(|f| f.overflow_required_gb).unwrap_or_default() > 0
    );
}

#[test]
fn vllm_configured_kv_offload_enables_overflow_mode() {
    let mut input = qwen_vllm(32_768);
    input.vram_free_mb = Some(9_700);
    input.kv_offload_gb = 4;
    let report = vllm(&input);
    assert!(overflow_enabled(&report));
    assert_eq!(report.decision.status, ContextFitStatus::FitsWithCpu);
    assert!(report.decision.fits);
}

#[test]
fn vllm_current_vram_pressure_is_reported_as_tight() {
    let mut input = qwen_vllm(32_768);
    input.vram_free_mb = Some(9_700);
    let report = vllm(&input);
    assert_eq!(report.decision.status, ContextFitStatus::Tight);
    assert!(!report.decision.fits);
    assert!(report.decision.recommended_context.unwrap_or_default() < 32_768);
}

#[test]
fn vllm_missing_dimensions_is_unknown_not_a_false_pass() {
    let mut input = qwen_vllm(32_768);
    input.n_layers = None;
    let report = vllm(&input);
    assert_eq!(report.decision.status, ContextFitStatus::Unknown);
    assert!(!report.decision.fits);
}

#[test]
fn gpu_utilization_uses_runtime_free_vram_clamp() {
    let effective = effective_gpu_mem_util(8_500, 12_227, Some(8_000)) as f64 / 10_000.0;
    assert!((effective - 0.54).abs() < 0.011);
    assert!(effective < 0.85);
}

#[test]
fn free_memory_is_divided_in_double_precision() {
    // 5700 of 10000, a hundredfold, is 56.99999999999999 in double precision.
    assert_eq!((5_700.0f64 / 10_000.0 * 100.0).floor(), 56.0);
    assert_eq!(effective_gpu_mem_util(9_000, 10_000, Some(7_100)), 5_600);
    for (total, free) in [(10_000, 7_000), (12_227, 8_000), (24_576, 9_999), (16_376, 5_317)] {
        let share = ((free as f64 - 1_400.0) / total as f64 * 100.0).floor() as u32;
        assert_eq!(effective_gpu_mem_util(9_500, total, Some(free)), share * 100);
    }
    assert_eq!(effective_gpu_mem_util(9_500, 10_000, Some(1)), 1_000);
    assert_eq!(effective_gpu_mem_util(9_500, 10_000, Some(0)), 8_600);
    assert_eq!(effective_gpu_mem_util(9_500, 16_000, Some(90_000)), 9_000);
    assert_eq!(effective_gpu_mem_util(500, 24_576, None), 1_000);
}

#[test]
fn contexts_beyond_any_machine_are_reported_too() {
    let mut input = qwen_vllm(usize::MAX);
    input.native_context = None;
    input.n_layers = Some(usize::MAX);
    input.n_kv_heads = Some(usize::MAX);
    input.head_dim = Some(usize::MAX);
    let report = vllm(&input);
    assert!(!report.decision.fits);
    assert_eq!(max_vram(&report), 0);
    let mut input = ternary_llama("q8_0", "q8_0");
    input.requested_context = usize::MAX;
    input.native_context = Some(usize::MAX);
    input.n_layers = Some(1 << 40);
    input.n_gpu_layers = Some(1 << 39);
    let report = analyze_llama_context(&input);
    assert!(!report.decision.fits);
    assert_ne!(report.decision.status, ContextFitStatus::Unknown);
}

#[test]
fn variants_of_equal_rank_stay_in_order() {
    let hw = hw_12gb();
    let arch = arch_0_5b();
    let mut results: Vec<_> = ["one", "two", "three"]
        .iter()
        .map(|quant| {
            let mut fit = score_variant(&hw, &variant("fp16", false), &arch, None);
            fit.score = 50;
            (variant(quant, false), fit)
        })
        .collect();
    results[1].1.score = 60;
    rank_variants(&mut results);
    let names: Vec<&str> = results.iter().map(|r| r.0.quant_str.as_str()).collect();
    assert_eq!(names, vec!["two", "one", "three"]);
}

#[test]
fn context_math_does_not_floor_a_tiny_budget_to_512() {
    assert_eq!(vram_context_for_budget(MIB, 57_344 * PARTS_PER_BYTE), 18);
}

fn ternary_llama(cache_k: &str, cache_v: &str) -> LlamaFitInput {
    LlamaFitInput {
        model_id: "Ternary-Bonsai-80B-PQ2_0.gguf".to_string(),
        requested_context: 32_768,
        native_context: Some(131_072),
        weight_bytes: bytes_of_gib(8.0),
        n_layers: Some(64),
        n_kv_heads: Some(8),
        key_head_dim: Some(128),
        value_head_dim: Some(128),
        cache_type_k: cache_k.to_string(),
        cache_type_v: cache_v.to_string(),
        flash_attn: true,
        n_gpu_layers: Some(99),
        n_cpu_moe: Some(24),
        fit: true,
        fit_target_bytes: 1_024 * 1024 * 1024,
        no_kv_offload: false,
        vram_total_mb: Some(12_227),
        vram_free_mb: Some(12_200),
        ram_total_mb: Some(32_000),
        ram_available_mb: Some(24_000),
        vram_overhead_bytes: 1_024 * 1024 * 1024,
    }
}

fn llama(cache_k: &str, cache_v: &str) -> ContextFitReport {
    let input = ternary_llama(cache_k, cache_v);
    analyze_llama_context(&input)
}

#[test]
fn llama_q8_cache_recommends_lower_context_for_large_model() {
    let report = llama("q8_0", "q8_0");
    assert_eq!(report.decision.status, ContextFitStatus::DoesNotFit);
    assert!(report.decision.recommended_context.unwrap_or_default() < 32_768);
    assert!(max_vram(&report) > 0);
}

#[test]
fn llama_reports_no_overflow_and_cpu_kv_overflow_limits() {
    let report = llama("q8_0", "q8_0");
    assert!(no_overflow(&report) < 32_768);
    assert!(with_overflow(&report) >= 32_768);
    assert!(!overflow_enabled(&report));
    assert_eq!(report.overflow_label, "CPU KV cache");
}

#[test]
fn llama_cache_grows_by_its_elements() {
    // 64 layers of 8 heads, with 128 elements of a key and of a value each.
    let elements = 64 * 8 * 128;
    let f16 = llama_kv_bytes_per_token(&ternary_llama("f16", "f16"));
    assert_eq!(f16, Some(2 * elements * 2 * PARTS_PER_BYTE));
    let q8 = llama_kv_bytes_per_token(&ternary_llama("q8_0", "q8_0"));
    assert_eq!(q8, Some(2 * elements * 272));
    assert_eq!(llama_kv_bytes_per_token(&ternary_llama("mystery", "q8_0")), None);
    let mut input = ternary_llama("q8_0", "q8_0");
    input.key_head_dim = None;
    assert_eq!(llama_kv_bytes_per_token(&input), None);
}

#[test]
fn llama_q4_cache_increases_context_headroom() {
    let q8 = llama("q8_0", "q8_0");
    let q4 = llama("q4_0", "q4_0");
    assert!(max_vram(&q4) > max_vram(&q8));
}

#[test]
fn llama_unknown_cache_type_is_unknown() {
    let report = llama("mystery", "q8_0");
    assert_eq!(report.decision.status, ContextFitStatus::Unknown);
    assert!(warnings(&report).iter().any(|w| w.contains("cache")));
}
