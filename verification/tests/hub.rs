//! The model hub: names, variants and downloads.
use llm_panel::estimate::{ContextSource, IndexedWeights};
use llm_panel::hf::{
    bearer_header, cache_is_fresh, check_gguf_repo, clean_model_query, collect_search,
    config_candidates, context_source_label, discover_quant_variants, extract_base_name, format_from_repo_suffix,
    gguf_repo_files, is_exact_query, kept_or_fetch, millions, parse_gguf_quant_label, variant_plan,
    ContextChoice, EnrichedStats, ParamsCount, QuantFormat, QuantVariant, Shelf, VariantPlan,
    CACHE_SECONDS, PARTS_OF_A_SECOND,
};
use llm_panel::json;
use llm_panel::json::{Json, JsonNumber};
use llm_panel::numeral::Decimal;
use llm_panel::pull::{
    drop_nulls, parse_progress_line, pull_outcome, pull_script, pull_status, token_ok,
    PullOutcome, PullRegistry,
};

fn list(text: &str) -> Vec<Json> {
    match json::parse(text.as_bytes()) {
        Some(Json::Array(items)) => items,
        _ => panic!("not a list"),
    }
}

#[test]
fn test_apply_auth_header() {
    assert_eq!(bearer_header(Some("hf_test123")).as_deref(), Some("Bearer hf_test123"));
    assert!(bearer_header(None).is_none());
}

#[test]
fn test_enrich_cache_miss_expired_ttl() {
    let is_hit = cache_is_fresh(3605);
    assert!(!is_hit, "Expired cache entry (>3600s) should not count as a cache hit");
    assert!(cache_is_fresh(CACHE_SECONDS - 1));
    assert!(!cache_is_fresh(CACHE_SECONDS));
}

fn dummy_stats() -> EnrichedStats {
    EnrichedStats {
        params: Some(ParamsCount::Count(3_500_000_000)),
        context: ContextChoice { tokens: 8192, source: ContextSource::Config, estimated: false },
        head_dim: Some(64),
        n_layers: Some(32),
        n_kv_heads: Some(8),
        torch_dtype: Some("bfloat16".to_string()),
    }
}

#[test]
fn test_enrich_cache_hit_returns_cached_without_network() {
    let mut cache = Shelf::new();
    cache.keep("dummy/model", dummy_stats(), 7);

    let res = cache.kept("dummy/model", 7);
    assert!(res.is_some());
    let s = res.unwrap();
    assert_eq!(s.context.tokens, 8192);
    assert_eq!(s.params, Some(ParamsCount::Count(3_500_000_000)));
}

#[test]
fn test_quant_cache_hit_returns_cached_without_network() {
    let mut cache = Shelf::new();
    let dummy_quants = vec![QuantVariant {
        repo_id: "test/model-AWQ".to_string(),
        format: QuantFormat::AWQ,
        label: "AWQ".to_string(),
        weight_bytes: Some(4_000_000_000),
        params_m: Some(7_000),
        gguf_file: None,
        vllm_native: true,
    }];
    cache.keep("test/model", dummy_quants, 7);

    let res = cache.kept("test/model", 7).unwrap();
    assert_eq!(res.len(), 1);
    assert_eq!(res[0].label, "AWQ");
}

#[test]
fn sources_of_a_context_are_told() {
    assert_eq!(context_source_label(dummy_stats().context.source), "config.json");
    assert_eq!(context_source_label(ContextSource::Family), "family default");
    assert_eq!(context_source_label(ContextSource::Default), "generic default");
}

#[test]
fn parameters_are_counted_in_millions() {
    let indexed = IndexedWeights { total_bytes: 15_200_000_001, bytes_per_param: 2 };
    assert_eq!(millions(ParamsCount::Count(494_032_768)), 494);
    assert_eq!(millions(ParamsCount::Indexed(indexed)), 7_600);
    assert_eq!(millions(ParamsCount::Named(Decimal { mantissa: 35, scale: 1 })), 3_500);
    assert_eq!(millions(ParamsCount::Count(u128::MAX)), u64::MAX);
}

#[test]
fn answers_are_kept_for_an_hour() {
    let hour = CACHE_SECONDS * PARTS_OF_A_SECOND;
    let mut shelf = Shelf::new();
    shelf.keep("a", 1, 10);
    shelf.keep("b", 2, 20);
    assert_eq!(shelf.kept("a", hour + 9), Some(&1));
    assert_eq!(shelf.kept("a", hour + 10), None);
    assert_eq!(shelf.kept("b", hour + 10), Some(&2));
    assert_eq!(shelf.kept("c", 0), None);
    // A newer answer takes the place of the older one, and of no other.
    shelf.keep("a", 3, hour);
    assert_eq!(shelf.kept("a", hour + 10), Some(&3));
    assert_eq!(shelf.kept("b", hour + 10), Some(&2));
    assert_eq!(kept_or_fetch(Some((5, CACHE_SECONDS - 1))), Some(5));
    assert_eq!(kept_or_fetch(Some((5, CACHE_SECONDS))), None);
    assert_eq!(kept_or_fetch::<u8>(None), None);
}

#[test]
fn test_parse_gguf_quant_label() {
    assert_eq!(parse_gguf_quant_label("model-Q4_K_M.gguf"), Some("Q4_K_M".to_string()));
    assert_eq!(
        parse_gguf_quant_label("Qwen2.5-7B-Instruct-Q8_0.gguf"),
        Some("Q8_0".to_string())
    );
    assert_eq!(parse_gguf_quant_label("model-Q4_1.gguf"), Some("Q4_1".to_string()));
    assert_eq!(parse_gguf_quant_label("model-Q5_1.gguf"), Some("Q5_1".to_string()));
    assert_eq!(parse_gguf_quant_label("model-IQ4_NL.gguf"), Some("IQ4_NL".to_string()));
    assert_eq!(
        parse_gguf_quant_label("model-UD-Q4_K_XL.gguf"),
        Some("UD-Q4_K_XL".to_string())
    );
    assert_eq!(
        parse_gguf_quant_label("model-Q3_K_S-00001-of-00003.gguf"),
        Some("Q3_K_S".to_string())
    );
    assert_eq!(
        parse_gguf_quant_label("BF16/Qwen3.8-Flash-Next-BF16-00001-of-00008.gguf"),
        Some("BF16".to_string())
    );
    assert_eq!(parse_gguf_quant_label("model.safetensors"), None);
    assert_eq!(parse_gguf_quant_label("README.md"), None);
    assert_eq!(parse_gguf_quant_label("model.gguf"), None);
    assert_eq!(parse_gguf_quant_label("model-Q5_K_M.gguf"), Some("Q5_K_M".to_string()));
    assert_eq!(parse_gguf_quant_label("model-IQ2_XXS.gguf"), Some("IQ2_XXS".to_string()));

    // MTP helper files should be excluded
    assert_eq!(parse_gguf_quant_label("MTP/mtp-Qwen3.8-Flash-Next-Q4_K_M.gguf"), None);
    assert_eq!(parse_gguf_quant_label("MTP/mtp-Qwen3.8-Flash-Next-BF16.gguf"), None);
    assert_eq!(parse_gguf_quant_label("MTP/mtp-Qwen3.8-Flash-Next-shared-Q8_0.gguf"), None);
    assert_eq!(parse_gguf_quant_label("mtp-Qwen3.8-27B-Q4_0.gguf"), None);

    // Vision projectors and imatrix should be excluded
    assert_eq!(parse_gguf_quant_label("mmproj-BF16.gguf"), None);
    assert_eq!(parse_gguf_quant_label("mmproj-F16.gguf"), None);
    assert_eq!(parse_gguf_quant_label("imatrix_unsloth.gguf"), None);
}

#[test]
fn test_extract_base_model_name() {
    assert_eq!(extract_base_name("Qwen/Qwen2.5-7B-Instruct"), "Qwen2.5-7B-Instruct");
    assert_eq!(
        extract_base_name("meta-llama/Meta-Llama-3.1-8B-Instruct"),
        "Meta-Llama-3.1-8B-Instruct"
    );
    assert_eq!(extract_base_name("gpt2"), "gpt2");
}

#[test]
fn test_quant_format_from_repo_id() {
    assert_eq!(format_from_repo_suffix("Qwen2.5-7B-Instruct-AWQ"), Some(QuantFormat::AWQ));
    assert_eq!(format_from_repo_suffix("Qwen2.5-7B-Instruct-AWQ-INT4"), Some(QuantFormat::AWQ));
    assert_eq!(format_from_repo_suffix("Meta-Llama-3-8B-awq_int4"), Some(QuantFormat::AWQ));
    assert_eq!(
        format_from_repo_suffix("Qwen2.5-7B-Instruct-GPTQ-Int4"),
        Some(QuantFormat::GPTQ)
    );
    assert_eq!(format_from_repo_suffix("Qwen2.5-7B-Instruct-FP8"), Some(QuantFormat::FP8));
    assert_eq!(
        format_from_repo_suffix("Qwen2.5-7B-Instruct-FP8-dynamic"),
        Some(QuantFormat::FP8)
    );
    assert_eq!(format_from_repo_suffix("Qwen2.5-7B-Instruct-bnb-4bit"), Some(QuantFormat::BNB));
    // GGUF is found through the files of a repository.
    assert_eq!(format_from_repo_suffix("Qwen2.5-7B-Instruct-GGUF"), None);
    assert_eq!(format_from_repo_suffix("Qwen2.5-7B-Instruct"), None);
}

#[test]
fn test_clean_model_query() {
    assert_eq!(
        clean_model_query("https://huggingface.co/unsloth/Qwen3.8-27B-GGUF"),
        "unsloth/Qwen3.8-27B-GGUF"
    );
    assert_eq!(
        clean_model_query("https://huggingface.co/unsloth/Qwen3.8-27B-GGUF/tree/main"),
        "unsloth/Qwen3.8-27B-GGUF"
    );
    assert_eq!(
        clean_model_query("huggingface.co/bartowski/Meta-Llama-3.1-8B-Instruct-GGUF/"),
        "bartowski/Meta-Llama-3.1-8B-Instruct-GGUF"
    );
    assert_eq!(
        clean_model_query("  unsloth/Qwen3.8-27B-GGUF?not-real=1  "),
        "unsloth/Qwen3.8-27B-GGUF"
    );
    assert_eq!(clean_model_query("Qwen2.5"), "Qwen2.5");
}

#[test]
fn test_pull_cancellation_map() {
    let mut pulling = PullRegistry::new();
    assert!(pulling.begin("test/model").is_ok());
    assert!(pulling.contains("test/model"));
    assert!(pulling.begin("test/model").is_err());
    assert_eq!(pull_status(&pulling).pulling, vec!["test/model"]);
    assert!(pulling.end("test/model"));
    assert!(!pulling.contains("test/model"));
    assert!(!pulling.end("test/model"));
}

#[test]
fn searches_list_each_model_once() {
    assert!(is_exact_query("org/name"));
    assert!(!is_exact_query("name"));
    let exact = json::parse(br#"{"id":"org/a","downloads":5,"trendingScore":1.5}"#).unwrap();
    let found = collect_search(
        Some(&exact),
        &list(r#"[{"id":"org/a"},{"id":"org/b","likes":2},{"id":"org/b"},{"id":""},{}]"#),
    );
    let ids: Vec<&str> = found.iter().map(|m| m.id.as_str()).collect();
    assert_eq!(ids, vec!["org/a", "org/b"]);
    assert_eq!(found[0].downloads, 5);
    assert_eq!(found[0].trending_score, JsonNumber::Float(1.5f64.to_bits()));
    assert_eq!(found[1].trending_score, JsonNumber::Unsigned(0));
    assert_eq!(found[1].likes, 2);
}

#[test]
fn files_of_a_repository_are_grouped_by_label() {
    let files = list(
        r#"[{"rfilename":"m-Q8_0.gguf","size":9},{"rfilename":"m-Q4_K_M-00001-of-00002.gguf","size":3},
            {"rfilename":"m-Q4_K_M-00002-of-00002.gguf","size":4},{"rfilename":"mmproj-F16.gguf","size":1},
            {"rfilename":"README.md"}]"#,
    );
    let variants = check_gguf_repo("org/m-GGUF", &files);
    let labels: Vec<&str> = variants.iter().map(|v| v.label.as_str()).collect();
    assert_eq!(labels, vec!["Q4_K_M", "Q8_0"]);
    assert_eq!(variants[0].weight_bytes, Some(7));
    assert_eq!(variants[0].gguf_file.as_deref(), Some("m-Q4_K_M-00001-of-00002.gguf"));
    let entries = list(
        r#"[{"type":"file","path":"mmproj-F16.gguf","size":2},{"type":"file","path":"a.gguf","size":3},
            {"type":"file","path":"b.txt"},{"size":4}]"#,
    );
    let files = gguf_repo_files(&entries);
    assert_eq!(files.len(), 2);
    assert!(files.iter().any(|f| f.path == "mmproj-F16.gguf" && f.is_mmproj));
}

#[test]
fn plans_follow_the_name() {
    assert!(matches!(variant_plan("org/m-AWQ"), VariantPlan::Known(v) if v.format == QuantFormat::AWQ));
    assert!(matches!(variant_plan("org/m-GGUF"), VariantPlan::GgufRepo(r) if r == "org/m-GGUF"));
    match variant_plan("org/m") {
        VariantPlan::Search { candidates, .. } => assert!(!candidates.is_empty()),
        _ => panic!("other variants have to be searched for"),
    }
    let gguf = vec![QuantVariant {
        repo_id: "x/m-GGUF".to_string(),
        format: QuantFormat::GGUF,
        label: "Q8_0".to_string(),
        weight_bytes: None,
        params_m: None,
        gguf_file: Some("m-Q8_0.gguf".to_string()),
        vllm_native: false,
    }];
    let found = discover_quant_variants("org/m", &vec![Some("x/m-AWQ".to_string()), None], gguf);
    assert!(found.iter().any(|v| v.format == QuantFormat::AWQ && v.repo_id == "x/m-AWQ"));
    assert!(found.iter().any(|v| v.label == "Q8_0"));
    assert_eq!(config_candidates("org/m-GGUF"), vec!["org/m", "m"]);
}

#[test]
fn download_progress_is_read() {
    let p = parse_progress_line("model: 45.5%|####| 1.2G/2.6G [00:10<01:30, 12.5MB/s]").unwrap();
    assert_eq!(p.percent, "45.5");
    assert_eq!(p.eta_seconds, Some(90));
    assert!(parse_progress_line("nothing to see").is_none());
}

#[test]
fn downloads_end_well_or_with_a_message() {
    assert!(matches!(pull_outcome(true, "done", ""), PullOutcome::Complete));
    assert!(matches!(pull_outcome(false, "", "no space"), PullOutcome::Failed(m) if m.contains("no space")));
    assert_eq!(drop_nulls("a\0b"), "ab");
    assert!(token_ok("hf_abc"));
    assert!(!token_ok("hf abc; rm"));
    assert!(pull_script("~/venv", "", None, false, "org/m").contains("org/m"));
}
