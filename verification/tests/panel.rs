//! The panel: settings, memory, servers, the library and its scripts.
use llm_panel::catalog::{process_models_with_fit, score_model, FoundModel, KnownModel};
use llm_panel::env::{
    autostart_get, check_url, get_server_metrics_series, ServerMetricPoint, AUTOSTART_NAME,
};
use llm_panel::estimate::{tokens_per_sec, ContextSource};
use llm_panel::fit::FitVerdict;
use llm_panel::hf::{HfModel, QuantFormat, QuantVariant, HF_API};
use llm_panel::json;
use llm_panel::json::{Json, JsonNumber};
use llm_panel::library::{should_scan_hf_cache_fs, LibraryEntry};
use llm_panel::library_change::validate_imported_wsl_path;
use llm_panel::memory::{
    fallback_hardware_profile, get_memory_settings_impl, get_system_memory_impl,
    hardware_profile, update_memory_settings_impl, use_recommendations, GpuSnapshot,
    MemorySettings, MemoryState, Recommendations,
};
use llm_panel::numeral::Decimal;
use llm_panel::scripts::{
    cancel_script, compose_hf_cache_fs_scan_script, compose_hf_cache_model_exists_script,
    compose_hf_cache_scan_script, compose_library_remove_script, model_dir,
};
use llm_panel::servers::{validate_server_id, OptionalField, ServerStats};
use llm_panel::settings::check_recipe;
use llm_panel::tools::{classify_tool_call_response, tool_hint, ToolVerdict};

fn doc(text: &str) -> Json {
    json::parse(text.as_bytes()).expect("a document")
}

#[test]
fn tool_call_response_length_is_not_reported_as_template_failure() {
    let text = r#"{
        "choices": [{
            "finish_reason": "length",
            "message": {
                "content": "",
                "reasoning_content": "I should inspect the available tools before calling one."
            }
        }],
        "usage": {"completion_tokens": 64}
    }"#;
    let response = doc(text);
    let result = classify_tool_call_response(&response);
    let hint = tool_hint(result.verdict, text);
    assert_ne!(result.verdict, ToolVerdict::Passed);
    assert!(result.tool_call.is_none());
    assert!(hint.contains("cut off at max_tokens"));
    assert!(!hint.contains("--jinja"));
    assert_eq!(
        result.reasoning_content.as_deref(),
        Some("I should inspect the available tools before calling one.")
    );
}

#[test]
fn valid_tool_call_response_passes_with_parsed_call() {
    let response = doc(
        r#"{
        "choices": [{
            "finish_reason": "tool_calls",
            "message": {
                "content": null,
                "tool_calls": [{
                    "id": "call_1",
                    "type": "function",
                    "function": {
                        "name": "get_weather",
                        "arguments": "{\"city\":\"Seattle\"}"
                    }
                }]
            }
        }]
    }"#,
    );
    let result = classify_tool_call_response(&response);
    let call = result.tool_call.unwrap();
    assert_eq!(call.get("function").and_then(|f| f.get_str("name")), Some("get_weather"));
    assert_eq!(result.verdict, ToolVerdict::Passed);
}

#[test]
fn text_emitted_tool_call_gets_template_hint() {
    let text = r#"{
        "choices": [{
            "finish_reason": "stop",
            "message": {
                "content": "<tool_call>{\"name\":\"get_weather\",\"arguments\":{\"city\":\"Seattle\"}}</tool_call>"
            }
        }]
    }"#;
    let response = doc(text);
    let result = classify_tool_call_response(&response);
    let hint = tool_hint(result.verdict, text);
    assert_ne!(result.verdict, ToolVerdict::Passed);
    assert!(result.tool_call.is_none());
    assert!(hint.contains("emitted as text"));
    assert!(hint.contains("--jinja"));
}

fn usual_settings() -> MemorySettings {
    MemorySettings {
        default_gpu_mem_util: 9_200,
        vram_overhead_mb: 2500,
        enable_ram_overflow: true,
        manual_ram_limit_mb: None,
        safety_reserve_mb: 4096,
        offload_weights_allowed: true,
        max_context_cap: None,
    }
}

fn rtx_4090() -> GpuSnapshot {
    GpuSnapshot {
        name: "NVIDIA GeForce RTX 4090".to_string(),
        vram_total_mb: 24576,
        vram_free_mb: 22000,
        util_percent: 5,
    }
}

#[test]
fn test_hardware_profile_detected() {
    let hw = hardware_profile(Some(&rtx_4090()), &usual_settings(), 16384, 12288)
        .expect("should have hardware profile");
    assert_eq!(hw.gpu_name, "NVIDIA GeForce RTX 4090");
    assert_eq!(hw.vram_total_mb, 24576);
    assert!(hw.bandwidth_known);
    assert_eq!(hw.bandwidth_gbs, 1008);
    assert_eq!(hw.ram_total_mb, 16384);
    assert_eq!(hw.ram_usable_mb, 8192); // 12288 - 4096 (safety reserve)
    assert_eq!(hw.ram_bandwidth_gbs, 65);
}

#[test]
fn test_hardware_profile_ram_overflow_disabled() {
    let settings = MemorySettings { enable_ram_overflow: false, ..usual_settings() };
    let hw = hardware_profile(Some(&rtx_4090()), &settings, 16384, 12288)
        .expect("should have hardware profile");
    assert_eq!(hw.ram_usable_mb, 0);
    assert_eq!(hw.ram_potential_mb, 8192); // 12288 - 4096 (potential remains known)
}

#[test]
fn test_hardware_profile_manual_ram_limit() {
    let settings =
        MemorySettings { manual_ram_limit_mb: Some(32768), ..usual_settings() };
    let hw = hardware_profile(Some(&rtx_4090()), &settings, 16384, 12288)
        .expect("should have hardware profile");
    assert_eq!(hw.ram_usable_mb, 32768);
}

#[test]
fn test_hardware_profile_safety_reserve_saturating() {
    let settings = MemorySettings {
        safety_reserve_mb: 20000,
        manual_ram_limit_mb: None,
        ..usual_settings()
    };
    let hw = hardware_profile(Some(&rtx_4090()), &settings, 16384, 12288)
        .expect("should have hardware profile");
    assert_eq!(hw.ram_usable_mb, 0);
}

#[test]
fn test_memory_settings_get_and_update() {
    let mut st: MemoryState<Vec<String>> =
        MemoryState { settings: usual_settings(), recommendations: None };
    let settings = get_memory_settings_impl(&st);
    assert_eq!(settings, usual_settings());

    let custom = MemorySettings {
        default_gpu_mem_util: 8_500,
        vram_overhead_mb: 1500,
        enable_ram_overflow: false,
        manual_ram_limit_mb: Some(8192),
        safety_reserve_mb: 2048,
        offload_weights_allowed: false,
        max_context_cap: Some(16384),
    };
    st.recommendations = Some(Recommendations { models: vec![], vram_mb: 16384 });
    assert!(st.recommendations.is_some());

    update_memory_settings_impl(&mut st, custom);
    assert_eq!(get_memory_settings_impl(&st), custom);
    assert!(st.recommendations.is_none(), "rec_cache must be invalidated");
}

#[test]
fn test_get_system_memory() {
    let mut settings = usual_settings();
    let sys_mem = get_system_memory_impl(&settings, 16384, 12288);
    assert_eq!(sys_mem.wsl_total_mb, 16384);
    assert_eq!(sys_mem.wsl_available_mb, 12288);
    assert_eq!(sys_mem.usable_budget_mb, 8192); // 12288 - 4096
    assert_eq!(sys_mem.safety_reserve_mb, 4096);
    assert_eq!(sys_mem.manual_override_mb, None);

    settings.manual_ram_limit_mb = Some(14000);
    let sys_mem2 = get_system_memory_impl(&settings, 16384, 12288);
    assert_eq!(sys_mem2.usable_budget_mb, 14000);
    assert_eq!(sys_mem2.manual_override_mb, Some(14000));

    settings.enable_ram_overflow = false;
    let sys_mem3 = get_system_memory_impl(&settings, 16384, 12288);
    assert_eq!(sys_mem3.usable_budget_mb, 0);
}

#[test]
fn test_hardware_profile_none_and_fallback() {
    assert!(hardware_profile(None, &usual_settings(), 16384, 12288).is_none());

    let fb = fallback_hardware_profile();
    assert_eq!(fb.gpu_name, "Generic GPU");
    assert_eq!(fb.vram_total_mb, 16384);
    assert_eq!(fb.bandwidth_gbs, 700);
    assert!(!fb.bandwidth_known);
    assert_eq!(fb.ram_total_mb, 16384);
    assert_eq!(fb.ram_usable_mb, 12288);
    assert_eq!(fb.ram_bandwidth_gbs, 65);
}

fn hub_model(id: &str) -> HfModel {
    HfModel {
        id: id.to_string(),
        downloads: 100,
        likes: 10,
        trending_score: JsonNumber::Float(5.0f64.to_bits()),
        private: false,
        pipeline_tag: Some("text-generation".to_string()),
    }
}

#[test]
fn test_recommendation_cache_ttl() {
    let mut st = MemoryState { settings: usual_settings(), recommendations: None };
    assert!(st.recommendations.is_none());

    // Cache a dummy list with 16384 MB VRAM
    let hw = fallback_hardware_profile();
    let dummy = vec![score_model(hub_model("test/model"), None, vec![], &hw, "", &usual_settings())];
    st.recommendations = Some(Recommendations { models: dummy, vram_mb: 16384 });
    {
        let cached = st.recommendations.as_ref().unwrap();
        assert_eq!(cached.models.len(), 1);
        assert_eq!(cached.models[0].id, "test/model");
        assert_eq!(cached.vram_mb, 16384);
    }
    assert!(use_recommendations(&mut st, 16384, 0));

    // Expired entry
    assert!(!use_recommendations(&mut st, 16384, 601));
}

#[test]
fn test_recommendation_cache_invalidated_on_vram_change() {
    let mut st: MemoryState<Vec<String>> = MemoryState {
        settings: usual_settings(),
        // Cache created with fallback 16GB
        recommendations: Some(Recommendations { models: vec![], vram_mb: 16384 }),
    };
    // When actual GPU has 12GB, cache should be invalidated
    let current_vram = 12227;
    assert!(!use_recommendations(&mut st, current_vram, 0));
    assert!(st.recommendations.is_none());
}

#[test]
fn test_process_models_with_fit_empty() {
    let out = process_models_with_fit(vec![], &fallback_hardware_profile(), "", &usual_settings());
    assert!(out.is_empty());
}

fn known_7b() -> KnownModel {
    KnownModel {
        stats: ServerStats {
            context: 32768,
            n_layers: Some(32),
            n_kv_heads: Some(8),
            head_dim: Some(128),
            params_m: Some(7_000),
            params_b: Some(7.0f64.to_bits()),
        },
        context_source: ContextSource::Config,
        context_estimated: false,
    }
}

fn variant_of(model_id: &str, format: QuantFormat, weight_bytes: u64) -> QuantVariant {
    QuantVariant {
        repo_id: model_id.to_string(),
        format,
        label: "AWQ".to_string(),
        weight_bytes: Some(weight_bytes),
        params_m: Some(7_000),
        gguf_file: None,
        vllm_native: true,
    }
}

fn found(weight_bytes: u64) -> Vec<FoundModel> {
    let model_id = "test/cached-model";
    vec![FoundModel {
        model: hub_model(model_id),
        known: Some(known_7b()),
        variants: vec![variant_of(model_id, QuantFormat::AWQ, weight_bytes)],
    }]
}

#[test]
fn test_process_models_with_fit_uses_memory_settings() {
    let memory = MemorySettings { max_context_cap: Some(2048), ..usual_settings() };
    let res =
        process_models_with_fit(found(4_000_000_000), &fallback_hardware_profile(), "", &memory);
    assert_eq!(res.len(), 1);
    let variant = &res[0].variants[0];
    assert_eq!(variant.fit.extended_context, 2048);
}

#[test]
fn scores_follow_each_setting_of_memory() {
    // A token takes 128 KiB of KV cache, so a MiB holds eight.
    let hw = fallback_hardware_profile();
    let scored = |weight: u64, memory: MemorySettings| {
        process_models_with_fit(found(weight), &hw, "", &memory).remove(0).variants.remove(0).fit
    };
    let small = 4096 * 1024 * 1024;
    let usual = scored(small, usual_settings());
    assert_eq!(usual.vram_context, 32768);
    assert_eq!((usual.swap_space_gb, usual.cpu_offload_gb), (0, 0));
    assert_eq!(usual.verdict, FitVerdict::Comfortable);

    // Half of the card: 8192 MiB less 4096 and 2500 leave 1596 MiB, and RAM takes the rest.
    let half = MemorySettings { default_gpu_mem_util: 5_000, ..usual_settings() };
    let fit = scored(small, half);
    assert_eq!(fit.vram_context, 1596 * 8);
    assert_eq!(fit.extended_context, 32768);
    assert_eq!(fit.usable_context, 32768);
    // 20000 tokens take 2500 MiB.
    assert_eq!(fit.swap_space_gb, 3);
    // Three of seven GiB are in RAM, which costs three sevenths of a fifth of the speed.
    let full = 700.0 * 0.5 / (7.0 * 0.55);
    let speed = fit.est_tok_s.unwrap() as f64 / 1e6;
    assert!((speed - full * (1.0 - 0.2 * 3.0 / 7.0)).abs() < 1e-4);

    // More overhead: 8192 MiB less 4096 and 4000 leave 96 MiB.
    let fit = scored(small, MemorySettings { vram_overhead_mb: 4000, ..half });
    assert_eq!(fit.vram_context, 96 * 8);
    assert_eq!(fit.vram_pct, 49);

    // Weights of 16 GiB go into RAM where they may: 16384 and 2500 less 15073 are 3811 MiB.
    let large = 16 * 1024 * 1024 * 1024;
    let fit = scored(large, usual_settings());
    assert_eq!((fit.vram_context, fit.cpu_offload_gb), (0, 4));
    assert_eq!(fit.est_tok_s, Some(tokens_per_sec(20, 7_000, "awq")));
    assert_eq!(fit.extended_context, 32768);
    let kept = MemorySettings { offload_weights_allowed: false, ..usual_settings() };
    let fit = scored(large, kept);
    assert_eq!((fit.extended_context, fit.cpu_offload_gb), (0, 0));
    assert_eq!(fit.verdict, FitVerdict::DoesNotFit);
}

#[test]
fn parameters_are_told_in_billions() {
    let told = |params_b: Option<f64>| {
        let mut known = known_7b();
        known.stats.params_b = params_b.map(|p| p.to_bits());
        let hw = fallback_hardware_profile();
        score_model(hub_model("m"), Some(known), vec![], &hw, "", &usual_settings())
            .parameter_count()
    };
    for p in [7.6, 7.65, 0.25, 0.35, 0.494032768, 70.55, 671.0, 1e-9, 0.0, 5e-324, 123456789.05, 9e15] {
        assert_eq!(told(Some(p)), Some(format!("{p:.1}B")));
    }
    assert_eq!(told(Some(7.6)).as_deref(), Some("7.6B"));
    assert_eq!(told(None), None);
    assert_eq!(told(Some(f64::NAN)), None);
}

#[test]
fn test_library_entry_and_dir_name() {
    let entry = LibraryEntry {
        model_id: "Qwen/Qwen2.5-Coder-7B-Instruct".to_string(),
        size_mb: 14500,
        files: 8,
        quant: Some("AWQ".to_string()),
        params_b: Some(Decimal { mantissa: 70, scale: 1 }),
        installed: true,
        in_use: false,
        in_use_server: None,
        task: Some("instruct".to_string()),
        is_local: false,
        model_path: None,
    };
    assert_eq!(model_dir(&entry.model_id), "models--Qwen--Qwen2.5-Coder-7B-Instruct");
}

#[test]
fn test_recommendations_url_params() {
    let url = reqwest::Url::parse_with_params(
        HF_API,
        &[
            ("sort", "trendingScore"),
            ("pipeline_tag", "text-generation"),
            ("limit", "16"),
        ],
    )
    .unwrap();
    assert_eq!(
        url.query(),
        Some("sort=trendingScore&pipeline_tag=text-generation&limit=16")
    );
}

#[test]
fn test_open_url_validation() {
    assert!(check_url("ftp://evil.com").is_err());
    assert!(check_url("javascript:alert(1)").is_err());
    assert!(check_url("file:///etc/passwd").is_err());
    assert!(check_url("https://huggingface.co").is_ok());
}

#[test]
fn test_hf_cache_scan_scripts_resolve_wsl_home() {
    let python_script =
        compose_hf_cache_scan_script("~/llm-lp/.venv/bin/python", "~/.cache/huggingface/hub");
    assert!(python_script.contains("venv_python=$(__llm_panel_expand_tilde"));
    assert!(python_script.contains("hub_dir=$(__llm_panel_expand_tilde"));
    assert!(python_script.contains("\"$venv_python\" - <<'PY'"));
    assert!(python_script.contains("os.environ['LOCAL_LLM_PANEL_HUB_DIR']"));
    assert!(!python_script.contains("sys.path.insert"));

    let quoted_paths =
        compose_hf_cache_scan_script("~/venvs/vllm env/bin/python", "~/.cache/hugging face/hub");
    assert!(quoted_paths.contains("'~/venvs/vllm env/bin/python'"));
    assert!(quoted_paths.contains("'~/.cache/hugging face/hub'"));

    let fallback_script = compose_hf_cache_fs_scan_script("~/.cache/huggingface/hub");
    assert!(fallback_script.contains("hub_dir=$(__llm_panel_expand_tilde"));
    assert!(fallback_script.contains("for p in \"$hub_dir\"/models--*"));
    assert!(!fallback_script.contains("for p in \"~/.cache/huggingface/hub\""));

    let exists_script = compose_hf_cache_model_exists_script(
        "~/.cache/huggingface/hub",
        "models--Qwen--Qwen2.5-Coder-7B-Instruct",
    );
    assert!(exists_script.contains("hub_dir=$(__llm_panel_expand_tilde"));
    assert!(exists_script.contains("[ -d \"$hub_dir/$dir_name\" ] && echo exists"));
    assert!(!exists_script.contains("[ -d \"~/.cache/huggingface/hub/"));
}

fn entry(size_mb: u64) -> LibraryEntry {
    LibraryEntry {
        model_id: "Qwen/Qwen2.5-0.5B-Instruct".to_string(),
        size_mb,
        files: 2,
        quant: Some("FP16".to_string()),
        params_b: Some(Decimal { mantissa: 5, scale: 1 }),
        installed: true,
        in_use: false,
        in_use_server: None,
        task: Some("instruct".to_string()),
        is_local: false,
        model_path: None,
    }
}

#[test]
fn test_hf_cache_fallback_handles_empty_python_result() {
    assert!(should_scan_hf_cache_fs(false, &vec![]));
    assert!(should_scan_hf_cache_fs(true, &vec![]));
    assert!(!should_scan_hf_cache_fs(true, &vec![entry(512)]));
    assert!(should_scan_hf_cache_fs(true, &vec![entry(0)]));
}

#[test]
fn imported_paths_reject_root_and_traversal() {
    assert!(validate_imported_wsl_path("/mnt/d/models/qwen").is_ok());
    assert!(validate_imported_wsl_path("/").is_err());
    assert!(validate_imported_wsl_path("/mnt/../etc").is_err());
}

#[test]
fn server_ids_reject_empty_or_control_values() {
    assert!(validate_server_id("srv-abc_123").is_ok());
    assert!(validate_server_id("").is_err());
    assert!(validate_server_id("srv\nbad").is_err());
}

#[test]
fn optional_fields_hold_a_value_or_none() {
    let cleared: OptionalField<usize> = OptionalField(None);
    assert!(cleared.into_inner().is_none());
    assert_eq!(OptionalField(Some(32768)).into_inner(), Some(32768));
}

#[test]
fn test_metric_series_commands() {
    let series = vec![(
        "test-srv".to_string(),
        vec![ServerMetricPoint {
            timestamp: 1000,
            tok_s: 55.4f64.to_bits(),
            prompt_tok_s: 220.1f64.to_bits(),
            requests_running: 2,
            requests_waiting: 0,
        }],
    )];
    let srv_res = get_server_metrics_series(&series, "test-srv");
    assert_eq!(srv_res.len(), 1);
    assert_eq!(f64::from_bits(srv_res[0].tok_s), 55.4);

    let empty_res = get_server_metrics_series(&series, "nonexistent");
    assert!(empty_res.is_empty());
}

#[test]
fn autostart_is_on_where_the_entry_is_shown() {
    assert!(autostart_get(true, &format!("    {AUTOSTART_NAME}    REG_SZ    panel.exe")));
    assert!(!autostart_get(true, ""));
    assert!(!autostart_get(false, AUTOSTART_NAME));
}

#[test]
fn test_server_recipe_parse_valid_and_invalid() {
    let valid_json = r#"{
            "schema": "local-llm-panel/server-recipe/v1",
            "model_id": "meta-llama/Llama-3.1-8B-Instruct",
            "task": "instruct",
            "port": 8000,
            "gpu_mem_util": 0.9,
            "quant": "awq",
            "max_model_len": 4096,
            "enforce_eager": true,
            "swap_space_gb": 2
        }"#;
    let recipe = doc(valid_json);
    assert_eq!(recipe.get_str("model_id"), Some("meta-llama/Llama-3.1-8B-Instruct"));
    assert_eq!(recipe.get_str("quant"), Some("awq"));
    assert_eq!(recipe.get("port").and_then(|p| p.as_u64()), Some(8000));
    assert_eq!(recipe.get("swap_space_gb").and_then(|p| p.as_u64()), Some(2));
    assert!(check_recipe(
        recipe.get_str("schema").unwrap(),
        recipe.get_str("model_id").unwrap(),
        8000,
    )
    .is_ok());

    let invalid = doc(r#"{ "not": "a recipe" }"#);
    assert!(invalid.get_str("schema").is_none());
    assert!(check_recipe("", "", 0).is_err());
    assert!(check_recipe("local-llm-panel/server-recipe/v1", " ", 8000).is_err());
    assert!(check_recipe("local-llm-panel/server-recipe/v1", "a/b", 0).is_err());
}

#[test]
fn test_cache_sweep_script_composition() {
    let script = compose_library_remove_script("Qwen/Qwen2.5-0.5B", None);
    assert!(script.contains("models--Qwen--Qwen2.5-0.5B"));
    assert!(script.contains("hub_dir"));
    assert!(script.contains("blobs"));
    assert!(script.contains("readlink"));
    assert!(script.contains("snaps"));
}

#[test]
fn test_cache_sweep_script_custom_hub() {
    let script = compose_library_remove_script("Qwen/Qwen2.5-0.5B", Some("/mnt/data/hf/hub"));
    assert!(script.contains("hub_dir=$(__llm_panel_expand_tilde '/mnt/data/hf/hub')"));
    assert!(script.contains("dir_name='models--Qwen--Qwen2.5-0.5B'"));
    assert!(script.contains("\"$hub_dir/blobs\""));
}

#[test]
fn test_cache_sweep_script_quotes_untrusted_hub_path() {
    let script = compose_library_remove_script(
        "Qwen/Qwen2.5-0.5B",
        Some("/mnt/data/hf/hub; touch /tmp/should-not-exist"),
    );
    assert!(script.contains("hub; touch /tmp/should-not-exist'"));
    assert!(!script.contains("hub; touch /tmp/should-not-exist\"\n"));
}

#[test]
fn test_pull_cancel_script_anchoring() {
    let model_id = "meta-llama/Llama-3.1-8B";
    let script = format!("pkill -f 'hf download.*[ /]{}(\\s|$)' || true", model_id);
    assert!(script.contains("[ /]meta-llama/Llama-3.1-8B(\\s|$)"));
    assert!(cancel_script(model_id).contains("meta-llama/Llama-3"));
}
