//! Estimates of memory, context and speed.
use llm_panel::context_fit::{GIB, MIB, PARTS_PER_BYTE};
use llm_panel::double::stretch;
use llm_panel::estimate::{
    bytes_per_param, context_fit, context_fit_tiered, context_fit_with_weight,
    estimate_kv_bytes_per_token, estimate_params_from_config, family_fallback, gpu_bandwidth,
    head_dim_from_config, kv_bytes_per_token, parse_context, parse_params_from_index,
    parse_params_from_name, parse_params_from_safetensors_api, tokens_per_sec,
    tokens_per_sec_tiered, weight_gb, ContextSource, TieredContextFit,
};
use llm_panel::json;
use llm_panel::json::{Json, JsonNumber};

const UTIL: u32 = 9_200;
const OVERHEAD: i128 = 2_500 * MIB;

fn document(text: &str) -> Json {
    match json::parse(text.as_bytes()) {
        Some(v) => v,
        None => panic!("document should parse"),
    }
}

fn gib(n: f64) -> i128 {
    (n * GIB as f64) as i128
}

fn mib(n: f64) -> i128 {
    (n * MIB as f64) as i128
}

fn kv(layers: usize, heads: usize, dim: usize) -> i128 {
    kv_bytes_per_token(layers, heads, dim) as i128 * PARTS_PER_BYTE
}

fn bytes(quant: &str) -> f64 {
    bytes_per_param(quant) as f64 / 100.0
}

fn speed(bandwidth: u32, params_m: u64, quant: &str) -> f64 {
    tokens_per_sec(bandwidth, params_m, quant) as f64 / 1e6
}

fn nothing() -> TieredContextFit {
    TieredContextFit { vram_context: 0, extended_context: 0, swap_space_gb: 0, cpu_offload_gb: 0 }
}

#[test]
fn bytes_per_param_values() {
    assert_eq!(bytes("fp16"), 2.0);
    assert_eq!(bytes("bf16"), 2.0);
    assert_eq!(bytes(""), 2.0);
    assert_eq!(bytes("fp8"), 1.0);
    assert_eq!(bytes("AWQ"), 0.55);
    assert!((bytes("gptq") - 0.55).abs() < 1e-9);
}

#[test]
fn test_quant_bytes_per_param_accurate_hierarchy() {
    assert!((bytes("fp16") - 2.0).abs() < 1e-6);
    assert!((bytes("fp8") - 1.0).abs() < 1e-6);
    assert!((bytes("awq") - 0.55).abs() < 1e-6);
    assert!((bytes("gptq") - 0.55).abs() < 1e-6);
    assert!((bytes("q4_k_m") - 0.55).abs() < 1e-6);
    assert!((bytes("q8_0") - 1.05).abs() < 1e-6);
    // AWQ/Q4 (4-bit) must be strictly smaller than FP8 (8-bit) and Q5 (5-bit)
    assert!(bytes("awq") < bytes("q5_k_m"));
    assert!(bytes("awq") < bytes("fp8"));
}

#[test]
fn test_gguf_bytes_per_param() {
    assert_eq!(bytes("q4_k_m"), 0.55);
    assert_eq!(bytes("Q4_0"), 0.55);
    assert_eq!(bytes("Q8_0"), 1.05);
    assert_eq!(bytes("gguf"), 0.55);
}

#[test]
fn every_quantization_has_its_size() {
    assert_eq!(bytes_per_param("iq4_nl"), 55);
    assert_eq!(bytes_per_param("q5_k_m"), 68);
    assert_eq!(bytes_per_param("q6_k"), 80);
    assert_eq!(bytes_per_param("q3_k_s"), 45);
    assert_eq!(bytes_per_param("iq2_xxs"), 35);
    assert_eq!(bytes_per_param("int8"), 100);
    assert_eq!(bytes_per_param("ud-q4_k_xl"), 55);
    // A thousand million parameters of two bytes are two GiB.
    assert_eq!(weight_gb(1_000, "fp16"), 2 * GIB);
}

#[test]
fn kv_bytes_for_qwen2_5_0b5() {
    // kv_bpt = 2 * 24 * 2 * 64 * 2 = 12288 bytes/token
    assert_eq!(kv_bytes_per_token(24, 2, 64), 12288);
    assert_eq!(estimate_kv_bytes_per_token(0), 0);
    assert_eq!(estimate_kv_bytes_per_token(3_500), 32_768);
    assert_eq!(estimate_kv_bytes_per_token(10_000), 131_072);
    assert_eq!(estimate_kv_bytes_per_token(40_000), 262_144);
    assert_eq!(estimate_kv_bytes_per_token(40_001), 327_680);
}

#[test]
fn context_parse_standard() {
    let cfg = document(r#"{"max_position_embeddings": 32768, "hidden_size": 896}"#);
    let (ctx, src) = parse_context(&cfg);
    assert_eq!(ctx, 32768);
    assert_eq!(src, ContextSource::Config);
}

#[test]
fn context_parse_alternative_keys() {
    let (ctx, _) = parse_context(&document(r#"{"model_max_length": 8192}"#));
    assert_eq!(ctx, 8192);
}

#[test]
fn context_parse_nested_text_config() {
    let cfg = document(r#"{"text_config": {"max_position_embeddings": 131072}}"#);
    let (ctx, src) = parse_context(&cfg);
    assert_eq!(ctx, 131072);
    assert_eq!(src, ContextSource::Config);
}

#[test]
fn context_missing_falls_to_default_and_family() {
    let (ctx, src) = parse_context(&document(r#"{"hidden_size": 4096}"#));
    assert_eq!(src, ContextSource::Default);
    assert_eq!(ctx, 0);
    // Family fallback is separate:
    assert_eq!(family_fallback("Qwen/Qwen2.5-7B-Instruct"), Some(131_072));
    assert_eq!(family_fallback("meta-llama/Meta-Llama-3-8B"), Some(8_192));
    assert_eq!(family_fallback("benjamin/burgers"), None);
}

#[test]
fn context_fit_budget() {
    // 7B params fp16 = 14GB weights → no room.
    let small = 2048 * PARTS_PER_BYTE;
    assert_eq!(context_fit(12227, UTIL, 7_000, "fp16", small, OVERHEAD), 0);
    let ctx = context_fit(12227, UTIL, 494, "fp16", 12288 * PARTS_PER_BYTE, OVERHEAD);
    assert!(ctx > 500_000 && ctx < 800_000);
    // int4 makes 7B fit.
    let ctx7 = context_fit(12227, UTIL, 7_000, "awq", kv(32, 8, 128), OVERHEAD);
    assert!(ctx7 > 35000 && ctx7 < 42000);
}

#[test]
fn test_context_fit_with_weight() {
    let bpt = kv(32, 8, 128);
    let ctx = context_fit_with_weight(12000, UTIL, gib(4.39), bpt, OVERHEAD);
    assert!(ctx > 30000);
    // When weight exceeds usable VRAM, should return 0
    assert_eq!(context_fit_with_weight(12000, UTIL, gib(10.0), bpt, OVERHEAD), 0);
    // Clamps floor to 512 when KV is tiny but positive
    assert!(context_fit_with_weight(12000, UTIL, gib(8.33), bpt, OVERHEAD) >= 512);
}

#[test]
fn tokens_per_sec_smoke() {
    let tps = speed(672, 494, "fp16");
    assert!((tps - 340.0).abs() < 30.0, "tps = {tps}");
    let tps7 = speed(672, 7_000, "fp8");
    assert!((tps7 - 48.0).abs() < 5.0, "tps7 = {tps7}");
    assert_eq!(tokens_per_sec(672, 7_000, "fp8"), 48_000_000);
}

#[test]
fn bandwidth_table() {
    assert_eq!(gpu_bandwidth("NVIDIA GeForce RTX 5070 Ti Laptop GPU"), (672, true));
    assert_eq!(gpu_bandwidth("NVIDIA GeForce RTX 4090"), (1008, true));
    assert_eq!(gpu_bandwidth("NVIDIA RTX 5090"), (1792, true));
    assert_eq!(gpu_bandwidth("NVIDIA GeForce GTX 1080"), (700, false)); // no match → fallback
    assert_eq!(gpu_bandwidth("AMD Radeon 7900 XTX"), (700, false));
    assert_eq!(gpu_bandwidth("RTX 5090 Laptop"), (1418, true));
    assert_eq!(gpu_bandwidth("rtx 4080 super"), (736, true));
    assert_eq!(gpu_bandwidth("RTX 3050"), (224, true));
}

#[test]
fn params_from_config_and_index() {
    let cfg = document(
        r#"{"num_hidden_layers": 24, "hidden_size": 896, "vocab_size": 151936,
            "intermediate_size": 4864}"#,
    );
    let p = estimate_params_from_config(&cfg).unwrap() as f64 / 1e9;
    assert!((p - 0.47).abs() < 0.06, "params = {p}");
    let idx = document(r#"{"metadata": {"total_size": 987656192}}"#);
    let w = parse_params_from_index(&idx, Some("bf16")).unwrap();
    let pi = w.total_bytes as f64 / w.bytes_per_param as f64 / 1e9;
    assert!((pi - 0.494).abs() < 0.01, "index params = {pi}");
}

#[test]
fn sizes_are_divided_by_the_width_of_the_type() {
    let index = document(r#"{"metadata": {"total_size": 4000000000}}"#);
    let params = |dtype: Option<&str>| {
        let w = parse_params_from_index(&index, dtype).unwrap();
        w.total_bytes as f64 / f64::from(w.bytes_per_param) / 1e9
    };
    assert_eq!(params(Some("float32")), 1.0);
    assert_eq!(params(Some("torch.Float16")), 2.0);
    assert_eq!(params(Some("float8_e4m3fn")), 4.0);
    assert_eq!(params(Some("bfloat16")), 2.0);
    assert_eq!(params(None), 2.0);
}

#[test]
fn head_dim_explicit_or_derived() {
    assert_eq!(head_dim_from_config(&document(r#"{"head_dim": 64}"#)), Some(64));
    assert_eq!(
        head_dim_from_config(&document(r#"{"hidden_size": 896, "num_attention_heads": 14}"#)),
        Some(64)
    );
    assert_eq!(head_dim_from_config(&document(r#"{"hidden_size": 896}"#)), None);
}

#[test]
fn test_rope_scaling_yarn() {
    let cfg = document(
        r#"{"max_position_embeddings": 4096, "rope_scaling": {"type": "yarn", "factor": 4.0}}"#,
    );
    let (ctx, src) = parse_context(&cfg);
    assert_eq!(ctx, 16384); // 4096 * 4
    assert_eq!(src, ContextSource::Config);
}

#[test]
fn test_rope_scaling_linear() {
    let cfg = document(
        r#"{"max_position_embeddings": 8192, "rope_scaling": {"type": "linear", "factor": 8.0}}"#,
    );
    let (ctx, _) = parse_context(&cfg);
    assert_eq!(ctx, 65536);
}

#[test]
fn test_rope_scaling_no_factor_ignored() {
    let cfg = document(
        r#"{"max_position_embeddings": 4096, "rope_scaling": {"type": "dynamic"}}"#,
    );
    let (ctx, _) = parse_context(&cfg);
    assert_eq!(ctx, 4096); // No factor → no scaling
}

#[test]
fn stretching_is_that_of_double_precision() {
    let bases: [usize; 12] = [
        0, 1, 7, 4096, 10_000, 32_768, 40_960, 131_072, 262_143, 1_048_577, 9_007_199_254_740_993,
        18_446_744_073_709_551_615,
    ];
    let factors: [f64; 14] = [
        0.5, 1.0, 1.0000000000000002, 1.1, 1.15, 1.3333333333333333, 2.0, 2.5, 3.7, 4.0, 8.0, 40.0,
        1e10, 1e300,
    ];
    for n in bases {
        for f in factors {
            let want = if f > 1.0 { (n as f64 * f) as usize } else { n };
            assert_eq!(stretch(n, JsonNumber::Float(f.to_bits())), want, "{n} times {f}");
        }
        for f in [0u64, 1, 2, 3, 8, 10_000, 9_007_199_254_740_993, u64::MAX] {
            let want = if f > 1 { (n as f64 * f as f64) as usize } else { n };
            assert_eq!(stretch(n, JsonNumber::Unsigned(f)), want, "{n} times {f}");
        }
        assert_eq!(stretch(n, JsonNumber::Negative(-4)), n);
        assert_eq!(stretch(n, JsonNumber::Float((-4.0f64).to_bits())), n);
    }
}

#[test]
fn test_nested_model_config() {
    let cfg = document(r#"{"model_config": {"max_position_embeddings": 65536}}"#);
    let (ctx, src) = parse_context(&cfg);
    assert_eq!(ctx, 65536);
    assert_eq!(src, ContextSource::Config);
}

#[test]
fn test_nested_dims_text_config() {
    let cfg = document(
        r#"{"text_config": {"num_hidden_layers": 32, "num_key_value_heads": 8, "head_dim": 128}}"#,
    );
    assert_eq!(head_dim_from_config(&cfg), Some(128));
}

#[test]
fn test_parse_params_safetensors_api() {
    let api = document(
        r#"{"safetensors": {"parameters": {"BF16": 7615616000}, "total": 15231232000}}"#,
    );
    let p = parse_params_from_safetensors_api(&api).unwrap() as f64 / 1e9;
    assert!((p - 7.616).abs() < 0.01);
}

#[test]
fn test_parse_params_from_name() {
    let params = |name: &str| {
        parse_params_from_name(name).map(|d| d.mantissa as f64 / 10f64.powi(d.scale as i32))
    };
    assert_eq!(params("unsloth/Qwen3.8-27B-GGUF"), Some(27.0));
    assert_eq!(params("bartowski/Meta-Llama-3.1-8B-Instruct-GGUF"), Some(8.0));
    assert_eq!(params("deepseek-ai/DeepSeek-R1-Distill-Qwen-1.5B"), Some(1.5));
    assert_eq!(params("Qwen/Qwen2.5-0.5B-Instruct"), Some(0.5));
    assert_eq!(params("TheBloke/Llama-2-70B-Chat-GGUF"), Some(70.0));
    assert_eq!(params("google/gemma-2-27b-it"), Some(27.0));
    assert_eq!(params("google/gemma-2-9b"), Some(9.0));
    assert_eq!(params("microsoft/phi-4"), None);
}

#[test]
fn test_estimate_params_nested_text_config() {
    let cfg = document(
        r#"{"model_type": "qwen3_5", "text_config": {"hidden_size": 5120,
            "intermediate_size": 17408, "num_hidden_layers": 64, "vocab_size": 248320}}"#,
    );
    let p = estimate_params_from_config(&cfg).unwrap() as f64 / 1e9;
    assert!((p - 27.1).abs() < 0.5, "params = {p}");
}

#[test]
fn test_context_fit_tiered_vram_and_swap() {
    let bpt = kv(32, 8, 128);
    let res =
        context_fit_tiered(12000, UTIL, mib(16384.0), gib(4.4), bpt, OVERHEAD, 131072, true);
    assert!(res.vram_context > 30000 && res.vram_context < 35000);
    assert!(res.extended_context > res.vram_context);
    assert!(res.extended_context <= 131072);
    assert!(res.swap_space_gb > 0);
    assert_eq!(res.cpu_offload_gb, 0);
}

#[test]
fn test_context_fit_tiered_weight_offload() {
    let bpt = kv(40, 8, 128);
    let res =
        context_fit_tiered(12000, UTIL, mib(32768.0), gib(15.0), bpt, OVERHEAD, 32768, true);
    assert_eq!(res.vram_context, 0);
    assert!(res.cpu_offload_gb >= 6);
    assert!(res.extended_context >= 512);
}

#[test]
fn test_tokens_per_sec_tiered_pure_gpu() {
    let res = tokens_per_sec_tiered(504, 45, 7_000, "fp16", 0, 0, gib(14.0)) as f64 / 1e6;
    let expected = speed(504, 7_000, "fp16");
    assert!((res - expected).abs() < 1e-6);
    assert!((res - 18.0).abs() < 1e-6);
}

#[test]
fn test_tokens_per_sec_tiered_gpu_ram_swap() {
    // 18.0 * (1.0 - 0.20 * (6.0 / (14.0 + 6.0))) = 16.92
    let res = tokens_per_sec_tiered(504, 45, 7_000, "fp16", 6, 0, gib(14.0)) as f64 / 1e6;
    assert!((res - 16.92).abs() < 1e-6);
}

#[test]
fn test_tokens_per_sec_tiered_cpu_offload() {
    let res = tokens_per_sec_tiered(504, 45, 7_000, "fp16", 6, 4, gib(14.0)) as f64 / 1e6;
    let expected = (20.0 * 1e9 * 0.5) / (7.0 * 1e9 * 2.0);
    assert!((res - expected).abs() < 1e-6);
}

#[test]
fn test_context_fit_tiered_fits_fully_in_vram() {
    let bpt = kv(16, 4, 64);
    let res = context_fit_tiered(24000, UTIL, mib(16384.0), gib(1.0), bpt, OVERHEAD, 32768, true);
    assert_eq!(res.vram_context, 32768);
    assert_eq!(res.extended_context, 32768);
    assert_eq!(res.swap_space_gb, 0);
    assert_eq!(res.cpu_offload_gb, 0);
}

#[test]
fn test_context_fit_tiered_zero_kv_or_max_ctx() {
    let res1 = context_fit_tiered(12000, UTIL, mib(16384.0), gib(4.4), 0, OVERHEAD, 32768, true);
    assert_eq!(res1, nothing());
    let some = 131072 * PARTS_PER_BYTE;
    let res2 = context_fit_tiered(12000, UTIL, mib(16384.0), gib(4.4), some, OVERHEAD, 0, true);
    assert_eq!(res2, nothing());
}

#[test]
fn test_context_fit_tiered_no_usable_ram() {
    let bpt = kv(32, 8, 128);
    let res = context_fit_tiered(12000, UTIL, 0, gib(4.4), bpt, OVERHEAD, 131072, true);
    assert!(res.vram_context > 30000);
    assert_eq!(res.extended_context, res.vram_context);
    assert_eq!(res.swap_space_gb, 0);
    assert_eq!(res.cpu_offload_gb, 0);
}

#[test]
fn test_context_fit_tiered_weight_offload_disallowed() {
    let bpt = kv(40, 8, 128);
    let res =
        context_fit_tiered(12000, UTIL, mib(32768.0), gib(15.0), bpt, OVERHEAD, 32768, false);
    assert_eq!(res, nothing());
}

#[test]
fn test_context_fit_tiered_weight_offload_insufficient_ram() {
    let bpt = kv(40, 8, 128);
    let res = context_fit_tiered(12000, UTIL, mib(4096.0), gib(15.0), bpt, OVERHEAD, 32768, true);
    assert_eq!(res.vram_context, 0);
    assert_eq!(res.extended_context, 0);
    assert_eq!(res.swap_space_gb, 0);
    assert!(res.cpu_offload_gb >= 6);
}

#[test]
fn test_tokens_per_sec_tiered_zero_params() {
    assert_eq!(tokens_per_sec_tiered(504, 45, 0, "fp16", 0, 0, 0), 0);
    assert_eq!(tokens_per_sec_tiered(504, 45, 0, "fp16", 0, 2, 0), 0);
}

#[test]
fn test_context_fit_tiered_extended_tokens_zero_swap_zero() {
    let bpt = kv(32, 8, 128);
    // The RAM is not enough for even one token.
    let res = context_fit_tiered(12000, UTIL, mib(0.01), gib(4.4), bpt, OVERHEAD, 131072, true);
    assert!(res.vram_context > 30000);
    assert_eq!(res.extended_context, res.vram_context);
    assert_eq!(res.swap_space_gb, 0);
    assert_eq!(res.cpu_offload_gb, 0);
}

#[test]
fn test_context_fit_tiered_weight_offload_small_max_context_and_zero_ram_tokens() {
    let bpt = kv(40, 8, 128);
    // Case A: hardly any RAM remains above the offload.
    let a =
        context_fit_tiered(12000, UTIL, mib(7168.0001), gib(15.0), bpt, OVERHEAD, 32768, true);
    assert_eq!(a.extended_context, 0);
    assert_eq!(a.swap_space_gb, 0);
    assert!(a.cpu_offload_gb >= 6);
    // Case B: max_context is 256 (< 512)
    let b = context_fit_tiered(12000, UTIL, mib(32768.0), gib(15.0), bpt, OVERHEAD, 256, true);
    assert_eq!(b.extended_context, 256);
}
