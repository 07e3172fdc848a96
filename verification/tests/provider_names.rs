//! Model names of the catalog and of the runtimes.
use llm_panel::names::NameSet;
use llm_panel::providers::hosts::{
    is_wildcard_bind_address, normalize_docker_mr_host, normalize_ollama_host,
    normalize_ramalama_host, normalize_vllm_host,
};
use llm_panel::providers::answers::parse_ramalama_store;
use llm_panel::providers::matching::{
    docker_mr_catalog, docker_mr_pull_tag, hf_name_to_docker_mr_candidates,
    hf_name_to_lmstudio_candidates, hf_name_to_ramalama_candidates, hf_name_to_vllm_candidates,
    is_model_installed_docker_mr, is_model_installed_llamacpp, is_model_installed_lmstudio,
    is_model_installed_ramalama,
    is_model_installed_vllm, tag_matches_model,
};
use llm_panel::providers::mlx::{hf_name_to_mlx_candidates, is_model_installed_mlx};
use llm_panel::providers::ollama::{
    build_installed_set, has_ollama_mapping, hf_name_to_ollama_candidates, is_model_installed,
    is_model_installed_sized, lookup_ollama_tag, ollama_installed_matches_candidate, ollama_mappings,
    ollama_tag_size_b, size_tokens_from_parameter_size, split_name_and_size, OllamaModel,
    OllamaModelDetails,
};
use llm_panel::providers::quant::{strip_gguf_quant_suffix, strip_mlx_quant_suffix};
use std::collections::HashSet;

fn names(list: &[&str]) -> NameSet {
    let mut set = NameSet::new();
    for name in list {
        set.insert(name.to_string());
    }
    set
}

fn deepseek_14b_installed() -> NameSet {
    names(&["deepseek-r1:14b"])
}

fn ollama_entry(name: &str, size: u64) -> OllamaModel {
    OllamaModel {
        name: name.to_string(),
        size,
        details: OllamaModelDetails { parameter_size: String::new() },
    }
}

fn ollama_entry_sized(name: &str, parameter_size: &str) -> OllamaModel {
    OllamaModel {
        name: name.to_string(),
        size: 4_700_000_000,
        details: OllamaModelDetails { parameter_size: parameter_size.to_string() },
    }
}

#[test]
fn test_hf_name_to_mlx_candidates() {
    let candidates = hf_name_to_mlx_candidates("meta-llama/Llama-3.1-8B-Instruct");
    assert!(
        candidates
            .iter()
            .any(|c| c.contains("llama-3.1-8b-instruct"))
    );
    assert!(candidates.iter().any(|c| c.ends_with("-4bit")));
    assert!(candidates.iter().any(|c| c.ends_with("-8bit")));

    let qwen = hf_name_to_mlx_candidates("Qwen/Qwen2.5-Coder-14B-Instruct");
    assert!(
        qwen.iter()
            .any(|c| c.contains("qwen2.5-coder-14b-instruct"))
    );
}

#[test]
fn test_hf_name_to_mlx_candidates_qwen35() {
    let candidates = hf_name_to_mlx_candidates("Qwen/Qwen3.5-9B");
    assert!(candidates.iter().any(|c| c == "qwen3.5-9b-4bit"));
    assert!(candidates.iter().any(|c| c == "qwen3.5-9b-8bit"));
}

#[test]
fn test_hf_name_to_mlx_candidates_llama4() {
    let candidates = hf_name_to_mlx_candidates("meta-llama/Llama-4-Scout-17B-16E-Instruct");
    assert!(candidates.iter().any(|c| c.contains("llama-4-scout")));
    assert!(candidates.iter().any(|c| c.ends_with("-4bit")));
}

#[test]
fn test_hf_name_to_mlx_candidates_gemma3() {
    let candidates = hf_name_to_mlx_candidates("google/gemma-3-27b-it");
    assert!(candidates.iter().any(|c| c == "gemma-3-27b-it-4bit"));
    assert!(candidates.iter().any(|c| c == "gemma-3-27b-it-8bit"));
}

#[test]
fn test_hf_name_to_mlx_fallback_generates_mlx_infix_candidates() {
    // For models not in the explicit mapping, the fallback should also
    // generate candidates with the -mlx- infix pattern
    let candidates = hf_name_to_mlx_candidates("SomeOrg/SomeNewModel-7B");
    assert!(candidates.iter().any(|c| c == "somenewmodel-7b-mlx-4bit"));
    assert!(candidates.iter().any(|c| c == "somenewmodel-7b-mlx-8bit"));
}

#[test]
fn test_hf_name_to_mlx_candidates_normalizes_explicit_mlx_repo() {
    let candidates =
        hf_name_to_mlx_candidates("lmstudio-community/Qwen3-Coder-30B-A3B-Instruct-MLX-8bit");

    assert!(
        candidates
            .contains(&"lmstudio-community/qwen3-coder-30b-a3b-instruct-mlx-8bit".to_string())
    );
    assert!(candidates.contains(&"qwen3-coder-30b-a3b-instruct-4bit".to_string()));
    assert!(candidates.contains(&"qwen3-coder-30b-a3b-instruct-8bit".to_string()));
    assert!(!candidates.iter().any(|c| c.contains("-8bit-4bit")));
    assert!(!candidates.iter().any(|c| c.contains("-8bit-8bit")));
}

#[test]
fn test_hf_name_to_mlx_candidates_normalizes_dwq_repo() {
    // a DWQ repo id must generate candidates from its catalog
    // base, not carry the unstripped quant tail into every variant.
    let candidates = hf_name_to_mlx_candidates("mlx-community/Qwen3-8B-4bit-DWQ");

    assert!(candidates.contains(&"qwen3-8b-4bit".to_string()));
    assert!(candidates.contains(&"qwen3-8b".to_string()));
    assert!(!candidates.iter().any(|c| c.contains("-dwq-4bit")));
    assert!(!candidates.iter().any(|c| c.contains("-dwq-8bit")));
    assert!(!candidates.iter().any(|c| c.contains("-dwq-mlx")));
}

#[test]
fn test_mlx_cache_scan_parsing() {
    // Test that the candidate matching works with cache-style names
    let mut installed = NameSet::new();
    installed.insert("llama-3.1-8b-instruct-4bit".to_string());

    assert!(is_model_installed_mlx(
        "meta-llama/Llama-3.1-8B-Instruct",
        &installed
    ));
    // Should not match unrelated model
    assert!(!is_model_installed_mlx(
        "Qwen/Qwen2.5-7B-Instruct",
        &installed
    ));
}

#[test]
fn test_is_model_installed_mlx() {
    let mut installed = NameSet::new();
    installed.insert("qwen2.5-coder-14b-instruct-8bit".to_string());

    assert!(is_model_installed_mlx(
        "Qwen/Qwen2.5-Coder-14B-Instruct",
        &installed
    ));
    assert!(!is_model_installed_mlx(
        "Qwen/Qwen2.5-14B-Instruct",
        &installed
    ));
}

#[test]
fn test_hf_name_to_lmstudio_candidates_full_repo() {
    let candidates = hf_name_to_lmstudio_candidates("lmstudio-community/Qwen3-1.7B-GGUF");
    assert!(candidates.contains(&"lmstudio-community/qwen3-1.7b-gguf".to_string()));
    assert!(candidates.contains(&"qwen3-1.7b-gguf".to_string()));
}

#[test]
fn test_hf_name_to_lmstudio_candidates_strips_suffixes() {
    let candidates = hf_name_to_lmstudio_candidates("meta-llama/Llama-3-8B-Instruct");
    assert!(candidates.contains(&"meta-llama/llama-3-8b-instruct".to_string()));
    assert!(candidates.contains(&"llama-3-8b-instruct".to_string()));
    // Stripped variant (without -instruct)
    assert!(candidates.contains(&"llama-3-8b".to_string()));
}

#[test]
fn test_hf_name_to_lmstudio_candidates_bare_name() {
    let candidates = hf_name_to_lmstudio_candidates("qwen3");
    assert!(candidates.contains(&"qwen3".to_string()));
    // No slash, so repo == full name — no duplicate
    assert_eq!(candidates.len(), 1);
}

#[test]
fn test_is_model_installed_mlx_with_owner_prefixed_repo_id() {
    let mut installed = NameSet::new();
    installed.insert("lmstudio-community/qwen3-coder-30b-a3b-instruct-mlx-8bit".to_string());

    assert!(is_model_installed_mlx(
        "lmstudio-community/Qwen3-Coder-30B-A3B-Instruct-MLX-8bit",
        &installed
    ));
}

#[test]
fn test_qwen_coder_14b_matches_coder_entry() {
    // "qwen2.5-coder:14b" from `ollama list` should match
    // the HF entry "Qwen/Qwen2.5-Coder-14B-Instruct", NOT
    // the base "Qwen/Qwen2.5-14B-Instruct".
    let mut installed = NameSet::new();
    installed.insert("qwen2.5-coder:14b".to_string());
    installed.insert("qwen2.5-coder".to_string());

    assert!(is_model_installed(
        "Qwen/Qwen2.5-Coder-14B-Instruct",
        &installed
    ));
    // Must NOT match the non-coder model
    assert!(!is_model_installed("Qwen/Qwen2.5-14B-Instruct", &installed));
}

#[test]
fn test_qwen_base_does_not_match_coder() {
    // "qwen2.5:14b" from `ollama list` should match the base model,
    // not the coder variant.
    let mut installed = NameSet::new();
    installed.insert("qwen2.5:14b".to_string());
    installed.insert("qwen2.5".to_string());

    assert!(is_model_installed("Qwen/Qwen2.5-14B-Instruct", &installed));
    assert!(!is_model_installed(
        "Qwen/Qwen2.5-Coder-14B-Instruct",
        &installed
    ));
}

#[test]
fn test_installed_variant_suffix_matches_ollama_candidate() {
    // Real-world `ollama list` may include variant suffixes that still map
    // to the canonical pull tag in the table.
    let mut installed = NameSet::new();
    installed.insert("qwen2.5-coder:7b-instruct".to_string());

    assert!(is_model_installed(
        "Qwen/Qwen2.5-Coder-7B-Instruct",
        &installed
    ));
}

#[test]
fn test_candidates_for_coder_model() {
    let candidates = hf_name_to_ollama_candidates("Qwen/Qwen2.5-Coder-14B-Instruct");
    assert!(candidates.contains(&"qwen2.5-coder:14b".to_string()));
}

#[test]
fn test_candidates_for_base_model() {
    let candidates = hf_name_to_ollama_candidates("Qwen/Qwen2.5-14B-Instruct");
    assert!(candidates.contains(&"qwen2.5:14b".to_string()));
}

#[test]
fn test_qwen3_8_resolves_to_its_ollama_tag() {
    assert_eq!(
        hf_name_to_ollama_candidates("Qwen/Qwen3.8-27B"),
        vec!["qwen3.8:27b".to_string()]
    );
}

#[test]
fn test_gemma3_family_resolves_to_its_ollama_tags() {
    for (hf_name, tag) in [
        ("google/gemma-3-1b-it", "gemma3:1b"),
        ("google/gemma-3-4b-it", "gemma3:4b"),
        ("google/gemma-3-12b-it", "gemma3:12b"),
        ("google/gemma-3-27b-it", "gemma3:27b"),
    ] {
        assert_eq!(
            hf_name_to_ollama_candidates(hf_name),
            vec![tag.to_string()],
            "candidates for {hf_name}"
        );
        assert!(has_ollama_mapping(hf_name), "mapping for {hf_name}");
        let installed = names(&[tag]);
        assert!(
            is_model_installed(hf_name, &installed),
            "install of {tag} must mark {hf_name} installed"
        );
    }
}

#[test]
fn test_llama_mapping() {
    let candidates = hf_name_to_ollama_candidates("meta-llama/Llama-3.1-8B-Instruct");
    assert!(candidates.contains(&"llama3.1:8b".to_string()));
}

#[test]
fn test_deepseek_coder_mapping() {
    let candidates =
        hf_name_to_ollama_candidates("deepseek-ai/DeepSeek-Coder-V2-Lite-Instruct");
    assert!(candidates.contains(&"deepseek-coder-v2:16b".to_string()));
}

#[test]
fn test_normalize_ollama_host_with_scheme() {
    assert_eq!(
        normalize_ollama_host("https://ollama.example.com:11434"),
        Some("https://ollama.example.com:11434".to_string())
    );
}

#[test]
fn test_normalize_ollama_host_without_scheme() {
    assert_eq!(
        normalize_ollama_host("ollama.example.com:11434"),
        Some("http://ollama.example.com:11434".to_string())
    );
}

#[test]
fn test_normalize_ollama_host_rejects_unsupported_scheme() {
    assert_eq!(
        normalize_ollama_host("ftp://ollama.example.com:11434"),
        None
    );
}

#[test]
fn test_is_wildcard_bind_address_ipv4() {
    assert!(is_wildcard_bind_address("0.0.0.0"));
    assert!(is_wildcard_bind_address("0.0.0.0:11434"));
    assert!(is_wildcard_bind_address("http://0.0.0.0"));
    assert!(is_wildcard_bind_address("http://0.0.0.0:11434"));
    assert!(is_wildcard_bind_address("https://0.0.0.0:11434"));
    assert!(is_wildcard_bind_address("http://0.0.0.0:11434/api/tags"));
}

#[test]
fn test_is_wildcard_bind_address_ipv6() {
    assert!(is_wildcard_bind_address("[::]"));
    assert!(is_wildcard_bind_address("[::]:11434"));
    assert!(is_wildcard_bind_address("http://[::]:11434"));
    assert!(is_wildcard_bind_address("http://[0:0:0:0:0:0:0:0]:11434"));
}

#[test]
fn test_is_wildcard_bind_address_rejects_routable_hosts() {
    assert!(!is_wildcard_bind_address("localhost"));
    assert!(!is_wildcard_bind_address("http://localhost:11434"));
    assert!(!is_wildcard_bind_address("127.0.0.1"));
    assert!(!is_wildcard_bind_address("http://127.0.0.1:11434"));
    assert!(!is_wildcard_bind_address("http://[::1]:11434"));
    assert!(!is_wildcard_bind_address("http://ollama.example.com:11434"));
    // Hostnames or IPs that merely contain "0.0.0.0" as a substring must not match.
    assert!(!is_wildcard_bind_address("http://10.0.0.0.example.com"));
    assert!(!is_wildcard_bind_address("http://10.0.0.1:11434"));
}

#[test]
fn test_is_model_installed_llamacpp_exact() {
    let mut installed = NameSet::new();
    installed.insert("llama-3.1-8b-instruct".to_string());
    assert!(is_model_installed_llamacpp(
        "meta-llama/Llama-3.1-8B-Instruct",
        &installed
    ));
}

#[test]
fn test_is_model_installed_llamacpp_stripped_suffixes() {
    let mut installed = NameSet::new();
    installed.insert("llama-3.1-8b".to_string());
    assert!(is_model_installed_llamacpp(
        "meta-llama/Llama-3.1-8B-Instruct",
        &installed
    ));
}

#[test]
fn test_strip_gguf_quant_suffix_unsloth_ud_marker() {
    // Unsloth "Dynamic" GGUFs carry a `-ud` marker before the quant; it
    // must be stripped alongside the quant so the stem reduces to the
    // canonical model name.
    assert_eq!(
        strip_gguf_quant_suffix("qwen3.6-35b-a3b-ud-q4_k_m").as_deref(),
        Some("qwen3.6-35b-a3b")
    );
    // Non-Unsloth files are unaffected.
    assert_eq!(
        strip_gguf_quant_suffix("qwen2.5-7b-instruct-q4_k_m").as_deref(),
        Some("qwen2.5-7b-instruct")
    );
}

#[test]
fn test_strip_gguf_quant_suffix_covers_every_k_and_i_variant() {
    // Publishers ship far more variants than Q4_K_M: bartowski `_L`,
    // Unsloth Dynamic `_XL`, and the IQ family's `_NL`/`_XS`/`_XXS`.
    // Every one must reduce to the same base name.
    for stem in [
        "mymodel-q3_k_l",
        "mymodel-q4_k_l",
        "mymodel-q4_k_xl",
        "mymodel-q5_k_xl",
        "mymodel-q6_k_l",
        "mymodel-q8_k_xl",
        "mymodel-iq4_nl",
        "mymodel-iq4_xs",
        "mymodel-iq3_xxs",
        "mymodel-iq2_m",
        // Same set behind the Unsloth `-ud` marker.
        "mymodel-ud-q4_k_xl",
        "mymodel-ud-iq4_nl",
    ] {
        assert_eq!(
            strip_gguf_quant_suffix(stem).as_deref(),
            Some("mymodel"),
            "failed to strip quant from {stem}"
        );
    }
}

#[test]
fn test_tag_matches_model_unsloth_dynamic_quants() {
    // Community submissions record the on-disk file name verbatim. These
    // three tags from the NVIDIA GB10 set were silently dropped
    // during lookup because their quants had no matching pattern.
    assert!(tag_matches_model(
        "Step-3.7-Flash-UD-IQ4_NL.gguf",
        "stepfun-ai/Step-3.7-Flash"
    ));
    assert!(tag_matches_model(
        "Qwen-AgentWorld-35B-A3B-UD-Q4_K_XL.gguf",
        "Qwen/Qwen-AgentWorld-35B-A3B"
    ));
    assert!(tag_matches_model(
        "LFM2.5-8B-A1B-UD-Q4_K_XL.gguf",
        "LiquidAI/LFM2.5-8B-A1B"
    ));
}

#[test]
fn test_is_model_installed_llamacpp_unsloth_ud() {
    // `Qwen3.6-35B-A3B-UD-Q4_K_M.gguf` on disk yields these set entries
    // (see `installed_models_counted`) and must mark the catalog model as
    // installed despite the embedded `-ud` marker.
    let installed = names(&["qwen3.6-35b-a3b-ud-q4_k_m", "qwen3.6-35b-a3b"]);
    assert!(is_model_installed_llamacpp(
        "Qwen/Qwen3.6-35B-A3B",
        &installed
    ));
}

#[test]
fn test_tag_matches_model_unsloth_ud_gguf() {
    // End-to-end: a llama-server serving an Unsloth UD GGUF reports the
    // file name as the model id; it must match the catalog HF name so the
    // model is benchmarkable (regression: `-ud` broke the exact stem match).
    assert!(tag_matches_model(
        "Qwen3.6-35B-A3B-UD-Q4_K_M.gguf",
        "Qwen/Qwen3.6-35B-A3B"
    ));
}

#[test]
fn test_strip_mlx_quant_suffix_patterns() {
    // Plain bit-widths.
    assert_eq!(
        strip_mlx_quant_suffix("llama-3.2-1b-instruct-4bit").as_deref(),
        Some("llama-3.2-1b-instruct")
    );
    assert_eq!(
        strip_mlx_quant_suffix("internlm2_5-20b-chat-8bit").as_deref(),
        Some("internlm2_5-20b-chat")
    );
    assert_eq!(
        strip_mlx_quant_suffix("phi-4-2bit").as_deref(),
        Some("phi-4")
    );
    assert_eq!(
        strip_mlx_quant_suffix("gemma-2-2b-it-6bit").as_deref(),
        Some("gemma-2-2b-it")
    );
    // Variant markers after the bit-width, including date-stamped DWQ.
    assert_eq!(
        strip_mlx_quant_suffix("meta-llama-3.1-8b-instruct-4bit-dwq").as_deref(),
        Some("meta-llama-3.1-8b-instruct")
    );
    assert_eq!(
        strip_mlx_quant_suffix("qwen3-8b-4bit-dwq-05082025").as_deref(),
        Some("qwen3-8b")
    );
    // Compound schemes stripped as whole units.
    assert_eq!(
        strip_mlx_quant_suffix("gpt-oss-20b-mxfp4-q4").as_deref(),
        Some("gpt-oss-20b")
    );
    assert_eq!(
        strip_mlx_quant_suffix("mistral-7b-v0.1-fp16").as_deref(),
        Some("mistral-7b-v0.1")
    );
    // odd bit-widths and mxfp4 variant markers.
    assert_eq!(
        strip_mlx_quant_suffix("minimax-m2.1-3bit").as_deref(),
        Some("minimax-m2.1")
    );
    assert_eq!(
        strip_mlx_quant_suffix("glm-5.2-mxfp4").as_deref(),
        Some("glm-5.2")
    );
    assert_eq!(
        strip_mlx_quant_suffix("gpt-oss-20b-mxfp4-q8").as_deref(),
        Some("gpt-oss-20b")
    );
    assert_eq!(
        strip_mlx_quant_suffix("gpt-oss-120b-mxfp4-bf16").as_deref(),
        Some("gpt-oss-120b")
    );
    // trailing -mlx marker stripped once the quant is gone.
    assert_eq!(
        strip_mlx_quant_suffix("qwen3-coder-30b-a3b-instruct-mlx-8bit").as_deref(),
        Some("qwen3-coder-30b-a3b-instruct")
    );
    assert_eq!(
        strip_mlx_quant_suffix("bge-m3-mlx-fp16").as_deref(),
        Some("bge-m3")
    );
    assert_eq!(
        strip_mlx_quant_suffix("bge-m3-mlx").as_deref(),
        Some("bge-m3")
    );
    // Mid-name fragments and bare widths are not suffixes.
    assert_eq!(strip_mlx_quant_suffix("some-4bitish-model"), None);
    assert_eq!(strip_mlx_quant_suffix("4bit"), None);
    assert_eq!(strip_mlx_quant_suffix("-4bit"), None);
}

#[test]
fn test_tag_matches_model_mlx_community_tags() {
    // End-to-end: verbatim `model` tags from the apple-m4-pro MLX
    // community submissions must resolve to their catalog HF
    // names, exactly like GGUF stems do .
    assert!(tag_matches_model(
        "Llama-3.2-1B-Instruct-4bit",
        "meta-llama/Llama-3.2-1B-Instruct"
    ));
    assert!(tag_matches_model("Qwen3-14B-4bit", "Qwen/Qwen3-14B"));
    assert!(tag_matches_model(
        "gpt-oss-20b-MXFP4-Q4",
        "openai/gpt-oss-20b"
    ));
    // compound mxfp4 markers and the -mlx infix now resolve too.
    assert!(tag_matches_model(
        "gpt-oss-20b-MXFP4-Q8",
        "openai/gpt-oss-20b"
    ));
    assert!(tag_matches_model(
        "Qwen3-Coder-30B-A3B-Instruct-MLX-8bit",
        "Qwen/Qwen3-Coder-30B-A3B-Instruct"
    ));
    // One model's basename must not match another model.
    assert!(!tag_matches_model(
        "Qwen3-8B-4bit",
        "meta-llama/Llama-3.2-1B-Instruct"
    ));
}

#[test]
fn test_is_model_installed_llamacpp_not_installed() {
    let installed = NameSet::new();
    assert!(!is_model_installed_llamacpp(
        "meta-llama/Llama-3.1-8B-Instruct",
        &installed
    ));
}

#[test]
fn test_is_model_installed_llamacpp_no_family_false_positives() {
    // A single "gemma-3.Q8_0.gguf" on disk yields these stems — it must
    // mark ONLY repos actually named "gemma-3" as installed, not the
    // whole gemma-3 family (regression: substring matching ticked every
    // gemma-3-* model in the table).
    let installed = names(&["gemma-3.q8_0", "gemma-3"]);
    assert!(is_model_installed_llamacpp(
        "tiny-random/gemma-3",
        &installed
    ));
    assert!(!is_model_installed_llamacpp(
        "google/gemma-3-27b-it",
        &installed
    ));
    assert!(!is_model_installed_llamacpp(
        "google/gemma-3-4b-it",
        &installed
    ));
    assert!(!is_model_installed_llamacpp(
        "unsloth/gemma-3-270m-it",
        &installed
    ));
}

#[test]
fn test_has_ollama_mapping_known() {
    assert!(has_ollama_mapping("meta-llama/Llama-3.1-8B-Instruct"));
    assert!(has_ollama_mapping("Qwen/Qwen2.5-7B-Instruct"));
}

#[test]
fn test_has_ollama_mapping_unknown() {
    assert!(!has_ollama_mapping("totally-unknown/model-xyz"));
}

#[test]
fn test_ollama_installed_matches_exact() {
    assert!(ollama_installed_matches_candidate(
        "llama3.1:8b",
        "llama3.1:8b",
        None
    ));
}

#[test]
fn test_ollama_installed_matches_variant_suffix() {
    assert!(ollama_installed_matches_candidate(
        "llama3.1:8b-instruct-q4_K_M",
        "llama3.1:8b",
        None
    ));
}

#[test]
fn test_ollama_installed_no_match() {
    assert!(!ollama_installed_matches_candidate(
        "qwen2.5:7b",
        "llama3.1:8b",
        None
    ));
}

#[test]
fn test_sized_family_tag_does_not_mark_much_larger_model_installed() {
    // `deepseek-r1` is the mapped tag for the 684B original *and* the
    // family prefix of the 14B distill. Having the distill must not claim
    // the 397 GB model is on disk.
    let installed = deepseek_14b_installed();
    assert!(!is_model_installed_sized(
        "deepseek-ai/DeepSeek-R1",
        Some(684_500),
        &installed
    ));
    assert!(!is_model_installed_sized(
        "deepseek-ai/DeepSeek-R1-0528",
        Some(684_500),
        &installed
    ));
}

#[test]
fn test_sized_family_tag_still_matches_the_model_it_belongs_to() {
    let installed = deepseek_14b_installed();
    // The distill maps to `deepseek-r1:14b` outright.
    assert!(is_model_installed_sized(
        "deepseek-ai/DeepSeek-R1-Distill-Qwen-14B",
        Some(14_800),
        &installed
    ));
    // And the real 684B model is matched by a tag of its own size.
    let mut big = NameSet::new();
    big.insert("deepseek-r1:671b".to_string());
    assert!(is_model_installed_sized(
        "deepseek-ai/DeepSeek-R1",
        Some(684_500),
        &big
    ));
}

#[test]
fn test_size_rounding_in_tags_still_matches() {
    // Ollama tags round: phi4:14b is a 14.7B model, qwq:32b is 32.8B.
    let mut installed = NameSet::new();
    installed.insert("phi4:14b".to_string());
    installed.insert("qwq:32b".to_string());
    assert!(is_model_installed_sized(
        "microsoft/phi-4",
        Some(14_700),
        &installed
    ));
    assert!(is_model_installed_sized(
        "Qwen/QwQ-32B",
        Some(32_800),
        &installed
    ));
}

#[test]
fn test_unknown_catalog_size_stays_permissive() {
    // With no parameter count recorded there is nothing to compare, so
    // behaviour must be exactly what it was before the size check.
    let installed = deepseek_14b_installed();
    assert!(is_model_installed_sized(
        "deepseek-ai/DeepSeek-R1",
        None,
        &installed
    ));
    assert!(is_model_installed("deepseek-ai/DeepSeek-R1", &installed));
}

#[test]
fn test_hf_name_to_mlx_candidates_bare_model_name() {
    let candidates = hf_name_to_mlx_candidates("Phi-4");
    assert!(candidates.iter().any(|c| c.contains("phi-4")));
    assert!(candidates.iter().any(|c| c.ends_with("-4bit")));
}

#[test]
fn test_hf_name_to_mlx_candidates_no_duplicates() {
    let candidates = hf_name_to_mlx_candidates("meta-llama/Llama-3.1-8B-Instruct");
    let unique: HashSet<_> = candidates.iter().collect();
    assert_eq!(
        unique.len(),
        candidates.len(),
        "candidates should have no duplicates: {:?}",
        candidates
    );
}

#[test]
fn test_hf_name_to_ollama_candidates_unknown_generates_fallback() {
    // Models without an explicit mapping should still generate
    // heuristic candidates so installed detection has something to match.
    let candidates = hf_name_to_ollama_candidates("totally-unknown/model-xyz");
    assert!(
        !candidates.is_empty(),
        "fallback candidate generation should produce at least one entry"
    );
    // All candidates should be lowercased
    for c in &candidates {
        assert_eq!(c, &c.to_lowercase(), "candidate should be lowercase: {c}");
    }
}

#[test]
fn test_hf_name_to_ollama_candidates_multiple_models() {
    // Test a variety of known models
    assert!(!hf_name_to_ollama_candidates("meta-llama/Llama-3.1-8B-Instruct").is_empty());
    assert!(!hf_name_to_ollama_candidates("Qwen/Qwen2.5-Coder-7B-Instruct").is_empty());
    assert!(!hf_name_to_ollama_candidates("google/gemma-2-9b-it").is_empty());
}

#[test]
fn test_split_name_and_size_basic() {
    assert_eq!(
        split_name_and_size("qwen2.5-coder-14b"),
        Some(("qwen2.5-coder", "14b"))
    );
}

#[test]
fn test_split_name_and_size_moe() {
    assert_eq!(
        split_name_and_size("qwen3-coder-30b-a3b"),
        Some(("qwen3-coder", "30b-a3b"))
    );
}

#[test]
fn test_split_name_and_size_no_size() {
    // "phi-4" has no "b" suffix — "4" is not a size tag
    assert_eq!(split_name_and_size("phi-4"), None);
}

#[test]
fn test_split_name_and_size_deepseek() {
    assert_eq!(
        split_name_and_size("deepseek-r1-distill-qwen-32b"),
        Some(("deepseek-r1-distill-qwen", "32b"))
    );
}

#[test]
fn test_split_name_and_size_fractional() {
    assert_eq!(split_name_and_size("qwen3-1.7b"), Some(("qwen3", "1.7b")));
}

#[test]
fn test_fallback_ollama_candidates_match_installed() {
    // Simulate a model NOT in the table but running in Ollama
    let candidates = hf_name_to_ollama_candidates("SomeOrg/CoolModel-13B-Instruct");
    // Should generate "coolmodel:13b" as a candidate
    assert!(
        candidates.contains(&"coolmodel:13b".to_string()),
        "expected 'coolmodel:13b' in candidates: {:?}",
        candidates
    );

    // Verify it matches against an installed set
    let mut installed = NameSet::new();
    installed.insert("coolmodel:13b".to_string());
    installed.insert("coolmodel".to_string());
    assert!(is_model_installed(
        "SomeOrg/CoolModel-13B-Instruct",
        &installed
    ));
}

#[test]
fn test_fallback_ollama_moe_candidate() {
    // Use a fictitious MoE model that is NOT in the table
    let candidates = hf_name_to_ollama_candidates("FakeOrg/FakeModel-30B-A3B-Instruct");
    assert!(
        candidates.contains(&"fakemodel:30b-a3b".to_string()),
        "expected 'fakemodel:30b-a3b' in candidates: {:?}",
        candidates
    );
}

#[test]
fn test_installed_hf_name_direct_match() {
    // /api/v1/installed returns the full HF name lowercased
    let mut installed = NameSet::new();
    installed.insert("deepseek-ai/deepseek-r1-distill-qwen-32b".to_string());
    assert!(is_model_installed(
        "deepseek-ai/DeepSeek-R1-Distill-Qwen-32B",
        &installed
    ));
}

#[test]
fn test_docker_mr_catalog_parses() {
    // The embedded catalog should parse without errors
    let catalog = docker_mr_catalog();
    assert!(!catalog.is_empty(), "Docker MR catalog should not be empty");
}

#[test]
fn test_docker_mr_pull_tag_returns_ai_prefixed() {
    let tag = docker_mr_pull_tag("meta-llama/Llama-3.1-70B-Instruct");
    assert!(tag.is_some());
    assert!(tag.unwrap().starts_with("ai/"));
}

#[test]
fn test_docker_mr_candidates_includes_ai_prefix() {
    let candidates = hf_name_to_docker_mr_candidates("meta-llama/Llama-3.1-70B-Instruct");
    assert!(candidates.iter().any(|c| c.starts_with("ai/")));
}

#[test]
fn test_docker_mr_candidates_unknown_returns_empty() {
    let candidates = hf_name_to_docker_mr_candidates("totally-unknown/model-xyz");
    assert!(candidates.is_empty());
}

#[test]
fn test_is_model_installed_docker_mr_exact() {
    let mut installed = NameSet::new();
    installed.insert("ai/llama3.1:70b".to_string());
    installed.insert("llama3.1:70b".to_string());
    installed.insert("llama3.1".to_string());
    assert!(is_model_installed_docker_mr(
        "meta-llama/Llama-3.1-70B-Instruct",
        &installed
    ));
}

#[test]
fn test_is_model_installed_docker_mr_variant_suffix() {
    let mut installed = NameSet::new();
    installed.insert("ai/llama3.1:70b-q4_k_m".to_string());
    assert!(is_model_installed_docker_mr(
        "meta-llama/Llama-3.1-70B-Instruct",
        &installed
    ));
}

#[test]
fn test_is_model_installed_docker_mr_not_installed() {
    let installed = NameSet::new();
    assert!(!is_model_installed_docker_mr(
        "meta-llama/Llama-3.1-70B-Instruct",
        &installed
    ));
}

#[test]
fn test_normalize_docker_mr_host_with_scheme() {
    assert_eq!(
        normalize_docker_mr_host("https://docker.example.com:12434"),
        Some("https://docker.example.com:12434".to_string())
    );
}

#[test]
fn test_normalize_docker_mr_host_without_scheme() {
    assert_eq!(
        normalize_docker_mr_host("docker.example.com:12434"),
        Some("http://docker.example.com:12434".to_string())
    );
}

#[test]
fn test_normalize_docker_mr_host_rejects_unsupported_scheme() {
    assert_eq!(
        normalize_docker_mr_host("ftp://docker.example.com:12434"),
        None
    );
}

#[test]
fn test_hf_name_to_vllm_candidates() {
    let candidates = hf_name_to_vllm_candidates("meta-llama/Llama-3.1-8B-Instruct");
    assert!(
        candidates
            .iter()
            .any(|c| c == "meta-llama/llama-3.1-8b-instruct")
    );
    assert!(candidates.iter().any(|c| c == "llama-3.1-8b-instruct"));
    // stripped variant (without -instruct)
    assert!(candidates.iter().any(|c| c == "llama-3.1-8b"));
}

#[test]
fn test_is_model_installed_vllm() {
    let mut installed = NameSet::new();
    installed.insert("meta-llama/llama-3.1-8b-instruct".to_string());
    assert!(is_model_installed_vllm(
        "meta-llama/Llama-3.1-8B-Instruct",
        &installed
    ));
    assert!(!is_model_installed_vllm(
        "meta-llama/Llama-3.1-70B-Instruct",
        &installed
    ));
}

#[test]
fn test_normalize_vllm_host_with_scheme() {
    assert_eq!(
        normalize_vllm_host("http://myhost:8000"),
        Some("http://myhost:8000".to_string())
    );
}

#[test]
fn test_normalize_vllm_host_without_scheme() {
    assert_eq!(
        normalize_vllm_host("myhost:8000"),
        Some("http://myhost:8000".to_string())
    );
}

#[test]
fn test_normalize_vllm_host_rejects_unsupported_scheme() {
    assert_eq!(normalize_vllm_host("ftp://myhost:8000"), None);
}

#[test]
fn test_normalize_vllm_host_empty() {
    assert_eq!(normalize_vllm_host(""), None);
    assert_eq!(normalize_vllm_host("  "), None);
}

#[test]
fn test_hf_name_to_ramalama_candidates() {
    let candidates = hf_name_to_ramalama_candidates("meta-llama/Llama-3.1-8B-Instruct");
    assert!(
        candidates
            .iter()
            .any(|c| c == "meta-llama/llama-3.1-8b-instruct")
    );
    assert!(candidates.iter().any(|c| c == "llama-3.1-8b-instruct"));
    // stripped variant (without -instruct)
    assert!(candidates.iter().any(|c| c == "llama-3.1-8b"));
}

#[test]
fn test_is_model_installed_ramalama() {
    let mut installed = NameSet::new();
    installed.insert("meta-llama/llama-3.1-8b-instruct".to_string());
    assert!(is_model_installed_ramalama(
        "meta-llama/Llama-3.1-8B-Instruct",
        &installed
    ));
    assert!(!is_model_installed_ramalama(
        "meta-llama/Llama-3.1-70B-Instruct",
        &installed
    ));
}

#[test]
fn test_parse_ramalama_store_extracts_names() {
    let json = br#"[
        {"shortname":"granite","name":"ollama://granite-code:8b","modified":"2026-01-01","size":123},
        {"shortname":"","name":"huggingface://meta-llama/Llama-3.1-8B-Instruct","modified":"2026-01-01","size":456}
    ]"#;
    let (set, count) = parse_ramalama_store(json).expect("valid json parses");
    assert_eq!(count, 2);
    // Full transport-qualified names, lowercased.
    assert!(set.contains("ollama://granite-code:8b"));
    assert!(set.contains("huggingface://meta-llama/llama-3.1-8b-instruct"));
    // Trailing path components, for substring matching.
    assert!(set.contains("granite-code:8b"));
    assert!(set.contains("llama-3.1-8b-instruct"));
    // Shortname included when present.
    assert!(set.contains("granite"));
}

#[test]
fn test_parse_ramalama_store_matches_hf_model() {
    let json = br#"[{"shortname":"","name":"huggingface://meta-llama/Llama-3.1-8B-Instruct","modified":"x","size":1}]"#;
    let (set, _) = parse_ramalama_store(json).expect("valid json parses");
    // Store-detected models resolve through the same matcher as the server path.
    assert!(is_model_installed_ramalama(
        "meta-llama/Llama-3.1-8B-Instruct",
        &set
    ));
}

#[test]
fn test_parse_ramalama_store_empty_and_invalid() {
    let (set, count) = parse_ramalama_store(b"[]").expect("empty array parses");
    assert_eq!(count, 0);
    assert!(set.is_empty());
    assert!(parse_ramalama_store(b"not json").is_none());
}

#[test]
fn test_normalize_ramalama_host_with_scheme() {
    assert_eq!(
        normalize_ramalama_host("http://myhost:8080"),
        Some("http://myhost:8080".to_string())
    );
}

#[test]
fn test_normalize_ramalama_host_without_scheme() {
    assert_eq!(
        normalize_ramalama_host("myhost:8080"),
        Some("http://myhost:8080".to_string())
    );
}

#[test]
fn test_normalize_ramalama_host_rejects_unsupported_scheme() {
    assert_eq!(normalize_ramalama_host("ftp://myhost:8080"), None);
}

#[test]
fn test_normalize_ramalama_host_empty() {
    assert_eq!(normalize_ramalama_host(""), None);
    assert_eq!(normalize_ramalama_host("  "), None);
}

#[test]
fn test_ollama_build_installed_set_skips_cloud_models() {
    let models = vec![
        ollama_entry("qwen3-coder:480b-cloud", 0), // cloud: -cloud suffix + size 0
        ollama_entry("gpt-oss:120b-cloud", 0),     // cloud
        ollama_entry("llama3.1:8b-instruct-q4_K_M", 4_700_000_000), // local
    ];

    let (set, count) = build_installed_set(models);

    // Only the local model is counted and inserted.
    assert_eq!(count, 1, "cloud models must not count as installed");
    assert!(set.contains("llama3.1:8b-instruct-q4_k_m"));
    // The tag is sized, so no family stem — see .
    assert!(!set.contains("llama3.1"));

    // The cloud family stem must NOT leak in — that was the false positive.
    assert!(
        !set.contains("qwen3-coder"),
        "cloud family stem must not mark unrelated models installed"
    );
    assert!(!set.contains("gpt-oss"));
    assert!(!set.contains("qwen3-coder:480b-cloud"));
}

#[test]
fn test_ollama_is_cloud_detection() {
    assert!(ollama_entry("qwen3-coder:480b-cloud", 0).is_cloud());

    // A local model with a real on-disk size is not cloud.
    assert!(!ollama_entry("llama3.1:8b", 4_700_000_000).is_cloud());

    // Defensive: a zero-size entry is treated as not-local even without the suffix.
    assert!(ollama_entry("mystery:latest", 0).is_cloud());
}

#[test]
fn sized_install_does_not_mark_the_family_installed() {
    // The report: three models installed, dozens shown as installed.
    let (installed, _) = build_installed_set(vec![ollama_entry_sized("qwen3:8b", "8.2B")]);

    assert!(is_model_installed("Qwen/Qwen3-8B", &installed));
    for sibling in [
        "Qwen/Qwen3-0.6B",
        "Qwen/Qwen3-4B",
        "Qwen/Qwen3-32B",
        "Qwen/Qwen3-235B-A22B-Instruct-2507",
        "unsloth/Qwen3-30B-A3B-GGUF",
    ] {
        assert!(
            !is_model_installed(sibling, &installed),
            "{sibling} must not look installed because qwen3:8b is"
        );
    }
}

#[test]
fn latest_install_resolves_to_its_parameter_size() {
    // `ollama pull qwen3` leaves a `:latest` tag whose size only the
    // reported parameter count reveals.
    let (installed, _) = build_installed_set(vec![ollama_entry_sized("qwen3:latest", "8.2B")]);

    assert!(installed.contains("qwen3:8b"));
    assert!(is_model_installed("Qwen/Qwen3-8B", &installed));
    assert!(!is_model_installed("Qwen/Qwen3-32B", &installed));
}

#[test]
fn latest_install_without_a_parameter_size_stays_family_level() {
    // No parameter count to work with: the family stem is all we have, and
    // it only matches catalog entries that carry no size of their own.
    let (installed, _) = build_installed_set(vec![ollama_entry("qwq:latest", 4_700_000_000)]);

    assert!(is_model_installed("Qwen/QwQ-32B", &installed));
}

#[test]
fn sizeless_mapping_still_matches_a_sized_install() {
    // `the table` resolves microsoft/phi-4 to the size-less tag
    // `phi4`, which Ollama stores as `phi4:14b`.
    let (installed, _) = build_installed_set(vec![ollama_entry_sized("phi4:14b", "14.7B")]);

    assert!(is_model_installed("microsoft/phi-4", &installed));
}

#[test]
fn every_mapped_model_is_still_detected_from_its_own_tag() {
    // Narrowing what counts as installed must not cost us any model in the
    // authoritative table: pulling exactly the tag a model maps to has to
    // mark that model, and only that model, installed.
    for (hf_suffix, tag) in ollama_mappings() {
        let (installed, _) = build_installed_set(vec![ollama_entry(tag, 4_700_000_000)]);
        assert!(
            is_model_installed(hf_suffix, &installed),
            "{hf_suffix} not detected from its own tag {tag}"
        );
    }
}

#[test]
fn parameter_size_yields_marketing_and_verbatim_tags() {
    // Most tags carry the marketing size: qwen2.5:14b reports "14.8B".
    assert_eq!(size_tokens_from_parameter_size("14.8B"), ["14b", "14.8b"]);
    assert_eq!(size_tokens_from_parameter_size("8.2B"), ["8b", "8.2b"]);
    // Decimal-tagged families (solar:10.7b) need the verbatim form.
    assert_eq!(size_tokens_from_parameter_size("10.7B"), ["10b", "10.7b"]);
    // A whole number yields one token, not a duplicate.
    assert_eq!(size_tokens_from_parameter_size("8B"), ["8b"]);
    // Sub-1B counts are reported in M and have no usable tag form.
    assert!(size_tokens_from_parameter_size("596.05M").is_empty());
    assert!(size_tokens_from_parameter_size("").is_empty());
}

#[test]
fn latest_install_of_a_decimal_tagged_family_is_detected() {
    // `solar:latest` is `solar:10.7b`; the truncated "10b" alias alone
    // would miss it.
    let (installed, _) = build_installed_set(vec![ollama_entry_sized("solar:latest", "10.7B")]);

    assert!(is_model_installed(
        "upstage/SOLAR-10.7B-Instruct-v1.0",
        &installed
    ));
}

#[test]
fn test_ollama_tag_size_parsing() {
    let size = |tag: &str| ollama_tag_size_b(tag).map(|d| d.mantissa as f64 / 10f64.powi(d.scale as i32));
    assert_eq!(size("deepseek-r1:14b"), Some(14.0));
    assert_eq!(size("deepseek-r1:1.5b"), Some(1.5));
    assert_eq!(size("qwen2.5-coder:7b-instruct-q4_K_M"), Some(7.0));
    // No size to read: bare family stem, MoE-style tag, or a plain name.
    assert_eq!(size("glm-4.7-flash"), None);
    assert_eq!(size("mixtral:8x7b"), None);
    assert_eq!(size("deepseek-r1:latest"), None);
}

#[test]
fn each_ollama_row_is_found_under_its_name() {
    for (name, tag) in ollama_mappings() {
        assert_eq!(lookup_ollama_tag(name), Some(tag), "{name}");
        let published = format!("Org/{}", name.to_uppercase());
        assert_eq!(lookup_ollama_tag(&published), Some(tag), "{published}");
        assert_eq!(hf_name_to_ollama_candidates(&published), vec![tag]);
    }
}

#[test]
fn docker_tags_ignore_case() {
    for (name, tag) in docker_mr_catalog() {
        assert_eq!(docker_mr_pull_tag(name).as_deref(), Some(tag));
        assert_eq!(docker_mr_pull_tag(&name.to_uppercase()).as_deref(), Some(tag));
    }
    assert_eq!(docker_mr_pull_tag("nobody/has-this"), None);
}

#[test]
fn no_candidate_is_tried_twice() {
    for name in ["Org/Model-7B-Instruct-Chat-HF", "org/model", "model", "A/B/C-it", "-hf", ""] {
        let candidates = hf_name_to_vllm_candidates(name);
        assert_eq!(candidates[0], name.to_lowercase());
        let once: HashSet<&String> = candidates.iter().collect();
        assert_eq!(once.len(), candidates.len(), "{name}");
    }
}

#[test]
fn stripping_takes_off_what_marking_puts_on() {
    for base in ["llama-3.1-8b-instruct", "m", "qwen3"] {
        assert_eq!(strip_gguf_quant_suffix(base), None);
        for mark in ["-q4_k_m", "-q8_0", "-ud-q4_k_xl", ".q5_k_m"] {
            let marked = format!("{base}{mark}");
            assert_eq!(strip_gguf_quant_suffix(&marked).as_deref(), Some(base), "{marked}");
        }
    }
}

#[test]
fn lmstudio_models_are_found_by_their_name() {
    let mut installed = NameSet::new();
    installed.insert("qwen2.5-7b-instruct".to_string());
    assert!(is_model_installed_lmstudio("Qwen/Qwen2.5-7B-Instruct", &installed));
    assert!(!is_model_installed_lmstudio("Qwen/Qwen2.5-14B-Instruct", &installed));
}

#[test]
fn mlx_candidates_have_no_capital_letters() {
    for name in [
        "meta-llama/Llama-3.1-8B-Instruct",
        "MLX-Community/Foo-Bar-MLX-4bit",
        "Org/Model-7B-Chat-8bit",
        "Plain",
        "A/B/C-It",
    ] {
        let candidates = hf_name_to_mlx_candidates(name);
        assert!(!candidates.is_empty());
        for c in &candidates {
            assert_eq!(*c, c.to_lowercase());
        }
    }
    let base = strip_mlx_quant_suffix("llama-3.2-1b-instruct-4bit").unwrap();
    assert!("llama-3.2-1b-instruct-4bit".contains(&base));
}
