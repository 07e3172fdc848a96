//! What the runtimes answer, and what is made of it.
use llm_panel::json;
use llm_panel::json::Json;
use llm_panel::providers::answers::{
    endpoint_has_omlx_status, is_omlx_status_payload, model_list_from, read_model_list,
    read_tags, HttpAnswer,
};
use llm_panel::providers::disk::{DirEntry, GgufFile};
use llm_panel::providers::hosts::host_is_set;
use llm_panel::providers::openai::{
    classify_openai_endpoint, openai_model_ids, openai_model_list_is_omlx,
    OpenAiEndpointIdentity, OpenAiModelList,
};
use llm_panel::providers::runtimes::{
    is_docker_desktop_running, llama_health_url, DeleteAnswer, DockerAnswers,
    DockerModelRunnerProvider, LlamaCppAnswers, LlamaCppProvider, LmStudioAnswers,
    LmStudioProvider, MlxAnswers, MlxProvider, MlxServerAnswers, ModelProvider, OllamaAnswers,
    OllamaProvider, RamaLamaAnswers, RamaLamaProvider, VllmAnswers, VllmProvider,
};

/// The `/v1/models` body of llama-swap v251.
const LLAMA_SWAP_MODELS_FIXTURE: &str = r#"{"data":[{"id":"llama-3.2-1b-instruct","object":"model","created":1787482072,"owned_by":"llama-swap","meta":{"llamaswap":{"type":"model"}},"status":{"value":"unloaded"}}],"object":"list"}"#;

/// The `/v1/models` body of llama-server build 10520.
const LLAMA_SERVER_MODELS_FIXTURE: &str = r#"{"models":[{"name":"models/Llama-3.2-1B-Instruct-Q4_K_M.gguf","model":"models/Llama-3.2-1B-Instruct-Q4_K_M.gguf","modified_at":"","size":"","digest":"","type":"model","description":"","tags":[""],"capabilities":["completion"],"parameters":"","details":{"parent_model":"","format":"gguf","family":"","families":[""],"parameter_size":"","quantization_level":""}}],"object":"list","data":[{"id":"models/Llama-3.2-1B-Instruct-Q4_K_M.gguf","aliases":["models/Llama-3.2-1B-Instruct-Q4_K_M.gguf"],"tags":[],"object":"model","created":1787482072,"owned_by":"llamacpp","meta":{"vocab_type":2,"n_vocab":128256,"n_ctx":131072,"n_ctx_train":131072,"n_embd":2048,"n_params":1235814432,"size":799862912,"ftype":"Q4_K - Medium"}}]}"#;

/// The `/v1/models` body of mlx_lm.server 0.31.3: no `owned_by` field at all.
const MLX_LM_MODELS_FIXTURE: &str = r#"{"object": "list", "data": [{"id": "mlx-community/Llama-3.2-1B-Instruct-4bit", "object": "model", "created": 1787482072}]}"#;

/// The `/v1/models` body of vLLM 0.28.0.
const VLLM_MODELS_FIXTURE: &str = r#"{"object":"list","data":[{"id":"facebook/opt-125m","object":"model","created":1788290125,"owned_by":"vllm","root":"facebook/opt-125m","parent":null,"max_model_len":512}]}"#;

const FERRUM_MODELS_FIXTURE: &str = r#"{"data":[{"id":"ferrum","owned_by":"ferrum"}]}"#;

/// The `/v1/models` body of Docker Model Runner.
const DOCKER_MR_MODELS_FIXTURE: &str = r#"{"object":"list","data":[{"id":"docker.io/ai/smollm2:360M-Q4_K_M","object":"model","created":1742816981,"owned_by":"docker","dmr":{"architecture":"llama","parameters":"361.82 M","quantization":"IQ2_XXS/Q4_K_M","size":"256.35 MiB"}}]}"#;

/// The `/api/v0/models` body of LM Studio 0.4.23.
const LM_STUDIO_MODELS_FIXTURE: &str = r#"{"data":[{"id":"text-embedding-nomic-embed-text-v1.5","object":"model","type":"embeddings","publisher":"nomic-ai","arch":"nomic-bert","compatibility_type":"gguf","quantization":"Q4_K_M","state":"loaded","max_context_length":2048}],"object":"list"}"#;

const EMPTY_LIST: &str = r#"{"object":"list","data":[]}"#;

fn answer(body: &str) -> Option<HttpAnswer> {
    Some(HttpAnswer { server: None, body: body.as_bytes().to_vec() })
}

fn list_of(body: &str) -> OpenAiModelList {
    match read_model_list(body.as_bytes()) {
        Some(list) => list,
        None => panic!("fixture should parse"),
    }
}

fn document(text: &str) -> Json {
    match json::parse(text.as_bytes()) {
        Some(v) => v,
        None => panic!("document should parse"),
    }
}

#[test]
fn test_omlx_status_payload_detected() {
    let payload = document(
        r#"{"status": "ok", "version": "0.4.4", "models_discovered": 1,
            "model_memory_max": 12649259752, "cache_efficiency": 0.0}"#,
    );
    assert!(is_omlx_status_payload(&payload));
}

#[test]
fn test_omlx_status_payload_rejects_generic_status() {
    let payload = document(r#"{"status": "ok", "version": "1.0.0"}"#);
    assert!(!is_omlx_status_payload(&payload));
}

#[test]
fn test_openai_model_list_detects_omlx_owner() {
    let list = list_of(
        r#"{"object": "list", "data": [{"id": "Qwen2.5-0.5B-Instruct-4bit", "object": "model",
            "owned_by": "omlx", "max_model_len": 32768}]}"#,
    );
    assert!(openai_model_list_is_omlx(&list));
}

#[test]
fn test_openai_model_list_keeps_regular_vllm_available() {
    let list = list_of(
        r#"{"object": "list", "data": [{"id": "meta-llama/Llama-3.1-8B-Instruct",
            "object": "model", "owned_by": "vllm"}]}"#,
    );
    assert!(!openai_model_list_is_omlx(&list));
}

#[test]
fn test_openai_model_list_without_owner_is_not_omlx() {
    let list = list_of(
        r#"{"object": "list", "data": [{"id": "meta-llama/Llama-3.1-8B-Instruct",
            "object": "model"}]}"#,
    );
    assert!(!openai_model_list_is_omlx(&list));
}

#[test]
fn test_classify_openai_endpoint_measured_payloads() {
    let swap = list_of(LLAMA_SWAP_MODELS_FIXTURE);
    assert_eq!(classify_openai_endpoint(None, &swap), OpenAiEndpointIdentity::LlamaSwap);

    let llamacpp = list_of(LLAMA_SERVER_MODELS_FIXTURE);
    assert_eq!(
        classify_openai_endpoint(Some("llama.cpp"), &llamacpp),
        OpenAiEndpointIdentity::LlamaCpp
    );
    // The body alone is enough: the entry carries `owned_by: "llamacpp"`.
    assert_eq!(classify_openai_endpoint(None, &llamacpp), OpenAiEndpointIdentity::LlamaCpp);

    let mlx = list_of(MLX_LM_MODELS_FIXTURE);
    assert_eq!(
        classify_openai_endpoint(Some("BaseHTTP/0.6 Python/3.14.7"), &mlx),
        OpenAiEndpointIdentity::Unrecognized
    );
    // A llama.cpp Server header marks the endpoint even when the body
    // carries no owner, as during model load.
    let empty = list_of(EMPTY_LIST);
    assert_eq!(
        classify_openai_endpoint(Some("llama.cpp"), &empty),
        OpenAiEndpointIdentity::LlamaCpp
    );
    assert_eq!(classify_openai_endpoint(None, &empty), OpenAiEndpointIdentity::Unrecognized);

    let vllm = list_of(VLLM_MODELS_FIXTURE);
    assert_eq!(
        classify_openai_endpoint(Some("uvicorn"), &vllm),
        OpenAiEndpointIdentity::Vllm
    );
    let ferrum = list_of(FERRUM_MODELS_FIXTURE);
    assert_eq!(classify_openai_endpoint(None, &ferrum), OpenAiEndpointIdentity::Ferrum);
    let docker = list_of(DOCKER_MR_MODELS_FIXTURE);
    assert_eq!(
        classify_openai_endpoint(None, &docker),
        OpenAiEndpointIdentity::DockerModelRunner
    );
}

fn mlx_answers(body: &str) -> MlxAnswers {
    MlxAnswers {
        macos: true,
        cached: Vec::new(),
        servers: vec![MlxServerAnswers { status: None, models: answer(body) }],
        python: false,
    }
}

#[test]
fn test_llama_swap_endpoint_not_imported_as_mlx() {
    let provider = MlxProvider::new(Some("http://127.0.0.1:9000"));
    let (_, installed) = provider.detect_with_installed(&mlx_answers(LLAMA_SWAP_MODELS_FIXTURE));
    assert!(!installed.contains("llama-3.2-1b-instruct"));
}

fn ramalama_answers(body: &str) -> RamaLamaAnswers {
    RamaLamaAnswers { models: answer(body), store: None }
}

#[test]
fn test_llama_swap_endpoint_not_imported_as_ramalama() {
    let provider = RamaLamaProvider::new(None);
    let (_, installed, _) =
        provider.detect_with_installed(&ramalama_answers(LLAMA_SWAP_MODELS_FIXTURE));
    assert!(!installed.contains("llama-3.2-1b-instruct"));
}

#[test]
fn test_unmarked_endpoint_still_imported_as_ramalama() {
    let provider = RamaLamaProvider::new(None);
    let (available, installed, count) =
        provider.detect_with_installed(&ramalama_answers(MLX_LM_MODELS_FIXTURE));
    assert!(available);
    assert_eq!(count, 1);
    assert!(installed.contains("mlx-community/llama-3.2-1b-instruct-4bit"));
}

fn vllm_answers(body: &str) -> VllmAnswers {
    // The same body is served on every path.
    VllmAnswers { models: answer(body), status: answer(body) }
}

#[test]
fn test_llama_swap_endpoint_not_imported_as_vllm() {
    let provider = VllmProvider::new(None);
    let (available, installed, count) =
        provider.detect_with_installed(&vllm_answers(LLAMA_SWAP_MODELS_FIXTURE));
    assert!(!available);
    assert_eq!(count, 0);
    assert!(!installed.contains("llama-3.2-1b-instruct"));
}

#[test]
fn test_llama_cpp_endpoint_not_imported_as_vllm() {
    let provider = VllmProvider::new(None);
    let (available, _, count) =
        provider.detect_with_installed(&vllm_answers(LLAMA_SERVER_MODELS_FIXTURE));
    assert!(!available);
    assert_eq!(count, 0);
}

#[test]
fn test_unmarked_endpoint_not_imported_as_vllm() {
    let provider = VllmProvider::new(None);
    let (available, installed, count) =
        provider.detect_with_installed(&vllm_answers(MLX_LM_MODELS_FIXTURE));
    assert!(!available);
    assert_eq!(count, 0);
    assert!(!installed.contains("mlx-community/llama-3.2-1b-instruct-4bit"));
}

#[test]
fn test_vllm_endpoint_imported_as_vllm() {
    let provider = VllmProvider::new(None);
    let (available, installed, count) =
        provider.detect_with_installed(&vllm_answers(VLLM_MODELS_FIXTURE));
    assert!(available);
    assert_eq!(count, 1);
    assert!(installed.contains("facebook/opt-125m"));
}

#[test]
fn test_vllm_not_available_for_foreign_endpoint() {
    let provider = VllmProvider::new(None);
    assert!(!provider.is_available(&vllm_answers(LLAMA_SWAP_MODELS_FIXTURE)));
}

#[test]
fn test_vllm_available_for_vllm_endpoint() {
    let provider = VllmProvider::new(None);
    assert!(provider.is_available(&vllm_answers(VLLM_MODELS_FIXTURE)));
}

fn lmstudio_answers(body: &str) -> LmStudioAnswers {
    LmStudioAnswers { models: answer(body), native: answer(body) }
}

#[test]
fn test_lmstudio_not_available_for_foreign_endpoint() {
    let provider = LmStudioProvider::new(None, None);
    assert!(!provider.is_available(&lmstudio_answers(LLAMA_SWAP_MODELS_FIXTURE)));
}

#[test]
fn test_lmstudio_available_for_lmstudio_endpoint() {
    let provider = LmStudioProvider::new(None, None);
    assert!(provider.is_available(&lmstudio_answers(LM_STUDIO_MODELS_FIXTURE)));
}

#[test]
fn test_empty_native_list_not_identified_as_lmstudio() {
    let provider = LmStudioProvider::new(None, None);
    assert!(!provider.is_available(&lmstudio_answers(EMPTY_LIST)));
    let (available, _, count) = provider.detect_with_installed(&lmstudio_answers(EMPTY_LIST));
    assert!(!available);
    assert_eq!(count, 0);
}

#[test]
fn test_llama_swap_endpoint_not_imported_as_lmstudio() {
    let provider = LmStudioProvider::new(None, None);
    let (available, installed, count) =
        provider.detect_with_installed(&lmstudio_answers(LLAMA_SWAP_MODELS_FIXTURE));
    assert!(!available);
    assert_eq!(count, 0);
    assert!(!installed.contains("llama-3.2-1b-instruct"));
}

#[test]
fn test_unmarked_endpoint_not_imported_as_lmstudio() {
    let provider = LmStudioProvider::new(None, None);
    let (available, installed, count) =
        provider.detect_with_installed(&lmstudio_answers(MLX_LM_MODELS_FIXTURE));
    assert!(!available);
    assert_eq!(count, 0);
    assert!(!installed.contains("mlx-community/llama-3.2-1b-instruct-4bit"));
}

#[test]
fn test_lmstudio_endpoint_imported_as_lmstudio() {
    let provider = LmStudioProvider::new(None, None);
    let (available, installed, count) =
        provider.detect_with_installed(&lmstudio_answers(LM_STUDIO_MODELS_FIXTURE));
    assert!(available);
    assert_eq!(count, 1);
    assert!(installed.contains("text-embedding-nomic-embed-text-v1.5"));
}

fn docker_answers(models: &str, root: &str) -> DockerAnswers {
    DockerAnswers { ruled_out: false, models: answer(models), root: answer(root) }
}

#[test]
fn test_llama_swap_endpoint_not_imported_as_docker_mr() {
    let provider = DockerModelRunnerProvider::new(None);
    let (available, installed, count) = provider.detect_with_installed(&docker_answers(
        LLAMA_SWAP_MODELS_FIXTURE,
        LLAMA_SWAP_MODELS_FIXTURE,
    ));
    assert!(!available);
    assert_eq!(count, 0);
    assert!(!installed.contains("llama-3.2-1b-instruct"));
}

#[test]
fn test_llama_cpp_endpoint_not_imported_as_docker_mr() {
    let provider = DockerModelRunnerProvider::new(None);
    let (available, _, count) = provider.detect_with_installed(&docker_answers(
        LLAMA_SERVER_MODELS_FIXTURE,
        LLAMA_SERVER_MODELS_FIXTURE,
    ));
    assert!(!available);
    assert_eq!(count, 0);
}

#[test]
fn test_docker_mr_endpoint_imported_as_docker_mr() {
    let provider = DockerModelRunnerProvider::new(None);
    let (available, installed, count) = provider.detect_with_installed(&docker_answers(
        DOCKER_MR_MODELS_FIXTURE,
        DOCKER_MR_MODELS_FIXTURE,
    ));
    assert!(available);
    assert_eq!(count, 1);
    assert!(installed.contains("docker.io/ai/smollm2:360m-q4_k_m"));
    assert!(installed.contains("smollm2:360m-q4_k_m"));
    assert!(installed.contains("docker.io/ai/smollm2"));
}

#[test]
fn test_docker_mr_not_available_for_foreign_endpoint() {
    let provider = DockerModelRunnerProvider::new(None);
    assert!(!provider.is_available(&docker_answers(
        LLAMA_SWAP_MODELS_FIXTURE,
        LLAMA_SWAP_MODELS_FIXTURE,
    )));
}

#[test]
fn test_docker_mr_available_for_docker_mr_endpoint() {
    let provider = DockerModelRunnerProvider::new(None);
    assert!(provider.is_available(&docker_answers(
        DOCKER_MR_MODELS_FIXTURE,
        DOCKER_MR_MODELS_FIXTURE,
    )));
}

#[test]
fn test_empty_docker_mr_endpoint_still_available() {
    let provider = DockerModelRunnerProvider::new(None);
    let answers = docker_answers(EMPTY_LIST, "Docker Model Runner is running");
    assert!(provider.needs_root(&answers.models));
    assert!(provider.is_available(&answers));
    let (available, installed, count) = provider.detect_with_installed(&answers);
    assert!(available);
    assert_eq!(count, 0);
    assert!(installed.is_empty());
}

#[test]
fn test_empty_unmarked_endpoint_not_available_as_docker_mr() {
    let provider = DockerModelRunnerProvider::new(None);
    let answers = docker_answers(EMPTY_LIST, "some other server");
    assert!(!provider.is_available(&answers));
    let (available, _, count) = provider.detect_with_installed(&answers);
    assert!(!available);
    assert_eq!(count, 0);
}

#[test]
fn test_lmstudio_api_key_filtering() {
    let key = |value: Option<&str>| LmStudioProvider::new(None, value).api_key;
    assert!(key(None).is_none());
    assert_eq!(key(Some("my-secret-key")), Some("my-secret-key".to_string()));
    // An empty key must not produce Some("").
    assert!(key(Some("")).is_none());
    let provider = LmStudioProvider::new(Some("studio:9"), Some("k"));
    assert_eq!(provider.base_url, "http://studio:9");
    assert_eq!(provider.native_url(), "http://studio:9/api/v0/models");
    assert_eq!(provider.authorization(), Some("Bearer k".to_string()));
}

#[test]
fn test_docker_model_runner_host_filtering() {
    // Non-empty value should count as set
    assert!(host_is_set(Some("localhost:12434")));
    // Empty string should NOT count
    assert!(!host_is_set(Some("")));
    // Whitespace-only should NOT count
    assert!(!host_is_set(Some("   ")));
    // Missing env var should NOT count
    assert!(!host_is_set(None));
    assert!(is_docker_desktop_running(false, true, None));
    assert!(is_docker_desktop_running(false, false, Some("localhost:12434")));
    assert!(!is_docker_desktop_running(false, false, Some("  ")));
}

#[test]
fn docker_is_not_asked_where_it_is_ruled_out() {
    let provider = DockerModelRunnerProvider::new(Some("box:12434"));
    assert_eq!(provider.models_url(), "http://box:12434/v1/models");
    let mut answers = docker_answers(DOCKER_MR_MODELS_FIXTURE, "");
    answers.ruled_out = true;
    let (available, set, count) = provider.detect_with_installed(&answers);
    assert!(!available && set.is_empty() && count == 0);
}

#[test]
fn ollama_is_at_the_host_that_is_set() {
    let set = OllamaProvider::new(Some("box:11434"));
    assert_eq!(set.base_url, "http://box:11434");
    assert!(set.fallback_url.is_none());
    let wildcard = OllamaProvider::new(Some("0.0.0.0:11434"));
    assert_eq!(wildcard.base_url, "http://localhost:11434");
    assert_eq!(wildcard.fallback_url, Some("http://127.0.0.1:11434".to_string()));
    let slash = OllamaProvider::new(Some("http://box:1/"));
    assert_eq!(slash.api_url("tags"), "http://box:1/api/tags");
    assert!(slash.fallback_tags_url().is_none());
}

const TAGS: &str = r#"{"models":[
    {"name":"qwen3:latest","size":5200000000,"details":{"parameter_size":"8.2B"}},
    {"name":"gpt-oss:120b-cloud","size":0}
]}"#;

#[test]
fn ollama_adopts_the_address_that_answers() {
    let mut provider = OllamaProvider::new(None);
    assert_eq!(provider.fallback_tags_url(), Some("http://127.0.0.1:11434/api/tags".to_string()));
    let (available, names, count) = provider.detect_with_installed(&None, &answer(TAGS));
    assert!(available);
    assert_eq!(count, 1);
    assert!(names.contains("qwen3:8b"));
    assert!(!names.contains("gpt-oss:120b-cloud"));
    assert_eq!(provider.base_url, "http://127.0.0.1:11434");
    assert!(provider.fallback_url.is_none());

    let mut first = OllamaProvider::new(None);
    let (available, _, _) = first.detect_with_installed(&answer("not a list"), &None);
    assert!(available);
    assert_eq!(first.base_url, "http://localhost:11434");
    let (available, names, count) = first.detect_with_installed(&None, &None);
    assert!(!available && names.is_empty() && count == 0);
    let answers = OllamaAnswers { tags: answer(TAGS) };
    assert!(first.is_available(&answers));
    assert_eq!(first.installed_models(&answers).len(), 4);
}

#[test]
fn lists_of_ollama_are_read_whole_or_not_at_all() {
    assert_eq!(read_tags(br#"{"models":[{"name":"a"}]}"#).map(|m| m.len()), Some(1));
    assert!(read_tags(br#"{"models":[{"name":"a"},{"size":3}]}"#).is_none());
    assert!(read_tags(br#"{"models":[{"name":"a","size":-1}]}"#).is_none());
    assert!(read_tags(br#"{"models":[{"name":"a","details":null}]}"#).is_none());
    assert!(read_tags(b"[]").is_none());
}

#[test]
fn lists_of_models_are_read_whole_or_not_at_all() {
    let list = list_of(VLLM_MODELS_FIXTURE);
    assert_eq!(openai_model_ids(&list), vec!["facebook/opt-125m"]);
    assert!(read_model_list(br#"{"data":[{"id":"a","owned_by":null}]}"#).is_some());
    assert!(read_model_list(br#"{"data":[{"id":"a","owned_by":7}]}"#).is_none());
    assert!(read_model_list(br#"{"data":[{"owned_by":"x"}]}"#).is_none());
    assert!(read_model_list(b"oops").is_none());
    assert!(model_list_from(&document("[]")).is_none());
}

#[test]
fn ollama_tells_how_deleting_ended() {
    let provider = OllamaProvider::new(None);
    assert_eq!(provider.delete_model(DeleteAnswer::Status(200, "200 OK".to_string())), Ok(()));
    assert_eq!(
        provider.delete_model(DeleteAnswer::Status(404, "404 Not Found".to_string())),
        Err("Ollama returned status 404 Not Found".to_string())
    );
    assert_eq!(
        provider.delete_model(DeleteAnswer::Failed("refused".to_string())),
        Err("Ollama delete request failed: refused".to_string())
    );
    assert_eq!(
        provider.delete_model(DeleteAnswer::NotBuilt("bad uri".to_string())),
        Err("Failed to build request: bad uri".to_string())
    );
    assert_eq!(provider.delete_body("a:b").get_str("name"), Some("a:b"));
    assert_eq!(provider.show_body("a:b").get_str("model"), Some("a:b"));
    assert!(provider.has_remote_tag(&answer("{}")));
    assert!(!provider.has_remote_tag(&None));
}

#[test]
fn mlx_asks_omlx_only_where_no_address_is_set() {
    let usual = MlxProvider::new(None);
    let candidates = usual.server_candidates();
    assert_eq!(candidates.len(), 2);
    assert_eq!(candidates[0].base_url, "http://localhost:8080");
    assert_eq!(candidates[1].base_url, "http://127.0.0.1:8000");
    assert!(candidates[1].require_omlx_identity);
    assert_eq!(MlxProvider::new(Some("http://m:1")).server_candidates().len(), 1);
    // A setting without a scheme is not taken.
    assert_eq!(MlxProvider::new(Some("m:1")).server_url, "http://localhost:8080");
}

#[test]
fn mlx_takes_omlx_by_its_status_or_its_owner() {
    let provider = MlxProvider::new(None);
    let plain = r#"{"data":[{"id":"Some/Model"}]}"#;
    let status = r#"{"status":"ok","version":"1","models_discovered":1}"#;
    let mut answers = MlxAnswers {
        macos: true,
        cached: vec!["models--mlx-community--Tiny-4bit".to_string()],
        servers: vec![
            MlxServerAnswers { status: None, models: None },
            MlxServerAnswers { status: None, models: answer(plain) },
        ],
        python: false,
    };
    assert!(!provider.is_available(&answers));
    answers.servers[1].status = answer(status);
    assert!(endpoint_has_omlx_status(&answers.servers[1].status));
    let (available, names) = provider.detect_with_installed(&answers);
    assert!(available);
    assert!(names.contains("some/model"));
    assert!(names.contains("tiny-4bit"));
    answers.macos = false;
    let (available, names) = provider.detect_with_installed(&answers);
    assert!(!available);
    assert!(!names.contains("some/model"));
    assert!(provider.installed_models(&answers).contains("tiny-4bit"));
    answers.macos = true;
    answers.servers = Vec::new();
    answers.python = true;
    assert!(provider.is_available(&answers));
}

#[test]
fn vllm_is_not_omlx() {
    let provider = VllmProvider::new(Some("v:8000"));
    assert_eq!(provider.models_url(), "http://v:8000/v1/models");
    let status = r#"{"status":"ok","version":"1","cache_efficiency":0.5}"#;
    let unreadable = VllmAnswers { models: answer("x"), status: answer(status) };
    assert!(provider.needs_status(&unreadable.models));
    assert!(!provider.detect_with_installed(&unreadable).0);
    let other = VllmAnswers { models: answer("x"), status: None };
    assert!(provider.detect_with_installed(&other).0);
    assert!(!provider.needs_status(&answer(VLLM_MODELS_FIXTURE)));
    assert_eq!(provider.installed_models_counted(&vllm_answers(VLLM_MODELS_FIXTURE)).1, 1);
}

#[test]
fn ramalama_falls_back_to_its_store() {
    let provider = RamaLamaProvider::new(None);
    let store = br#"[{"name":"ollama://granite:8b","shortname":"granite"}]"#;
    let answers = RamaLamaAnswers { models: None, store: Some(store.to_vec()) };
    assert!(provider.needs_store(&answers.models));
    let (available, names, count) = provider.detect_with_installed(&answers);
    assert!(available);
    assert_eq!(count, 1);
    assert!(names.contains("granite"));
    assert!(!provider.is_available(&answers));
    let nothing = RamaLamaAnswers { models: None, store: None };
    assert!(!provider.detect_with_installed(&nothing).0);
    assert!(!provider.needs_store(&answer(MLX_LM_MODELS_FIXTURE)));
}

fn llama_answers() -> LlamaCppAnswers {
    let file = GgufFile {
        path: "/m/Qwen3-8B-Q4_K_M.gguf".to_string(),
        stem: Some("Qwen3-8B-Q4_K_M".to_string()),
        parent: Some("m".to_string()),
        grandparent: None,
        target: "/m/Qwen3-8B-Q4_K_M.gguf".to_string(),
        is_alias: false,
    };
    LlamaCppAnswers {
        tree: Some(vec![DirEntry {
            name: "Qwen3-8B-Q4_K_M.gguf".to_string(),
            file: Some(file),
            inside: None,
        }]),
        cached: vec!["models--Bart--Phi-4-GGUF".to_string()],
    }
}

#[test]
fn llamacpp_counts_files_and_cached_repositories() {
    let mut provider = LlamaCppProvider::new("/m".to_string(), None, None, true);
    let (names, count) = provider.installed_models_counted(&llama_answers());
    assert_eq!(count, 2);
    assert!(names.contains("qwen3-8b"));
    assert!(names.contains("phi-4-gguf"));
    assert!(provider.server_running());
    assert!(provider.is_available(&llama_answers()));
    assert_eq!(provider.detection_hint(), "server detected");
    assert_eq!(provider.models_dir(), "/m");
    provider.set_models_dir("/n".to_string());
    assert_eq!(provider.models_dir(), "/n");
    assert_eq!(provider.llama_cli_path(), None);
    let found =
        LlamaCppProvider::new("/m".to_string(), Some("/b/llama-cli".to_string()), None, true);
    assert!(!found.server_running());
    assert_eq!(found.detection_hint(), "");
    assert_eq!(found.llama_cli_path(), Some("/b/llama-cli"));
    assert_eq!(found.llama_server_path(), None);
    let none = LlamaCppProvider::new("/m".to_string(), None, None, false);
    assert_eq!(none.detection_hint(), "not in PATH, set LLAMA_CPP_PATH");
    assert!(!none.is_available(&llama_answers()));
    assert_eq!(llama_health_url(None), "http://localhost:8080/health");
    assert_eq!(llama_health_url(Some("9")), "http://localhost:9/health");
}

#[test]
fn llamacpp_deletes_by_stem() {
    let provider = LlamaCppProvider::new("/m".to_string(), None, None, false);
    let answers = llama_answers();
    assert_eq!(provider.list_gguf_files(&answers.tree).len(), 1);
    assert_eq!(
        provider.delete_model("qwen3-8b-q4_k_m", &answers.tree),
        Ok("/m/Qwen3-8B-Q4_K_M.gguf".to_string())
    );
    assert_eq!(
        provider.delete_model("other", &answers.tree),
        Err("Model file not found for 'other'".to_string())
    );
    assert_eq!(provider.delete_failure("/m/a", "denied"), "Failed to delete /m/a: denied");
}
