//! The gateway: which server answers, who may ask, and how requests are read.
use llm_panel::gateway::models::{
    configured_context_tokens, extract_runtime_context, model_list, model_rows,
    model_rows_reported, report_paths,
};
use llm_panel::gateway::reply::{
    chunk_head, cors_headers, error_payload, failure_text, not_found_payload_with_hint,
    response_head, status_reason, stream_head,
};
use llm_panel::gateway::request::{
    check_gateway_auth, constant_time_eq, gateway_auth, is_head_terminated, model_from_body,
    model_id_from_path, parse_head, read_step, wants_stream, AuthFailure, ReadFailure, ReadStep,
    RequestHead, MAX_BODY_BYTES, MAX_HEAD_BYTES,
};
use llm_panel::gateway::serve::{
    gateway_status, probes_gateway, route, server_on_port, supervise, upstream_url, wanted_port,
    Listener, RouteAction, DEFAULT_GATEWAY_PORT,
};
use llm_panel::gateway::servers::{find_server_port_for, running_model_names};
use llm_panel::json;
use llm_panel::json::{Json, JsonNumber};
use llm_panel::state::{LiveServer, LlamaCppChannel, ServerDef, ServerStatus};
use llm_panel::text_map::TextMap;

fn live_server(
    id: &str,
    model_id: &str,
    served: Option<&str>,
    port: u16,
    task: &str,
    status: ServerStatus,
) -> LiveServer {
    LiveServer {
        def: ServerDef {
            backend: "vllm".to_string(),
            id: id.to_string(),
            name: id.to_string(),
            model_id: model_id.to_string(),
            task: task.to_string(),
            port,
            gpu_mem_util: 9_200,
            max_model_len: None,
            quant: "fp16".to_string(),
            served_model_name: served.map(|s| s.to_string()),
            kv_cache_dtype: None,
            llamacpp_channel: LlamaCppChannel::Upstream,
            enforce_eager: true,
            params_b: None,
            swap_space_gb: None,
            cpu_offload_gb: None,
            was_running: false,
            model_path: None,
            mmproj_path: None,
            ctx_size: None,
            n_gpu_layers: Some(99),
            n_cpu_moe: None,
            fit: true,
            fit_target: None,
            device: None,
            api_key: None,
            log_verbosity: None,
            flash_attn: true,
            cache_type_k: "q8_0".to_string(),
            cache_type_v: "q8_0".to_string(),
            threads: None,
            batch_size: None,
            ubatch_size: None,
            parallel: 1,
            jinja: true,
            no_kv_offload: false,
            metrics: true,
            extra_args: Vec::new(),
            env: TextMap::new(),
        },
        status,
    }
}

fn running_map() -> Vec<LiveServer> {
    vec![
        live_server(
            "srv-a",
            "Qwen/Qwen2.5-7B-Instruct",
            Some("qwen-7b"),
            8001,
            "instruct",
            ServerStatus::Running,
        ),
        live_server(
            "srv-b",
            "meta-llama/Llama-3.1-8B-Instruct",
            None,
            8002,
            "instruct",
            ServerStatus::Running,
        ),
        live_server(
            "srv-embed",
            "BAAI/bge-small-en",
            None,
            8003,
            "embed",
            ServerStatus::Running,
        ),
        live_server(
            "srv-stopped",
            "mistralai/Mistral-7B-Instruct-v0.3",
            None,
            8004,
            "instruct",
            ServerStatus::Stopped,
        ),
    ]
}

fn headers(pairs: &[(&str, &str)]) -> TextMap {
    let mut map = TextMap::new();
    for (k, v) in pairs {
        map.insert(k.to_string(), v.to_string());
    }
    map
}

fn whole(row: &Json, key: &str) -> Option<u64> {
    row.get(key).and_then(|v| v.as_u64())
}

#[test]
fn test_route_exact_served_model_name() {
    let servers = running_map();
    assert_eq!(find_server_port_for(&servers, "qwen-7b", "instruct"), Some(8001));
    assert_eq!(find_server_port_for(&servers, "Qwen-7B", "instruct"), Some(8001));
}

#[test]
fn test_route_exact_hf_id() {
    let servers = running_map();
    assert_eq!(
        find_server_port_for(&servers, "Qwen/Qwen2.5-7B-Instruct", "instruct"),
        Some(8001)
    );
    assert_eq!(
        find_server_port_for(&servers, "meta-llama/Llama-3.1-8B-Instruct", "instruct"),
        Some(8002)
    );
}

#[test]
fn test_route_fuzzy_suffix_match() {
    let servers = running_map();
    // Client asks for just the tail of the HF id
    assert_eq!(find_server_port_for(&servers, "Qwen2.5-7B-Instruct", "instruct"), Some(8001));
    assert_eq!(find_server_port_for(&servers, "Llama-3.1-8B-Instruct", "instruct"), Some(8002));
}

#[test]
fn test_route_ignores_embed_and_stopped_servers() {
    let servers = running_map();
    // Embed server must not be routed for chat
    assert_eq!(find_server_port_for(&servers, "BAAI/bge-small-en", "instruct"), None);
    // Stopped instruct server must not be routed
    assert_eq!(
        find_server_port_for(&servers, "mistralai/Mistral-7B-Instruct-v0.3", "instruct"),
        None
    );
}

#[test]
fn test_route_unknown_or_empty_model() {
    let servers = running_map();
    assert_eq!(find_server_port_for(&servers, "nope/model", "instruct"), None);
    assert_eq!(find_server_port_for(&servers, "", "instruct"), None);
    assert_eq!(find_server_port_for(&servers, "   ", "instruct"), None);
}

#[test]
fn test_route_embed_server_exact_and_fuzzy() {
    let servers = running_map();
    assert_eq!(find_server_port_for(&servers, "BAAI/bge-small-en", "embed"), Some(8003));
    assert_eq!(find_server_port_for(&servers, "bge-small-en", "embed"), Some(8003));
}

#[test]
fn test_route_embed_ignores_instruct_servers() {
    let servers = running_map();
    assert_eq!(find_server_port_for(&servers, "Qwen/Qwen2.5-7B-Instruct", "embed"), None);
    assert_eq!(find_server_port_for(&servers, "", "embed"), None);
}

#[test]
fn test_not_found_payload_includes_running_hint() {
    let payload = not_found_payload_with_hint(
        "nope/model",
        "instruction",
        &vec!["qwen-7b".to_string(), "llama-8b".to_string()],
    );
    let error = payload.get("error").unwrap();
    assert_eq!(error.get_str("type"), Some("invalid_request_error"));
    assert!(error.get_str("message").unwrap().contains("nope/model"));
    match payload.get("running") {
        Some(Json::Array(items)) => assert_eq!(items[0].as_str(), Some("qwen-7b")),
        _ => panic!("running models should be listed"),
    }
}

#[test]
fn test_model_rows_only_lists_running_instruct_servers() {
    let servers = running_map();
    let rows = model_rows(&servers);
    // 2 running instruct servers, prefer the served_model_name for display
    let ids: Vec<&str> = rows.iter().filter_map(|r| r.get_str("id")).collect();
    assert_eq!(ids, vec!["qwen-7b", "meta-llama/Llama-3.1-8B-Instruct"]);
    assert!(rows.iter().all(|r| r.get_str("object") == Some("model")));
    assert_eq!(running_model_names(&servers, "embed"), vec!["BAAI/bge-small-en"]);
    assert_eq!(model_list(rows).get_str("object"), Some("list"));
}

#[test]
fn test_model_rows_include_effective_context_metadata() {
    let mut servers = running_map();
    servers[0].def.max_model_len = Some(32_768);
    let rows = model_rows(&servers);
    let row = rows.iter().find(|row| row.get_str("id") == Some("qwen-7b")).unwrap();
    for key in ["max_model_len", "context_length", "max_context_length", "context_window", "n_ctx"]
    {
        assert_eq!(whole(row, key), Some(32_768));
    }
    assert_eq!(row.get_str("context_source"), Some("configured"));
    assert_eq!(row.get_str("backend"), Some("vllm"));
    let chat = row.get("capabilities").and_then(|c| c.get("chat_completions"));
    assert_eq!(chat.and_then(|v| v.as_bool()), Some(true));
}

#[test]
fn test_llama_model_rows_use_configured_context_size() {
    let mut servers = running_map();
    servers[0].def.backend = "llamacpp".to_string();
    servers[0].def.max_model_len = None;
    servers[0].def.ctx_size = Some(262_144);
    assert_eq!(configured_context_tokens(&servers[0].def), Some(262_144));
    assert_eq!(report_paths(&servers[0].def), vec!["/props", "/v1/models"]);
    let rows = model_rows(&servers);
    let row = rows.iter().find(|row| row.get_str("id") == Some("qwen-7b")).unwrap();
    assert_eq!(whole(row, "max_model_len"), Some(262_144));
    assert_eq!(whole(row, "context_length"), Some(262_144));
    assert_eq!(row.get_str("context_source"), Some("configured"));
}

#[test]
fn reported_contexts_fill_what_is_not_configured() {
    let servers = running_map();
    let rows = model_rows_reported(&servers, &vec![Some(4_096), None, None, None]);
    assert_eq!(whole(&rows[0], "n_ctx"), Some(4_096));
    assert_eq!(rows[0].get_str("context_source"), Some("runtime"));
    assert!(rows[1].get("n_ctx").map(|v| v.is_null()).unwrap_or(true));
}

#[test]
fn test_runtime_context_parser_reads_llama_props() {
    let value =
        json::parse(br#"{"default_generation_settings": {"n_ctx": "262144"}}"#).unwrap();
    assert_eq!(extract_runtime_context(&value), Some(262_144));
}

#[test]
fn test_model_path_decodes_url_encoded_ids() {
    assert_eq!(
        model_id_from_path("/v1/models/Qwen%2FQwen2.5-7B-Instruct"),
        Some("Qwen/Qwen2.5-7B-Instruct".to_string())
    );
    assert_eq!(model_id_from_path("/v1/models/a%2"), None);
    assert_eq!(model_id_from_path("/v1/other"), None);
}

#[test]
fn test_model_extracted_from_body() {
    let body = br#"
            {"model": "qwen-7b", "messages": [{"role": "user", "content": "hi"}]}
        "#;
    assert_eq!(model_from_body(body).as_deref(), Some("qwen-7b"));
    assert_eq!(model_from_body(br#"{"msg":"no model"}"#), None);
    assert_eq!(model_from_body(b"not json at all"), None);
    assert!(wants_stream(br#"{"stream":true}"#));
    assert!(!wants_stream(br#"{"stream":"yes"}"#));
}

#[test]
fn test_model_from_body_preserves_fim_suffix() {
    let body = br#"{"model":"qwen-7b","prompt":"def f(","suffix":"):\n pass","stream":false}"#;
    assert_eq!(model_from_body(body).as_deref(), Some("qwen-7b"));
    let v = json::parse(body).unwrap();
    assert_eq!(v.get_str("suffix"), Some("):\n pass"));
}

#[test]
fn test_parse_request_head_extracts_content_length() {
    let head = b"POST /v1/chat/completions HTTP/1.1\r\nHost: 127.0.0.1\r\nContent-Type: application/json\r\nContent-Length: 1024\r\n\r\n";
    let parsed = parse_head(head).unwrap();
    assert_eq!(parsed.method, "POST");
    assert_eq!(parsed.target, "/v1/chat/completions");
    assert_eq!(parsed.content_length, 1024);
    assert_eq!(
        parsed.headers.get("content-type").map(|s| s.as_str()),
        Some("application/json")
    );
}

#[test]
fn test_parse_request_head_garbage() {
    assert!(parse_head(b"").is_none());
    assert!(parse_head(b"\r\n\r\n").is_none());
    assert!(parse_head(b"noSpacesAtAll\r\n\r\n").is_none());
}

#[test]
fn test_head_terminator_found() {
    let buf = b"GET /v1/models HTTP/1.1\r\nHost: x\r\n\r\nbody-here";
    assert_eq!(is_head_terminated(buf), Some(32));
    assert_eq!(is_head_terminated(b"GET /v1/models HTTP/1.1\r\n"), None);
}

#[test]
fn test_cors_headers_only_allow_trusted_local_origins() {
    let trusted = cors_headers(Some("http://127.0.0.1:1420"));
    assert!(trusted.contains("Access-Control-Allow-Origin: http://127.0.0.1:1420"));
    assert!(trusted.contains("Vary: Origin"));
    assert!(trusted.contains("Access-Control-Allow-Methods"));
    assert!(trusted.contains("Authorization"));
    assert_eq!(cors_headers(Some("https://evil.example")), "");
    assert_eq!(cors_headers(None), "");
}

#[test]
fn test_check_gateway_auth_no_key_configured() {
    let h = headers(&[("authorization", "Bearer anything")]);
    let err = check_gateway_auth(&h, None).unwrap_err();
    assert_eq!(err.0, 503);
    assert!(err.1.contains("not configured"));
    assert_eq!(check_gateway_auth(&h, Some("")).unwrap_err().0, 503);
}

#[test]
fn test_check_gateway_auth_valid_key() {
    let h = headers(&[("authorization", "Bearer secret123")]);
    assert!(check_gateway_auth(&h, Some("secret123")).is_ok());
}

#[test]
fn test_check_gateway_auth_invalid_key() {
    let h = headers(&[("authorization", "Bearer wrong")]);
    let err = check_gateway_auth(&h, Some("secret123")).unwrap_err();
    assert_eq!(err.0, 401);
    assert!(err.1.contains("Invalid API key"));
}

#[test]
fn test_check_gateway_auth_missing_header() {
    let err = check_gateway_auth(&headers(&[]), Some("secret123")).unwrap_err();
    assert_eq!(err.0, 401);
    assert!(err.1.contains("Missing Authorization header"));
}

#[test]
fn test_check_gateway_auth_wrong_scheme() {
    let h = headers(&[("authorization", "Basic secret123")]);
    let err = check_gateway_auth(&h, Some("secret123")).unwrap_err();
    assert_eq!(err.0, 401);
    assert!(err.1.contains("Bearer scheme"));
}

#[test]
fn test_check_gateway_auth_case_insensitive_header_name() {
    let h = headers(&[("Authorization", "Bearer secret123")]);
    assert!(check_gateway_auth(&h, Some("secret123")).is_ok());
}

#[test]
fn each_refusal_has_its_reason() {
    assert_eq!(gateway_auth(&headers(&[]), None), Err(AuthFailure::NotConfigured));
    assert_eq!(gateway_auth(&headers(&[]), Some("k")), Err(AuthFailure::MissingHeader));
    let wrong = headers(&[("authorization", "Bearer x")]);
    assert_eq!(gateway_auth(&wrong, Some("k")), Err(AuthFailure::InvalidKey));
    let basic = headers(&[("authorization", "k")]);
    assert_eq!(gateway_auth(&basic, Some("k")), Err(AuthFailure::WrongScheme));
    assert!(constant_time_eq("abc", "abc"));
    assert!(!constant_time_eq("abc", "abd"));
    assert!(!constant_time_eq("abc", "ab"));
}

#[test]
fn requests_are_read_piece_by_piece() {
    let whole = b"POST /v1/completions HTTP/1.1\r\nContent-Length: 4\r\n\r\nbodyrest";
    assert!(matches!(read_step(&whole[..10], false), ReadStep::More));
    assert!(matches!(
        read_step(&whole[..10], true),
        ReadStep::Fail(ReadFailure::ClosedInHead)
    ));
    assert!(matches!(read_step(&whole[..52], false), ReadStep::More));
    assert!(matches!(
        read_step(&whole[..52], true),
        ReadStep::Fail(ReadFailure::ClosedInBody)
    ));
    match read_step(whole, false) {
        ReadStep::Ready(head, body) => {
            assert_eq!(head.method, "POST");
            assert_eq!(body, b"body".to_vec());
        }
        _ => panic!("the request is complete"),
    }
    assert!(matches!(
        read_step(b"junk\r\n\r\n", false),
        ReadStep::Fail(ReadFailure::MalformedHead)
    ));
    let long = vec![97u8; MAX_HEAD_BYTES + 1];
    assert!(matches!(read_step(&long, false), ReadStep::Fail(ReadFailure::HeadTooLarge)));
    let big = format!("POST / HTTP/1.1\r\nContent-Length: {}\r\n\r\n", MAX_BODY_BYTES + 1);
    assert!(matches!(
        read_step(big.as_bytes(), false),
        ReadStep::Fail(ReadFailure::BodyTooLarge)
    ));
}

fn request(method: &str, target: &str, key: Option<&str>) -> RequestHead {
    let h = match key {
        Some(k) => headers(&[("authorization", &format!("Bearer {k}"))]),
        None => headers(&[]),
    };
    RequestHead {
        method: method.to_string(),
        target: target.to_string(),
        headers: h,
        content_length: 0,
    }
}

#[test]
fn requests_go_where_the_model_runs() {
    let servers = running_map();
    let body = br#"{"model":"qwen-7b"}"#;
    let chat = request("POST", "/v1/chat/completions", Some("k"));
    assert!(matches!(
        route(&chat, body, Some("k"), &servers),
        RouteAction::Forward(8001, "/v1/chat/completions")
    ));
    let embed = request("POST", "/v1/embeddings", Some("k"));
    assert!(matches!(
        route(&embed, br#"{"model":"bge-small-en"}"#, Some("k"), &servers),
        RouteAction::Forward(8003, "/v1/embeddings")
    ));
    assert!(matches!(
        route(&chat, br#"{"model":"nope"}"#, Some("k"), &servers),
        RouteAction::Document(404, _)
    ));
    let models = request("GET", "/v1/models", Some("k"));
    assert!(matches!(route(&models, b"", Some("k"), &servers), RouteAction::ListModels));
    let locked = request("POST", "/v1/chat/completions", None);
    assert!(matches!(
        route(&locked, body, Some("k"), &servers),
        RouteAction::Document(401, _)
    ));
    assert!(matches!(
        route(&chat, body, None, &servers),
        RouteAction::Document(503, _)
    ));
    assert_eq!(upstream_url(8001, "/v1/models"), "http://127.0.0.1:8001/v1/models");
    assert_eq!(server_on_port(&servers, 8003), Some(2));
    assert_eq!(server_on_port(&servers, 9), None);
}

#[test]
fn the_gateway_listens_where_it_is_wanted() {
    assert_eq!(wanted_port(true, Some("k"), 9000), Some(9000));
    assert_eq!(wanted_port(true, None, 9000), None);
    assert_eq!(wanted_port(false, Some("k"), 9000), None);
    let here = Listener { port: 9000, finished: false };
    let kept = supervise(Some(here), Some(9000));
    assert!(!kept.stop && kept.start.is_none());
    let moved = supervise(Some(Listener { port: 9000, finished: false }), Some(9001));
    assert!(moved.stop && moved.start == Some(9001));
    let gone = supervise(Some(Listener { port: 9000, finished: false }), None);
    assert!(gone.stop && gone.start.is_none());
    let fresh = supervise(None, Some(9001));
    assert!(fresh.start == Some(9001));
    assert!(probes_gateway(true, Some("k")));
    let status = gateway_status(true, Some("k"), DEFAULT_GATEWAY_PORT, true);
    assert!(status.running && status.auth_configured && status.port == 11434);
}

#[test]
fn answers_have_their_form() {
    assert_eq!(status_reason(404), "Not Found");
    assert_eq!(
        response_head(200, "application/json", 2, None),
        "HTTP/1.1 200 OK\r\nContent-Type: application/json\r\nContent-Length: 2\r\nConnection: close\r\n\r\n"
    );
    assert_eq!(
        stream_head(200, "OK", None),
        "HTTP/1.1 200 OK\r\nContent-Type: text/event-stream\r\nCache-Control: no-cache\r\nTransfer-Encoding: chunked\r\nConnection: close\r\n\r\n"
    );
    assert_eq!(chunk_head(255), "ff\r\n");
    let error = error_payload("no", "x");
    assert_eq!(error.get("error").and_then(|e| e.get_str("message")), Some("no"));
    assert!(failure_text("boom").contains("boom"));
    assert_eq!(json::size(Some(3)).as_number(), Some(JsonNumber::Unsigned(3)));
}
