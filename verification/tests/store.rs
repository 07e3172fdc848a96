//! Stored benchmarks and the metadata of model files.
use llm_panel::gguf::{read_metadata, refusal, GgufError, GgufValue};
use llm_panel::json;
use llm_panel::json::{Json, JsonNumber};
use llm_panel::share::{
    read_store, read_stored_payload, sanitize_stored_payload, strip_gguf_path, LocalBenchIndex,
    MeasuredSource, StoredBenchmark,
};

fn item(json: &Json, list: &str, i: usize) -> Json {
    match json.get(list) {
        Some(Json::Array(items)) => match &items[i] {
            Json::Object(members) => Json::Object(
                members
                    .iter()
                    .map(|(k, v)| {
                        (k.clone(), json::string(v.as_str().unwrap_or("")))
                    })
                    .collect(),
            ),
            _ => panic!("not an object"),
        },
        _ => panic!("not a list"),
    }
}

fn shown(json: &Json) -> String {
    format!("{json:?}")
}

const RUN: &str = r#"{"schemaVersion":1,"hardware":{"cpu":"Test CPU","hardwareName":"NVIDIA GeForce RTX 4090"},"results":[{"model":"llama3.1:8b","provider":"ollama","avgTps":128.44},{"model":"ferrum","provider":"ferrum","avgTps":96.7}]}"#;
const LEGACY: &str = r#"{"schemaVersion":1,"hardware":{"cpu":"Test CPU","hardwareName":"NVIDIA GeForce RTX 4090"},"results":[{"model":"/home/user/gguf/phi-4-Q4_K_M.gguf","provider":"llamacpp","avgTps":10.0}]}"#;

#[test]
fn local_store_reads_and_indexes_stored_runs() {
    let run = ("1752100000-abcd1234.json".to_string(), RUN.as_bytes().to_vec());
    let stored = read_store(&vec![run.clone()]);
    assert_eq!(stored.len(), 1);
    assert_eq!(item(&stored[0].1, "results", 1).get_str("provider"), Some("ferrum"));
    assert!(read_store(&vec![]).is_empty());

    // A run of another time comes first, and its model keeps no directory.
    let legacy = ("1700000000-legacy00.json".to_string(), LEGACY.as_bytes().to_vec());
    let both = read_store(&vec![
        run,
        ("notes.txt".to_string(), b"{}".to_vec()),
        (".json".to_string(), b"{}".to_vec()),
        ("broken.json".to_string(), b"{".to_vec()),
        legacy,
    ]);
    assert_eq!(both.len(), 2);
    assert_eq!(both[0].0, "1700000000-legacy00.json");
    assert_eq!(item(&both[0].1, "results", 0).get_str("model"), Some("phi-4-Q4_K_M.gguf"));

    let benchmark = |same: bool| StoredBenchmark {
        path: "1752100000-abcd1234.json".to_string(),
        payload: read_stored_payload(RUN.as_bytes()).unwrap(),
        same_hardware: same,
        plausible: vec![true, true],
    };
    let idx = LocalBenchIndex::load(&vec![], &vec![benchmark(true)]).expect("store has one run");
    let m = idx.lookup("test/llama-3.1-8b").expect("tag should match");
    assert_eq!(m.tok_s, JsonNumber::Float(128.44f64.to_bits()));
    assert_eq!(m.sample_count, 1);
    assert_eq!(m.source, MeasuredSource::LocalBench);
    assert_eq!(m.hardware_label, "this machine");
    assert!(idx.lookup("test/qwen2.5-7b").is_none());

    // Runs on other hardware never get into the index.
    assert!(LocalBenchIndex::load(&vec![], &vec![benchmark(false)]).is_none());
}

#[test]
fn the_newest_measurement_is_told() {
    let run = |path: &str, speed: &str, plausible: bool| StoredBenchmark {
        path: path.to_string(),
        payload: json::parse(
            format!(r#"{{"results":[{{"model":"llama3.1:8b","avgTps":{speed}}}]}}"#).as_bytes(),
        )
        .unwrap(),
        same_hardware: true,
        plausible: vec![plausible],
    };
    let told = |shared: Vec<StoredBenchmark>, pending: Vec<StoredBenchmark>| {
        LocalBenchIndex::load(&shared, &pending).unwrap().lookup("test/llama-3.1-8b").unwrap()
    };
    // The shared run is the newer one.
    let m = told(
        vec![run("store/shared/2000-x.json", "50.0", true)],
        vec![run("store/pending/1000-y.json", "40.0", true)],
    );
    assert_eq!(m.tok_s, JsonNumber::Float(50.0f64.to_bits()));
    assert_eq!(m.sample_count, 2);
    // The pending run is the newer one; one that is not plausible does not count.
    let m = told(
        vec![run("store\\shared\\1000-x.json", "1.5", true)],
        vec![
            run("store\\pending\\2000-y.json", "2.5", true),
            run("store\\pending\\3000-z.json", "3.5", false),
        ],
    );
    assert_eq!(m.tok_s, JsonNumber::Float(2.5f64.to_bits()));
    assert_eq!(m.sample_count, 2);
}

#[test]
fn strip_gguf_path_keeps_only_the_file_name_for_gguf_paths() {
    assert_eq!(
        strip_gguf_path("/home/user/gguf/SmolLM2-135M-Instruct-Q4_K_M.gguf"),
        "SmolLM2-135M-Instruct-Q4_K_M.gguf"
    );
    assert_eq!(strip_gguf_path(r"C:\models\phi-4-Q4_K_M.GGUF"), "phi-4-Q4_K_M.GGUF");
}

#[test]
fn strip_gguf_path_leaves_non_path_ids_untouched() {
    // Ollama tag.
    assert_eq!(strip_gguf_path("llama3.1:8b"), "llama3.1:8b");
    // HF-style id from vLLM or MLX: contains a slash but is not a file.
    assert_eq!(
        strip_gguf_path("meta-llama/Llama-3.1-8B-Instruct"),
        "meta-llama/Llama-3.1-8B-Instruct"
    );
    // GGUF repo id: ends in "GGUF" but not ".gguf".
    assert_eq!(strip_gguf_path("unsloth/Qwen3-4B-GGUF"), "unsloth/Qwen3-4B-GGUF");
    // Already a bare file name.
    assert_eq!(strip_gguf_path("model.gguf"), "model.gguf");
    // Hub-style reference: relative, so the org and repo context must survive.
    assert_eq!(
        strip_gguf_path(
            "hf.co/bartowski/SmolLM2-135M-Instruct-GGUF/SmolLM2-135M-Instruct-Q4_K_M.gguf"
        ),
        "hf.co/bartowski/SmolLM2-135M-Instruct-GGUF/SmolLM2-135M-Instruct-Q4_K_M.gguf"
    );
    // Relative filesystem path: nothing machine-specific to hide.
    assert_eq!(strip_gguf_path("models/foo.gguf"), "models/foo.gguf");
}

#[test]
fn stripping_twice_is_stripping_once() {
    for id in ["/a/b.gguf", "/a/c:/b.gguf", r"C:\x\y.gguf", "llama3.1:8b", "/x.GGUF"] {
        let once = strip_gguf_path(id);
        assert_eq!(strip_gguf_path(&once), once);
    }
}

#[test]
fn sanitize_stored_payload_scrubs_absolute_model_paths() {
    let payload = json::parse(
        br#"{
            "results": [
                { "model": "/home/alice/models/phi-4-Q4_K_M.gguf" },
                { "model": "llama3.1:8b" }
            ]
        }"#,
    )
    .unwrap();
    let payload = sanitize_stored_payload(payload);
    assert_eq!(item(&payload, "results", 0).get_str("model"), Some("phi-4-Q4_K_M.gguf"));
    assert_eq!(item(&payload, "results", 1).get_str("model"), Some("llama3.1:8b"));
}

#[test]
fn sanitize_stored_payload_ignores_non_object_payloads() {
    for text in [r#""not an object""#, "[1, 2, 3]", "null"] {
        let before = shown(&json::parse(text.as_bytes()).unwrap());
        let payload = sanitize_stored_payload(json::parse(text.as_bytes()).unwrap());
        assert_eq!(shown(&payload), before);
    }
}

#[test]
fn sanitize_stored_payload_leaves_objects_without_results_untouched() {
    let text = br#"{ "hardware": { "gpuModel": "RTX 2080" } }"#;
    let payload = sanitize_stored_payload(json::parse(text).unwrap());
    assert_eq!(shown(&payload), shown(&json::parse(text).unwrap()));
}

fn push_u32(buf: &mut Vec<u8>, value: u32) {
    buf.extend_from_slice(&value.to_le_bytes());
}

fn push_u64(buf: &mut Vec<u8>, value: u64) {
    buf.extend_from_slice(&value.to_le_bytes());
}

fn push_string(buf: &mut Vec<u8>, value: &str) {
    push_u64(buf, value.len() as u64);
    buf.extend_from_slice(value.as_bytes());
}

fn push_meta(buf: &mut Vec<u8>, key: &str, value: GgufValue) {
    push_string(buf, key);
    match value {
        GgufValue::Uint(value) => {
            push_u32(buf, 4);
            buf.extend_from_slice(&(value as u32).to_le_bytes());
        }
        GgufValue::Text(value) => {
            push_u32(buf, 8);
            push_string(buf, &value);
        }
        GgufValue::Array { values, .. } => {
            push_u32(buf, 9);
            push_u32(buf, 4);
            push_u64(buf, values.len() as u64);
            for value in values {
                buf.extend_from_slice(&(value as u32).to_le_bytes());
            }
        }
        _ => unreachable!(),
    }
}

fn head(entries: u64) -> Vec<u8> {
    let mut buf = Vec::new();
    buf.extend_from_slice(b"GGUF");
    push_u32(&mut buf, 3);
    push_u64(&mut buf, 1);
    push_u64(&mut buf, entries);
    buf
}

fn sample_gguf() -> Vec<u8> {
    let mut buf = head(7);
    push_meta(&mut buf, "general.architecture", GgufValue::Text("qwen2".into()));
    push_meta(&mut buf, "qwen2.context_length", GgufValue::Uint(32_768));
    push_meta(&mut buf, "qwen2.block_count", GgufValue::Uint(28));
    push_meta(&mut buf, "qwen2.attention.head_count", GgufValue::Uint(28));
    push_meta(&mut buf, "qwen2.attention.head_count_kv", GgufValue::Uint(4));
    push_meta(&mut buf, "qwen2.embedding_length", GgufValue::Uint(3_584));
    push_meta(
        &mut buf,
        "tokenizer.ggml.tokens",
        GgufValue::Array { element_type: 8, values: Vec::new() },
    );
    buf
}

#[test]
fn parses_qwen_gguf_metadata_and_skips_arrays() {
    let metadata = read_metadata(&sample_gguf()).unwrap();
    assert_eq!(metadata.context_length, Some(32_768));
    assert_eq!(metadata.block_count, Some(28));
    assert_eq!(metadata.head_count, Some(28));
    assert_eq!(metadata.head_count_kv, Some(4));
    assert_eq!(metadata.key_head_dim, Some(128));
    assert_eq!(metadata.value_head_dim, Some(128));
}

#[test]
fn rejects_non_gguf_input() {
    assert!(read_metadata(b"not a gguf").is_err());
}

#[test]
fn what_follows_the_metadata_does_not_matter() {
    let mut long = sample_gguf();
    long.extend_from_slice(&[255; 40]);
    assert_eq!(read_metadata(&long), read_metadata(&sample_gguf()));
}

#[test]
fn each_broken_file_has_its_reason() {
    assert_eq!(read_metadata(b"GG").unwrap_err(), GgufError::Truncated);
    assert_eq!(read_metadata(b"not a gguf").unwrap_err(), GgufError::NotGguf);
    let mut old = b"GGUF".to_vec();
    push_u32(&mut old, 1);
    assert_eq!(read_metadata(&old).unwrap_err(), GgufError::UnsupportedVersion(1));
    assert_eq!(read_metadata(&head(100_001)).unwrap_err(), GgufError::TooManyEntries(100_001));
    let mut long_key = head(1);
    push_u64(&mut long_key, 67_108_865);
    assert_eq!(read_metadata(&long_key).unwrap_err(), GgufError::StringTooLarge(67_108_865));
    let mut broken_key = head(1);
    push_u64(&mut broken_key, 1);
    broken_key.push(0xff);
    assert_eq!(read_metadata(&broken_key).unwrap_err(), GgufError::NotUtf8);
    let mut long_array = head(1);
    push_string(&mut long_array, "a");
    push_u32(&mut long_array, 9);
    push_u32(&mut long_array, 4);
    push_u64(&mut long_array, 10_000_001);
    assert_eq!(read_metadata(&long_array).unwrap_err(), GgufError::ArrayTooLarge(10_000_001));
    let mut odd = head(1);
    push_string(&mut odd, "a");
    push_u32(&mut odd, 77);
    assert_eq!(read_metadata(&odd).unwrap_err(), GgufError::UnsupportedType(77));
}

#[test]
fn each_error_of_a_file_has_its_words() {
    let words = [
        (GgufError::Truncated, "failed to fill whole buffer"),
        (GgufError::NotGguf, "not a GGUF file"),
        (GgufError::UnsupportedVersion(1), "unsupported GGUF version 1; expected 2 or 3"),
        (GgufError::TooManyEntries(100_001), "GGUF metadata has too many entries: 100001"),
        (GgufError::StringTooLarge(67_108_865), "GGUF string is too large: 67108865 bytes"),
        (GgufError::NotUtf8, "GGUF string is not UTF-8"),
        (GgufError::ArrayTooLarge(10_000_001), "GGUF metadata array is too large: 10000001 items"),
        (GgufError::UnsupportedType(77), "unsupported GGUF metadata value type 77"),
    ];
    for (error, text) in words {
        assert_eq!(error.message(), text);
    }
}

#[test]
fn files_are_refused_where_they_break() {
    assert_eq!(refusal(&sample_gguf()), None);
    assert_eq!(refusal(b"GG").as_deref(), Some("read GGUF magic"));
    assert_eq!(refusal(b"not a gguf").as_deref(), Some("not a GGUF file"));
    assert_eq!(refusal(b"GGUF12").as_deref(), Some("read GGUF version"));
    assert_eq!(refusal(&head(1)[..20]).as_deref(), Some("failed to fill whole buffer"));
    assert_eq!(
        refusal(&head(100_001)).as_deref(),
        Some("GGUF metadata has too many entries: 100001")
    );
    let mut odd = head(2);
    push_string(&mut odd, "a");
    push_u32(&mut odd, 4);
    push_u32(&mut odd, 5);
    push_string(&mut odd, "b");
    push_u32(&mut odd, 77);
    assert_eq!(refusal(&odd).as_deref(), Some("read GGUF metadata value for b after a"));
    let mut first = head(1);
    push_string(&mut first, "a");
    assert_eq!(refusal(&first).as_deref(), Some("read GGUF metadata value for a after <none>"));
}
