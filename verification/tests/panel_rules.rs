//! What the panel keeps to whatever it is asked: secrets, ids, the library, scripts.
use llm_panel::context_fit::ContextFitStatus;
use llm_panel::double::stretch;
use llm_panel::env::{
    autostart_set, benchmarks_history, channel_installed, conversations_delete,
    conversations_save, cuda_tools_report, env_status, llamacpp_status, read_flashinfer,
    samples_again, wslconfig_get, EnvProbe, LlamaDevice,
};
use llm_panel::fit_request::{analyze_context_fit, ContextFitRequest, FitFacts, LlamaFacts, VllmFacts};
use llm_panel::gguf::GgufMetadata;
use llm_panel::json::JsonNumber;
use llm_panel::library::{library_list, merge_entries, sort_by_size, LibraryEntry};
use llm_panel::library_change::{
    begins_anew, check_gguf_files, check_gguf_import, download_total, download_url,
    library_remove, resume_range, without_imported, GgufPlace, Removal,
};
use llm_panel::memory::{
    distro_is_fixed, store_recommendations, GpuSnapshot, MemorySettings, MemoryState,
};
use llm_panel::scripts::shell_quote;
use llm_panel::servers::{
    find_update_target, ports_of, servers_create, servers_delete, servers_update,
    servers_update_env, store_created, store_updated, CreateContext, OptionalField,
    ServerInput, ServerStats, UpdateContext,
};
use llm_panel::settings::{
    check_export_schema, config_import, import_servers, prepare_servers, public_settings,
    settings_set, validate_advanced_settings, AdvancedSettings, ChannelInstall, ConfigPackage,
    LlamaCppInstall, PanelSettings, PreparedServer, SettingsPatch,
};
use llm_panel::share::store_root;
use llm_panel::state::{LiveServer, LlamaCppChannel, ServerBackend, ServerDef, ServerStatus};
use llm_panel::text_map::TextMap;
use llm_panel::tools::tool_call_limits;

const HIDDEN: &str = "********";

fn map(pairs: &[(&str, &str)]) -> TextMap {
    let mut m = TextMap::new();
    for (k, v) in pairs {
        m.insert(k.to_string(), v.to_string());
    }
    m
}

fn memory() -> MemorySettings {
    MemorySettings {
        default_gpu_mem_util: 9_200,
        vram_overhead_mb: 2500,
        enable_ram_overflow: true,
        manual_ram_limit_mb: None,
        safety_reserve_mb: 4096,
        offload_weights_allowed: true,
        max_context_cap: None,
    }
}

fn nothing_said() -> ServerInput {
    ServerInput {
        id: None,
        backend: None,
        name: None,
        model_id: None,
        task: None,
        port: None,
        gpu_mem_util: None,
        max_model_len: OptionalField(None),
        quant: None,
        served_model_name: OptionalField(None),
        kv_cache_dtype: OptionalField(None),
        enforce_eager: None,
        swap_space_gb: OptionalField(None),
        cpu_offload_gb: OptionalField(None),
        model_path: OptionalField(None),
        mmproj_path: OptionalField(None),
        ctx_size: OptionalField(None),
        n_gpu_layers: OptionalField(None),
        n_cpu_moe: OptionalField(None),
        fit: None,
        fit_target: OptionalField(None),
        device: OptionalField(None),
        api_key: OptionalField(None),
        clear_api_key: None,
        log_verbosity: OptionalField(None),
        flash_attn: None,
        cache_type_k: None,
        cache_type_v: None,
        threads: OptionalField(None),
        batch_size: OptionalField(None),
        ubatch_size: OptionalField(None),
        parallel: None,
        jinja: None,
        no_kv_offload: None,
        metrics: None,
        extra_args: OptionalField(None),
        env: OptionalField(None),
        restart: None,
        llamacpp_channel: None,
    }
}

fn creation() -> CreateContext {
    CreateContext {
        backend_kind: Ok(ServerBackend::Vllm),
        existing_ports: vec![8000],
        port_is_free: true,
        free_port: Ok(8001),
        default_gpu_mem_util: 9_200,
        default_quant: "FP16".to_string(),
        vram_overhead: 0,
        max_context_cap: None,
        path_is_absolute: false,
        stats: None,
        vram_total_mb: None,
        now_ms: 255,
        env_errors: vec![],
        placeholder: HIDDEN.to_string(),
    }
}

fn change() -> UpdateContext {
    UpdateContext {
        backend_kind: Ok(ServerBackend::Vllm),
        other_ports: vec![],
        port_is_free: true,
        env_errors: vec![None],
        placeholder: HIDDEN.to_string(),
    }
}

fn named() -> ServerInput {
    ServerInput {
        name: Some("one".to_string()),
        model_id: Some("org/m".to_string()),
        ..nothing_said()
    }
}

fn server(id: &str, port: u16) -> ServerDef {
    let mut d = servers_create(named(), creation()).unwrap();
    d.id = id.to_string();
    d.port = port;
    d
}

#[test]
fn servers_are_created_from_what_is_said() {
    let d = servers_create(named(), creation()).unwrap();
    assert_eq!(d.id, "srv-ff");
    assert_eq!(d.port, 8001);
    assert_eq!(d.quant, "fp16");
    assert_eq!(d.backend, "vllm");
    assert_eq!(d.task, "instruct");
    assert_eq!(d.gpu_mem_util, 9_200);
}

#[test]
fn each_refusal_of_a_server_has_its_reason() {
    let said = |f: fn(&mut ServerInput), g: fn(&mut CreateContext)| {
        let (mut i, mut c) = (named(), creation());
        f(&mut i);
        g(&mut c);
        servers_create(i, c).unwrap_err()
    };
    assert_eq!(said(|i| i.name = Some(" ".to_string()), |_| ()), "name is required");
    assert_eq!(said(|i| i.model_id = None, |_| ()), "model_id is required");
    assert_eq!(said(|_| (), |c| c.backend_kind = Err("no such backend".to_string())), "no such backend");
    assert_eq!(said(|i| i.port = Some(8000), |_| ()), "port 8000 already used by another server");
    assert!(said(|i| i.port = Some(9000), |c| c.port_is_free = false).contains("9000"));
    assert_eq!(said(|_| (), |c| c.free_port = Err("none left".to_string())), "none left");
    assert_eq!(said(|_| (), |c| c.free_port = Ok(8000)), "port 8000 already used by another server");
    assert!(said(|i| i.gpu_mem_util = Some(99_999), |_| ()).contains("between 0.10 and 0.95"));
    let hidden = said(
        |i| i.env = OptionalField(Some(map(&[("A", HIDDEN)]))),
        |c| c.env_errors = vec![None],
    );
    assert!(!hidden.is_empty());
    let bad = said(
        |i| i.env = OptionalField(Some(map(&[("A B", "x")]))),
        |c| c.env_errors = vec![Some("bad name".to_string())],
    );
    assert_eq!(bad, "bad name");
}

#[test]
fn created_and_changed_servers_are_stored() {
    let all = vec![server("a", 8000), server("b", 8005)];
    assert_eq!(ports_of(&all), vec![8000, 8005]);
    let made = servers_create(named(), CreateContext { existing_ports: ports_of(&all), ..creation() });
    let all = store_created(all, made).unwrap();
    let names = |l: &Vec<ServerDef>| l.iter().map(|d| (d.id.clone(), d.port)).collect::<Vec<_>>();
    let told = |l: &[(&str, u16)]| l.iter().map(|(i, p)| (i.to_string(), *p)).collect::<Vec<_>>();
    assert_eq!(names(&all), told(&[("a", 8000), ("b", 8005), ("srv-ff", 8001)]));
    let refused = store_created(vec![server("a", 8000)], Err("no".to_string()));
    assert_eq!(refused.unwrap_err(), "no");
    // A server made in the same millisecond as another would have its id.
    let again = servers_create(named(), CreateContext { free_port: Ok(8009), ..creation() });
    let all = store_created(all, again).unwrap();
    assert_eq!(all.len(), 4);

    let at = find_update_target(&Some("b".to_string()), &all).unwrap();
    assert_eq!(at, 1);
    let input = ServerInput { port: Some(9001), ..nothing_said() };
    let changed = servers_update(all[at].clone(), input, change()).unwrap();
    let all = store_updated(all, at, changed);
    assert_eq!(names(&all)[..3], told(&[("a", 8000), ("b", 9001), ("srv-ff", 8001)])[..]);
    assert!(find_update_target(&Some("z".to_string()), &all).is_err());
    assert!(find_update_target(&None, &all).is_err());
}

#[test]
fn hidden_secrets_are_kept_when_a_server_is_saved() {
    let mut d = server("srv-1", 8001);
    d.api_key = Some("key".to_string());
    d.env = map(&[("TOKEN", "secret")]);
    let input = ServerInput {
        id: Some("srv-1".to_string()),
        api_key: OptionalField(Some(HIDDEN.to_string())),
        env: OptionalField(Some(map(&[("TOKEN", HIDDEN)]))),
        ..named()
    };
    let n = servers_update(d, input, change()).unwrap();
    assert_eq!(n.api_key.as_deref(), Some("key"));
    assert_eq!(n.env.get("TOKEN").map(|s| s.as_str()), Some("secret"));
    let m = servers_update_env(n, map(&[("TOKEN", HIDDEN)]), &vec![None], HIDDEN).unwrap();
    assert_eq!(m.env.get("TOKEN").map(|s| s.as_str()), Some("secret"));
    // What stands for a secret is not stored where there is none.
    assert!(servers_update_env(m, map(&[("OTHER", HIDDEN)]), &vec![None], HIDDEN).is_err());
}

#[test]
fn deleting_takes_out_one_id() {
    let left = servers_delete(vec![server("a", 1), server("b", 2)], "a");
    assert_eq!(left.len(), 1);
    assert_eq!(left[0].id, "b");
}

#[test]
fn imported_servers_share_no_id_and_no_port() {
    let prepared = |id: &str, port: u16| PreparedServer {
        id: id.to_string(),
        outcome: Ok(server(id, port)),
    };
    assert_eq!(import_servers(vec![prepared("a", 1), prepared("b", 2)]).unwrap().len(), 2);
    assert!(import_servers(vec![prepared("a", 1), prepared("a", 2)]).is_err());
    assert!(import_servers(vec![prepared("a", 1), prepared("b", 1)]).is_err());
    assert!(check_export_schema("local-llm-panel/config-export/v1").is_ok());
    assert!(check_export_schema("other").is_err());
    let mut running = server("a", 1);
    running.was_running = true;
    let one = PreparedServer { id: "a".to_string(), outcome: Ok(running) };
    assert!(!import_servers(vec![one]).unwrap()[0].was_running);
}

fn package(schema: &str) -> ConfigPackage {
    let mut exported = server("a", 8001);
    exported.was_running = true;
    exported.api_key = Some(HIDDEN.to_string());
    exported.env = map(&[("TOKEN", HIDDEN), ("MODE", "fast")]);
    ConfigPackage {
        schema: schema.to_string(),
        distro: "debian".to_string(),
        llm_dir: "~/other".to_string(),
        venv_dir: "~/other/.venv".to_string(),
        default_quant: "awq".to_string(),
        memory_settings: memory(),
        advanced_settings: AdvancedSettings {
            api_key: Some("theirs".to_string()),
            log_level: "DEBUG".to_string(),
            ..advanced()
        },
        minimize_to_tray: true,
        auto_restart_crashed: true,
        launch_at_login: true,
        secrets_omitted: true,
        servers: vec![exported, server("b", 8002)],
    }
}

#[test]
fn imports_keep_the_secrets_of_this_machine() {
    let mut own = server("a", 8009);
    own.api_key = Some("key".to_string());
    own.env = map(&[("TOKEN", "secret")]);
    let own = vec![own];
    let brought = |p: &ConfigPackage, omitted: bool| {
        prepare_servers(p.servers.clone(), &own, omitted, HIDDEN)
            .into_iter()
            .map(|d| PreparedServer { id: d.id.clone(), outcome: Ok(d) })
            .collect::<Vec<_>>()
    };
    let p = package("local-llm-panel/config-export/v1");
    let list = brought(&p, true);
    let (s, m, servers) = config_import(settings(), p, list, None, None).unwrap();
    assert_eq!(s.distro, "debian");
    assert_eq!(s.hf_token, "hf");
    assert_eq!(s.advanced_settings.api_key.as_deref(), Some("key"));
    assert_eq!(s.advanced_settings.log_level, "DEBUG");
    assert_eq!(m, memory());
    assert_eq!(servers.len(), 2);
    assert!(servers.iter().all(|d| !d.was_running));
    assert_eq!((servers[0].id.as_str(), servers[0].port), ("a", 8001));
    assert_eq!(servers[0].api_key.as_deref(), Some("key"));
    assert_eq!(servers[0].env.get("TOKEN").map(|s| s.as_str()), Some("secret"));
    assert_eq!(servers[0].env.get("MODE").map(|s| s.as_str()), Some("fast"));

    // An export with secrets brings none of them.
    let p = package("local-llm-panel/config-export/v1");
    let servers = brought(&p, false);
    let first = servers[0].outcome.as_ref().unwrap();
    assert_eq!(first.api_key.as_deref(), Some("key"));
    assert!(first.env.get("MODE").is_none());

    let refused = |schema: &str, venv: Option<&str>| {
        let p = package(schema);
        let list = brought(&p, true);
        config_import(settings(), p, list, venv.map(|e| e.to_string()), None).unwrap_err()
    };
    assert_eq!(refused("other", None), "Unsupported configuration schema: other");
    assert_eq!(refused("local-llm-panel/config-export/v1", Some("bad venv")), "bad venv");
}

fn advanced() -> AdvancedSettings {
    AdvancedSettings {
        host: "127.0.0.1".to_string(),
        gateway_enabled: false,
        gateway_port: 11434,
        api_key: Some("key".to_string()),
        log_level: "INFO".to_string(),
        kv_cache_dtype: "auto".to_string(),
        extra_vllm_args: None,
        custom_env_vars: None,
        hf_home: None,
        hf_offline: false,
    }
}

fn settings() -> PanelSettings {
    PanelSettings {
        distro: "ubuntu".to_string(),
        llm_dir: "~/llm".to_string(),
        venv_dir: "~/llm/.venv".to_string(),
        gguf_dir: "C:/gguf".to_string(),
        llamacpp: LlamaCppInstall {
            dir: "C:/llama".to_string(),
            executable: None,
            version: None,
            help: None,
            installed_tag: None,
        },
        llamacpp_channels: vec![],
        hf_token: "hf".to_string(),
        github_token: "gh".to_string(),
        default_quant: "fp16".to_string(),
        advanced_settings: advanced(),
        minimize_to_tray: false,
        auto_restart_crashed: false,
        launch_at_login: false,
    }
}

fn no_change() -> SettingsPatch {
    SettingsPatch {
        distro: None,
        llm_dir: None,
        venv_dir: None,
        llamacpp_dir: None,
        gguf_dir: None,
        llamacpp_executable: None,
        llamacpp_channels: None,
        hf_token: None,
        github_token: None,
        clear_hf_token: None,
        clear_github_token: None,
        default_quant: None,
        advanced_settings: None,
        clear_advanced_api_key: None,
        clear_custom_env_vars: None,
        minimize_to_tray: None,
        auto_restart_crashed: None,
        launch_at_login: None,
    }
}

#[test]
fn shown_secrets_are_kept_and_cleared_ones_are_gone() {
    let shown = SettingsPatch {
        hf_token: Some(HIDDEN.to_string()),
        github_token: Some(HIDDEN.to_string()),
        advanced_settings: Some(AdvancedSettings {
            api_key: Some(HIDDEN.to_string()),
            ..advanced()
        }),
        ..no_change()
    };
    let s = settings_set(settings(), shown, HIDDEN, None, None).unwrap();
    assert_eq!(s.hf_token, "hf");
    assert_eq!(s.github_token, "gh");
    assert_eq!(s.advanced_settings.api_key.as_deref(), Some("key"));
    let cleared = SettingsPatch {
        clear_hf_token: Some(true),
        clear_github_token: Some(true),
        clear_advanced_api_key: Some(true),
        ..no_change()
    };
    let s = settings_set(s, cleared, HIDDEN, None, None).unwrap();
    assert_eq!(s.hf_token, "");
    assert_eq!(s.github_token, "");
    assert!(s.advanced_settings.api_key.is_none());
    let p = public_settings(&s);
    assert!(!p.hf_token_configured && !p.github_token_configured && !p.api_key_configured);
}

#[test]
fn each_bad_setting_has_its_reason() {
    let error = |f: fn(&mut AdvancedSettings), name_error: Option<&str>| {
        let mut a = advanced();
        f(&mut a);
        validate_advanced_settings(&a, name_error.map(|s| s.to_string())).unwrap_err()
    };
    assert!(validate_advanced_settings(&advanced(), None).is_ok());
    assert!(error(|a| a.host = "a b".to_string(), None).contains("host"));
    assert!(error(|a| a.gateway_port = 80, None).contains("1024"));
    assert!(error(
        |a| {
            a.host = "0.0.0.0".to_string();
            a.api_key = None;
        },
        None
    )
    .contains("API key is required"));
    assert!(error(|a| a.log_level = "LOUD".to_string(), None).contains("log_level"));
    assert!(error(|a| a.kv_cache_dtype = "fp8;".to_string(), None).contains("kv_cache_dtype"));
    assert!(error(|a| a.extra_vllm_args = Some("--x 'y".to_string()), None).contains("quoting"));
    assert!(error(|a| a.custom_env_vars = Some("NAME".to_string()), None).contains("KEY=VALUE"));
    assert_eq!(error(|a| a.custom_env_vars = Some("1=2".to_string()), Some("bad")), "bad");
    let mut a = advanced();
    a.extra_vllm_args = Some("--x 'y z'".to_string());
    a.custom_env_vars = Some("# note\n\nA=1".to_string());
    assert!(validate_advanced_settings(&a, None).is_ok());
}

fn entry(id: &str, size_mb: u64) -> LibraryEntry {
    LibraryEntry {
        model_id: id.to_string(),
        size_mb,
        files: 1,
        quant: None,
        params_b: None,
        installed: true,
        in_use: false,
        in_use_server: None,
        task: None,
        is_local: false,
        model_path: None,
    }
}

#[test]
fn larger_models_come_first_and_each_once() {
    let ids = |l: Vec<LibraryEntry>| l.iter().map(|e| e.model_id.clone()).collect::<Vec<_>>();
    assert_eq!(ids(sort_by_size(vec![entry("a", 1), entry("b", 3), entry("c", 2)])), vec!["b", "c", "a"]);
    assert_eq!(ids(merge_entries(vec![entry("a", 1)], vec![entry("a", 5), entry("b", 2)])), vec!["a", "b"]);
    let all = library_list(vec![entry("a", 1)], vec![entry("b", 9)], vec![entry("c", 4)], vec![entry("d", 7), entry("c", 8)]);
    assert_eq!(ids(all), vec!["a", "b", "d", "c"]);
}

#[test]
fn models_in_use_are_not_removed() {
    let live = LiveServer { def: server("a", 1), status: ServerStatus::Running };
    assert!(library_remove("org/m", &None, &vec![live], &vec![], true, None).is_err());
    match library_remove("org/m", &None, &vec![], &vec![], true, None).unwrap() {
        Removal::Cached(script) => assert!(script.contains("models--org--m")),
        _ => panic!("the model lies in the cache"),
    }
    assert!(library_remove("bad", &None, &vec![], &vec![], false, None).is_err());
    let imported = vec!["/mnt/d/m".to_string()];
    assert!(matches!(
        library_remove("/mnt/d/m", &None, &vec![], &imported, false, None).unwrap(),
        Removal::Imported(p, _) if p == "/mnt/d/m"
    ));
    let place = |parent: &[&str]| {
        Some(GgufPlace {
            root: vec!["C:".to_string(), "gguf".to_string()],
            parent: parent.iter().map(|s| s.to_string()).collect(),
            parent_text: parent.join("/"),
        })
    };
    assert!(matches!(
        library_remove("m", &place(&["C:", "gguf", "m"]), &vec![], &vec![], true, None),
        Ok(Removal::Directory)
    ));
    assert!(library_remove("m", &place(&["C:", "gguf"]), &vec![], &vec![], true, None).is_err());
    assert!(library_remove("m", &place(&["C:", "x", "m"]), &vec![], &vec![], true, None).is_err());
    let words = |l: &[&str]| l.iter().map(|s| s.to_string()).collect::<Vec<_>>();
    assert_eq!(without_imported(&words(&["/a", "/b", "/a"]), "/a"), words(&["/b"]));
    assert!(check_gguf_import(&words(&["g"]), &words(&["g", "r"]), &None).is_ok());
    assert!(check_gguf_import(&words(&["g"]), &words(&["h"]), &None).is_err());
    assert!(check_gguf_import(&words(&["g"]), &words(&["g", "r"]), &Some(words(&["g"]))).is_err());
}

#[test]
fn downloads_are_taken_up_where_they_ended() {
    assert_eq!(resume_range(0), None);
    assert_eq!(resume_range(5).as_deref(), Some("bytes=5-"));
    assert!(begins_anew(5, 200));
    assert!(!begins_anew(5, 206));
    assert_eq!(download_total(Some(10), 5), Some(15));
    assert_eq!(download_total(None, 5), None);
    assert!(check_gguf_files(&vec!["a.gguf".to_string()]).is_ok());
    assert!(check_gguf_files(&vec!["../a.gguf".to_string()]).is_err());
    assert!(download_url("org/m", "a.gguf").ends_with("/org/m/resolve/main/a.gguf"));
}

#[test]
fn quoting_survives_a_shell() {
    for s in ["plain", "it's", "a b; rm", "", "'", "$(x)"] {
        assert_eq!(shlex::split(&shell_quote(s)), Some(vec![s.to_string()]));
    }
}

#[test]
fn saved_conversations_are_there() {
    let mut list = vec![("a".to_string(), 1)];
    conversations_save(&mut list, ("b".to_string(), 2));
    conversations_save(&mut list, ("a".to_string(), 3));
    assert_eq!(list, vec![("b".to_string(), 2), ("a".to_string(), 3)]);
    assert_eq!(conversations_delete(list, "b"), vec![("a".to_string(), 3)]);
    let runs = vec![("s".to_string(), 1), ("t".to_string(), 2)];
    assert_eq!(benchmarks_history(runs, Some("t")), vec![("t".to_string(), 2)]);
}

#[test]
fn recommendations_are_kept_unless_there_are_none() {
    let mut st = MemoryState { settings: memory(), recommendations: None };
    store_recommendations(&mut st, vec![7], 100);
    store_recommendations(&mut st, vec![], 200);
    let kept = st.recommendations.unwrap();
    assert_eq!((kept.models, kept.vram_mb), (vec![7], 100));
}

#[test]
fn the_machine_is_told_of() {
    let device = || LlamaDevice { name: "GPU".to_string(), backend: "Cuda".to_string() };
    let status = llamacpp_status(
        Some("x".to_string()),
        (None, Some("v1".to_string())),
        (Some("t0".to_string()), Some("v0".to_string())),
        vec![device()],
    );
    assert!(status.installed && status.cuda_available);
    assert_eq!(status.tag.as_deref(), Some("t0"));
    assert_eq!(status.version.as_deref(), Some("v1"));
    let channels = || {
        vec![ChannelInstall { channel: LlamaCppChannel::Upstream, install: settings().llamacpp }]
    };
    let install = |channel: LlamaCppChannel| {
        channel_installed(
            channels(),
            &channel,
            "t".to_string(),
            "x.exe".to_string(),
            "v".to_string(),
            "help".to_string(),
            vec![],
        )
    };
    let (known, status) = install(LlamaCppChannel::Upstream);
    assert_eq!(known.len(), 1);
    assert_eq!(known[0].install.dir, "C:/llama");
    assert_eq!(known[0].install.installed_tag.as_deref(), Some("t"));
    assert!(status.installed && !status.cuda_available);
    assert_eq!(cuda_tools_report("ubuntu").phases_completed, vec!["cuda-tools"]);
    assert_eq!(autostart_set(true, "p.exe")[7], "\"p.exe\"");
    assert_eq!(autostart_set(false, "p.exe").len(), 5);
    assert!(distro_is_fixed("__test_one") && !distro_is_fixed("ubuntu"));
    assert!(samples_again(None, 0));
    assert!(!samples_again(Some(0), 4000));
    assert!(samples_again(Some(0), 4001));
    assert!(!read_flashinfer("").nvcc);
    assert!(wslconfig_get(None, Some("x".to_string())).content.is_none());
    assert_eq!(tool_call_limits(None, None), (2048, true));
    assert_eq!(tool_call_limits(Some(0), Some(false)), (1, false));
    assert_eq!(store_root(Some("/s"), Some("/d")).unwrap().root, "/s");
    assert_eq!(store_root(Some(" "), Some("/d")).unwrap().names, vec!["llmfit", "benchmarks"]);
    assert!(store_root(None, None).is_none());
}

#[test]
fn the_memory_of_the_machine_is_told() {
    let probe = |total_ram: u64, available_ram: u64| EnvProbe {
        distro: "ubuntu".to_string(),
        wsl_running: true,
        apt_based: true,
        wsl_gpu: Some(card()),
        native_gpu: None,
        provision_output: String::new(),
        provision_report: None,
        cpu_name: "CPU".to_string(),
        cpu_cores: 8,
        total_ram,
        available_ram,
        running_weight: 5_000_000_000,
        native_llamacpp: None,
        llamacpp_available: false,
        ollama_available: false,
        llamacpp_devices: vec![],
        upstream: (None, None, None),
        configured: (None, None, None),
    };
    let gib = 1 << 30;
    let live = LiveServer { def: server("a", 1), status: ServerStatus::Running };
    let status = env_status(probe(32 * gib, 20 * gib + gib / 2), &vec![live]);
    assert_eq!((status.total_ram, status.available_ram), (Some(320), Some(205)));
    assert_eq!(status.running_weight, 5_000_000_000);
    assert_eq!(status.servers_running, 1);
    assert_eq!(env_status(probe(0, 0), &vec![]).total_ram, None);
}

#[test]
fn factors_of_one_or_less_do_nothing() {
    assert_eq!(stretch(4096, JsonNumber::Float(1.0f64.to_bits())), 4096);
    assert_eq!(stretch(4096, JsonNumber::Float(0.5f64.to_bits())), 4096);
    assert_eq!(stretch(4096, JsonNumber::Float(2.5f64.to_bits())), 10240);
}

fn request(backend: &str, model_id: &str) -> ContextFitRequest {
    ContextFitRequest {
        backend: backend.to_string(),
        model_id: model_id.to_string(),
        model_path: None,
        context_tokens: None,
        quant: None,
        kv_cache_dtype: None,
        gpu_mem_util: None,
        cpu_offload_gb: None,
        kv_offload_gb: None,
        cache_type_k: None,
        cache_type_v: None,
        flash_attn: None,
        n_gpu_layers: None,
        n_cpu_moe: None,
        fit: None,
        fit_target: None,
        no_kv_offload: None,
    }
}

fn card() -> GpuSnapshot {
    GpuSnapshot {
        name: "NVIDIA GeForce RTX 4090".to_string(),
        vram_total_mb: 24576,
        vram_free_mb: 24000,
        util_percent: 0,
    }
}

fn vllm_facts(stats: Option<ServerStats>) -> FitFacts {
    FitFacts::Vllm(VllmFacts {
        stats,
        context_estimated: false,
        cached_bytes: None,
        gpu: Some(card()),
        ram_mb: Some((32768, 16384)),
        default_kv_cache_dtype: "auto".to_string(),
        memory: memory(),
    })
}

#[test]
fn requests_about_contexts_are_answered() {
    let stats = ServerStats {
        context: 4096,
        n_layers: Some(28),
        n_kv_heads: Some(4),
        head_dim: Some(128),
        params_m: Some(7_600),
        params_b: None,
    };
    let r = analyze_context_fit(&request("vllm", " org/m-AWQ "), &vllm_facts(Some(stats)))
        .unwrap();
    assert_eq!(r.model_id, "org/m-AWQ");
    assert_eq!(r.decision.status, ContextFitStatus::Fits);
    assert_eq!(r.weight_source, "parameter_estimate");
    let e = analyze_context_fit(&request("vllm", " "), &vllm_facts(None)).unwrap_err();
    assert_eq!(e, "A vLLM model ID is required.");
    let e = analyze_context_fit(&request("vllm", "org/m"), &vllm_facts(None)).unwrap_err();
    assert_eq!(e, "Could not read model metadata for org/m");
    let none = FitFacts::NoBackend("Unsupported backend: other".to_string());
    let e = analyze_context_fit(&request("other", "org/m"), &none).unwrap_err();
    assert_eq!(e, "Unsupported backend: other");

    let metadata = GgufMetadata {
        context_length: Some(4096),
        block_count: Some(28),
        head_count: Some(28),
        head_count_kv: Some(4),
        key_head_dim: Some(128),
        value_head_dim: Some(128),
    };
    let facts = |path: Option<&str>, is_file: bool, metadata: Result<GgufMetadata, String>| {
        FitFacts::Llama(LlamaFacts {
            path: path.map(|p| p.to_string()),
            is_file,
            metadata,
            size_bytes: Some(4_000_000_000),
            gpu: Some(card()),
            ram_total_mb: 32768,
            ram_available_mb: 16384,
        })
    };
    let ask = request("llamacpp", "m.gguf");
    let r = analyze_context_fit(&ask, &facts(Some("C:/m.gguf"), true, Ok(metadata)))
        .unwrap();
    assert!(r.decision.fits);
    assert_eq!(r.kv_cache_label, "K q8_0 / V q8_0");
    let error = |f: FitFacts| analyze_context_fit(&ask, &f).unwrap_err();
    assert_eq!(error(facts(None, true, Ok(metadata))), "GGUF file not found: m.gguf");
    assert!(error(facts(Some("p"), false, Ok(metadata))).contains("not accessible"));
    assert!(error(facts(Some("p"), true, Err("odd".to_string()))).ends_with("odd"));
    let unknown = GgufMetadata { context_length: None, ..metadata };
    assert!(error(facts(Some("p"), true, Ok(unknown))).contains("context length is required"));
}
