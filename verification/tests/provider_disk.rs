//! Model files, caches and installed programs on disk.
use llm_panel::paths::PlacedPath;
use llm_panel::providers::disk::{
    binary_candidates, cached_repo_parts, collect_gguf_files, dedupe_by_target,
    dirs_hf_cache_all, docker_desktop_install_candidates, find_binary, gguf_file_names,
    llamacpp_models_dir, lmstudio_install_candidates, lmstudio_models_dir_for,
    looks_like_model, scan_hf_cache_for_gguf, scan_hf_cache_for_mlx, scan_lmstudio_models_dir,
    set_llama_cpp_path_override, DirEntry, GgufFile, GGUF_SCAN_MAX_DEPTH,
};
use llm_panel::providers::matching::is_model_installed_lmstudio_disk;

fn joined(p: &PlacedPath) -> String {
    let mut out = p.root.clone();
    for name in &p.names {
        out.push('/');
        out.push_str(name);
    }
    out
}

fn all_joined(paths: &Vec<PlacedPath>) -> Vec<String> {
    paths.iter().map(joined).collect()
}

fn file_at(dir: &[&str], name: &str) -> GgufFile {
    let mut path = String::new();
    for part in dir {
        path.push('/');
        path.push_str(part);
    }
    path.push('/');
    path.push_str(name);
    let stem = match name.rfind('.') {
        Some(dot) => name[..dot].to_string(),
        None => name.to_string(),
    };
    GgufFile {
        path: path.clone(),
        stem: Some(stem),
        parent: dir.last().map(|s| s.to_string()),
        grandparent: if dir.len() > 1 { Some(dir[dir.len() - 2].to_string()) } else { None },
        target: path,
        is_alias: false,
    }
}

/// Adds a file at the given names below the entries.
fn touch_below(entries: &mut Vec<DirEntry>, dir: &mut Vec<String>, parts: &[&str]) {
    if parts.len() == 1 {
        let at: Vec<&str> = dir.iter().map(|s| s.as_str()).collect();
        entries.push(DirEntry {
            name: parts[0].to_string(),
            file: Some(file_at(&at, parts[0])),
            inside: None,
        });
        return;
    }
    let known = entries.iter().position(|e| e.name == parts[0] && e.inside.is_some());
    let k = match known {
        Some(k) => k,
        None => {
            entries.push(DirEntry {
                name: parts[0].to_string(),
                file: None,
                inside: Some(Vec::new()),
            });
            entries.len() - 1
        }
    };
    dir.push(parts[0].to_string());
    if let Some(inner) = entries[k].inside.as_mut() {
        touch_below(inner, dir, &parts[1..]);
    }
    dir.pop();
}

/// A directory with the given files in it.
fn tree_of(files: &[&str]) -> Option<Vec<DirEntry>> {
    let mut entries: Vec<DirEntry> = Vec::new();
    for file in files {
        let parts: Vec<&str> = file.split('/').collect();
        let mut dir = vec!["models".to_string()];
        touch_below(&mut entries, &mut dir, &parts);
    }
    Some(entries)
}

fn names_of(files: &Vec<GgufFile>) -> Vec<String> {
    let mut names: Vec<String> = files
        .iter()
        .map(|f| f.path.rsplit('/').next().unwrap_or("").to_lowercase())
        .collect();
    names.sort();
    names
}

#[test]
fn test_lmstudio_install_candidates_windows_layouts() {
    let found = all_joined(&lmstudio_install_candidates(
        Some(r"C:\Program Files"),
        Some(r"C:\Users\ben\AppData\Local"),
        Some(r"C:\Users\ben"),
    ));
    assert!(found.contains(&r"C:\Program Files/LM Studio/LM Studio.exe".to_string()));
    assert!(found
        .contains(&r"C:\Users\ben\AppData\Local/Programs/LM Studio/LM Studio.exe".to_string()));
    assert!(found.contains(&r"C:\Users\ben/.lmstudio".to_string()));
}

#[test]
fn test_lmstudio_install_candidates_unix_layouts() {
    let found = all_joined(&lmstudio_install_candidates(None, None, Some("/home/ben")));
    assert!(found.contains(&"/Applications/LM Studio.app".to_string()));
    assert!(found.contains(&"/home/ben/Applications/LM Studio.app".to_string()));
    assert!(found.contains(&"/home/ben/.lmstudio".to_string()));
    assert_eq!(found.len(), 3);
}

#[test]
fn test_docker_desktop_install_candidates_windows_layouts() {
    let found = all_joined(&docker_desktop_install_candidates(
        Some(r"C:\Program Files"),
        Some(r"C:\Users\ben"),
    ));
    assert!(found.contains(&r"C:\Program Files/Docker/Docker/Docker Desktop.exe".to_string()));
    assert!(found
        .contains(&r"C:\Program Files/Docker/Docker/frontend/Docker Desktop.exe".to_string()));
    assert!(found.contains(&r"C:\Users\ben/.docker/cli-plugins/docker-model.exe".to_string()));
}

#[test]
fn test_docker_desktop_install_candidates_unix_layouts() {
    let found = all_joined(&docker_desktop_install_candidates(None, Some("/home/ben")));
    assert!(found.contains(&"/Applications/Docker.app".to_string()));
    assert!(found.contains(&"/opt/docker-desktop".to_string()));
    assert!(found.contains(&"/home/ben/.docker/desktop".to_string()));
    assert!(found.contains(&"/home/ben/.docker/cli-plugins/docker-model".to_string()));
}

#[test]
fn test_collect_gguf_files_descends_and_caps_depth() {
    let tree = tree_of(&[
        "root.gguf",
        "publisher/mid.gguf",
        "publisher/repo/leaf.gguf",
        "publisher/repo/notes.txt",
        // One level past the cap.
        "publisher/repo/nested/toodeep.gguf",
    ]);
    let found = names_of(&collect_gguf_files(&tree, GGUF_SCAN_MAX_DEPTH));
    assert_eq!(found, vec!["leaf.gguf", "mid.gguf", "root.gguf"]);
}

#[test]
fn test_collect_gguf_files_flat_when_depth_is_one() {
    let tree = tree_of(&["root.gguf", "publisher/mid.gguf"]);
    assert_eq!(names_of(&collect_gguf_files(&tree, 1)), vec!["root.gguf"]);
    assert!(collect_gguf_files(&tree, 0).is_empty());
}

#[test]
fn test_collect_gguf_files_missing_root_is_empty() {
    assert!(collect_gguf_files(&None, GGUF_SCAN_MAX_DEPTH).is_empty());
}

#[test]
fn test_collect_gguf_files_follows_symlinked_models() {
    // The link leads out of the tree, so that nothing else leads to its file.
    let mut tree = tree_of(&["plain-model.gguf"]);
    let mut link = file_at(&["models"], "linked-model.gguf");
    link.target = "/store/real-model.gguf".to_string();
    link.is_alias = true;
    if let Some(entries) = tree.as_mut() {
        entries.push(DirEntry {
            name: "linked-model.gguf".to_string(),
            file: Some(link),
            inside: None,
        });
    }
    let found = names_of(&collect_gguf_files(&tree, GGUF_SCAN_MAX_DEPTH));
    assert_eq!(found, vec!["linked-model.gguf", "plain-model.gguf"]);
}

#[test]
fn test_collect_gguf_files_does_not_follow_directory_symlinks() {
    // A link to a directory has nothing inside that is looked at.
    let mut tree = tree_of(&["inside.gguf"]);
    if let Some(entries) = tree.as_mut() {
        entries.push(DirEntry { name: "escape-hatch".to_string(), file: None, inside: None });
    }
    let found = names_of(&collect_gguf_files(&tree, GGUF_SCAN_MAX_DEPTH));
    assert_eq!(found, vec!["inside.gguf"]);
}

#[test]
fn test_collect_gguf_files_collapses_symlink_aliases() {
    // A symlink beside the file it points at is one model, not two.
    let mut tree = tree_of(&["real-model.gguf"]);
    let mut alias = file_at(&["models"], "alias-model.gguf");
    alias.target = "/models/real-model.gguf".to_string();
    alias.is_alias = true;
    if let Some(entries) = tree.as_mut() {
        entries.push(DirEntry {
            name: "alias-model.gguf".to_string(),
            file: Some(alias),
            inside: None,
        });
    }
    let found = collect_gguf_files(&tree, GGUF_SCAN_MAX_DEPTH);
    assert_eq!(found.len(), 1);
    assert_eq!(names_of(&found), vec!["real-model.gguf"]);
}

fn under_root(name: &str, is_alias: bool) -> GgufFile {
    let mut f = file_at(&["links", "root"], name);
    f.target = "/store/model.gguf".to_string();
    f.is_alias = is_alias;
    f
}

#[test]
fn test_dedupe_prefers_target_even_when_alias_is_seen_first() {
    // Under a symlinked root neither path equals its canonical form.
    let alias_first = vec![under_root("alias.gguf", true), under_root("model.gguf", false)];
    let kept = dedupe_by_target(alias_first);
    assert_eq!(kept.len(), 1);
    assert_eq!(names_of(&kept), vec!["model.gguf"]);

    let target_first = vec![under_root("model.gguf", false), under_root("alias.gguf", true)];
    assert_eq!(names_of(&dedupe_by_target(target_first)), vec!["model.gguf"]);

    // Of links alone the first stays.
    let links = vec![under_root("one.gguf", true), under_root("two.gguf", true)];
    assert_eq!(names_of(&dedupe_by_target(links)), vec!["one.gguf"]);
}

#[test]
fn test_lmstudio_models_dir_layout() {
    let dir = lmstudio_models_dir_for(Some("/home/someone"));
    assert_eq!(dir.map(|d| joined(&d)), Some("/home/someone/.lmstudio/models".to_string()));
    assert!(lmstudio_models_dir_for(None).is_none());
}

fn lmstudio_tree() -> Option<Vec<DirEntry>> {
    tree_of(&[
        "lmstudio-community/Meta-Llama-3.1-8B-Instruct-GGUF/Meta-Llama-3.1-8B-Instruct-Q4_K_M.gguf",
        "lmstudio-community/gemma-4-12B-it-GGUF/gemma-4-12B-it-Q8_0.gguf",
        "lmstudio-community/gemma-4-12B-it-GGUF/mmproj-gemma-4-12B-it-BF16.gguf",
    ])
}

#[test]
fn test_scan_lmstudio_models_dir_names_and_projector_handling() {
    let (set, count) = scan_lmstudio_models_dir(&lmstudio_tree());
    // Two models, not three: the mmproj file is a projector, not a model.
    assert_eq!(count, 2);
    assert!(set.contains("lmstudio-community/meta-llama-3.1-8b-instruct-gguf"));
    assert!(set.contains("meta-llama-3.1-8b-instruct"));
    assert!(set.contains("gemma-4-12b-it"));
    assert!(!set.items().iter().any(|n| n.starts_with("mmproj-")));
}

#[test]
fn test_lmstudio_disk_match_is_exact_not_substring() {
    let (set, _) = scan_lmstudio_models_dir(&lmstudio_tree());
    assert!(is_model_installed_lmstudio_disk("unsloth/Meta-Llama-3.1-8B-Instruct", &set));
    assert!(is_model_installed_lmstudio_disk("google/gemma-4-12B-it", &set));
    // A catalog entry literally named "llama" is a substring of
    // "meta-llama-3.1-8b-instruct". Equality is what keeps it out.
    assert!(!is_model_installed_lmstudio_disk("Resilient-Coders/llama", &set));
    // The base model is a different model from the Instruct one.
    assert!(!is_model_installed_lmstudio_disk("meta-llama/Llama-3.1-8B", &set));
}

#[test]
fn test_lmstudio_disk_base_model_does_not_claim_variants() {
    let tree = tree_of(&["unsloth/gemma-4-12b-GGUF/gemma-4-12b-Q8_0.gguf"]);
    let (set, _) = scan_lmstudio_models_dir(&tree);
    assert!(is_model_installed_lmstudio_disk("unsloth/gemma-4-12b", &set));
    assert!(!is_model_installed_lmstudio_disk("google/gemma-4-12B-it", &set));
    assert!(!is_model_installed_lmstudio_disk("google/gemma-4-12B-instruct", &set));
    assert!(!is_model_installed_lmstudio_disk("google/gemma-4-12B-chat", &set));
}

#[test]
fn test_collect_gguf_files_ignores_directories_named_like_models() {
    let tree = tree_of(&["decoy.gguf/real.gguf"]);
    let found = collect_gguf_files(&tree, GGUF_SCAN_MAX_DEPTH);
    assert_eq!(names_of(&found), vec!["real.gguf"]);
}

#[test]
fn test_scan_lmstudio_models_dir_without_home_is_empty() {
    let (set, count) = scan_lmstudio_models_dir(&None);
    assert!(set.is_empty());
    assert_eq!(count, 0);
}

#[test]
fn directories_are_searched_after_their_files_and_the_last_first() {
    let tree = tree_of(&["a/one.gguf", "b/two.gguf", "root.gguf"]);
    let found: Vec<String> =
        collect_gguf_files(&tree, 2).iter().map(|f| f.path.clone()).collect();
    assert_eq!(found, vec!["/models/root.gguf", "/models/b/two.gguf", "/models/a/one.gguf"]);
    assert!(looks_like_model("Model.GGUF"));
    assert!(!looks_like_model("model.gguf.part"));
}

#[test]
fn names_of_files_have_both_forms_and_are_counted() {
    let files = vec![file_at(&["models"], "Qwen3-8B-Q4_K_M.gguf")];
    let (set, count) = gguf_file_names(&files);
    assert_eq!(count, 1);
    assert_eq!(set.len(), 2);
    assert!(set.contains("qwen3-8b-q4_k_m"));
    assert!(set.contains("qwen3-8b"));
}

#[test]
fn cached_directories_are_told_apart() {
    assert_eq!(cached_repo_parts("models--Org--My--Model"), Some(("Org", "My--Model")));
    assert_eq!(cached_repo_parts("datasets--Org--Model"), None);
    assert_eq!(cached_repo_parts("models--OrgOnly"), None);
    let cached = vec![
        "models--mlx-community--Llama-3.2-1B-4bit".to_string(),
        "models--Bart--Qwen3-8B-GGUF".to_string(),
        "models--Qwen--Qwen3-8B".to_string(),
        "version.txt".to_string(),
    ];
    let mlx = scan_hf_cache_for_mlx(&cached);
    assert_eq!(mlx.len(), 2);
    assert!(mlx.contains("mlx-community/llama-3.2-1b-4bit"));
    assert!(mlx.contains("llama-3.2-1b-4bit"));
    let (gguf, count) = scan_hf_cache_for_gguf(&cached);
    assert_eq!(count, 1);
    assert!(gguf.contains("bart/qwen3-8b-gguf"));
    assert!(gguf.contains("qwen3-8b-gguf"));
}

#[test]
fn caches_of_the_hub_are_looked_for_in_order() {
    let own = dirs_hf_cache_all(Some("/data/hf"), Some("/c"), Some("/h"), false);
    assert_eq!(all_joined(&own), vec!["/data/hf/hub"]);
    let mac = dirs_hf_cache_all(None, Some("/h/Library/Caches"), Some("/h"), false);
    assert_eq!(
        all_joined(&mac),
        vec!["/h/Library/Caches/huggingface/hub", "/h/.cache/huggingface/hub"]
    );
    let linux = dirs_hf_cache_all(None, Some("/h/.cache"), Some("/h"), true);
    assert_eq!(all_joined(&linux), vec!["/h/.cache/huggingface/hub"]);
    let none = dirs_hf_cache_all(None, None, None, false);
    assert_eq!(all_joined(&none), vec!["/tmp/.cache/huggingface/hub"]);
}

#[test]
fn programs_are_looked_for_where_they_were_given_first() {
    let places = binary_candidates(Some("/given"), Some("/set"), Some("/home/a"), "llama-cli");
    assert_eq!(
        all_joined(&places),
        vec![
            "/given/llama-cli",
            "/set/llama-cli",
            "/usr/local/bin/llama-cli",
            "/opt/llama.cpp/build/bin/llama-cli",
            "/home/a/.local/bin/llama-cli",
        ]
    );
    let found = vec![("/given/x".to_string(), false), ("/set/x".to_string(), true)];
    assert_eq!(find_binary(&found, Some("/usr/bin/x".to_string())), Some("/set/x".to_string()));
    let none = vec![("/given/x".to_string(), false)];
    assert_eq!(find_binary(&none, Some("/usr/bin/x".to_string())), Some("/usr/bin/x".to_string()));
    assert_eq!(find_binary(&none, None), None);
}

#[test]
fn the_first_override_stays() {
    let mut place: Option<String> = None;
    assert!(set_llama_cpp_path_override(&mut place, "/a".to_string()));
    assert!(!set_llama_cpp_path_override(&mut place, "/b".to_string()));
    assert_eq!(place, Some("/a".to_string()));
}

#[test]
fn models_of_llamacpp_have_a_directory() {
    assert_eq!(joined(&llamacpp_models_dir(Some("/m"), Some("/c"))), "/m");
    assert_eq!(joined(&llamacpp_models_dir(None, Some("/c"))), "/c/llmfit/models");
    assert_eq!(joined(&llamacpp_models_dir(None, None)), ".llmfit/models");
}
