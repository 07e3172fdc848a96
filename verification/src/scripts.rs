//! The shell scripts that the panel runs.
//!
//! A text that comes from outside stands in a script only as one quoted word.
use vstd::prelude::*;
use crate::text;

verus! {

// ---------------------------------------------------------------------------
// Quoting
// ---------------------------------------------------------------------------

/// What stands for a character between single quotes: a single quote ends the quotes, stands
/// behind a backslash and begins them again; any other character stands for itself.
pub open spec fn quoted_char(c: char) -> Seq<char> {
    if c == '\'' {
        seq!['\'', '\\', '\'', '\'']
    } else {
        seq![c]
    }
}

/// What stands for a text between single quotes.
pub open spec fn quoted_body(s: Seq<char>) -> Seq<char>
    decreases s.len(),
{
    if s.len() == 0 {
        s
    } else {
        quoted_char(s[0]) + quoted_body(s.skip(1))
    }
}

/// A text as one word of a script.
pub open spec fn quoted(s: Seq<char>) -> Seq<char> {
    seq!['\''] + quoted_body(s) + seq!['\'']
}

/// A text as one word of a script.
pub fn shell_quote(s: &str) -> (r: String)
    ensures
        r@ == quoted(s@),
{
    let cs = text::chars_of(s);
    let mut out = String::new();
    out.push('\'');
    assert(s@.skip(0) =~= s@);
    assert(out@ + quoted_body(s@) =~= seq!['\''] + quoted_body(s@));
    for i in 0..cs.len()
        invariant
            cs@ == s@,
            out@ + quoted_body(s@.skip(i as int)) == seq!['\''] + quoted_body(s@),
    {
        let ghost before = out@;
        let ghost rest = s@.skip(i as int);
        let c = cs[i];
        if c == '\'' {
            out.push('\'');
            out.push('\\');
            out.push('\'');
            out.push('\'');
        } else {
            out.push(c);
        }
        assert(rest.skip(1) =~= s@.skip(i + 1));
        assert(out@ =~= before + quoted_char(c));
        assert(out@ + quoted_body(rest.skip(1)) =~= before + (quoted_char(c) + quoted_body(
            rest.skip(1),
        )));
    }
    assert(s@.skip(s@.len() as int) =~= Seq::empty());
    assert(out@ + Seq::<char>::empty() =~= out@);
    out.push('\'');
    out
}

/// The word that a shell reads from single quotes and escaped characters, from within quotes
/// or from outside of them; nothing where it would not end or would hold anything else.
pub open spec fn shell_word(s: Seq<char>, inside: bool) -> Option<Seq<char>>
    decreases s.len(),
{
    if s.len() == 0 {
        if inside {
            None
        } else {
            Some(Seq::empty())
        }
    } else if s[0] == '\'' {
        shell_word(s.skip(1), !inside)
    } else if inside {
        match shell_word(s.skip(1), true) {
            Some(w) => Some(seq![s[0]] + w),
            None => None,
        }
    } else if s[0] == '\\' && s.len() > 1 {
        match shell_word(s.skip(2), false) {
            Some(w) => Some(seq![s[1]] + w),
            None => None,
        }
    } else {
        None
    }
}

proof fn lemma_body_is_read(s: Seq<char>)
    ensures
        shell_word(quoted_body(s) + seq!['\''], true) == Some(s),
    decreases s.len(),
{
    let q = quoted_body(s) + seq!['\''];
    if s.len() == 0 {
        assert(q =~= seq!['\'']);
        assert(q.skip(1) =~= Seq::empty());
        assert(shell_word(q.skip(1), false) == Some(Seq::<char>::empty()));
        assert(s =~= Seq::empty());
    } else {
        let t = quoted_body(s.skip(1)) + seq!['\''];
        lemma_body_is_read(s.skip(1));
        assert(q =~= quoted_char(s[0]) + t);
        assert(seq![s[0]] + s.skip(1) =~= s);
        if s[0] == '\'' {
            let q1 = q.skip(1);
            assert(q1[0] == '\\' && q1[1] == '\'');
            let q3 = q1.skip(2);
            assert(q3[0] == '\'');
            assert(q3.skip(1) =~= t);
            assert(shell_word(q3, false) == shell_word(t, true));
            assert(shell_word(q1, false) == Some(seq!['\''] + s.skip(1)));
        } else {
            assert(q.skip(1) =~= t);
        }
    }
}

/// A shell reads a quoted text as that text, whatever it holds.
pub proof fn law_quoting_is_undone(s: Seq<char>)
    ensures
        shell_word(quoted(s), false) == Some(s),
{
    lemma_body_is_read(s);
    assert(quoted(s).skip(1) =~= quoted_body(s) + seq!['\'']);
    assert(quoted(s)[0] == '\'');
}

// ---------------------------------------------------------------------------
// Places
// ---------------------------------------------------------------------------

pub const DEFAULT_HUB: &'static str = "~/.cache/huggingface/hub";

/// The directory of the hub's cache: below the directory that was set, else in the user's.
pub open spec fn hub_of(hf_home: Option<Seq<char>>) -> Seq<char> {
    match hf_home {
        Some(h) => if text::trim(h).len() > 0 {
            text::trim(h) + "/hub"@
        } else {
            DEFAULT_HUB@
        },
        None => DEFAULT_HUB@,
    }
}

/// The directory of the hub's cache.
pub fn hub_dir(hf_home: Option<&str>) -> (r: String)
    ensures
        r@ == hub_of(text::opt_str(hf_home)),
{
    if let Some(h) = hf_home {
        let home = text::trimmed(h);
        if home.unicode_len() > 0 {
            let mut out = home.to_string();
            out.append("/hub");
            return out;
        }
    }
    DEFAULT_HUB.to_string()
}

/// The name of a model's directory in the hub's cache.
pub open spec fn model_dir_of(model_id: Seq<char>) -> Seq<char> {
    "models--"@ + text::replace(model_id, "/"@, "--"@)
}

/// The name of a model's directory in the hub's cache.
pub fn model_dir(model_id: &str) -> (r: String)
    ensures
        r@ == model_dir_of(model_id@),
{
    proof {
        reveal_strlit("/");
    }
    let mut out = "models--".to_string();
    out.append(&text::replace_text(model_id, "/", "--"));
    out
}

/// The Python of a virtual environment.
pub fn venv_python(venv_dir: &str) -> (r: String)
    ensures
        r@ == text::trim_end_char(venv_dir@, '/') + "/bin/python"@,
{
    let mut out = text::trimmed_end_char(venv_dir, '/').to_string();
    out.append("/bin/python");
    out
}

// ---------------------------------------------------------------------------
// Scripts
// ---------------------------------------------------------------------------

/// Defines the shell function that puts the user's directory in the place of a tilde.
pub const TILDE_EXPANSION: &'static str =
    "__llm_panel_expand_tilde() {\n  case \"$1\" in\n    '~') printf '%s' \"$HOME\" ;;\n    '~/'*) printf '%s/%s' \"$HOME\" \"${1#??}\" ;;\n    *) printf '%s' \"$1\" ;;\n  esac\n}\n";

/// The script that tells whether a model is in the cache of the hub.
pub open spec fn model_exists_script(hub_dir: Seq<char>, dir_name: Seq<char>) -> Seq<char> {
    TILDE_EXPANSION@
        + "\nhub_dir=$(__llm_panel_expand_tilde "@
        + quoted(hub_dir)
        + ")\ndir_name=$(__llm_panel_expand_tilde "@
        + quoted(dir_name)
        + ")\n[ -d \"$hub_dir/$dir_name\" ] && echo exists\n"@
}

/// The script that tells whether a model is in the cache of the hub.
pub fn compose_hf_cache_model_exists_script(hub_dir: &str, dir_name: &str) -> (r: String)
    ensures
        r@ == model_exists_script(hub_dir@, dir_name@),
{
    let mut out = String::new();
    out.append(TILDE_EXPANSION);
    out.append("\nhub_dir=$(__llm_panel_expand_tilde ");
    out.append(&shell_quote(hub_dir));
    out.append(")\ndir_name=$(__llm_panel_expand_tilde ");
    out.append(&shell_quote(dir_name));
    out.append(")\n[ -d \"$hub_dir/$dir_name\" ] && echo exists\n");
    assert(out@ =~= model_exists_script(hub_dir@, dir_name@));
    out
}

/// The script that lists the cache of the hub with the tools of the virtual environment.
pub open spec fn cache_scan_script(venv_python: Seq<char>, hub_dir: Seq<char>) -> Seq<char> {
    TILDE_EXPANSION@
        + "\nvenv_python=$(__llm_panel_expand_tilde "@
        + quoted(venv_python)
        + ")\nhub_dir=$(__llm_panel_expand_tilde "@
        + quoted(hub_dir)
        + ")\nexport LOCAL_LLM_PANEL_HUB_DIR=\"$hub_dir\"\n\"$venv_python\" - <<'PY'\nimport json\nimport os\nfrom huggingface_hub import scan_cache_dir\ncache = scan_cache_dir(os.environ['LOCAL_LLM_PANEL_HUB_DIR'])\nresult = []\nfor repo in cache.repos:\n    result.append({\n        'repo_id': repo.repo_id,\n        'size_bytes': repo.size_on_disk,\n        'file_count': repo.nb_files,\n    })\nprint(json.dumps(result))\nPY\n"@
}

/// The script that lists the cache of the hub with the tools of the virtual environment.
pub fn compose_hf_cache_scan_script(venv_python: &str, hub_dir: &str) -> (r: String)
    ensures
        r@ == cache_scan_script(venv_python@, hub_dir@),
{
    let mut out = String::new();
    out.append(TILDE_EXPANSION);
    out.append("\nvenv_python=$(__llm_panel_expand_tilde ");
    out.append(&shell_quote(venv_python));
    out.append(")\nhub_dir=$(__llm_panel_expand_tilde ");
    out.append(&shell_quote(hub_dir));
    out.append(")\nexport LOCAL_LLM_PANEL_HUB_DIR=\"$hub_dir\"\n\"$venv_python\" - <<'PY'\nimport json\nimport os\nfrom huggingface_hub import scan_cache_dir\ncache = scan_cache_dir(os.environ['LOCAL_LLM_PANEL_HUB_DIR'])\nresult = []\nfor repo in cache.repos:\n    result.append({\n        'repo_id': repo.repo_id,\n        'size_bytes': repo.size_on_disk,\n        'file_count': repo.nb_files,\n    })\nprint(json.dumps(result))\nPY\n");
    assert(out@ =~= cache_scan_script(venv_python@, hub_dir@));
    out
}

/// The script that lists the cache of the hub by its directories.
pub open spec fn cache_fs_scan_script(hub_dir: Seq<char>) -> Seq<char> {
    TILDE_EXPANSION@
        + "\nhub_dir=$(__llm_panel_expand_tilde "@
        + quoted(hub_dir)
        + ")\nfor p in \"$hub_dir\"/models--*; do\n  [ -d \"$p\" ] || continue\n  size=$(du -sm \"$p\" 2>/dev/null | cut -f1)\n  files=$(find \"$p\" -type f 2>/dev/null | wc -l)\n  repo_id=$(basename \"$p\" | sed 's/^models--//' | sed 's/--/\\//')\n  echo \"$repo_id|$size|$files\"\ndone\n"@
}

/// The script that lists the cache of the hub by its directories.
pub fn compose_hf_cache_fs_scan_script(hub_dir: &str) -> (r: String)
    ensures
        r@ == cache_fs_scan_script(hub_dir@),
{
    let mut out = String::new();
    out.append(TILDE_EXPANSION);
    out.append("\nhub_dir=$(__llm_panel_expand_tilde ");
    out.append(&shell_quote(hub_dir));
    out.append(")\nfor p in \"$hub_dir\"/models--*; do\n  [ -d \"$p\" ] || continue\n  size=$(du -sm \"$p\" 2>/dev/null | cut -f1)\n  files=$(find \"$p\" -type f 2>/dev/null | wc -l)\n  repo_id=$(basename \"$p\" | sed 's/^models--//' | sed 's/--/\\//')\n  echo \"$repo_id|$size|$files\"\ndone\n");
    assert(out@ =~= cache_fs_scan_script(hub_dir@));
    out
}

/// The script that removes a directory of the cache of the hub, and the blobs that nothing refers to any more.
pub open spec fn remove_script_text(hub: Seq<char>, dir_name: Seq<char>) -> Seq<char> {
    TILDE_EXPANSION@
        + "\nhub_dir=$(__llm_panel_expand_tilde "@
        + quoted(hub)
        + ")\ndir_name="@
        + quoted(dir_name)
        + "\ndir=\"$hub_dir/$dir_name\"\nrm -rf -- \"$dir\"\n# Prune unreferenced blob files\nif [ -d \"$hub_dir/blobs\" ]; then\n    shopt -s nullglob\n    snaps=(\"$hub_dir\"/models--*/snapshots)\n    if [ ${#snaps[@]} -eq 0 ]; then\n        rm -f -- \"$hub_dir/blobs\"/*\n    else\n        ref=$(find \"${snaps[@]}\" -type l -exec readlink {} + 2>/dev/null | sed 's#.*/##' | sort -u)\n        for blob in \"$hub_dir/blobs\"/*; do\n            [ -f \"$blob\" ] || continue\n            hash=$(basename \"$blob\")\n            if ! echo \"$ref\" | grep -qx \"$hash\"; then\n                rm -f -- \"$blob\"\n            fi\n        done\n    fi\nfi\necho ok\n"@
}

/// The script that removes a directory of the cache of the hub, and the blobs that nothing refers to any more.
pub fn remove_script(hub: &str, dir_name: &str) -> (r: String)
    ensures
        r@ == remove_script_text(hub@, dir_name@),
{
    let mut out = String::new();
    out.append(TILDE_EXPANSION);
    out.append("\nhub_dir=$(__llm_panel_expand_tilde ");
    out.append(&shell_quote(hub));
    out.append(")\ndir_name=");
    out.append(&shell_quote(dir_name));
    out.append("\ndir=\"$hub_dir/$dir_name\"\nrm -rf -- \"$dir\"\n# Prune unreferenced blob files\nif [ -d \"$hub_dir/blobs\" ]; then\n    shopt -s nullglob\n    snaps=(\"$hub_dir\"/models--*/snapshots)\n    if [ ${#snaps[@]} -eq 0 ]; then\n        rm -f -- \"$hub_dir/blobs\"/*\n    else\n        ref=$(find \"${snaps[@]}\" -type l -exec readlink {} + 2>/dev/null | sed 's#.*/##' | sort -u)\n        for blob in \"$hub_dir/blobs\"/*; do\n            [ -f \"$blob\" ] || continue\n            hash=$(basename \"$blob\")\n            if ! echo \"$ref\" | grep -qx \"$hash\"; then\n                rm -f -- \"$blob\"\n            fi\n        done\n    fi\nfi\necho ok\n");
    assert(out@ =~= remove_script_text(hub@, dir_name@));
    out
}

/// The script that tells the size of a model in the cache of the hub.
pub open spec fn cached_weight_text(python: Seq<char>, hub: Seq<char>, model: Seq<char>) -> Seq<char> {
    TILDE_EXPANSION@
        + "\nvenv_python=$(__llm_panel_expand_tilde "@
        + quoted(python)
        + ")\nhub_dir=$(__llm_panel_expand_tilde "@
        + quoted(hub)
        + ")\nexport LLMP_CTX_MODEL="@
        + quoted(model)
        + "\nexport HF_HUB_DIR=\"$hub_dir\"\n\"$venv_python\" - <<'PY'\nimport os\nfrom huggingface_hub import scan_cache_dir\nmodel = os.environ[\"LLMP_CTX_MODEL\"]\nfor repo in scan_cache_dir(os.environ[\"HF_HUB_DIR\"]).repos:\n    if repo.repo_id.lower() == model.lower():\n        print(int(repo.size_on_disk))\n        break\nPY"@
}

/// The script that tells the size of a model in the cache of the hub.
pub fn cached_weight_script(python: &str, hub: &str, model: &str) -> (r: String)
    ensures
        r@ == cached_weight_text(python@, hub@, model@),
{
    let mut out = String::new();
    out.append(TILDE_EXPANSION);
    out.append("\nvenv_python=$(__llm_panel_expand_tilde ");
    out.append(&shell_quote(python));
    out.append(")\nhub_dir=$(__llm_panel_expand_tilde ");
    out.append(&shell_quote(hub));
    out.append(")\nexport LLMP_CTX_MODEL=");
    out.append(&shell_quote(model));
    out.append("\nexport HF_HUB_DIR=\"$hub_dir\"\n\"$venv_python\" - <<'PY'\nimport os\nfrom huggingface_hub import scan_cache_dir\nmodel = os.environ[\"LLMP_CTX_MODEL\"]\nfor repo in scan_cache_dir(os.environ[\"HF_HUB_DIR\"]).repos:\n    if repo.repo_id.lower() == model.lower():\n        print(int(repo.size_on_disk))\n        break\nPY");
    assert(out@ =~= cached_weight_text(python@, hub@, model@));
    out
}

/// The script that looks for what building FlashInfer needs.
pub open spec fn flashinfer_script_text(venv: Seq<char>) -> Seq<char> {
    TILDE_EXPANSION@
        + "\nset +e\nvenv_dir=$(__llm_panel_expand_tilde "@
        + quoted(venv)
        + ")\nnvcc_path=$(command -v nvcc 2>/dev/null || true)\ngcc_path=$(command -v gcc 2>/dev/null || true)\nninja_path=$(command -v ninja 2>/dev/null || true)\n[ -n \"$nvcc_path\" ] && echo nvcc=yes || echo nvcc=no\n[ -n \"$gcc_path\" ] && echo gcc=yes || echo gcc=no\n[ -n \"$ninja_path\" ] && echo ninja=yes || echo ninja=no\n[ -f /usr/include/python3.12/Python.h ] && echo python_dev=yes || echo python_dev=no\nif [ -n \"$nvcc_path\" ]; then dirname \"$nvcc_path\"; else echo none; fi\nif [ -x \"$venv_dir/bin/python\" ]; then\n  \"$venv_dir/bin/python\" -c 'import torch; print(torch.version.cuda or \"unknown\")' 2>/dev/null || echo unknown\nelse\n  echo unknown\nfi\n"@
}

/// The script that looks for what building FlashInfer needs.
pub fn flashinfer_script(venv: &str) -> (r: String)
    ensures
        r@ == flashinfer_script_text(venv@),
{
    let mut out = String::new();
    out.append(TILDE_EXPANSION);
    out.append("\nset +e\nvenv_dir=$(__llm_panel_expand_tilde ");
    out.append(&shell_quote(venv));
    out.append(")\nnvcc_path=$(command -v nvcc 2>/dev/null || true)\ngcc_path=$(command -v gcc 2>/dev/null || true)\nninja_path=$(command -v ninja 2>/dev/null || true)\n[ -n \"$nvcc_path\" ] && echo nvcc=yes || echo nvcc=no\n[ -n \"$gcc_path\" ] && echo gcc=yes || echo gcc=no\n[ -n \"$ninja_path\" ] && echo ninja=yes || echo ninja=no\n[ -f /usr/include/python3.12/Python.h ] && echo python_dev=yes || echo python_dev=no\nif [ -n \"$nvcc_path\" ]; then dirname \"$nvcc_path\"; else echo none; fi\nif [ -x \"$venv_dir/bin/python\" ]; then\n  \"$venv_dir/bin/python\" -c 'import torch; print(torch.version.cuda or \"unknown\")' 2>/dev/null || echo unknown\nelse\n  echo unknown\nfi\n");
    assert(out@ =~= flashinfer_script_text(venv@));
    out
}

/// The script that tells whether a directory exists and holds a model.
pub open spec fn import_check_text(path: Seq<char>) -> Seq<char> {
    TILDE_EXPANSION@
        + "\nmodel_dir=$(__llm_panel_expand_tilde "@
        + quoted(path)
        + ")\n[ -d \"$model_dir\" ] && echo dir\n[ -f \"$model_dir/config.json\" ] && echo ok"@
}

/// The script that tells whether a directory exists and holds a model.
pub fn import_check_script(path: &str) -> (r: String)
    ensures
        r@ == import_check_text(path@),
{
    let mut out = String::new();
    out.append(TILDE_EXPANSION);
    out.append("\nmodel_dir=$(__llm_panel_expand_tilde ");
    out.append(&shell_quote(path));
    out.append(")\n[ -d \"$model_dir\" ] && echo dir\n[ -f \"$model_dir/config.json\" ] && echo ok");
    assert(out@ =~= import_check_text(path@));
    out
}

/// The script that tells the size of a directory and the number of its files.
pub open spec fn import_stats_text(path: Seq<char>) -> Seq<char> {
    TILDE_EXPANSION@
        + "\nmodel_dir=$(__llm_panel_expand_tilde "@
        + quoted(path)
        + ")\nsize=$(du -sm -- \"$model_dir\" 2>/dev/null | cut -f1); files=$(find \"$model_dir\" -maxdepth 2 -type f 2>/dev/null | wc -l); echo \"$size|$files\""@
}

/// The script that tells the size of a directory and the number of its files.
pub fn import_stats_script(path: &str) -> (r: String)
    ensures
        r@ == import_stats_text(path@),
{
    let mut out = String::new();
    out.append(TILDE_EXPANSION);
    out.append("\nmodel_dir=$(__llm_panel_expand_tilde ");
    out.append(&shell_quote(path));
    out.append(")\nsize=$(du -sm -- \"$model_dir\" 2>/dev/null | cut -f1); files=$(find \"$model_dir\" -maxdepth 2 -type f 2>/dev/null | wc -l); echo \"$size|$files\"");
    assert(out@ =~= import_stats_text(path@));
    out
}

/// The script that removes an imported directory.
pub open spec fn remove_imported_text(path: Seq<char>) -> Seq<char> {
    TILDE_EXPANSION@
        + "model_dir=$(__llm_panel_expand_tilde "@
        + quoted(path)
        + ")\n[ -d \"$model_dir\" ] && rm -rf -- \"$model_dir\"\necho ok"@
}

/// The script that removes an imported directory.
pub fn remove_imported_script(path: &str) -> (r: String)
    ensures
        r@ == remove_imported_text(path@),
{
    let mut out = String::new();
    out.append(TILDE_EXPANSION);
    out.append("model_dir=$(__llm_panel_expand_tilde ");
    out.append(&shell_quote(path));
    out.append(")\n[ -d \"$model_dir\" ] && rm -rf -- \"$model_dir\"\necho ok");
    assert(out@ =~= remove_imported_text(path@));
    out
}

/// The script that tells the size of the cache of the hub.
pub open spec fn disk_usage_text(hub: Seq<char>) -> Seq<char> {
    TILDE_EXPANSION@
        + "hub_dir=$(__llm_panel_expand_tilde "@
        + quoted(hub)
        + ") && du -sm -- \"$hub_dir\" 2>/dev/null | cut -f1"@
}

/// The script that tells the size of the cache of the hub.
pub fn disk_usage_script(hub: &str) -> (r: String)
    ensures
        r@ == disk_usage_text(hub@),
{
    let mut out = String::new();
    out.append(TILDE_EXPANSION);
    out.append("hub_dir=$(__llm_panel_expand_tilde ");
    out.append(&shell_quote(hub));
    out.append(") && du -sm -- \"$hub_dir\" 2>/dev/null | cut -f1");
    assert(out@ =~= disk_usage_text(hub@));
    out
}

/// The script that removes a model from the hub's cache.
pub fn compose_library_remove_script(model_id: &str, hub_dir: Option<&str>) -> (r: String)
    ensures
        r@ == remove_script_text(
            match hub_dir {
                Some(h) => h@,
                None => DEFAULT_HUB@,
            },
            model_dir_of(model_id@),
        ),
{
    let hub: &str = match hub_dir {
        Some(h) => h,
        None => DEFAULT_HUB,
    };
    remove_script(hub, &model_dir(model_id))
}

/// The words of a script for some texts.
pub open spec fn quoted_words(paths: Seq<Seq<char>>) -> Seq<Seq<char>> {
    Seq::new(paths.len(), |i: int| quoted(paths[i]))
}

/// The script that lists imported directories.
pub open spec fn imported_scan_text(paths: Seq<Seq<char>>) -> Seq<char> {
    "\nfor p in "@ + text::join(quoted_words(paths), " "@)
        + "; do\n  [ -d \"$p\" ] || continue\n  size=$(du -sm \"$p\" 2>/dev/null | cut -f1)\n  files=$(find \"$p\" -maxdepth 2 -type f 2>/dev/null | wc -l)\n  echo \"$p|$size|$files\"\ndone\n"@
}

/// The script that lists imported directories.
pub fn imported_scan_script(paths: &Vec<String>) -> (r: String)
    ensures
        r@ == imported_scan_text(text::texts(paths@)),
{
    let mut words: Vec<String> = Vec::new();
    for i in 0..paths.len()
        invariant
            text::texts(words@) == quoted_words(text::texts(paths@)).take(i as int),
    {
        let ghost before = text::texts(words@);
        let word = shell_quote(&paths[i]);
        words.push(word);
        assert(text::texts(words@) =~= before.push(word@));
        assert(quoted_words(text::texts(paths@)).take(i + 1) =~= before.push(word@));
    }
    assert(quoted_words(text::texts(paths@)).take(paths@.len() as int) =~= quoted_words(
        text::texts(paths@),
    ));
    let mut out = "\nfor p in ".to_string();
    out.append(&text::join_texts(&words, " "));
    out.append(
        "; do\n  [ -d \"$p\" ] || continue\n  size=$(du -sm \"$p\" 2>/dev/null | cut -f1)\n  files=$(find \"$p\" -maxdepth 2 -type f 2>/dev/null | wc -l)\n  echo \"$p|$size|$files\"\ndone\n",
    );
    out
}

/// The script that stops the download of a model.
pub open spec fn cancel_text(model_id: Seq<char>) -> Seq<char> {
    "pkill -f -- "@ + quoted("hf download.*"@ + model_id + "([[:space:]]|$)"@) + " || true"@
}

/// The script that stops the download of a model.
pub fn cancel_script(model_id: &str) -> (r: String)
    ensures
        r@ == cancel_text(model_id@),
{
    let mut pattern = "hf download.*".to_string();
    pattern.append(model_id);
    pattern.append("([[:space:]]|$)");
    let mut out = "pkill -f -- ".to_string();
    out.append(&shell_quote(&pattern));
    out.append(" || true");
    out
}

// ---------------------------------------------------------------------------
// Laws
// ---------------------------------------------------------------------------

/// The cache of the hub lies below the directory that was set, whatever white space stands
/// around its name, and below the user's where none was set.
pub proof fn law_hub_lies_below_its_home(home: Seq<char>)
    ensures
        text::trim(home).len() > 0 ==> text::trim(home).is_prefix_of(hub_of(Some(home)))
            && hub_of(Some(home)).len() == text::trim(home).len() + 4,
        text::trim(home).len() > 0 ==> text::occurs(hub_of(Some(home)), "/hub"@),
        text::trim(home).len() == 0 ==> hub_of(Some(home)) == hub_of(None),
        hub_of(None) == "~/.cache/huggingface/hub"@,
{
    reveal_strlit("/hub");
    let h = text::trim(home);
    let nothing = Seq::<char>::empty();
    assert(h + "/hub"@ =~= h + "/hub"@ + nothing);
    text::law_parts_occur(h, "/hub"@, nothing);
}

/// The directory of a model has no slash in its name: two hyphens stand in the place of each.
pub proof fn law_model_directories(owner: Seq<char>, name: Seq<char>)
    requires
        !owner.contains('/'),
        !name.contains('/'),
    ensures
        model_dir_of(owner + seq!['/'] + name) == "models--"@ + owner + "--"@ + name,
        model_dir_of(name) == "models--"@ + name,
{
    reveal_strlit("/");
    assert("/"@ =~= seq!['/']);
    lemma_kept(name);
    lemma_replaced(owner, seq!['/'] + name);
    text::law_replacing(name, '/', "--"@, '/');
    assert(owner + seq!['/'] + name =~= owner + (seq!['/'] + name));
    assert(model_dir_of(owner + seq!['/'] + name) =~= "models--"@ + owner + "--"@ + name);
}

proof fn lemma_replaced(a: Seq<char>, b: Seq<char>)
    requires
        !a.contains('/'),
    ensures
        text::replace(a + b, seq!['/'], "--"@) == a + text::replace(b, seq!['/'], "--"@),
    decreases a.len(),
{
    if a.len() == 0 {
        assert(a + b =~= b);
        assert(a + text::replace(b, seq!['/'], "--"@) =~= text::replace(b, seq!['/'], "--"@));
    } else {
        let rest = a.skip(1);
        assert(!rest.contains('/')) by {
            if rest.contains('/') {
                let k = choose|k: int| 0 <= k < rest.len() && rest[k] == '/';
                assert(a[k + 1] == '/');
            }
        }
        lemma_replaced(rest, b);
        assert(a.contains(a[0]));
        text::law_replacing(rest + b, '/', "--"@, a[0]);
        assert(a + b =~= seq![a[0]] + (rest + b));
        assert(seq![a[0]] + (rest + text::replace(b, seq!['/'], "--"@)) =~= a + text::replace(
            b,
            seq!['/'],
            "--"@,
        ));
    }
}

proof fn lemma_kept(a: Seq<char>)
    requires
        !a.contains('/'),
    ensures
        text::replace(a, seq!['/'], "--"@) == a,
{
    let nothing = Seq::<char>::empty();
    lemma_replaced(a, nothing);
    text::law_replacing(nothing, '/', "--"@, 'a');
    assert(a + nothing =~= a);
}

/// The script that removes a model removes the directory that it is told in the hub that it is
/// told.
pub proof fn law_removal_is_of_the_directory(hub: Seq<char>, dir_name: Seq<char>)
    ensures
        text::occurs(
            remove_script_text(hub, dir_name),
            "hub_dir=$(__llm_panel_expand_tilde "@ + quoted(hub) + ")\n"@,
        ),
        text::occurs(remove_script_text(hub, dir_name), "dir_name="@ + quoted(dir_name) + "\n"@),
        text::occurs(
            remove_script_text(hub, dir_name),
            "dir=\"$hub_dir/$dir_name\"\nrm -rf -- \"$dir\"\n"@,
        ),
{
    reveal_strlit("\nhub_dir=$(__llm_panel_expand_tilde ");
    reveal_strlit("hub_dir=$(__llm_panel_expand_tilde ");
    reveal_strlit(")\n");
    reveal_strlit(")\ndir_name=");
    reveal_strlit("dir_name=");
    reveal_strlit("\n");
    reveal_strlit("dir=\"$hub_dir/$dir_name\"\nrm -rf -- \"$dir\"\n");
    reveal_strlit("\ndir=\"$hub_dir/$dir_name\"\nrm -rf -- \"$dir\"\n# Prune unreferenced blob files\nif [ -d \"$hub_dir/blobs\" ]; then\n    shopt -s nullglob\n    snaps=(\"$hub_dir\"/models--*/snapshots)\n    if [ ${#snaps[@]} -eq 0 ]; then\n        rm -f -- \"$hub_dir/blobs\"/*\n    else\n        ref=$(find \"${snaps[@]}\" -type l -exec readlink {} + 2>/dev/null | sed 's#.*/##' | sort -u)\n        for blob in \"$hub_dir/blobs\"/*; do\n            [ -f \"$blob\" ] || continue\n            hash=$(basename \"$blob\")\n            if ! echo \"$ref\" | grep -qx \"$hash\"; then\n                rm -f -- \"$blob\"\n            fi\n        done\n    fi\nfi\necho ok\n");
    let last = "\ndir=\"$hub_dir/$dir_name\"\nrm -rf -- \"$dir\"\n# Prune unreferenced blob files\nif [ -d \"$hub_dir/blobs\" ]; then\n    shopt -s nullglob\n    snaps=(\"$hub_dir\"/models--*/snapshots)\n    if [ ${#snaps[@]} -eq 0 ]; then\n        rm -f -- \"$hub_dir/blobs\"/*\n    else\n        ref=$(find \"${snaps[@]}\" -type l -exec readlink {} + 2>/dev/null | sed 's#.*/##' | sort -u)\n        for blob in \"$hub_dir/blobs\"/*; do\n            [ -f \"$blob\" ] || continue\n            hash=$(basename \"$blob\")\n            if ! echo \"$ref\" | grep -qx \"$hash\"; then\n                rm -f -- \"$blob\"\n            fi\n        done\n    fi\nfi\necho ok\n"@;
    let first = TILDE_EXPANSION@ + seq!['\n'];
    let a = "hub_dir=$(__llm_panel_expand_tilde "@ + quoted(hub) + ")\n"@;
    let b = "dir_name="@ + quoted(dir_name) + "\n"@;
    let c = "dir=\"$hub_dir/$dir_name\"\nrm -rf -- \"$dir\"\n"@;
    let s = remove_script_text(hub, dir_name);
    let rest = last.skip(1 + c.len() as int);
    assert(last =~= "\n"@ + c + rest);
    assert("\nhub_dir=$(__llm_panel_expand_tilde "@ =~= seq!['\n']
        + "hub_dir=$(__llm_panel_expand_tilde "@);
    assert(")\ndir_name="@ =~= ")\n"@ + "dir_name="@);
    assert(s =~= first + a + (b + c + rest));
    text::law_parts_occur(first, a, b + c + rest);
    assert(s =~= (first + a) + b + (c + rest));
    text::law_parts_occur(first + a, b, c + rest);
    assert(s =~= (first + a + b) + c + rest);
    text::law_parts_occur(first + a + b, c, rest);
}

/// The other scripts hold what they are told as one quoted word, each under its own name.
pub proof fn law_scripts_hold_what_they_are_told(a: Seq<char>, b: Seq<char>, c: Seq<char>)
    ensures
        text::occurs(
            model_exists_script(a, b),
            "\nhub_dir=$(__llm_panel_expand_tilde "@ + quoted(a),
        ),
        text::occurs(
            model_exists_script(a, b),
            ")\ndir_name=$(__llm_panel_expand_tilde "@ + quoted(b),
        ),
        text::occurs(
            cache_scan_script(a, b),
            "\nvenv_python=$(__llm_panel_expand_tilde "@ + quoted(a),
        ),
        text::occurs(
            cache_scan_script(a, b),
            ")\nhub_dir=$(__llm_panel_expand_tilde "@ + quoted(b),
        ),
        text::occurs(
            cached_weight_text(a, b, c),
            "\nvenv_python=$(__llm_panel_expand_tilde "@ + quoted(a),
        ),
        text::occurs(
            cached_weight_text(a, b, c),
            ")\nhub_dir=$(__llm_panel_expand_tilde "@ + quoted(b),
        ),
        text::occurs(cached_weight_text(a, b, c), ")\nexport LLMP_CTX_MODEL="@ + quoted(c)),
        text::occurs(cache_fs_scan_script(a), quoted(a)),
        text::occurs(flashinfer_script_text(a), quoted(a)),
        text::occurs(import_check_text(a), quoted(a)),
        text::occurs(import_stats_text(a), quoted(a)),
        text::occurs(remove_imported_text(a), quoted(a)),
        text::occurs(disk_usage_text(a), quoted(a)),
        text::occurs(cancel_text(a), quoted("hf download.*"@ + a + "([[:space:]]|$)"@)),
{
    let t = TILDE_EXPANSION@;
    let hub = "\nhub_dir=$(__llm_panel_expand_tilde "@;
    let python = "\nvenv_python=$(__llm_panel_expand_tilde "@;
    let (p, q, r) = (quoted(a), quoted(b), quoted(c));
    let dir2 = ")\ndir_name=$(__llm_panel_expand_tilde "@;
    let hub2 = ")\nhub_dir=$(__llm_panel_expand_tilde "@;
    let model = ")\nexport LLMP_CTX_MODEL="@;
    let e1 = ")\n[ -d \"$hub_dir/$dir_name\" ] && echo exists\n"@;
    lemma_two_words(model_exists_script(a, b), t, hub + p, dir2 + q, e1);
    let n = (t + python + p + hub2 + q).len() as int;
    let s2 = cache_scan_script(a, b);
    lemma_two_words(s2, t, python + p, hub2 + q, s2.skip(n));
    let s3 = cached_weight_text(a, b, c);
    lemma_two_words(s3, t, python + p, hub2 + q, s3.skip(n));
    let m = (t + python + p + hub2 + q + model + r).len() as int;
    lemma_two_words(s3, t + (python + p), hub2 + q, model + r, s3.skip(m));
    lemma_one_word(cache_fs_scan_script(a), t + hub, p);
    lemma_one_word(
        flashinfer_script_text(a),
        t + "\nset +e\nvenv_dir=$(__llm_panel_expand_tilde "@,
        p,
    );
    lemma_one_word(import_check_text(a), t + "\nmodel_dir=$(__llm_panel_expand_tilde "@, p);
    lemma_one_word(import_stats_text(a), t + "\nmodel_dir=$(__llm_panel_expand_tilde "@, p);
    lemma_one_word(remove_imported_text(a), t + "model_dir=$(__llm_panel_expand_tilde "@, p);
    lemma_one_word(disk_usage_text(a), t + "hub_dir=$(__llm_panel_expand_tilde "@, p);
    lemma_one_word(
        cancel_text(a),
        "pkill -f -- "@,
        quoted("hf download.*"@ + a + "([[:space:]]|$)"@),
    );
}

proof fn lemma_one_word(s: Seq<char>, front: Seq<char>, word: Seq<char>)
    requires
        (front + word).is_prefix_of(s),
    ensures
        text::occurs(s, word),
{
    let rest = s.skip((front + word).len() as int);
    assert(s =~= front + word + rest);
    text::law_parts_occur(front, word, rest);
}

proof fn lemma_two_words(s: Seq<char>, front: Seq<char>, a: Seq<char>, b: Seq<char>, rest: Seq<char>)
    requires
        s =~= front + a + b + rest,
    ensures
        text::occurs(s, a),
        text::occurs(s, b),
{
    assert(s =~= front + a + (b + rest));
    text::law_parts_occur(front, a, b + rest);
    text::law_parts_occur(front + a, b, rest);
}

/// Each listed directory stands in the script as a quoted word of its own, in the given order.
pub proof fn law_listed_directories(paths: Seq<Seq<char>>, path: Seq<char>)
    ensures
        quoted_words(paths.push(path)) == quoted_words(paths).push(quoted(path)),
        text::occurs(
            imported_scan_text(paths),
            "for p in "@ + text::join(quoted_words(paths), " "@) + "; do\n"@,
        ),
{
    assert(quoted_words(paths.push(path)) =~= quoted_words(paths).push(quoted(path)));
    reveal_strlit("\nfor p in ");
    reveal_strlit("for p in ");
    reveal_strlit("; do\n");
    reveal_strlit("; do\n  [ -d \"$p\" ] || continue\n  size=$(du -sm \"$p\" 2>/dev/null | cut -f1)\n  files=$(find \"$p\" -maxdepth 2 -type f 2>/dev/null | wc -l)\n  echo \"$p|$size|$files\"\ndone\n");
    let last = "; do\n  [ -d \"$p\" ] || continue\n  size=$(du -sm \"$p\" 2>/dev/null | cut -f1)\n  files=$(find \"$p\" -maxdepth 2 -type f 2>/dev/null | wc -l)\n  echo \"$p|$size|$files\"\ndone\n"@;
    let word = "for p in "@ + text::join(quoted_words(paths), " "@) + "; do\n"@;
    assert("\nfor p in "@ =~= seq!['\n'] + "for p in "@);
    assert(last =~= "; do\n"@ + last.skip(5));
    assert(imported_scan_text(paths) =~= seq!['\n'] + word + last.skip(5));
    text::law_parts_occur(seq!['\n'], word, last.skip(5));
}

} // verus!
