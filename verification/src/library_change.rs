//! Adding models to the library and taking them out.
use vstd::prelude::*;
use crate::library;
use crate::library::LibraryEntry;
use crate::numeral;
use crate::scripts;
use crate::state::LiveServer;
use crate::text;

verus! {

// ---------------------------------------------------------------------------
// Paths
// ---------------------------------------------------------------------------

/// The parts between the slashes of a path that are not empty.
pub open spec fn path_parts(pieces: Seq<Seq<char>>) -> Seq<Seq<char>>
    decreases pieces.len(),
{
    if pieces.len() == 0 {
        pieces
    } else if pieces.last().len() == 0 {
        path_parts(pieces.drop_last())
    } else {
        path_parts(pieces.drop_last()).push(pieces.last())
    }
}

/// A path that may be imported: absolute, at least three directories deep, without steps
/// upwards and without line breaks.
pub open spec fn importable_path(path: Seq<char>) -> bool {
    let p = text::trim_end_char(text::trim(path), '/');
    let parts = path_parts(text::pieces(p, '/'));
    p.len() > 0 && "/"@.is_prefix_of(p) && parts.len() >= 3 && !parts.contains(".."@)
        && !p.contains('\0') && !p.contains('\r') && !p.contains('\n')
}

fn has_char(s: &str, c: char) -> (r: bool)
    ensures
        r == s@.contains(c),
{
    let cs = text::chars_of(s);
    for i in 0..cs.len()
        invariant
            cs@ == s@,
            forall|j: int| 0 <= j < i ==> s@[j] != c,
    {
        if cs[i] == c {
            assert(s@[i as int] == c);
            return true;
        }
    }
    false
}

/// Refuses a path that may not be imported.
pub fn validate_imported_wsl_path(path: &str) -> (r: Result<(), String>)
    ensures
        match r {
            Ok(()) => importable_path(path@),
            Err(e) => !importable_path(path@) && e@
                == "imported model path must be a non-root WSL directory"@,
        },
{
    let p = text::trimmed_end_char(text::trimmed(path), '/');
    let pieces = text::split_char(p, '/');
    let ghost all = text::texts(pieces@);
    let mut count: usize = 0;
    let mut upwards = false;
    let ghost mut parts: Seq<Seq<char>> = Seq::empty();
    assert(all.take(0) =~= Seq::empty());
    for i in 0..pieces.len()
        invariant
            all == text::texts(pieces@),
            parts == path_parts(all.take(i as int)),
            count == parts.len(),
            count <= i,
            upwards == parts.contains(".."@),
    {
        assert(all.take(i + 1).drop_last() =~= all.take(i as int));
        assert(all.take(i + 1).last() == pieces@[i as int]@);
        if pieces[i].as_str().unicode_len() > 0 {
            let up = text::same(&pieces[i], "..");
            proof {
                let more = parts.push(pieces@[i as int]@);
                if parts.contains(".."@) {
                    let k = choose|k: int| 0 <= k < parts.len() && parts[k] == ".."@;
                    assert(more[k] == ".."@);
                }
                if more.contains(".."@) {
                    let k = choose|k: int| 0 <= k < more.len() && more[k] == ".."@;
                    if k < parts.len() {
                        assert(parts[k] == ".."@);
                    }
                }
                assert(more.last() == pieces@[i as int]@);
                parts = more;
            }
            count += 1;
            upwards = upwards || up;
        }
    }
    assert(all.take(pieces@.len() as int) =~= all);
    if p.unicode_len() == 0 || !text::starts_with(p, "/") || count < 3 || upwards || has_char(
        p,
        '\0',
    ) || has_char(p, '\r') || has_char(p, '\n') {
        return Err("imported model path must be a non-root WSL directory".to_string());
    }
    Ok(())
}

/// The path lies in the directory or is it; both are given by their parts.
pub open spec fn is_within(root: Seq<Seq<char>>, path: Seq<Seq<char>>) -> bool {
    root.is_prefix_of(path)
}

/// Whether a path lies in a directory or is it.
pub fn lies_within(root: &Vec<String>, path: &Vec<String>) -> (r: bool)
    ensures
        r == is_within(text::texts(root@), text::texts(path@)),
{
    let ghost a = text::texts(root@);
    let ghost b = text::texts(path@);
    if root.len() > path.len() {
        return false;
    }
    for i in 0..root.len()
        invariant
            a == text::texts(root@),
            b == text::texts(path@),
            a.len() <= b.len(),
            forall|j: int| 0 <= j < i ==> a[j] == b[j],
    {
        if root[i] != path[i] {
            assert(a[i as int] != b[i as int]);
            assert(b.subrange(0, a.len() as int)[i as int] == b[i as int]);
            return false;
        }
    }
    assert(a =~= b.subrange(0, a.len() as int));
    true
}

// ---------------------------------------------------------------------------
// Importing
// ---------------------------------------------------------------------------

/// The path names a GGUF file.
pub fn is_gguf_path(path: &str) -> (r: bool)
    ensures
        r == ".gguf"@.is_suffix_of(text::ascii_lowercase(path@)),
{
    text::ends_with(&text::ascii_lowered(path), ".gguf")
}

/// Whether a GGUF file may be copied: the directory for imported files must lie in that for
/// GGUF files, and a file of the same name that is there must lie in the former.
pub fn check_gguf_import(
    gguf_root: &Vec<String>,
    repo_dir: &Vec<String>,
    target: &Option<Vec<String>>,
) -> (r: Result<(), String>)
    ensures
        ({
            let root = text::texts(gguf_root@);
            let dir = text::texts(repo_dir@);
            match r {
                Ok(()) => is_within(root, dir) && (target matches Some(t) ==> is_within(
                    dir,
                    text::texts(t@),
                )),
                Err(e) => if !is_within(root, dir) {
                    e@ == "Refusing to import into a path outside the GGUF directory"@
                } else {
                    (target matches Some(t) && !is_within(dir, text::texts(t@))) && e@
                        == "Refusing to overwrite a path outside the imported model directory"@
                },
            }
        }),
{
    if !lies_within(gguf_root, repo_dir) {
        return Err("Refusing to import into a path outside the GGUF directory".to_string());
    }
    if let Some(t) = target {
        if !lies_within(repo_dir, t) {
            return Err(
                "Refusing to overwrite a path outside the imported model directory".to_string(),
            );
        }
    }
    Ok(())
}

/// The entry of a GGUF file that was copied.
pub fn imported_gguf_entry(size_bytes: u64, target: String) -> (r: LibraryEntry)
    ensures
        r@ == library::local_entry(
            "imported"@,
            size_bytes / 0x10_0000,
            1,
            "GGUF"@,
            None,
            Some(target@),
        ),
{
    LibraryEntry {
        model_id: "imported".to_string(),
        size_mb: size_bytes / 0x10_0000,
        files: 1,
        quant: Some("GGUF".to_string()),
        params_b: None,
        installed: true,
        in_use: false,
        in_use_server: None,
        task: Some("instruct".to_string()),
        is_local: true,
        model_path: Some(target),
    }
}

pub const NOT_A_DIRECTORY: &'static str =
    "Enter a local model directory path (e.g. D:\\AI\\qwen or /mnt/d/AI/qwen)";

/// Refuses what is no path of a directory that may be imported.
pub fn check_import_path(wsl_path: &str) -> (r: Result<(), String>)
    ensures
        ({
            let absolute = wsl_path@.len() > 0 && "/"@.is_prefix_of(wsl_path@);
            match r {
                Ok(()) => absolute && importable_path(wsl_path@),
                Err(e) => if !absolute {
                    e@ == NOT_A_DIRECTORY@
                } else {
                    !importable_path(wsl_path@) && e@
                        == "imported model path must be a non-root WSL directory"@
                },
            }
        }),
{
    if wsl_path.unicode_len() == 0 || !text::starts_with(wsl_path, "/") {
        return Err(NOT_A_DIRECTORY.to_string());
    }
    validate_imported_wsl_path(wsl_path)
}

/// Whether the script that looks at a directory found a model in it; if not, why.
pub open spec fn import_verdict(
    wsl_path: Seq<char>,
    ok: bool,
    stdout: Seq<char>,
    stderr: Seq<char>,
) -> Result<(), Seq<char>> {
    if !ok {
        Err("Failed to check directory inside WSL: "@ + stderr)
    } else if !text::occurs(stdout, "dir"@) {
        Err("Directory does not exist inside WSL: "@ + wsl_path)
    } else if !text::occurs(stdout, "ok"@) {
        Err(
            "Directory exists inside WSL but has no config.json (not a ready vLLM model dir): "@
                + wsl_path,
        )
    } else {
        Ok(())
    }
}

/// What a result with a message says.
pub open spec fn told(r: Result<(), String>) -> Result<(), Seq<char>> {
    match r {
        Ok(()) => Ok(()),
        Err(e) => Err(e@),
    }
}

/// Whether the script that looks at a directory found a model in it; if not, why.
pub fn check_imported(wsl_path: &str, ok: bool, stdout: &str, stderr: &str) -> (r: Result<
    (),
    String,
>)
    ensures
        told(r) == import_verdict(wsl_path@, ok, stdout@, stderr@),
{
    if !ok {
        let mut e = "Failed to check directory inside WSL: ".to_string();
        e.append(stderr);
        return Err(e);
    }
    if !text::contains_text(stdout, "dir") {
        let mut e = "Directory does not exist inside WSL: ".to_string();
        e.append(wsl_path);
        return Err(e);
    }
    if !text::contains_text(stdout, "ok") {
        let mut e =
            "Directory exists inside WSL but has no config.json (not a ready vLLM model dir): ".to_string();
        e.append(wsl_path);
        return Err(e);
    }
    Ok(())
}

/// Adds a path to the imported ones, unless it is there; the result says whether it was
/// added.
pub fn add_imported(imported: &mut Vec<String>, wsl_path: &str) -> (r: bool)
    ensures
        r == !text::texts(old(imported)@).contains(wsl_path@),
        text::texts(final(imported)@) == (if r {
            text::texts(old(imported)@).push(wsl_path@)
        } else {
            text::texts(old(imported)@)
        }),
{
    let ghost all = text::texts(imported@);
    let n: usize = imported.len();
    for i in 0..n
        invariant
            n == imported@.len(),
            imported@ == old(imported)@,
            all == text::texts(imported@),
            forall|j: int| 0 <= j < i ==> all[j] != wsl_path@,
    {
        if text::same(&imported[i], wsl_path) {
            assert(all[i as int] == wsl_path@);
            return false;
        }
    }
    imported.push(wsl_path.to_string());
    assert(text::texts(imported@) =~= all.push(wsl_path@));
    true
}

/// The size and the number of files that a script told, with a bar between them.
pub open spec fn stats_of(stdout: Seq<char>) -> (u64, usize) {
    match text::after_first(stdout, seq!['|']) {
        Some(files) => (
            library::field_number(
                text::trim(text::before_first(stdout, seq!['|'])),
                u64::MAX as nat,
            ) as u64,
            library::field_number(text::trim(files), usize::MAX as nat) as usize,
        ),
        None => (0, 0),
    }
}

/// The size and the number of files that a script told.
pub fn read_stats(stdout: &str) -> (r: (u64, usize))
    ensures
        r == stats_of(stdout@),
{
    let bar = ['|'];
    assert(bar@ == seq!['|']);
    match text::rest_after(stdout, &bar) {
        Some(files) => {
            let size: u64 = match numeral::read_whole(
                text::trimmed(text::head_before(stdout, &bar)),
                u64::MAX,
            ) {
                Some(n) => n,
                None => 0,
            };
            let count: usize = match numeral::read_whole(text::trimmed(files), usize::MAX as u64) {
                Some(n) => n as usize,
                None => 0,
            };
            (size, count)
        },
        None => (0, 0),
    }
}

/// The first active server from number `i` on that llama.cpp runs and that uses the
/// directory.
pub open spec fn directory_user(servers: Seq<LiveServer>, path: Seq<char>, i: int) -> Option<
    Seq<char>,
>
    decreases servers.len() - i,
{
    if i < 0 || i >= servers.len() {
        None
    } else if servers[i].is_active() && servers[i].def.backend@ == "llamacpp"@
        && servers[i].def.model_id@ == path {
        Some(servers[i].def.name@)
    } else {
        directory_user(servers, path, i + 1)
    }
}

/// The entry of an imported directory.
pub fn imported_entry(wsl_path: &str, stdout: &str, servers: &Vec<LiveServer>) -> (r: LibraryEntry)
    ensures
        r@ == library::local_entry(
            wsl_path@,
            stats_of(stdout@).0,
            stats_of(stdout@).1,
            "native"@,
            directory_user(servers@, wsl_path@, 0),
            None,
        ),
{
    let (size_mb, files): (u64, usize) = read_stats(stdout);
    let mut user: Option<String> = None;
    let mut i: usize = 0;
    while i < servers.len() && user.is_none()
        invariant
            i <= servers@.len(),
            match user {
                Some(name) => directory_user(servers@, wsl_path@, 0) == Some(name@),
                None => directory_user(servers@, wsl_path@, 0) == directory_user(
                    servers@,
                    wsl_path@,
                    i as int,
                ),
            },
        decreases servers@.len() - i,
    {
        let s = &servers[i];
        if s.active() && text::same(&s.def.backend, "llamacpp") && text::same(
            &s.def.model_id,
            wsl_path,
        ) {
            user = Some(s.def.name.clone());
        }
        i += 1;
    }
    LibraryEntry {
        model_id: wsl_path.to_string(),
        size_mb,
        files,
        quant: Some("native".to_string()),
        params_b: None,
        installed: true,
        in_use: user.is_some(),
        in_use_server: user,
        task: Some("instruct".to_string()),
        is_local: true,
        model_path: None,
    }
}

// ---------------------------------------------------------------------------
// Removing
// ---------------------------------------------------------------------------

/// The server uses the model, or a file in the directory.
pub open spec fn uses_model(s: LiveServer, model_id: Seq<char>, parent: Option<Seq<char>>) -> bool {
    s.is_active() && (s.def.model_id@ == model_id || library::names_overlap(
        s.def.model_id@,
        model_id,
    ) || (match (parent, s.def.model_path) {
        (Some(p), Some(path)) => p.is_prefix_of(path@),
        _ => false,
    }))
}

/// The name of the first server from number `i` on that uses the model.
pub open spec fn blocking_from(
    servers: Seq<LiveServer>,
    model_id: Seq<char>,
    parent: Option<Seq<char>>,
    i: int,
) -> Option<Seq<char>>
    decreases servers.len() - i,
{
    if i < 0 || i >= servers.len() {
        None
    } else if uses_model(servers[i], model_id, parent) {
        Some(servers[i].def.name@)
    } else {
        blocking_from(servers, model_id, parent, i + 1)
    }
}

/// The message that a model is in use.
pub open spec fn in_use_message(model_id: Seq<char>, server: Seq<char>) -> Seq<char> {
    "Model \""@ + model_id + "\" is currently in use by active server \""@ + server
        + "\" — stop server first"@
}

fn check_unused(servers: &Vec<LiveServer>, model_id: &str, parent: Option<&str>) -> (r: Result<
    (),
    String,
>)
    ensures
        told(r) == (match blocking_from(servers@, model_id@, text::opt_str(parent), 0) {
            Some(name) => Err(in_use_message(model_id@, name)),
            None => Ok(()),
        }),
{
    for i in 0..servers.len()
        invariant
            blocking_from(servers@, model_id@, text::opt_str(parent), 0) == blocking_from(
                servers@,
                model_id@,
                text::opt_str(parent),
                i as int,
            ),
    {
        let s = &servers[i];
        if s.active() {
            let by_path = match (parent, &s.def.model_path) {
                (Some(p), Some(path)) => text::starts_with(path, p),
                _ => false,
            };
            if text::same(&s.def.model_id, model_id) || text::contains_text(
                &s.def.model_id,
                model_id,
            ) || text::contains_text(model_id, &s.def.model_id) || by_path {
                let mut e = "Model \"".to_string();
                e.append(model_id);
                e.append("\" is currently in use by active server \"");
                e.append(&s.def.name);
                e.append("\" — stop server first");
                return Err(e);
            }
        }
    }
    Ok(())
}

/// Where a GGUF file lies: the directory for GGUF files and the file's own directory, by
/// their parts, and the latter as a text.
#[derive(Debug)]
pub struct GgufPlace {
    pub root: Vec<String>,
    pub parent: Vec<String>,
    pub parent_text: String,
}

/// What is removed.
#[derive(Debug)]
pub enum Removal {
    /// The directory of the GGUF file.
    Directory,
    /// An imported directory, by a script; it is taken off the list too.
    Imported(String, String),
    /// A model of the hub's cache, by a script.
    Cached(String),
}

/// What a removal says.
pub enum RemovalTexts {
    Directory,
    Imported(Seq<char>, Seq<char>),
    Cached(Seq<char>),
}

impl View for Removal {
    type V = RemovalTexts;

    open spec fn view(&self) -> RemovalTexts {
        match *self {
            Removal::Directory => RemovalTexts::Directory,
            Removal::Imported(path, script) => RemovalTexts::Imported(path@, script@),
            Removal::Cached(script) => RemovalTexts::Cached(script@),
        }
    }
}

/// The file's directory lies in that for GGUF files and is not that itself.
pub open spec fn removable_place(place: GgufPlace) -> bool {
    is_within(text::texts(place.root@), text::texts(place.parent@)) && text::texts(place.parent@)
        != text::texts(place.root@)
}

/// The script that removes a model of the hub's cache.
pub open spec fn cached_removal(model_id: Seq<char>, hf_home: Option<Seq<char>>) -> Seq<char> {
    scripts::remove_script_text(scripts::hub_of(hf_home), scripts::model_dir_of(model_id))
}

/// What is removed, or why nothing is.
pub open spec fn removal_plan(
    model_id: Seq<char>,
    place: Option<GgufPlace>,
    servers: Seq<LiveServer>,
    imported: Seq<Seq<char>>,
    id_is_valid: bool,
    hf_home: Option<Seq<char>>,
) -> Result<RemovalTexts, Seq<char>> {
    match place {
        Some(p) => if !removable_place(p) {
            Err("Refusing to delete: path is outside the GGUF directory"@)
        } else {
            match blocking_from(servers, model_id, Some(p.parent_text@), 0) {
                Some(name) => Err(in_use_message(model_id, name)),
                None => Ok(RemovalTexts::Directory),
            }
        },
        None => match blocking_from(servers, model_id, None, 0) {
            Some(name) => Err(in_use_message(model_id, name)),
            None => if imported.contains(model_id) {
                if importable_path(model_id) {
                    Ok(RemovalTexts::Imported(model_id, scripts::remove_imported_text(model_id)))
                } else {
                    Err("imported model path must be a non-root WSL directory"@)
                }
            } else if !id_is_valid {
                Err("Invalid Hugging Face model ID"@)
            } else {
                Ok(RemovalTexts::Cached(cached_removal(model_id, hf_home)))
            },
        },
    }
}

/// What a result with a removal says.
pub open spec fn told_removal(r: Result<Removal, String>) -> Result<RemovalTexts, Seq<char>> {
    match r {
        Ok(x) => Ok(x@),
        Err(e) => Err(e@),
    }
}

fn list_has(list: &Vec<String>, s: &str) -> (r: bool)
    ensures
        r == text::texts(list@).contains(s@),
{
    let ghost all = text::texts(list@);
    for i in 0..list.len()
        invariant
            all == text::texts(list@),
            forall|j: int| 0 <= j < i ==> all[j] != s@,
    {
        if text::same(&list[i], s) {
            assert(all[i as int] == s@);
            return true;
        }
    }
    false
}

/// What is removed when a model is to be taken out of the library, or why nothing is. `place`
/// tells where its GGUF file lies, where it has one, and `id_is_valid` whether its name may
/// be one of the hub's.
pub fn library_remove(
    model_id: &str,
    place: &Option<GgufPlace>,
    servers: &Vec<LiveServer>,
    imported: &Vec<String>,
    id_is_valid: bool,
    hf_home: Option<&str>,
) -> (r: Result<Removal, String>)
    ensures
        told_removal(r) == removal_plan(
            model_id@,
            *place,
            servers@,
            text::texts(imported@),
            id_is_valid,
            text::opt_str(hf_home),
        ),
{
    if let Some(p) = place {
        let within = lies_within(&p.root, &p.parent);
        if !within || p.parent.len() == p.root.len() {
            proof {
                let a = text::texts(p.root@);
                let b = text::texts(p.parent@);
                if within {
                    assert(b.subrange(0, a.len() as int) =~= b);
                }
            }
            return Err("Refusing to delete: path is outside the GGUF directory".to_string());
        }
        return match check_unused(servers, model_id, Some(&p.parent_text)) {
            Ok(()) => Ok(Removal::Directory),
            Err(e) => Err(e),
        };
    }
    if let Err(e) = check_unused(servers, model_id, None) {
        return Err(e);
    }
    if list_has(imported, model_id) {
        return match validate_imported_wsl_path(model_id) {
            Ok(()) => Ok(
                Removal::Imported(model_id.to_string(), scripts::remove_imported_script(model_id)),
            ),
            Err(e) => Err(e),
        };
    }
    if !id_is_valid {
        return Err("Invalid Hugging Face model ID".to_string());
    }
    let hub = scripts::hub_dir(hf_home);
    Ok(Removal::Cached(scripts::compose_library_remove_script(model_id, Some(&hub))))
}

/// The paths of a row other than `path`.
pub open spec fn others(list: Seq<Seq<char>>, path: Seq<char>) -> Seq<Seq<char>>
    decreases list.len(),
{
    if list.len() == 0 {
        list
    } else if list.last() == path {
        others(list.drop_last(), path)
    } else {
        others(list.drop_last(), path).push(list.last())
    }
}

/// The imported paths without one that was removed.
pub fn without_imported(imported: &Vec<String>, path: &str) -> (r: Vec<String>)
    ensures
        text::texts(r@) == others(text::texts(imported@), path@),
{
    let ghost all = text::texts(imported@);
    let mut out: Vec<String> = Vec::new();
    assert(all.take(0) =~= Seq::empty());
    assert(text::texts(out@) =~= Seq::empty());
    for i in 0..imported.len()
        invariant
            all == text::texts(imported@),
            text::texts(out@) == others(all.take(i as int), path@),
    {
        assert(all.take(i + 1).drop_last() =~= all.take(i as int));
        assert(all.take(i + 1).last() == imported@[i as int]@);
        let ghost before = text::texts(out@);
        if !text::same(&imported[i], path) {
            out.push(imported[i].clone());
            assert(text::texts(out@) =~= before.push(imported@[i as int]@));
        }
    }
    assert(all.take(imported@.len() as int) =~= all);
    out
}

/// A model that an active server uses is never removed.
pub proof fn law_models_in_use_are_kept(
    model_id: Seq<char>,
    place: Option<GgufPlace>,
    servers: Seq<LiveServer>,
    imported: Seq<Seq<char>>,
    id_is_valid: bool,
    hf_home: Option<Seq<char>>,
    k: int,
)
    requires
        0 <= k < servers.len(),
        servers[k].is_active(),
        servers[k].def.model_id@ == model_id,
    ensures
        removal_plan(model_id, place, servers, imported, id_is_valid, hf_home) is Err,
{
    let parent = match place {
        Some(p) => Some(p.parent_text@),
        None => None,
    };
    lemma_blocking_found(servers, model_id, parent, 0, k);
}

proof fn lemma_blocking_found(
    servers: Seq<LiveServer>,
    model_id: Seq<char>,
    parent: Option<Seq<char>>,
    i: int,
    k: int,
)
    requires
        0 <= i <= k < servers.len(),
        uses_model(servers[k], model_id, parent),
    ensures
        blocking_from(servers, model_id, parent, i) is Some,
    decreases k - i,
{
    if !uses_model(servers[i], model_id, parent) {
        lemma_blocking_found(servers, model_id, parent, i + 1, k);
    }
}

/// A directory is removed only from within the directory for GGUF files, and never that
/// directory itself.
pub proof fn law_only_inner_directories_are_removed(
    model_id: Seq<char>,
    place: Option<GgufPlace>,
    servers: Seq<LiveServer>,
    imported: Seq<Seq<char>>,
    id_is_valid: bool,
    hf_home: Option<Seq<char>>,
)
    requires
        removal_plan(model_id, place, servers, imported, id_is_valid, hf_home) matches Ok(
            RemovalTexts::Directory,
        ),
    ensures
        place matches Some(p) && is_within(text::texts(p.root@), text::texts(p.parent@))
            && p.root@.len() < p.parent@.len(),
{
    let p = place->0;
    let a = text::texts(p.root@);
    let b = text::texts(p.parent@);
    if a.len() == b.len() {
        assert(b.subrange(0, a.len() as int) =~= b);
    }
}

// ---------------------------------------------------------------------------
// Downloading
// ---------------------------------------------------------------------------

/// The paths match but for the case of ASCII letters.
pub open spec fn in_list_but_case(list: Seq<Seq<char>>, s: Seq<char>) -> bool {
    exists|i: int| 0 <= i < list.len() && text::same_but_case(#[trigger] list[i], s)
}

/// Refuses to download a model that is among the imported ones.
pub fn check_not_imported(model_id: &str, imported: &Vec<String>) -> (r: Result<(), String>)
    ensures
        told(r) == (if in_list_but_case(text::texts(imported@), model_id@) {
            Err(
                "Model \""@ + model_id@
                    + "\" is already in your library as an imported local folder"@,
            )
        } else {
            Ok(())
        }),
{
    let ghost all = text::texts(imported@);
    for i in 0..imported.len()
        invariant
            all == text::texts(imported@),
            forall|j: int| 0 <= j < i ==> !text::same_but_case(#[trigger] all[j], model_id@),
    {
        if text::same_ignoring_case(&imported[i], model_id) {
            assert(text::same_but_case(all[i as int], model_id@));
            let mut e = "Model \"".to_string();
            e.append(model_id);
            e.append("\" is already in your library as an imported local folder");
            return Err(e);
        }
    }
    Ok(())
}

/// Refuses to download a model that the script found in the hub's cache.
pub fn check_not_cached(model_id: &str, stdout: &str) -> (r: Result<(), String>)
    ensures
        told(r) == (if text::occurs(stdout@, "exists"@) {
            Err("Model \""@ + model_id@ + "\" is already downloaded in your library"@)
        } else {
            Ok(())
        }),
{
    if text::contains_text(stdout, "exists") {
        let mut e = "Model \"".to_string();
        e.append(model_id);
        e.append("\" is already downloaded in your library");
        return Err(e);
    }
    Ok(())
}

/// The path of a file in a repository may be downloaded.
pub open spec fn file_is_good(file: Seq<char>) -> bool {
    let f = text::trim(file);
    f.len() > 0 && !"/"@.is_prefix_of(f) && !text::occurs(f, ".."@)
}

/// Refuses a download without files, or of a file whose path leads elsewhere.
pub fn check_gguf_files(files: &Vec<String>) -> (r: Result<(), String>)
    ensures
        told(r) == (if files@.len() == 0 {
            Err("select at least one GGUF file"@)
        } else if exists|i: int| 0 <= i < files@.len() && !file_is_good(#[trigger] files@[i]@) {
            Err("GGUF file paths must be relative and cannot contain '..'"@)
        } else {
            Ok(())
        }),
{
    if files.len() == 0 {
        return Err("select at least one GGUF file".to_string());
    }
    for i in 0..files.len()
        invariant
            forall|j: int| 0 <= j < i ==> file_is_good(#[trigger] files@[j]@),
    {
        let f = text::trimmed(&files[i]);
        if f.unicode_len() == 0 || text::starts_with(f, "/") || text::contains_text(f, "..") {
            assert(!file_is_good(files@[i as int]@));
            return Err("GGUF file paths must be relative and cannot contain '..'".to_string());
        }
    }
    Ok(())
}

/// The name of the directory that the files of a repository go to.
pub fn download_dir(repo_id: &str) -> (r: String)
    ensures
        r@ == (if text::after_last(repo_id@, seq!['/']).len() > 0 {
            text::after_last(repo_id@, seq!['/'])
        } else {
            "model"@
        }),
{
    let slash = ['/'];
    assert(slash@ == seq!['/']);
    let tail = text::tail_after(repo_id, &slash);
    if tail.unicode_len() > 0 {
        tail.to_string()
    } else {
        "model".to_string()
    }
}

/// The address of a file of a repository.
pub fn download_url(repo_id: &str, file: &str) -> (r: String)
    ensures
        r@ == "https://huggingface.co/"@ + repo_id@ + "/resolve/main/"@ + file@,
{
    let mut out = "https://huggingface.co/".to_string();
    out.append(repo_id);
    out.append("/resolve/main/");
    out.append(file);
    out
}

/// The part of a file that is asked for when some of it is there.
pub fn resume_range(offset: u64) -> (r: Option<String>)
    ensures
        match r {
            Some(s) => offset > 0 && s@ == "bytes="@ + numeral::decimal(offset as nat) + "-"@,
            None => offset == 0,
        },
{
    if offset == 0 {
        return None;
    }
    let mut out = "bytes=".to_string();
    out.append(&numeral::number_text(offset));
    out.append("-");
    Some(out)
}

/// Whether a file is begun anew: some of it was there, and the whole of it is being sent.
pub fn begins_anew(offset: u64, status: u16) -> (r: bool)
    ensures
        r == (offset > 0 && status == 200),
{
    offset > 0 && status == 200
}

/// The size of a file of which the given length is still to come.
pub fn download_total(content_length: Option<u64>, offset: u64) -> (r: Option<u64>)
    ensures
        r == (match content_length {
            Some(n) => Some(
                if n + offset > u64::MAX {
                    u64::MAX
                } else {
                    (n + offset) as u64
                },
            ),
            None => None,
        }),
{
    match content_length {
        Some(n) => Some(
            if n > u64::MAX - offset {
                u64::MAX
            } else {
                n + offset
            },
        ),
        None => None,
    }
}

/// The size of the hub's cache that a script told, in MiB.
pub fn disk_usage(stdout: &str) -> (r: u64)
    ensures
        r == library::field_number(text::trim(stdout@), u64::MAX as nat),
{
    match numeral::read_whole(text::trimmed(stdout), u64::MAX) {
        Some(n) => n,
        None => 0,
    }
}

/// The size of a cached model that a script told, where it worked and told a positive one.
pub fn cached_weight_bytes(ok: bool, stdout: &str) -> (r: Option<u64>)
    ensures
        ({
            let n = library::field_number(text::trim(stdout@), u64::MAX as nat);
            r == (if ok && n > 0 {
                Some(n as u64)
            } else {
                None
            })
        }),
{
    if !ok {
        return None;
    }
    let n: u64 = disk_usage(stdout);
    if n > 0 {
        Some(n)
    } else {
        None
    }
}

// ---------------------------------------------------------------------------
// Laws of changing the library
// ---------------------------------------------------------------------------

/// A path that may be imported is absolute, lies at least three directories deep, and leads
/// nowhere upwards.
pub proof fn law_importable_paths_are_deep(path: Seq<char>)
    requires
        importable_path(path),
    ensures
        ({
            let p = text::trim_end_char(text::trim(path), '/');
            let parts = path_parts(text::pieces(p, '/'));
            &&& p.len() > 0 && p[0] == '/'
            &&& parts.len() >= 3
            &&& !parts.contains(".."@)
            &&& !p.contains('\n') && !p.contains('\r') && !p.contains('\0')
        }),
{
    reveal_strlit("/");
    let p = text::trim_end_char(text::trim(path), '/');
    assert("/"@ == p.subrange(0, 1));
    assert(p.subrange(0, 1)[0] == p[0]);
}

/// The parts of a path are those between its slashes that are not empty.
pub proof fn law_parts_of_a_path(pieces: Seq<Seq<char>>, piece: Seq<char>)
    ensures
        path_parts(Seq::empty()) == Seq::<Seq<char>>::empty(),
        piece.len() == 0 ==> path_parts(pieces.push(piece)) == path_parts(pieces),
        piece.len() > 0 ==> path_parts(pieces.push(piece)) == path_parts(pieces).push(piece),
{
    assert(pieces.push(piece).drop_last() =~= pieces);
}

/// A path lies in a directory where it begins with all of its parts.
pub proof fn law_within_a_directory(root: Seq<Seq<char>>, rest: Seq<Seq<char>>, path: Seq<Seq<char>>)
    ensures
        is_within(root, root + rest),
        is_within(root, path) ==> root.len() <= path.len() && path.take(root.len() as int) == root,
{
    assert((root + rest).subrange(0, root.len() as int) =~= root);
    if is_within(root, path) {
        assert(path.take(root.len() as int) =~= path.subrange(0, root.len() as int));
    }
}

/// A directory is taken for a model's exactly where the script worked, found the directory and
/// found the configuration in it.
pub proof fn law_imported_directories_are_checked(
    wsl_path: Seq<char>,
    ok: bool,
    stdout: Seq<char>,
    stderr: Seq<char>,
)
    ensures
        import_verdict(wsl_path, ok, stdout, stderr) is Ok <==> ok && text::occurs(stdout, "dir"@)
            && text::occurs(stdout, "ok"@),
        !ok ==> (import_verdict(wsl_path, ok, stdout, stderr) matches Err(e) && stderr.is_suffix_of(
            e,
        )),
        ok && import_verdict(wsl_path, ok, stdout, stderr) is Err ==> (import_verdict(
            wsl_path,
            ok,
            stdout,
            stderr,
        ) matches Err(e) && wsl_path.is_suffix_of(e)),
{
    let a = "Failed to check directory inside WSL: "@ + stderr;
    assert(stderr =~= a.subrange(a.len() - stderr.len(), a.len() as int));
    let b = "Directory does not exist inside WSL: "@ + wsl_path;
    assert(wsl_path =~= b.subrange(b.len() - wsl_path.len(), b.len() as int));
    let c = "Directory exists inside WSL but has no config.json (not a ready vLLM model dir): "@
        + wsl_path;
    assert(wsl_path =~= c.subrange(c.len() - wsl_path.len(), c.len() as int));
}

/// The size and the number of files that a script tells stand before and behind the first bar.
pub proof fn law_stats_stand_around_a_bar(size: Seq<char>, files: Seq<char>)
    requires
        !size.contains('|'),
    ensures
        stats_of(size + "|"@ + files) == (
            library::field_number(text::trim(size), u64::MAX as nat) as u64,
            library::field_number(text::trim(files), usize::MAX as nat) as usize,
        ),
        stats_of(size) == (0u64, 0usize),
{
    reveal_strlit("|");
    let s = size + "|"@ + files;
    assert forall|k: int| 0 <= k < size.len() implies #[trigger] s[k] != '|' by {
        assert(s[k] == size[k]);
    }
    lemma_find_bar(s, size.len() as int, 0);
    assert(s.take(size.len() as int) =~= size);
    assert(s.skip(size.len() as int + 1) =~= files);
    lemma_no_bar(size, 0);
}

proof fn lemma_find_bar(s: Seq<char>, at: int, i: int)
    requires
        0 <= i <= at < s.len(),
        s[at] == '|',
        forall|k: int| i <= k < at ==> #[trigger] s[k] != '|',
    ensures
        text::find_any_from(s, seq!['|'], i) == Some(at),
    decreases at - i,
{
    assert(seq!['|'][0] == '|');
    if i < at {
        assert(!seq!['|'].contains(s[i]));
        lemma_find_bar(s, at, i + 1);
    } else {
        assert(seq!['|'].contains(s[i]));
    }
}

proof fn lemma_no_bar(s: Seq<char>, i: int)
    requires
        0 <= i,
        !s.contains('|'),
    ensures
        text::find_any_from(s, seq!['|'], i) is None,
    decreases s.len() - i,
{
    if i < s.len() {
        assert(s.contains(s[i]));
        assert(!seq!['|'].contains(s[i]));
        lemma_no_bar(s, i + 1);
    }
}

/// A model is removed only where no active server uses it, under its name, under one that
/// overlaps with it, or from its directory; the server that stands in the way is named.
pub proof fn law_users_stand_in_the_way(
    model_id: Seq<char>,
    place: Option<GgufPlace>,
    servers: Seq<LiveServer>,
    imported: Seq<Seq<char>>,
    id_is_valid: bool,
    hf_home: Option<Seq<char>>,
    k: int,
)
    requires
        0 <= k < servers.len(),
        servers[k].status == crate::state::ServerStatus::Running || servers[k].status
            == crate::state::ServerStatus::Starting,
        removal_plan(model_id, place, servers, imported, id_is_valid, hf_home) is Ok,
    ensures
        servers[k].def.model_id@ != model_id,
        !text::occurs(servers[k].def.model_id@, model_id),
        !text::occurs(model_id, servers[k].def.model_id@),
        place matches Some(p) ==> (servers[k].def.model_path matches Some(path)
            ==> !p.parent_text@.is_prefix_of(path@)),
{
    let parent = match place {
        Some(p) => Some(p.parent_text@),
        None => None,
    };
    if uses_model(servers[k], model_id, parent) {
        lemma_blocking_found(servers, model_id, parent, 0, k);
    }
}

/// What is removed of a model that nothing uses: the directory of its GGUF file, where it has
/// one; else the directory that was imported under its name; else what the hub's cache holds
/// of it.
pub proof fn law_removals(
    model_id: Seq<char>,
    place: Option<GgufPlace>,
    imported: Seq<Seq<char>>,
    id_is_valid: bool,
    hf_home: Option<Seq<char>>,
)
    ensures
        ({
            let none = Seq::<LiveServer>::empty();
            let r = removal_plan(model_id, place, none, imported, id_is_valid, hf_home);
            &&& place is Some ==> (r is Ok ==> r == Ok::<RemovalTexts, Seq<char>>(
                RemovalTexts::Directory,
            ))
            &&& place is None && imported.contains(model_id) ==> (r matches Ok(x) ==> (
            x matches RemovalTexts::Imported(path, _) && path == model_id && importable_path(
                model_id,
            )))
            &&& place is None && !imported.contains(model_id) && id_is_valid ==> (r matches Ok(
                RemovalTexts::Cached(_),
            ))
            &&& place is None && !imported.contains(model_id) && !id_is_valid ==> r is Err
        }),
{
}

/// A path that is taken off the list is gone, and every other stays.
pub proof fn law_taken_off_the_list(list: Seq<Seq<char>>, path: Seq<char>, x: Seq<char>)
    ensures
        others(list, path).contains(x) <==> list.contains(x) && x != path,
    decreases list.len(),
{
    if list.len() > 0 {
        let f = list.drop_last();
        let last = list.last();
        law_taken_off_the_list(f, path, x);
        assert(list =~= f.push(last));
        lemma_pushed_text(f, last, x);
        lemma_pushed_text(others(f, path), last, x);
    }
}

proof fn lemma_pushed_text(s: Seq<Seq<char>>, a: Seq<char>, x: Seq<char>)
    ensures
        s.push(a).contains(x) <==> s.contains(x) || x == a,
{
    if s.contains(x) {
        let k = choose|k: int| 0 <= k < s.len() && s[k] == x;
        assert(s.push(a)[k] == x);
    }
    assert(s.push(a)[s.len() as int] == a);
}

/// A file may be downloaded where its path is not empty, not absolute and leads nowhere
/// upwards.
pub proof fn law_good_files_stay_inside(file: Seq<char>)
    requires
        text::trim(file).len() > 0,
    ensures
        file_is_good(file) <==> text::trim(file)[0] != '/' && !text::occurs(text::trim(file), ".."@),
        !file_is_good(Seq::empty()),
{
    reveal_strlit("/");
    let f = text::trim(file);
    if f[0] == '/' {
        assert("/"@ =~= f.subrange(0, 1));
    }
    if "/"@.is_prefix_of(f) {
        assert(f.subrange(0, 1)[0] == f[0]);
    }
    reveal_with_fuel(text::trim_start, 1);
}

/// A directory is used by the first active server of llama.cpp whose model it is.
pub proof fn law_directory_users(servers: Seq<LiveServer>, path: Seq<char>, i: int)
    requires
        0 <= i < servers.len(),
    ensures
        (servers[i].status == crate::state::ServerStatus::Running || servers[i].status
            == crate::state::ServerStatus::Starting) && servers[i].def.backend@ == "llamacpp"@
            && servers[i].def.model_id@ == path ==> directory_user(servers, path, i) == Some(
            servers[i].def.name@,
        ),
        servers[i].status == crate::state::ServerStatus::Stopped || servers[i].def.model_id@ != path
            || servers[i].def.backend@ != "llamacpp"@ ==> directory_user(servers, path, i)
            == directory_user(servers, path, i + 1),
{
}

/// A path is in a list, whatever its case, where one of the list is the same but for case.
pub proof fn law_listed_whatever_the_case(list: Seq<Seq<char>>, s: Seq<char>, t: Seq<char>)
    ensures
        in_list_but_case(list.push(t), s) <==> in_list_but_case(list, s) || text::same_but_case(
            t,
            s,
        ),
        list.contains(s) ==> in_list_but_case(list, s),
        !in_list_but_case(Seq::empty(), s),
{
    let more = list.push(t);
    assert(more[list.len() as int] == t);
    if in_list_but_case(list, s) {
        let i = choose|i: int| 0 <= i < list.len() && text::same_but_case(#[trigger] list[i], s);
        assert(more[i] == list[i]);
    }
    if in_list_but_case(more, s) {
        let i = choose|i: int| 0 <= i < more.len() && text::same_but_case(#[trigger] more[i], s);
        if i < list.len() {
            assert(list[i] == more[i]);
        }
    }
    if list.contains(s) {
        let i = choose|i: int| 0 <= i < list.len() && list[i] == s;
        assert(text::same_but_case(list[i], s));
    }
}

} // verus!
