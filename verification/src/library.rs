//! The models that are on this machine.
use vstd::prelude::*;
use crate::estimate;
use crate::json;
use crate::json::{Json, JsonTree};
use crate::numeral;
use crate::numeral::Decimal;
use crate::outside;
use crate::state::LiveServer;
use crate::text;

verus! {

// ---------------------------------------------------------------------------
// Entries
// ---------------------------------------------------------------------------

/// A model of the library.
#[derive(Debug)]
pub struct LibraryEntry {
    pub model_id: String,
    pub size_mb: u64,
    pub files: usize,
    pub quant: Option<String>,
    /// Billions of parameters.
    pub params_b: Option<Decimal>,
    pub installed: bool,
    pub in_use: bool,
    pub in_use_server: Option<String>,
    pub task: Option<String>,
    /// Whether it lies in a directory of its own and not in the cache of the hub.
    pub is_local: bool,
    pub model_path: Option<String>,
}

/// What an entry says.
#[verifier::ext_equal]
pub struct EntryTexts {
    pub model_id: Seq<char>,
    pub size_mb: u64,
    pub files: usize,
    pub quant: Option<Seq<char>>,
    pub params_b: Option<(nat, nat)>,
    pub installed: bool,
    pub in_use: bool,
    pub in_use_server: Option<Seq<char>>,
    pub task: Option<Seq<char>>,
    pub is_local: bool,
    pub model_path: Option<Seq<char>>,
}

impl View for LibraryEntry {
    type V = EntryTexts;

    open spec fn view(&self) -> EntryTexts {
        EntryTexts {
            model_id: self.model_id@,
            size_mb: self.size_mb,
            files: self.files,
            quant: text::opt_text(self.quant),
            params_b: estimate::opt_parts(self.params_b),
            installed: self.installed,
            in_use: self.in_use,
            in_use_server: text::opt_text(self.in_use_server),
            task: text::opt_text(self.task),
            is_local: self.is_local,
            model_path: text::opt_text(self.model_path),
        }
    }
}

/// What a row of entries says.
pub open spec fn entry_texts(entries: Seq<LibraryEntry>) -> Seq<EntryTexts> {
    Seq::new(entries.len(), |i: int| entries[i]@)
}

/// What the names and models of active servers say.
pub open spec fn usage_texts(running: Seq<(String, String)>) -> Seq<(Seq<char>, Seq<char>)> {
    Seq::new(running.len(), |i: int| (running[i].0@, running[i].1@))
}

/// One of the names holds the other.
pub open spec fn names_overlap(a: Seq<char>, b: Seq<char>) -> bool {
    text::occurs(a, b) || text::occurs(b, a)
}

/// The first server from number `i` on that uses the model: by its name, or by one that
/// overlaps with it where that counts too.
pub open spec fn user_from(
    running: Seq<(Seq<char>, Seq<char>)>,
    model_id: Seq<char>,
    loose: bool,
    i: int,
) -> Option<Seq<char>>
    decreases running.len() - i,
{
    if i < 0 || i >= running.len() {
        None
    } else if running[i].1 == model_id || (loose && names_overlap(model_id, running[i].1)) {
        Some(running[i].0)
    } else {
        user_from(running, model_id, loose, i + 1)
    }
}

fn user_of(running: &Vec<(String, String)>, model_id: &str, loose: bool) -> (r: Option<String>)
    ensures
        text::opt_text(r) == user_from(usage_texts(running@), model_id@, loose, 0),
{
    let ghost all = usage_texts(running@);
    for i in 0..running.len()
        invariant
            all == usage_texts(running@),
            user_from(all, model_id@, loose, 0) == user_from(all, model_id@, loose, i as int),
    {
        let model = &running[i].1;
        if text::same(model, model_id) || (loose && (text::contains_text(model_id, model)
            || text::contains_text(model, model_id))) {
            return Some(running[i].0.clone());
        }
    }
    None
}

/// The quantization that the name of a model tells.
pub open spec fn quant_in_name(model_id: Seq<char>) -> Seq<char> {
    let upper = outside::uppercase(model_id);
    if text::occurs(upper, "AWQ"@) {
        "AWQ"@
    } else if text::occurs(upper, "GPTQ"@) {
        "GPTQ"@
    } else if text::occurs(upper, "GGUF"@) {
        "GGUF"@
    } else if text::occurs(upper, "FP8"@) {
        "FP8"@
    } else {
        "FP16"@
    }
}

/// The task that the name of a model tells.
pub open spec fn task_in_name(model_id: Seq<char>) -> Seq<char> {
    let lower = outside::lowercase(model_id);
    if text::occurs(lower, "embed"@) || text::occurs(lower, "bge"@) || text::occurs(
        lower,
        "gte"@,
    ) {
        "embed"@
    } else {
        "instruct"@
    }
}

fn quant_label(model_id: &str) -> (r: &'static str)
    ensures
        r@ == quant_in_name(model_id@),
{
    let upper = outside::to_uppercase(model_id);
    if text::contains_text(&upper, "AWQ") {
        "AWQ"
    } else if text::contains_text(&upper, "GPTQ") {
        "GPTQ"
    } else if text::contains_text(&upper, "GGUF") {
        "GGUF"
    } else if text::contains_text(&upper, "FP8") {
        "FP8"
    } else {
        "FP16"
    }
}

fn task_label(model_id: &str) -> (r: &'static str)
    ensures
        r@ == task_in_name(model_id@),
{
    let lower = outside::to_lowercase(model_id);
    if text::contains_text(&lower, "embed") || text::contains_text(&lower, "bge")
        || text::contains_text(&lower, "gte") {
        "embed"
    } else {
        "instruct"
    }
}

/// The entry of a model in the cache of the hub.
pub open spec fn cached_entry(
    model_id: Seq<char>,
    size_mb: u64,
    files: usize,
    running: Seq<(Seq<char>, Seq<char>)>,
) -> EntryTexts {
    EntryTexts {
        model_id,
        size_mb,
        files,
        quant: Some(quant_in_name(model_id)),
        params_b: estimate::group_decimal(
            outside::lite_groups(
                estimate::PARAMS_PATTERN@,
                text::after_last(model_id, seq!['/']),
            ),
        ),
        installed: true,
        in_use: user_from(running, model_id, true, 0) is Some,
        in_use_server: user_from(running, model_id, true, 0),
        task: Some(task_in_name(model_id)),
        is_local: false,
        model_path: None,
    }
}

/// The entry of a model in a directory of its own.
pub open spec fn local_entry(
    model_id: Seq<char>,
    size_mb: u64,
    files: usize,
    quant: Seq<char>,
    user: Option<Seq<char>>,
    model_path: Option<Seq<char>>,
) -> EntryTexts {
    EntryTexts {
        model_id,
        size_mb,
        files,
        quant: Some(quant),
        params_b: None,
        installed: true,
        in_use: user is Some,
        in_use_server: user,
        task: Some("instruct"@),
        is_local: true,
        model_path,
    }
}

fn make_cached_entry(
    model_id: &str,
    size_mb: u64,
    files: usize,
    running: &Vec<(String, String)>,
) -> (r: LibraryEntry)
    ensures
        r@ == cached_entry(model_id@, size_mb, files, usage_texts(running@)),
{
    let in_use_server = user_of(running, model_id, true);
    LibraryEntry {
        model_id: model_id.to_string(),
        size_mb,
        files,
        quant: Some(quant_label(model_id).to_string()),
        params_b: estimate::parse_params_from_name(model_id),
        installed: true,
        in_use: in_use_server.is_some(),
        in_use_server,
        task: Some(task_label(model_id).to_string()),
        is_local: false,
        model_path: None,
    }
}

fn make_local_entry(
    model_id: String,
    size_mb: u64,
    files: usize,
    quant: &str,
    in_use_server: Option<String>,
    model_path: Option<String>,
) -> (r: LibraryEntry)
    ensures
        r@ == local_entry(
            model_id@,
            size_mb,
            files,
            quant@,
            text::opt_text(in_use_server),
            text::opt_text(model_path),
        ),
{
    LibraryEntry {
        model_id,
        size_mb,
        files,
        quant: Some(quant.to_string()),
        params_b: None,
        installed: true,
        in_use: in_use_server.is_some(),
        in_use_server,
        task: Some("instruct".to_string()),
        is_local: true,
        model_path,
    }
}

/// The names and models of the active servers, in order.
pub open spec fn active_usage(servers: Seq<LiveServer>) -> Seq<(Seq<char>, Seq<char>)>
    decreases servers.len(),
{
    if servers.len() == 0 {
        Seq::empty()
    } else if servers.last().is_active() {
        active_usage(servers.drop_last()).push(
            (servers.last().def.name@, servers.last().def.model_id@),
        )
    } else {
        active_usage(servers.drop_last())
    }
}

/// The names and models of the active servers, in order.
pub fn active_models(servers: &Vec<LiveServer>) -> (r: Vec<(String, String)>)
    ensures
        usage_texts(r@) == active_usage(servers@),
{
    let mut out: Vec<(String, String)> = Vec::new();
    assert(usage_texts(out@) =~= Seq::empty());
    assert(servers@.take(0) =~= Seq::empty());
    for i in 0..servers.len()
        invariant
            usage_texts(out@) == active_usage(servers@.take(i as int)),
    {
        let ghost before = usage_texts(out@);
        assert(servers@.take(i + 1).drop_last() =~= servers@.take(i as int));
        assert(servers@.take(i + 1).last() == servers@[i as int]);
        if servers[i].active() {
            out.push((servers[i].def.name.clone(), servers[i].def.model_id.clone()));
            assert(usage_texts(out@) =~= before.push(
                (servers@[i as int].def.name@, servers@[i as int].def.model_id@),
            ));
        }
    }
    assert(servers@.take(servers@.len() as int) =~= servers@);
    out
}

// ---------------------------------------------------------------------------
// Listings
// ---------------------------------------------------------------------------

/// The whole number under `key`, zero where there is none.
pub open spec fn number_or_zero(t: JsonTree, key: Seq<char>) -> u64 {
    match t.member(key) {
        Some(v) => match v.as_unsigned() {
            Some(n) => n,
            None => 0,
        },
        None => 0,
    }
}

/// The entry that a repository of a listing stands for.
pub open spec fn listed_entry(t: JsonTree, running: Seq<(Seq<char>, Seq<char>)>) -> EntryTexts {
    cached_entry(
        match t.text_member("repo_id"@) {
            Some(s) => s,
            None => Seq::empty(),
        },
        number_or_zero(t, "size_bytes"@) / 0x10_0000,
        number_or_zero(t, "file_count"@) as usize,
        running,
    )
}

/// The entries that a listing stands for; there are none where it is no array.
pub open spec fn listed_entries(
    listing: Option<JsonTree>,
    running: Seq<(Seq<char>, Seq<char>)>,
) -> Option<Seq<EntryTexts>> {
    match listing {
        Some(JsonTree::Array(items)) => Some(
            Seq::new(items.len(), |i: int| listed_entry(items[i], running)),
        ),
        _ => None,
    }
}

/// The view of an optional row of entries.
pub open spec fn opt_entries(r: Option<Vec<LibraryEntry>>) -> Option<Seq<EntryTexts>> {
    match r {
        Some(v) => Some(entry_texts(v@)),
        None => None,
    }
}

fn number_at(v: &Json, key: &str) -> (r: u64)
    ensures
        r == number_or_zero(v.tree(), key@),
{
    match v.get(key) {
        Some(x) => match x.as_u64() {
            Some(n) => n,
            None => 0,
        },
        None => 0,
    }
}

/// The entries that a listing of the hub's cache stands for.
pub fn entries_of_listing(listing: &Option<Json>, running: &Vec<(String, String)>) -> (r: Option<
    Vec<LibraryEntry>,
>)
    ensures
        opt_entries(r) == listed_entries(json::own_tree(*listing), usage_texts(running@)),
{
    let Some(doc) = listing else {
        return None;
    };
    let Json::Array(items) = doc else {
        return None;
    };
    let ghost all = doc.tree()->Array_0;
    assert(all =~= json::trees(items@));
    let ghost want = Seq::new(
        all.len(),
        |i: int| listed_entry(all[i], usage_texts(running@)),
    );
    let mut out: Vec<LibraryEntry> = Vec::new();
    for i in 0..items.len()
        invariant
            all == json::trees(items@),
            want == Seq::new(
                all.len(),
                |i: int| listed_entry(all[i], usage_texts(running@)),
            ),
            entry_texts(out@) == want.take(i as int),
    {
        let ghost before = entry_texts(out@);
        let repo = &items[i];
        let id: &str = match repo.get_str("repo_id") {
            Some(s) => s,
            None => {
                proof {
                    reveal_strlit("");
                }
                ""
            },
        };
        assert(id@ =~= (match all[i as int].text_member("repo_id"@) {
            Some(s) => s,
            None => Seq::empty(),
        }));
        let size: u64 = number_at(repo, "size_bytes") / 0x10_0000;
        let files: usize = number_at(repo, "file_count") as usize;
        let entry = make_cached_entry(id, size, files, running);
        out.push(entry);
        assert(entry_texts(out@) =~= before.push(entry@));
        assert(want.take(i + 1) =~= before.push(want[i as int]));
    }
    assert(want.take(items@.len() as int) =~= want);
    Some(out)
}

/// The entries that the output of the listing script stands for.
pub fn entries_of_scan(stdout: &[u8], running: &Vec<(String, String)>) -> (r: Option<
    Vec<LibraryEntry>,
>)
    ensures
        opt_entries(r) == listed_entries(outside::json_parsed(stdout@), usage_texts(running@)),
{
    entries_of_listing(&json::parse(stdout), running)
}

/// The number in a field of a line, zero where it is none.
pub open spec fn field_number(s: Seq<char>, max: nat) -> nat {
    match numeral::whole_number(s, max) {
        Some(n) => n,
        None => 0,
    }
}

/// The name, the size and the number of files that a line tells, between bars.
pub open spec fn line_fields(line: Seq<char>) -> Option<(Seq<char>, u64, usize)> {
    let f = text::pieces(line, '|');
    if f.len() < 3 {
        None
    } else {
        Some(
            (
                f[0],
                field_number(f[1], u64::MAX as nat) as u64,
                field_number(f[2], usize::MAX as nat) as usize,
            ),
        )
    }
}

fn read_fields(line: &str) -> (r: Option<(String, u64, usize)>)
    ensures
        match r {
            Some((name, size, files)) => line_fields(line@) == Some((name@, size, files)),
            None => line_fields(line@) is None,
        },
{
    let f = text::split_char(line, '|');
    let ghost want = text::pieces(line@, '|');
    assert(text::texts(f@) == want);
    if f.len() < 3 {
        return None;
    }
    assert(want[0] == f@[0]@ && want[1] == f@[1]@ && want[2] == f@[2]@);
    let size: u64 = match numeral::read_whole(&f[1], u64::MAX) {
        Some(n) => n,
        None => 0,
    };
    let files: usize = match numeral::read_whole(&f[2], usize::MAX as u64) {
        Some(n) => n as usize,
        None => 0,
    };
    Some((f[0].clone(), size, files))
}

/// The entries that the lines of a listing by directories stand for: a line with neither a
/// size nor files counts for none.
pub open spec fn scanned_entries(
    lines: Seq<Seq<char>>,
    running: Seq<(Seq<char>, Seq<char>)>,
) -> Seq<EntryTexts>
    decreases lines.len(),
{
    if lines.len() == 0 {
        Seq::empty()
    } else {
        let front = scanned_entries(lines.drop_last(), running);
        match line_fields(lines.last()) {
            Some((name, size, files)) => if size == 0 && files == 0 {
                front
            } else {
                front.push(cached_entry(name, size, files, running))
            },
            None => front,
        }
    }
}

/// The entries that a listing of the hub's cache by its directories stands for.
pub fn scan_hf_cache_fs(stdout: &str, running: &Vec<(String, String)>) -> (r: Vec<LibraryEntry>)
    ensures
        entry_texts(r@) == scanned_entries(text::lines(stdout@), usage_texts(running@)),
{
    let lines = text::split_lines(stdout);
    let ghost all = text::texts(lines@);
    let mut out: Vec<LibraryEntry> = Vec::new();
    assert(entry_texts(out@) =~= Seq::empty());
    assert(all.take(0) =~= Seq::empty());
    for i in 0..lines.len()
        invariant
            all == text::texts(lines@),
            entry_texts(out@) == scanned_entries(all.take(i as int), usage_texts(running@)),
    {
        assert(all.take(i + 1).drop_last() =~= all.take(i as int));
        assert(all.take(i + 1).last() == lines@[i as int]@);
        let ghost before = entry_texts(out@);
        if let Some((name, size, files)) = read_fields(&lines[i]) {
            if !(size == 0 && files == 0) {
                let entry = make_cached_entry(&name, size, files, running);
                out.push(entry);
                assert(entry_texts(out@) =~= before.push(entry@));
            }
        }
    }
    assert(all.take(lines@.len() as int) =~= all);
    out
}

/// The entries that the lines of a listing of imported directories stand for.
pub open spec fn imported_entries(
    lines: Seq<Seq<char>>,
    running: Seq<(Seq<char>, Seq<char>)>,
) -> Seq<EntryTexts>
    decreases lines.len(),
{
    if lines.len() == 0 {
        Seq::empty()
    } else {
        let front = imported_entries(lines.drop_last(), running);
        match line_fields(lines.last()) {
            Some((name, size, files)) => front.push(
                local_entry(
                    name,
                    size,
                    files,
                    "native"@,
                    user_from(running, name, false, 0),
                    None,
                ),
            ),
            None => front,
        }
    }
}

/// The entries that a listing of imported directories stands for.
pub fn scan_imported_local_folders(stdout: &str, running: &Vec<(String, String)>) -> (r: Vec<
    LibraryEntry,
>)
    ensures
        entry_texts(r@) == imported_entries(text::lines(stdout@), usage_texts(running@)),
{
    let lines = text::split_lines(stdout);
    let ghost all = text::texts(lines@);
    let mut out: Vec<LibraryEntry> = Vec::new();
    assert(entry_texts(out@) =~= Seq::empty());
    assert(all.take(0) =~= Seq::empty());
    for i in 0..lines.len()
        invariant
            all == text::texts(lines@),
            entry_texts(out@) == imported_entries(all.take(i as int), usage_texts(running@)),
    {
        assert(all.take(i + 1).drop_last() =~= all.take(i as int));
        assert(all.take(i + 1).last() == lines@[i as int]@);
        let ghost before = entry_texts(out@);
        if let Some((name, size, files)) = read_fields(&lines[i]) {
            let user = user_of(running, &name, false);
            let entry = make_local_entry(name, size, files, "native", user, None);
            out.push(entry);
            assert(entry_texts(out@) =~= before.push(entry@));
        }
    }
    assert(all.take(lines@.len() as int) =~= all);
    out
}

// ---------------------------------------------------------------------------
// GGUF files
// ---------------------------------------------------------------------------

/// A directory with GGUF files: its name, and each file's path and, where it could be told,
/// its size.
#[derive(Debug)]
pub struct NativeRepo {
    pub name: String,
    pub files: Vec<(String, Option<u64>)>,
}

/// The sum of the sizes that could be told.
pub open spec fn sizes_sum(files: Seq<(String, Option<u64>)>) -> nat
    decreases files.len(),
{
    if files.len() == 0 {
        0
    } else {
        sizes_sum(files.drop_last()) + (match files.last().1 {
            Some(n) => n as nat,
            None => 0nat,
        })
    }
}

/// The first of the paths in the order of texts.
pub open spec fn first_path(files: Seq<(String, Option<u64>)>) -> Seq<char>
    decreases files.len(),
{
    if files.len() <= 1 {
        files[0].0@
    } else {
        let front = first_path(files.drop_last());
        if text::comes_before(files.last().0@, front) {
            files.last().0@
        } else {
            front
        }
    }
}

/// The size of a directory in MiB.
pub open spec fn size_in_mib(bytes: nat) -> u64 {
    if bytes / 0x10_0000 > u64::MAX {
        u64::MAX
    } else {
        (bytes / 0x10_0000) as u64
    }
}

/// The entry of a directory with GGUF files.
pub open spec fn native_entry(
    repo: NativeRepo,
    running: Seq<(Seq<char>, Seq<char>)>,
) -> EntryTexts {
    local_entry(
        repo.name@,
        size_in_mib(sizes_sum(repo.files@)),
        repo.files@.len() as usize,
        "GGUF"@,
        user_from(running, repo.name@, false, 0),
        Some(first_path(repo.files@)),
    )
}

/// The entries of the directories that hold any GGUF file.
pub open spec fn native_entries(
    repos: Seq<NativeRepo>,
    running: Seq<(Seq<char>, Seq<char>)>,
) -> Seq<EntryTexts>
    decreases repos.len(),
{
    if repos.len() == 0 {
        Seq::empty()
    } else if repos.last().files@.len() == 0 {
        native_entries(repos.drop_last(), running)
    } else {
        native_entries(repos.drop_last(), running).push(native_entry(repos.last(), running))
    }
}

fn total_size(files: &Vec<(String, Option<u64>)>) -> (r: u128)
    ensures
        r == sizes_sum(files@),
{
    let mut sum: u128 = 0;
    assert(files@.take(0) =~= Seq::empty());
    for i in 0..files.len()
        invariant
            sum == sizes_sum(files@.take(i as int)),
            sum <= i * 0x1_0000_0000_0000_0000,
    {
        assert(files@.take(i + 1).drop_last() =~= files@.take(i as int));
        assert(files@.take(i + 1).last() == files@[i as int]);
        if let Some(n) = files[i].1 {
            sum = sum + n as u128;
        }
    }
    assert(files@.take(files@.len() as int) =~= files@);
    sum
}

fn main_file(files: &Vec<(String, Option<u64>)>) -> (r: String)
    requires
        files@.len() > 0,
    ensures
        r@ == first_path(files@),
{
    let mut best: usize = 0;
    let n: usize = files.len();
    let mut i: usize = 1;
    while i < n
        invariant
            n == files@.len(),
            1 <= i <= n,
            best < i,
            files@[best as int].0@ == first_path(files@.take(i as int)),
        decreases n - i,
    {
        assert(files@.take(i + 1).drop_last() =~= files@.take(i as int));
        assert(files@.take(i + 1).last() == files@[i as int]);
        if text::is_before(&files[i].0, &files[best].0) {
            best = i;
        }
        i += 1;
    }
    assert(files@.take(n as int) =~= files@);
    files[best].0.clone()
}

/// The entries of the directories that hold any GGUF file.
pub fn scan_native_gguf_library(repos: &Vec<NativeRepo>, running: &Vec<(String, String)>) -> (r:
    Vec<LibraryEntry>)
    ensures
        entry_texts(r@) == native_entries(repos@, usage_texts(running@)),
{
    let mut out: Vec<LibraryEntry> = Vec::new();
    assert(entry_texts(out@) =~= Seq::empty());
    assert(repos@.take(0) =~= Seq::empty());
    for i in 0..repos.len()
        invariant
            entry_texts(out@) == native_entries(repos@.take(i as int), usage_texts(running@)),
    {
        assert(repos@.take(i + 1).drop_last() =~= repos@.take(i as int));
        assert(repos@.take(i + 1).last() == repos@[i as int]);
        let ghost before = entry_texts(out@);
        let repo = &repos[i];
        if repo.files.len() > 0 {
            let mib: u128 = total_size(&repo.files) / 0x10_0000;
            let size_mb: u64 = if mib > u64::MAX as u128 {
                u64::MAX
            } else {
                mib as u64
            };
            let user = user_of(running, &repo.name, false);
            let entry = make_local_entry(
                repo.name.clone(),
                size_mb,
                repo.files.len(),
                "GGUF",
                user,
                Some(main_file(&repo.files)),
            );
            out.push(entry);
            assert(entry_texts(out@) =~= before.push(entry@));
        }
    }
    assert(repos@.take(repos@.len() as int) =~= repos@);
    out
}

// ---------------------------------------------------------------------------
// The whole list
// ---------------------------------------------------------------------------

/// Whether the cache is to be listed by its directories too: where the listing failed, is
/// empty or holds a model without a size.
pub fn should_scan_hf_cache_fs(python_scan_ok: bool, entries: &Vec<LibraryEntry>) -> (r: bool)
    ensures
        r == (!python_scan_ok || entries@.len() == 0 || exists|i: int|
            0 <= i < entries@.len() && (#[trigger] entries@[i]).size_mb == 0),
{
    if !python_scan_ok || entries.len() == 0 {
        return true;
    }
    for i in 0..entries.len()
        invariant
            forall|j: int| 0 <= j < i ==> (#[trigger] entries@[j]).size_mb != 0,
    {
        if entries[i].size_mb == 0 {
            return true;
        }
    }
    false
}

/// The place of the first entry from number `i` on with the name.
pub open spec fn entry_place(entries: Seq<EntryTexts>, model_id: Seq<char>, i: int) -> Option<int>
    decreases entries.len() - i,
{
    if i < 0 || i >= entries.len() {
        None
    } else if entries[i].model_id == model_id {
        Some(i)
    } else {
        entry_place(entries, model_id, i + 1)
    }
}

/// An entry is added where there is none of its name; it takes the place of one that has
/// neither a size nor files.
pub open spec fn merged_one(entries: Seq<EntryTexts>, e: EntryTexts) -> Seq<EntryTexts> {
    match entry_place(entries, e.model_id, 0) {
        Some(i) => if entries[i].size_mb == 0 && entries[i].files == 0 {
            entries.update(i, e)
        } else {
            entries
        },
        None => entries.push(e),
    }
}

/// Entries merged one after the other.
pub open spec fn merged(entries: Seq<EntryTexts>, more: Seq<EntryTexts>) -> Seq<EntryTexts>
    decreases more.len(),
{
    if more.len() == 0 {
        entries
    } else {
        merged_one(merged(entries, more.drop_last()), more.last())
    }
}

fn find_entry(entries: &Vec<LibraryEntry>, model_id: &str) -> (r: Option<usize>)
    ensures
        match r {
            Some(k) => k < entries@.len() && entry_place(entry_texts(entries@), model_id@, 0)
                == Some(k as int),
            None => entry_place(entry_texts(entries@), model_id@, 0) is None,
        },
{
    let ghost all = entry_texts(entries@);
    for i in 0..entries.len()
        invariant
            all == entry_texts(entries@),
            entry_place(all, model_id@, 0) == entry_place(all, model_id@, i as int),
    {
        if text::same(&entries[i].model_id, model_id) {
            return Some(i);
        }
    }
    None
}

/// Adds the entries of another listing to those of a first one.
pub fn merge_entries(entries: Vec<LibraryEntry>, more: Vec<LibraryEntry>) -> (r: Vec<LibraryEntry>)
    ensures
        entry_texts(r@) == merged(entry_texts(entries@), entry_texts(more@)),
{
    let ghost first = entry_texts(entries@);
    let ghost all = entry_texts(more@);
    let mut out = entries;
    let mut rest = more;
    let ghost mut n: int = 0;
    assert(all.take(0) =~= Seq::empty());
    assert(entry_texts(rest@) =~= all.skip(0));
    while rest.len() > 0
        invariant
            0 <= n <= all.len(),
            entry_texts(rest@) == all.skip(n),
            entry_texts(out@) == merged(first, all.take(n)),
        decreases rest@.len(),
    {
        let ghost left = entry_texts(rest@);
        let ghost before = entry_texts(out@);
        assert(left.len() == rest@.len() && left == all.skip(n));
        let e = rest.remove(0);
        proof {
            assert(e@ == left[0]);
            assert(all.skip(n)[0] == all[n]);
            assert(entry_texts(rest@) =~= left.remove(0));
            assert(left.remove(0) =~= all.skip(n + 1));
            assert(all.take(n + 1).drop_last() =~= all.take(n));
            assert(all.take(n + 1).last() == all[n]);
            n = n + 1;
        }
        match find_entry(&out, &e.model_id) {
            Some(k) => {
                assert(before[k as int] == out@[k as int]@);
                if out[k].size_mb == 0 && out[k].files == 0 {
                    out.set(k, e);
                    assert(entry_texts(out@) =~= before.update(k as int, e@));
                }
            },
            None => {
                out.push(e);
                assert(entry_texts(out@) =~= before.push(e@));
            },
        }
    }
    assert(all.take(n) =~= all);
    out
}

/// The place of `e` among entries that are ordered by size: behind the last that is not
/// smaller.
pub open spec fn size_place(entries: Seq<EntryTexts>, e: EntryTexts) -> int
    decreases entries.len(),
{
    if entries.len() == 0 || !(e.size_mb > entries.last().size_mb) {
        entries.len() as int
    } else {
        size_place(entries.drop_last(), e)
    }
}

/// The entries, the largest first; those of the same size keep their order.
pub open spec fn by_size(entries: Seq<EntryTexts>) -> Seq<EntryTexts>
    decreases entries.len(),
{
    if entries.len() == 0 {
        entries
    } else {
        let t = by_size(entries.drop_last());
        t.insert(size_place(t, entries.last()), entries.last())
    }
}

/// Orders the entries by size, the largest first.
pub fn sort_by_size(entries: Vec<LibraryEntry>) -> (r: Vec<LibraryEntry>)
    ensures
        entry_texts(r@) == by_size(entry_texts(entries@)),
{
    let ghost all = entry_texts(entries@);
    let mut rest = entries;
    let mut out: Vec<LibraryEntry> = Vec::new();
    let ghost mut n: int = 0;
    assert(all.take(0) =~= Seq::empty());
    assert(entry_texts(rest@) =~= all.skip(0));
    assert(entry_texts(out@) =~= by_size(all.take(0)));
    while rest.len() > 0
        invariant
            0 <= n <= all.len(),
            entry_texts(rest@) == all.skip(n),
            entry_texts(out@) == by_size(all.take(n)),
        decreases rest@.len(),
    {
        let ghost left = entry_texts(rest@);
        let ghost front = entry_texts(out@);
        assert(left.len() == rest@.len() && left == all.skip(n));
        let e = rest.remove(0);
        let mut i: usize = out.len();
        assert(front.take(i as int) =~= front);
        while i > 0 && e.size_mb > out[i - 1].size_mb
            invariant
                i <= out@.len(),
                entry_texts(out@) == front,
                size_place(front, e@) == size_place(front.take(i as int), e@),
            decreases i,
        {
            assert(front.take(i as int).drop_last() =~= front.take(i - 1));
            assert(front.take(i as int).last() == out@[i - 1]@);
            i -= 1;
        }
        proof {
            if i > 0 {
                assert(front.take(i as int).last() == out@[i - 1]@);
            }
            assert(size_place(front, e@) == i);
            assert(e@ == left[0]);
            assert(all.skip(n)[0] == all[n]);
            assert(entry_texts(rest@) =~= left.remove(0));
            assert(left.remove(0) =~= all.skip(n + 1));
            assert(all.take(n + 1).drop_last() =~= all.take(n));
            assert(all.take(n + 1).last() == all[n]);
            n = n + 1;
        }
        out.insert(i, e);
        assert(entry_texts(out@) =~= front.insert(i as int, e@));
    }
    assert(all.take(n) =~= all);
    out
}

/// The whole library: the imported directories, the directories with GGUF files and the
/// models of the hub's cache, the largest first. `scanned` is the listing by directories,
/// where there was need of one.
pub fn library_list(
    imported: Vec<LibraryEntry>,
    native: Vec<LibraryEntry>,
    cached: Vec<LibraryEntry>,
    scanned: Vec<LibraryEntry>,
) -> (r: Vec<LibraryEntry>)
    ensures
        entry_texts(r@) == entry_texts(imported@) + entry_texts(native@) + by_size(
            merged(entry_texts(cached@), entry_texts(scanned@)),
        ),
{
    let ghost a = entry_texts(imported@);
    let ghost b = entry_texts(native@);
    let mut out = imported;
    let mut native = native;
    let mut hub = sort_by_size(merge_entries(cached, scanned));
    let ghost c = entry_texts(hub@);
    out.append(&mut native);
    assert(entry_texts(out@) =~= a + b);
    out.append(&mut hub);
    assert(entry_texts(out@) =~= a + b + c);
    out
}

// ---------------------------------------------------------------------------
// Laws
// ---------------------------------------------------------------------------

proof fn lemma_size_place(t: Seq<EntryTexts>, e: EntryTexts)
    ensures
        0 <= size_place(t, e) <= t.len(),
        forall|i: int| size_place(t, e) <= i < t.len() ==> e.size_mb > (#[trigger] t[i]).size_mb,
        size_place(t, e) > 0 ==> e.size_mb <= t[size_place(t, e) - 1].size_mb,
    decreases t.len(),
{
    if t.len() > 0 && e.size_mb > t.last().size_mb {
        lemma_size_place(t.drop_last(), e);
        assert forall|i: int| size_place(t, e) <= i < t.len() implies e.size_mb > (
        #[trigger] t[i]).size_mb by {
            if i < t.len() - 1 {
                assert(t.drop_last()[i] == t[i]);
            }
        }
    }
}

proof fn lemma_by_size_length(s: Seq<EntryTexts>)
    ensures
        by_size(s).len() == s.len(),
    decreases s.len(),
{
    if s.len() > 0 {
        lemma_by_size_length(s.drop_last());
        lemma_size_place(by_size(s.drop_last()), s.last());
    }
}

/// The models of the cache come the largest first.
pub proof fn law_larger_models_come_first(s: Seq<EntryTexts>, i: int, j: int)
    requires
        0 <= i < j < s.len(),
    ensures
        by_size(s).len() == s.len(),
        by_size(s)[i].size_mb >= by_size(s)[j].size_mb,
    decreases s.len(),
{
    lemma_by_size_length(s);
    let f = s.drop_last();
    let t = by_size(f);
    let x = s.last();
    let p = size_place(t, x);
    lemma_by_size_length(f);
    lemma_size_place(t, x);
    let before = |k: int|
        if k < p {
            k
        } else {
            k - 1
        };
    if i != p && j != p {
        law_larger_models_come_first(f, before(i), before(j));
    } else if j == p {
        if i < p - 1 {
            law_larger_models_come_first(f, i, p - 1);
        }
    } else {
        assert(x.size_mb > t[j - 1].size_mb);
    }
}

/// Ordering the models changes only their order.
pub proof fn law_ordering_keeps_the_models(s: Seq<EntryTexts>)
    ensures
        by_size(s).to_multiset() == s.to_multiset(),
    decreases s.len(),
{
    broadcast use vstd::seq_lib::group_to_multiset_ensures;

    if s.len() > 0 {
        let t = by_size(s.drop_last());
        law_ordering_keeps_the_models(s.drop_last());
        lemma_size_place(t, s.last());
        assert(s =~= s.drop_last().push(s.last()));
        assert(by_size(s).to_multiset() =~= t.to_multiset().insert(s.last()));
    }
}

proof fn lemma_entry_place(entries: Seq<EntryTexts>, model_id: Seq<char>, i: int)
    requires
        0 <= i,
    ensures
        match entry_place(entries, model_id, i) {
            Some(k) => i <= k < entries.len() && entries[k].model_id == model_id,
            None => forall|k: int| i <= k < entries.len() ==> (#[trigger] entries[k]).model_id
                != model_id,
        },
    decreases entries.len() - i,
{
    if i < entries.len() {
        lemma_entry_place(entries, model_id, i + 1);
    }
}

/// No two entries have the same name.
pub open spec fn names_differ(entries: Seq<EntryTexts>) -> bool {
    forall|i: int, j: int|
        0 <= i < j < entries.len() ==> (#[trigger] entries[i]).model_id != (
        #[trigger] entries[j]).model_id
}

/// Merging adds no model a second time, and loses none.
pub proof fn law_merging_lists_each_model_once(entries: Seq<EntryTexts>, more: Seq<EntryTexts>)
    requires
        names_differ(entries),
    ensures
        names_differ(merged(entries, more)),
        forall|i: int|
            0 <= i < entries.len() ==> i < merged(entries, more).len() && merged(
                entries,
                more,
            )[i].model_id == (#[trigger] entries[i]).model_id,
        forall|i: int|
            0 <= i < more.len() ==> entry_place(
                merged(entries, more),
                (#[trigger] more[i]).model_id,
                0,
            ) is Some,
    decreases more.len(),
{
    if more.len() > 0 {
        let front = merged(entries, more.drop_last());
        let e = more.last();
        law_merging_lists_each_model_once(entries, more.drop_last());
        lemma_entry_place(front, e.model_id, 0);
        let all = merged(entries, more);
        assert forall|i: int| 0 <= i < more.len() implies entry_place(
            all,
            (#[trigger] more[i]).model_id,
            0,
        ) is Some by {
            lemma_entry_place(all, more[i].model_id, 0);
            if i < more.len() - 1 {
                assert(more.drop_last()[i] == more[i]);
                lemma_entry_place(front, more[i].model_id, 0);
                let k = entry_place(front, more[i].model_id, 0)->0;
                assert(all[k].model_id == more[i].model_id);
            } else {
                match entry_place(front, e.model_id, 0) {
                    Some(k) => {
                        assert(all[k].model_id == e.model_id);
                    },
                    None => {
                        assert(all.last().model_id == e.model_id);
                    },
                }
            }
        }
    }
}

/// The entry of a cached model tells what was found of it: its name, its size and its files,
/// and that it is in use exactly where a server uses it, and by whom.
pub proof fn law_entries_tell_what_was_found(
    model_id: Seq<char>,
    size_mb: u64,
    files: usize,
    running: Seq<(Seq<char>, Seq<char>)>,
    quant: Seq<char>,
    user: Option<Seq<char>>,
    model_path: Option<Seq<char>>,
)
    ensures
        ({
            let e = cached_entry(model_id, size_mb, files, running);
            &&& e.model_id == model_id && e.size_mb == size_mb && e.files == files
            &&& e.installed && !e.is_local && e.model_path is None
            &&& e.in_use <==> e.in_use_server is Some
        }),
        ({
            let e = local_entry(model_id, size_mb, files, quant, user, model_path);
            &&& e.model_id == model_id && e.size_mb == size_mb && e.files == files
            &&& e.installed && e.is_local && e.model_path == model_path
            &&& e.quant == Some(quant)
            &&& e.in_use_server == user
            &&& e.in_use <==> user is Some
            &&& e.task == Some("instruct"@)
        }),
{
}

/// A model counts as used by the first server that runs the model of that name; where names
/// that overlap count too, also by one of these; and by none where there is no such server.
pub proof fn law_users_are_found(
    running: Seq<(Seq<char>, Seq<char>)>,
    model_id: Seq<char>,
    loose: bool,
    i: int,
    k: int,
)
    requires
        0 <= i <= running.len(),
    ensures
        i <= k < running.len() && running[k].1 == model_id ==> user_from(
            running,
            model_id,
            loose,
            i,
        ) is Some,
        i <= k < running.len() && loose && (text::occurs(running[k].1, model_id) || text::occurs(
            model_id,
            running[k].1,
        )) ==> user_from(running, model_id, loose, i) is Some,
        user_from(running, model_id, loose, i) matches Some(name) ==> exists|j: int|
            i <= j < running.len() && (#[trigger] running[j]).0 == name && (running[j].1
                == model_id || (loose && (text::occurs(running[j].1, model_id) || text::occurs(
                model_id,
                running[j].1,
            )))),
        i < running.len() && running[i].1 == model_id ==> user_from(running, model_id, loose, i)
            == Some(running[i].0),
    decreases running.len() - i,
{
    if i < running.len() {
        law_users_are_found(running, model_id, loose, i + 1, k);
    }
}

/// The active servers are those that run or are about to; each tells its name and its model.
pub proof fn law_active_servers_use_their_models(servers: Seq<LiveServer>, s: LiveServer)
    ensures
        s.status == crate::state::ServerStatus::Running || s.status == crate::state::ServerStatus::Starting
            ==> active_usage(servers.push(s)) == active_usage(servers).push(
            (s.def.name@, s.def.model_id@),
        ),
        s.status == crate::state::ServerStatus::Stopped ==> active_usage(servers.push(s))
            == active_usage(servers),
{
    assert(servers.push(s).drop_last() =~= servers);
}

/// The name of a model tells its quantization and its task: what it holds decides, and a name
/// that tells nothing is one of a model for instructions that is not quantized.
pub proof fn law_names_tell_quantization_and_task(model_id: Seq<char>)
    ensures
        ({
            let upper = outside::uppercase(model_id);
            let lower = outside::lowercase(model_id);
            let q = quant_in_name(model_id);
            &&& text::occurs(upper, "AWQ"@) ==> q == "AWQ"@
            &&& text::occurs(upper, "GPTQ"@) && !text::occurs(upper, "AWQ"@) ==> q == "GPTQ"@
            &&& text::occurs(upper, "GGUF"@) && !text::occurs(upper, "AWQ"@) && !text::occurs(
                upper,
                "GPTQ"@,
            ) ==> q == "GGUF"@
            &&& !text::occurs(upper, "AWQ"@) && !text::occurs(upper, "GPTQ"@) && !text::occurs(
                upper,
                "GGUF"@,
            ) ==> q == (if text::occurs(upper, "FP8"@) {
                "FP8"@
            } else {
                "FP16"@
            })
            &&& text::occurs(lower, "embed"@) || text::occurs(lower, "bge"@) || text::occurs(
                lower,
                "gte"@,
            ) ==> task_in_name(model_id) == "embed"@
            &&& !text::occurs(lower, "embed"@) && !text::occurs(lower, "bge"@) && !text::occurs(
                lower,
                "gte"@,
            ) ==> task_in_name(model_id) == "instruct"@
        }),
{
}

/// A listing of the cache tells each model by its name, its size in bytes and the number of its
/// files; the size is told in whole MiB.
pub proof fn law_listings_are_read(
    t: JsonTree,
    running: Seq<(Seq<char>, Seq<char>)>,
    name: Seq<char>,
    bytes: u64,
    files: u64,
)
    requires
        t.member("repo_id"@) == Some(JsonTree::Text(name)),
        t.member("size_bytes"@) == Some(JsonTree::Number(json::JsonNumber::Unsigned(bytes))),
        t.member("file_count"@) == Some(JsonTree::Number(json::JsonNumber::Unsigned(files))),
        files <= usize::MAX,
    ensures
        ({
            let e = listed_entry(t, running);
            &&& e.model_id == name
            &&& e.size_mb * 0x10_0000 <= bytes < (e.size_mb + 1) * 0x10_0000
            &&& e.files == files
        }),
        listed_entries(Some(JsonTree::Array(seq![t])), running) matches Some(list) && list.len()
            == 1,
        listed_entries(None, running) is None,
        listed_entries(Some(JsonTree::Null), running) is None,
{
}

/// A line of a listing tells a model, its size and its files between bars; a line that tells
/// neither a size nor files stands for no cached model.
pub proof fn law_lines_are_read(
    lines: Seq<Seq<char>>,
    line: Seq<char>,
    running: Seq<(Seq<char>, Seq<char>)>,
)
    ensures
        line_fields(line) is None ==> scanned_entries(lines.push(line), running)
            == scanned_entries(lines, running) && imported_entries(lines.push(line), running)
            == imported_entries(lines, running),
        line_fields(line) matches Some((name, size, files)) ==> {
            &&& size == 0 && files == 0 ==> scanned_entries(lines.push(line), running)
                == scanned_entries(lines, running)
            &&& size > 0 || files > 0 ==> scanned_entries(lines.push(line), running)
                == scanned_entries(lines, running).push(
                cached_entry(name, size, files, running),
            )
            &&& imported_entries(lines.push(line), running).len() == imported_entries(
                lines,
                running,
            ).len() + 1
            &&& imported_entries(lines.push(line), running).last().model_id == name
            &&& imported_entries(lines.push(line), running).last().size_mb == size
            &&& imported_entries(lines.push(line), running).last().files == files
            &&& imported_entries(lines.push(line), running).last().quant == Some("native"@)
        },
        line_fields(line) is Some <==> text::pieces(line, '|').len() >= 3,
        line_fields(line) matches Some((name, _, _)) ==> name == text::pieces(line, '|')[0],
{
    assert(lines.push(line).drop_last() =~= lines);
}

/// The size of a directory is that of all its files together, in whole MiB, and its path is
/// the first of theirs.
pub proof fn law_directories_hold_their_files(
    repo: NativeRepo,
    running: Seq<(Seq<char>, Seq<char>)>,
    files: Seq<(String, Option<u64>)>,
    file: (String, Option<u64>),
    k: int,
)
    ensures
        native_entry(repo, running).model_id == repo.name@,
        native_entry(repo, running).files == repo.files@.len() as usize,
        native_entry(repo, running).quant == Some("GGUF"@),
        sizes_sum(files.push(file)) == sizes_sum(files) + (match file.1 {
            Some(n) => n as int,
            None => 0,
        }),
        sizes_sum(Seq::empty()) == 0,
        sizes_sum(repo.files@) / 0x10_0000 <= u64::MAX ==> native_entry(repo, running).size_mb
            * 0x10_0000 <= sizes_sum(repo.files@) < (native_entry(repo, running).size_mb + 1)
            * 0x10_0000,
        0 <= k < files.len() ==> !text::comes_before(files[k].0@, first_path(files)),
{
    assert(files.push(file).drop_last() =~= files);
    if 0 <= k < files.len() {
        lemma_first_path(files, k);
    }
}

proof fn lemma_first_path(files: Seq<(String, Option<u64>)>, k: int)
    requires
        0 <= k < files.len(),
    ensures
        !text::comes_before(files[k].0@, first_path(files)),
    decreases files.len(),
{
    if files.len() <= 1 {
        text::lemma_before_irreflexive(files[0].0@);
    } else {
        let front = files.drop_last();
        let best = first_path(front);
        let last = files.last().0@;
        if k < front.len() {
            lemma_first_path(front, k);
            assert(front[k] == files[k]);
            if text::comes_before(last, best) && text::comes_before(files[k].0@, last) {
                text::lemma_before_transitive(files[k].0@, last, best);
            }
        } else if text::comes_before(last, best) {
            text::lemma_before_irreflexive(last);
        }
    }
}

/// What is known of a model stays when it is listed again: only an entry that has neither a
/// size nor files gives way to the new one, and every other entry stays.
pub proof fn law_merging_keeps_what_is_known(entries: Seq<EntryTexts>, e: EntryTexts, k: int)
    requires
        0 <= k < entries.len(),
    ensures
        k < merged_one(entries, e).len(),
        entries[k].model_id != e.model_id ==> merged_one(entries, e)[k] == entries[k],
        entries[k].size_mb > 0 || entries[k].files > 0 ==> merged_one(entries, e)[k] == entries[k],
        entry_place(entries, e.model_id, 0) == Some(k) && entries[k].size_mb == 0
            && entries[k].files == 0 ==> merged_one(entries, e)[k] == e,
        entry_place(entries, e.model_id, 0) is None ==> merged_one(entries, e).last() == e,
{
    lemma_entry_place(entries, e.model_id, 0);
}

/// Each directory with model files is an entry with its name, its files and their size; one
/// without any is none.
pub proof fn law_native_models_are_entries(
    repos: Seq<NativeRepo>,
    repo: NativeRepo,
    running: Seq<(Seq<char>, Seq<char>)>,
)
    ensures
        repo.files@.len() == 0 ==> native_entries(repos.push(repo), running) == native_entries(
            repos,
            running,
        ),
        repo.files@.len() > 0 ==> native_entries(repos.push(repo), running) == native_entries(
            repos,
            running,
        ).push(native_entry(repo, running)),
        native_entries(Seq::empty(), running).len() == 0,
{
    assert(repos.push(repo).drop_last() =~= repos);
}

} // verus!
