//! Models and programs on disk: where they are looked for, and what is made of the names
//! that are found there.
use vstd::prelude::*;
use crate::names::NameSet;
use crate::outside;
use crate::paths;
use crate::paths::PlacedPath;
use crate::providers::mlx;
use crate::providers::quant;
use crate::text;

verus! {

// ---------------------------------------------------------------------------
// The caches of the hub
// ---------------------------------------------------------------------------

/// The directories in which the hub's files may be kept. A directory of its own that is set
/// counts alone. Otherwise there are the one in the cache directory of the system and, where
/// it is another, the one in `.cache` of the home directory.
pub open spec fn hub_caches(
    hf_home: Option<Seq<char>>,
    cache_dir: Option<Seq<char>>,
    home: Option<Seq<char>>,
    same: bool,
) -> Seq<(Seq<char>, Seq<&'static str>)> {
    match (hf_home, cache_dir, home) {
        (Some(h), _, _) => seq![(h, seq!["hub"])],
        (None, Some(c), Some(h)) => if same {
            seq![(c, seq!["huggingface", "hub"])]
        } else {
            seq![(c, seq!["huggingface", "hub"]), (h, seq![".cache", "huggingface", "hub"])]
        },
        (None, Some(c), None) => seq![(c, seq!["huggingface", "hub"])],
        (None, None, Some(h)) => seq![(h, seq![".cache", "huggingface", "hub"])],
        (None, None, None) => seq![("/tmp/.cache/huggingface/hub"@, seq![])],
    }
}

/// The directories in which the hub's files may be kept; `same` says that the cache
/// directory of the system is `.cache` in the home directory.
pub fn dirs_hf_cache_all(
    hf_home: Option<&str>,
    cache_dir: Option<&str>,
    home: Option<&str>,
    same: bool,
) -> (r: Vec<PlacedPath>)
    ensures
        paths::path_views(r@) == hub_caches(
            text::opt_str(hf_home),
            text::opt_str(cache_dir),
            text::opt_str(home),
            same,
        ),
{
    let mut dirs: Vec<PlacedPath> = Vec::new();
    let ghost want = hub_caches(
        text::opt_str(hf_home),
        text::opt_str(cache_dir),
        text::opt_str(home),
        same,
    );
    assert(paths::path_views(dirs@) =~= seq![]);
    if let Some(h) = hf_home {
        let names = vec!["hub"];
        assert(names@ =~= seq!["hub"]);
        paths::add_path(&mut dirs, h, names);
        assert(paths::path_views(dirs@) =~= want);
        return dirs;
    }
    if let Some(c) = cache_dir {
        let names = vec!["huggingface", "hub"];
        assert(names@ =~= seq!["huggingface", "hub"]);
        paths::add_path(&mut dirs, c, names);
    }
    if let Some(h) = home {
        if cache_dir.is_none() || !same {
            let names = vec![".cache", "huggingface", "hub"];
            assert(names@ =~= seq![".cache", "huggingface", "hub"]);
            paths::add_path(&mut dirs, h, names);
        }
    }
    if dirs.len() == 0 {
        let names: Vec<&'static str> = Vec::new();
        assert(names@ =~= seq![]);
        paths::add_path(&mut dirs, "/tmp/.cache/huggingface/hub", names);
    }
    assert(paths::path_views(dirs@) =~= want);
    dirs
}

/// The owner and the repository that a directory of the cache is of.
pub open spec fn cached_repo(name: Seq<char>) -> Option<(Seq<char>, Seq<char>)> {
    match text::without_prefix(name, "models--"@) {
        Some(rest) => match text::find(rest, "--"@) {
            Some(k) => Some((rest.take(k), rest.skip(k + 2))),
            None => None,
        },
        None => None,
    }
}

/// The owner and the repository that a directory of the cache is of.
pub fn cached_repo_parts<'a>(name: &'a str) -> (r: Option<(&'a str, &'a str)>)
    ensures
        match r {
            Some((owner, repo)) => cached_repo(name@) == Some((owner@, repo@)),
            None => cached_repo(name@) is None,
        },
{
    let Some(rest) = text::strip_prefix(name, "models--") else {
        return None;
    };
    match text::find_text(rest, "--") {
        Some(k) => {
            proof {
                reveal_strlit("--");
            }
            let n: usize = rest.unicode_len();
            let owner = rest.substring_char(0, k);
            let repo = rest.substring_char(k + 2, n);
            assert(owner@ =~= rest@.take(k as int));
            assert(repo@ =~= rest@.skip(k + 2));
            Some((owner, repo))
        },
        None => None,
    }
}

/// The names that a repository stands for: in lower case, with its owner and without.
pub open spec fn repo_names(owner: Seq<char>, repo: Seq<char>) -> Set<Seq<char>> {
    let r = outside::lowercase(repo);
    set![outside::lowercase(owner) + "/"@ + r, r]
}

fn insert_repo_names(set: &mut NameSet, owner: &str, repo: &str)
    ensures
        final(set)@ == old(set)@.union(repo_names(owner@, repo@)),
{
    let ghost start = set@;
    let repo_lower = outside::to_lowercase(repo);
    let mut full = outside::to_lowercase(owner);
    full.append("/");
    full.append(&repo_lower);
    set.insert(full);
    set.insert(repo_lower);
    assert(set@ =~= start.union(repo_names(owner@, repo@)));
}

/// A directory of the cache holds a model for MLX.
pub open spec fn holds_mlx(name: Seq<char>) -> bool {
    cached_repo(name) matches Some((owner, repo)) && mlx::likely_mlx(owner, repo)
}

/// A directory of the cache holds GGUF files.
pub open spec fn holds_gguf(name: Seq<char>) -> bool {
    cached_repo(name) matches Some((_, repo)) && mlx::likely_gguf(outside::lowercase(repo))
}

/// The names of the models for MLX among the directories of the caches.
pub open spec fn cached_mlx(names: Seq<Seq<char>>) -> Set<Seq<char>>
    decreases names.len(),
{
    if names.len() == 0 {
        Set::empty()
    } else {
        let before = cached_mlx(names.drop_last());
        if holds_mlx(names.last()) {
            let (owner, repo) = cached_repo(names.last())->0;
            before.union(repo_names(owner, repo))
        } else {
            before
        }
    }
}

/// The names of the GGUF repositories among the directories of the caches, and their number.
pub open spec fn cached_gguf(names: Seq<Seq<char>>) -> (Set<Seq<char>>, nat)
    decreases names.len(),
{
    if names.len() == 0 {
        (Set::empty(), 0)
    } else {
        let (set, count) = cached_gguf(names.drop_last());
        if holds_gguf(names.last()) {
            let (owner, repo) = cached_repo(names.last())->0;
            (set.union(repo_names(owner, repo)), count + 1)
        } else {
            (set, count)
        }
    }
}

/// The names of the models for MLX among the directories of the caches.
pub fn scan_hf_cache_for_mlx(names: &Vec<String>) -> (r: NameSet)
    ensures
        r@ == cached_mlx(text::texts(names@)),
{
    let ghost list = text::texts(names@);
    let mut set = NameSet::new();
    assert(list.take(0) =~= Seq::empty());
    for i in 0..names.len()
        invariant
            list == text::texts(names@),
            set@ == cached_mlx(list.take(i as int)),
    {
        assert(list.take(i + 1).drop_last() =~= list.take(i as int));
        assert(list.take(i + 1).last() == names@[i as int]@);
        if let Some((owner, repo)) = cached_repo_parts(&names[i]) {
            if mlx::is_likely_mlx_repo(owner, repo) {
                insert_repo_names(&mut set, owner, repo);
            }
        }
    }
    assert(list.take(names@.len() as int) =~= list);
    set
}

/// The names of the GGUF repositories among the directories of the caches, and their number.
pub fn scan_hf_cache_for_gguf(names: &Vec<String>) -> (r: (NameSet, usize))
    ensures
        (r.0@, r.1 as nat) == cached_gguf(text::texts(names@)),
        r.1 <= names@.len(),
{
    let ghost list = text::texts(names@);
    let mut set = NameSet::new();
    let mut count: usize = 0;
    assert(list.take(0) =~= Seq::empty());
    for i in 0..names.len()
        invariant
            list == text::texts(names@),
            (set@, count as nat) == cached_gguf(list.take(i as int)),
            count <= i,
    {
        assert(list.take(i + 1).drop_last() =~= list.take(i as int));
        assert(list.take(i + 1).last() == names@[i as int]@);
        if let Some((owner, repo)) = cached_repo_parts(&names[i]) {
            if mlx::is_likely_gguf_repo(&outside::to_lowercase(repo)) {
                count = count + 1;
                insert_repo_names(&mut set, owner, repo);
            }
        }
    }
    assert(list.take(names@.len() as int) =~= list);
    (set, count)
}

// ---------------------------------------------------------------------------
// Looking for GGUF files
// ---------------------------------------------------------------------------

/// How many levels of directories are searched for models.
pub const GGUF_SCAN_MAX_DEPTH: usize = 3;

/// A model file that was found.
#[derive(Debug)]
pub struct GgufFile {
    pub path: String,
    /// The name of the file without its extension, where it is text.
    pub stem: Option<String>,
    /// The name of the directory that the file is in.
    pub parent: Option<String>,
    /// The name of the directory above that one.
    pub grandparent: Option<String>,
    /// The file that the path leads to.
    pub target: String,
    /// The path is a link.
    pub is_alias: bool,
}

/// What is told of a model file.
#[verifier::ext_equal]
pub struct GgufFileView {
    pub path: Seq<char>,
    pub stem: Option<Seq<char>>,
    pub parent: Option<Seq<char>>,
    pub grandparent: Option<Seq<char>>,
    pub target: Seq<char>,
    pub is_alias: bool,
}

impl View for GgufFile {
    type V = GgufFileView;

    open spec fn view(&self) -> GgufFileView {
        GgufFileView {
            path: self.path@,
            stem: text::opt_text(self.stem),
            parent: text::opt_text(self.parent),
            grandparent: text::opt_text(self.grandparent),
            target: self.target@,
            is_alias: self.is_alias,
        }
    }
}

/// What is told of a row of model files.
pub open spec fn gguf_views(files: Seq<GgufFile>) -> Seq<GgufFileView> {
    Seq::new(files.len(), |i: int| files[i]@)
}

fn copy_opt(o: &Option<String>) -> (r: Option<String>)
    ensures
        text::opt_text(r) == text::opt_text(*o),
{
    match o {
        Some(s) => Some(s.clone()),
        None => None,
    }
}

impl GgufFile {
    /// The same file again.
    pub fn copied(&self) -> (r: GgufFile)
        ensures
            r@ == self@,
    {
        GgufFile {
            path: self.path.clone(),
            stem: copy_opt(&self.stem),
            parent: copy_opt(&self.parent),
            grandparent: copy_opt(&self.grandparent),
            target: self.target.clone(),
            is_alias: self.is_alias,
        }
    }
}

/// An entry of a directory.
#[derive(Debug)]
pub struct DirEntry {
    pub name: String,
    /// The file that the entry is or leads to.
    pub file: Option<GgufFile>,
    /// What is in the entry, where it is a directory and not a link to one, and can be read.
    pub inside: Option<Vec<DirEntry>>,
}

/// The name is that of a model file.
pub open spec fn model_name(name: Seq<char>) -> bool {
    ".gguf"@.is_suffix_of(outside::lowercase(name))
}

/// Whether the name is that of a model file.
pub fn looks_like_model(name: &str) -> (r: bool)
    ensures
        r == model_name(name@),
{
    text::ends_with(&outside::to_lowercase(name), ".gguf")
}

/// The model file that an entry is.
pub open spec fn model_in(e: DirEntry) -> Option<GgufFileView> {
    match e.file {
        Some(f) => if model_name(e.name@) {
            Some(f@)
        } else {
            None
        },
        None => None,
    }
}

/// The model files among the first `n` entries of a directory.
pub open spec fn direct_models(entries: Seq<DirEntry>, n: int) -> Seq<GgufFileView>
    decreases n,
{
    if n <= 0 || n > entries.len() {
        Seq::empty()
    } else {
        match model_in(entries[n - 1]) {
            Some(f) => direct_models(entries, n - 1).push(f),
            None => direct_models(entries, n - 1),
        }
    }
}

/// The model files in a directory, down to `levels` levels of directories: those of the
/// directory itself, then those of the directories in it, the last of these first. A model
/// file is not looked into.
pub open spec fn models_below(entries: Seq<DirEntry>, levels: nat) -> Seq<GgufFileView>
    decreases levels, 0int,
{
    if levels == 0 {
        Seq::empty()
    } else {
        direct_models(entries, entries.len() as int) + models_inside(
            entries,
            entries.len() as int,
            (levels - 1) as nat,
        )
    }
}

/// The model files in the directories among the first `n` entries.
pub open spec fn models_inside(entries: Seq<DirEntry>, n: int, levels: nat) -> Seq<GgufFileView>
    decreases levels, n + 1,
{
    if n <= 0 || n > entries.len() || levels == 0 {
        Seq::empty()
    } else {
        (match (model_in(entries[n - 1]), entries[n - 1].inside) {
            (None, Some(inner)) => models_below(inner@, levels),
            _ => Seq::empty(),
        }) + models_inside(entries, n - 1, levels)
    }
}

fn is_model(e: &DirEntry) -> (r: bool)
    ensures
        r == (model_in(*e) is Some),
{
    e.file.is_some() && looks_like_model(&e.name)
}

fn gather_models(entries: &Vec<DirEntry>, levels: usize, out: &mut Vec<GgufFile>)
    ensures
        gguf_views(final(out)@) == gguf_views(old(out)@) + models_below(entries@, levels as nat),
    decreases levels,
{
    let ghost start = gguf_views(out@);
    if levels == 0 {
        assert(gguf_views(out@) =~= start + models_below(entries@, levels as nat));
        return;
    }
    assert(start + direct_models(entries@, 0) =~= start);
    for i in 0..entries.len()
        invariant
            gguf_views(out@) == start + direct_models(entries@, i as int),
    {
        let ghost before = gguf_views(out@);
        if is_model(&entries[i]) {
            if let Some(f) = &entries[i].file {
                let copy = f.copied();
                let ghost fv = copy@;
                out.push(copy);
                assert(gguf_views(out@) =~= before.push(fv));
            }
        }
        assert(gguf_views(out@) =~= start + direct_models(entries@, i + 1));
    }
    let ghost middle = gguf_views(out@);
    let ghost all = models_inside(entries@, entries@.len() as int, (levels - 1) as nat);
    let ghost mut done: Seq<GgufFileView> = Seq::empty();
    let mut n: usize = entries.len();
    if levels > 1 {
        assert(middle + done =~= middle);
        assert(done + all =~= all);
        while n > 0
            invariant
                1 < levels,
                n <= entries@.len(),
                gguf_views(out@) == middle + done,
                all == done + models_inside(entries@, n as int, (levels - 1) as nat),
            decreases n,
        {
            n = n - 1;
            let ghost rest = models_inside(entries@, n as int, (levels - 1) as nat);
            if !is_model(&entries[n]) {
                if let Some(inner) = &entries[n].inside {
                    gather_models(inner, levels - 1, out);
                    proof {
                        let more = models_below(inner@, (levels - 1) as nat);
                        assert(middle + done + more =~= middle + (done + more));
                        assert(done + (more + rest) =~= done + more + rest);
                        done = done + more;
                    }
                } else {
                    assert(Seq::<GgufFileView>::empty() + rest =~= rest);
                }
            } else {
                assert(Seq::<GgufFileView>::empty() + rest =~= rest);
            }
        }
        assert(done + Seq::<GgufFileView>::empty() =~= done);
    }
    assert(gguf_views(out@) =~= start + models_below(entries@, levels as nat));
}

/// The first of the files that leads to the same file as `target`.
pub open spec fn target_from(files: Seq<GgufFileView>, target: Seq<char>, i: int) -> Option<int>
    decreases files.len() - i,
{
    if i < 0 || i >= files.len() {
        None
    } else if files[i].target == target {
        Some(i)
    } else {
        target_from(files, target, i + 1)
    }
}

/// The files without those that lead to a file that another one leads to. Of a file and the
/// links to it the file stays; of links alone the first.
pub open spec fn one_per_target(files: Seq<GgufFileView>) -> Seq<GgufFileView>
    decreases files.len(),
{
    if files.len() == 0 {
        files
    } else {
        let before = one_per_target(files.drop_last());
        let f = files.last();
        match target_from(before, f.target, 0) {
            Some(i) => if before[i].is_alias && !f.is_alias {
                before.update(i, f)
            } else {
                before
            },
            None => before.push(f),
        }
    }
}

proof fn lemma_target_from(files: Seq<GgufFileView>, target: Seq<char>, i: int)
    requires
        0 <= i,
    ensures
        match target_from(files, target, i) {
            Some(k) => i <= k < files.len() && files[k].target == target,
            None => forall|k: int| i <= k < files.len() ==> (#[trigger] files[k]).target != target,
        },
    decreases files.len() - i,
{
    if i < files.len() && files[i].target != target {
        lemma_target_from(files, target, i + 1);
    }
}

/// Takes out the files that lead to a file that another one leads to.
pub fn dedupe_by_target(files: Vec<GgufFile>) -> (r: Vec<GgufFile>)
    ensures
        gguf_views(r@) == one_per_target(gguf_views(files@)),
{
    let ghost views = gguf_views(files@);
    let mut chosen: Vec<GgufFile> = Vec::new();
    assert(views.take(0) =~= Seq::empty());
    assert(gguf_views(chosen@) =~= Seq::empty());
    for i in 0..files.len()
        invariant
            views == gguf_views(files@),
            gguf_views(chosen@) == one_per_target(views.take(i as int)),
    {
        assert(views.take(i + 1).drop_last() =~= views.take(i as int));
        assert(views.take(i + 1).last() == files@[i as int]@);
        let ghost before = gguf_views(chosen@);
        let ghost target = files@[i as int].target@;
        let mut k: usize = 0;
        while k < chosen.len() && !text::same(&chosen[k].target, &files[i].target)
            invariant
                i < files@.len(),
                target == files@[i as int].target@,
                before == gguf_views(chosen@),
                k <= chosen@.len(),
                target_from(before, target, 0) == target_from(before, target, k as int),
            decreases chosen@.len() - k,
        {
            assert(before[k as int] == chosen@[k as int]@);
            k += 1;
        }
        if k < chosen.len() {
            assert(before[k as int] == chosen@[k as int]@);
            if chosen[k].is_alias && !files[i].is_alias {
                chosen.set(k, files[i].copied());
                assert(gguf_views(chosen@) =~= before.update(k as int, files@[i as int]@));
            }
        } else {
            chosen.push(files[i].copied());
            assert(gguf_views(chosen@) =~= before.push(files@[i as int]@));
        }
    }
    assert(views.take(files@.len() as int) =~= views);
    chosen
}

/// The model files in what was read of a directory, down to `max_depth` levels, each file
/// once.
pub open spec fn found_models(root: Option<Seq<DirEntry>>, max_depth: nat) -> Seq<GgufFileView> {
    match root {
        Some(entries) => one_per_target(models_below(entries, max_depth)),
        None => Seq::empty(),
    }
}

/// The entries of a directory that was read.
pub open spec fn opt_entries(root: Option<Vec<DirEntry>>) -> Option<Seq<DirEntry>> {
    match root {
        Some(v) => Some(v@),
        None => None,
    }
}

/// The model files in what was read of a directory, down to `max_depth` levels; there are
/// none in a directory that cannot be read.
pub fn collect_gguf_files(root: &Option<Vec<DirEntry>>, max_depth: usize) -> (r: Vec<GgufFile>)
    ensures
        gguf_views(r@) == found_models(opt_entries(*root), max_depth as nat),
{
    let mut files: Vec<GgufFile> = Vec::new();
    match root {
        Some(entries) => {
            let ghost none = gguf_views(files@);
            gather_models(entries, max_depth, &mut files);
            assert(none =~= Seq::empty());
            assert(none + models_below(entries@, max_depth as nat) =~= models_below(
                entries@,
                max_depth as nat,
            ));
            dedupe_by_target(files)
        },
        None => {
            assert(gguf_views(files@) =~= Seq::empty());
            files
        },
    }
}

// ---------------------------------------------------------------------------
// The names of model files
// ---------------------------------------------------------------------------

/// The names that a file stands for: its stem in lower case, with the mark of its
/// quantization and without.
pub open spec fn stem_set(stem: Seq<char>) -> Set<Seq<char>> {
    let lower = outside::lowercase(stem);
    match quant::gguf_base(lower) {
        Some(base) => set![lower, base],
        None => set![lower],
    }
}

fn insert_stem_names(set: &mut NameSet, stem: &str)
    ensures
        final(set)@ == old(set)@.union(stem_set(stem@)),
{
    let ghost start = set@;
    let lower = outside::to_lowercase(stem);
    let base = quant::strip_gguf_quant_suffix(&lower);
    set.insert(lower);
    if let Some(b) = base {
        set.insert(b);
    }
    assert(set@ =~= start.union(stem_set(stem@)));
}

/// The names of model files, and the number of those that have one.
pub open spec fn file_names(files: Seq<GgufFileView>) -> (Set<Seq<char>>, nat)
    decreases files.len(),
{
    if files.len() == 0 {
        (Set::empty(), 0)
    } else {
        let (set, count) = file_names(files.drop_last());
        match files.last().stem {
            Some(stem) => (set.union(stem_set(stem)), count + 1),
            None => (set, count),
        }
    }
}

/// The names of model files, and the number of those that have one.
pub fn gguf_file_names(files: &Vec<GgufFile>) -> (r: (NameSet, usize))
    ensures
        (r.0@, r.1 as nat) == file_names(gguf_views(files@)),
        r.1 <= files@.len(),
{
    let ghost views = gguf_views(files@);
    let mut set = NameSet::new();
    let mut count: usize = 0;
    assert(views.take(0) =~= Seq::empty());
    for i in 0..files.len()
        invariant
            views == gguf_views(files@),
            (set@, count as nat) == file_names(views.take(i as int)),
            count <= i,
    {
        assert(views.take(i + 1).drop_last() =~= views.take(i as int));
        assert(views.take(i + 1).last() == files@[i as int]@);
        if let Some(stem) = &files[i].stem {
            count = count + 1;
            insert_stem_names(&mut set, stem);
        }
    }
    assert(views.take(files@.len() as int) =~= views);
    (set, count)
}

// ---------------------------------------------------------------------------
// LM Studio's directory
// ---------------------------------------------------------------------------

/// The file is a model, and not a projector that comes with one.
pub open spec fn lmstudio_model(f: GgufFileView) -> bool {
    f.stem matches Some(s) && !"mmproj-"@.is_prefix_of(outside::lowercase(s))
}

/// The names of the directories of a model: its repository and its publisher with the
/// repository, each also without the `-gguf` that LM Studio puts behind the repository.
pub open spec fn directory_names(
    parent: Option<Seq<char>>,
    grandparent: Option<Seq<char>>,
) -> Set<Seq<char>> {
    match parent {
        Some(p) => {
            let repo = outside::lowercase(p);
            let trimmed = text::trim_end_text(repo, "-gguf"@);
            match grandparent {
                Some(g) => {
                    let publisher = outside::lowercase(g);
                    set![publisher + "/"@ + repo, publisher + "/"@ + trimmed, trimmed, repo]
                },
                None => set![trimmed, repo],
            }
        },
        None => Set::empty(),
    }
}

fn insert_directory_names(
    set: &mut NameSet,
    parent: &Option<String>,
    grandparent: &Option<String>,
)
    ensures
        final(set)@ == old(set)@.union(
            directory_names(text::opt_text(*parent), text::opt_text(*grandparent)),
        ),
{
    let ghost start = set@;
    let ghost want = start.union(
        directory_names(text::opt_text(*parent), text::opt_text(*grandparent)),
    );
    if let Some(p) = parent {
        let repo = outside::to_lowercase(p);
        proof {
            reveal_strlit("-gguf");
        }
        let trimmed = text::trimmed_end_text(&repo, "-gguf").to_string();
        if let Some(g) = grandparent {
            let mut full = outside::to_lowercase(g);
            full.append("/");
            let mut bare = full.clone();
            full.append(&repo);
            bare.append(&trimmed);
            set.insert(full);
            set.insert(bare);
        }
        set.insert(trimmed);
        set.insert(repo);
    }
    assert(set@ =~= want);
}

/// The names of the models among the files, and their repositories.
pub open spec fn lmstudio_files(files: Seq<GgufFileView>) -> (Set<Seq<char>>, Set<Seq<char>>)
    decreases files.len(),
{
    if files.len() == 0 {
        (Set::empty(), Set::empty())
    } else {
        let (set, repos) = lmstudio_files(files.drop_last());
        let f = files.last();
        if lmstudio_model(f) {
            (
                set.union(stem_set(f.stem->0)).union(directory_names(f.parent, f.grandparent)),
                match f.parent {
                    Some(p) => repos.insert(outside::lowercase(p)),
                    None => repos,
                },
            )
        } else {
            (set, repos)
        }
    }
}

/// The names of the models in LM Studio's directory, and the number of the repositories that
/// they are in.
pub fn scan_lmstudio_models_dir(root: &Option<Vec<DirEntry>>) -> (r: (NameSet, usize))
    ensures
        ({
            let (set, repos) = lmstudio_files(
                found_models(opt_entries(*root), GGUF_SCAN_MAX_DEPTH as nat),
            );
            r.0@ == set && r.1 == repos.len()
        }),
{
    let files = collect_gguf_files(root, GGUF_SCAN_MAX_DEPTH);
    let ghost views = gguf_views(files@);
    let mut set = NameSet::new();
    let mut repos = NameSet::new();
    assert(views.take(0) =~= Seq::empty());
    for i in 0..files.len()
        invariant
            views == gguf_views(files@),
            (set@, repos@) == lmstudio_files(views.take(i as int)),
    {
        assert(views.take(i + 1).drop_last() =~= views.take(i as int));
        assert(views.take(i + 1).last() == files@[i as int]@);
        if let Some(stem) = &files[i].stem {
            let lower = outside::to_lowercase(stem);
            if !text::starts_with(&lower, "mmproj-") {
                insert_stem_names(&mut set, stem);
                insert_directory_names(&mut set, &files[i].parent, &files[i].grandparent);
                if let Some(p) = &files[i].parent {
                    repos.insert(outside::to_lowercase(p));
                }
            }
        }
    }
    assert(views.take(files@.len() as int) =~= views);
    let count: usize = repos.len();
    (set, count)
}

/// Where LM Studio keeps its models.
pub fn lmstudio_models_dir_for(home: Option<&str>) -> (r: Option<PlacedPath>)
    ensures
        match (r, home) {
            (Some(p), Some(h)) => p@ == (h@, seq![".lmstudio", "models"]),
            (None, None) => true,
            _ => false,
        },
{
    match home {
        Some(h) => {
            let names = vec![".lmstudio", "models"];
            assert(names@ =~= seq![".lmstudio", "models"]);
            Some(paths::placed(h, names))
        },
        None => None,
    }
}

// ---------------------------------------------------------------------------
// Where programs are installed
// ---------------------------------------------------------------------------

/// The places that tell that LM Studio is installed.
pub open spec fn lmstudio_places(
    program_files: Option<Seq<char>>,
    local_app_data: Option<Seq<char>>,
    home: Option<Seq<char>>,
) -> Seq<(Seq<char>, Seq<&'static str>)> {
    (match program_files {
        Some(p) => seq![(p, seq!["LM Studio", "LM Studio.exe"])],
        None => seq![],
    }) + (match local_app_data {
        Some(l) => seq![(l, seq!["Programs", "LM Studio", "LM Studio.exe"])],
        None => seq![],
    }) + seq![("/Applications/LM Studio.app"@, seq![])] + (match home {
        Some(h) => seq![(h, seq!["Applications", "LM Studio.app"]), (h, seq![".lmstudio"])],
        None => seq![],
    })
}

/// The places that tell that LM Studio is installed.
pub fn lmstudio_install_candidates(
    program_files: Option<&str>,
    local_app_data: Option<&str>,
    home: Option<&str>,
) -> (r: Vec<PlacedPath>)
    ensures
        paths::path_views(r@) == lmstudio_places(
            text::opt_str(program_files),
            text::opt_str(local_app_data),
            text::opt_str(home),
        ),
{
    let mut out: Vec<PlacedPath> = Vec::new();
    assert(paths::path_views(out@) =~= seq![]);
    if let Some(p) = program_files {
        let names = vec!["LM Studio", "LM Studio.exe"];
        assert(names@ =~= seq!["LM Studio", "LM Studio.exe"]);
        paths::add_path(&mut out, p, names);
    }
    if let Some(l) = local_app_data {
        let names = vec!["Programs", "LM Studio", "LM Studio.exe"];
        assert(names@ =~= seq!["Programs", "LM Studio", "LM Studio.exe"]);
        paths::add_path(&mut out, l, names);
    }
    let none: Vec<&'static str> = Vec::new();
    assert(none@ =~= seq![]);
    paths::add_path(&mut out, "/Applications/LM Studio.app", none);
    if let Some(h) = home {
        let names = vec!["Applications", "LM Studio.app"];
        assert(names@ =~= seq!["Applications", "LM Studio.app"]);
        paths::add_path(&mut out, h, names);
        let own = vec![".lmstudio"];
        assert(own@ =~= seq![".lmstudio"]);
        paths::add_path(&mut out, h, own);
    }
    assert(paths::path_views(out@) =~= lmstudio_places(
        text::opt_str(program_files),
        text::opt_str(local_app_data),
        text::opt_str(home),
    ));
    out
}

/// The places that tell that Docker Desktop, or its plugin for models, is installed.
pub open spec fn docker_places(
    program_files: Option<Seq<char>>,
    home: Option<Seq<char>>,
) -> Seq<(Seq<char>, Seq<&'static str>)> {
    (match program_files {
        Some(p) => seq![
            (p, seq!["Docker", "Docker", "Docker Desktop.exe"]),
            (p, seq!["Docker", "Docker", "frontend", "Docker Desktop.exe"]),
            (p, seq!["Docker", "cli-plugins"]),
        ],
        None => seq![],
    }) + seq![("/Applications/Docker.app"@, seq![]), ("/opt/docker-desktop"@, seq![])] + (
    match home {
        Some(h) => seq![
            (h, seq!["Applications", "Docker.app"]),
            (h, seq![".docker", "desktop"]),
            (h, seq![".docker", "cli-plugins", "docker-model"]),
            (h, seq![".docker", "cli-plugins", "docker-model.exe"]),
        ],
        None => seq![],
    })
}

/// The places that tell that Docker Desktop, or its plugin for models, is installed.
pub fn docker_desktop_install_candidates(program_files: Option<&str>, home: Option<&str>) -> (r:
    Vec<PlacedPath>)
    ensures
        paths::path_views(r@) == docker_places(text::opt_str(program_files), text::opt_str(home)),
{
    let mut out: Vec<PlacedPath> = Vec::new();
    assert(paths::path_views(out@) =~= seq![]);
    if let Some(p) = program_files {
        let classic = vec!["Docker", "Docker", "Docker Desktop.exe"];
        assert(classic@ =~= seq!["Docker", "Docker", "Docker Desktop.exe"]);
        paths::add_path(&mut out, p, classic);
        let newer = vec!["Docker", "Docker", "frontend", "Docker Desktop.exe"];
        assert(newer@ =~= seq!["Docker", "Docker", "frontend", "Docker Desktop.exe"]);
        paths::add_path(&mut out, p, newer);
        let plugins = vec!["Docker", "cli-plugins"];
        assert(plugins@ =~= seq!["Docker", "cli-plugins"]);
        paths::add_path(&mut out, p, plugins);
    }
    let app: Vec<&'static str> = Vec::new();
    assert(app@ =~= seq![]);
    paths::add_path(&mut out, "/Applications/Docker.app", app);
    let opt: Vec<&'static str> = Vec::new();
    assert(opt@ =~= seq![]);
    paths::add_path(&mut out, "/opt/docker-desktop", opt);
    if let Some(h) = home {
        let own = vec!["Applications", "Docker.app"];
        assert(own@ =~= seq!["Applications", "Docker.app"]);
        paths::add_path(&mut out, h, own);
        let desktop = vec![".docker", "desktop"];
        assert(desktop@ =~= seq![".docker", "desktop"]);
        paths::add_path(&mut out, h, desktop);
        let plugin = vec![".docker", "cli-plugins", "docker-model"];
        assert(plugin@ =~= seq![".docker", "cli-plugins", "docker-model"]);
        paths::add_path(&mut out, h, plugin);
        let plugin_exe = vec![".docker", "cli-plugins", "docker-model.exe"];
        assert(plugin_exe@ =~= seq![".docker", "cli-plugins", "docker-model.exe"]);
        paths::add_path(&mut out, h, plugin_exe);
    }
    assert(paths::path_views(out@) =~= docker_places(
        text::opt_str(program_files),
        text::opt_str(home),
    ));
    out
}

/// The places in which a program of llama.cpp is looked for: the directory that was given
/// first, then the one that is set, then the usual ones.
pub open spec fn binary_places(
    given: Option<Seq<char>>,
    setting: Option<Seq<char>>,
    home: Option<Seq<char>>,
    name: &'static str,
) -> Seq<(Seq<char>, Seq<&'static str>)> {
    (match given {
        Some(d) => seq![(d, seq![name])],
        None => seq![],
    }) + (match setting {
        Some(d) => seq![(d, seq![name])],
        None => seq![],
    }) + seq![
        ("/usr/local/bin"@, seq![name]),
        ("/opt/llama.cpp/build/bin"@, seq![name]),
    ] + (match home {
        Some(h) => seq![(h, seq![".local", "bin", name])],
        None => seq![],
    })
}

/// The places in which a program of llama.cpp is looked for.
pub fn binary_candidates(
    given: Option<&str>,
    setting: Option<&str>,
    home: Option<&str>,
    name: &'static str,
) -> (r: Vec<PlacedPath>)
    ensures
        paths::path_views(r@) == binary_places(
            text::opt_str(given),
            text::opt_str(setting),
            text::opt_str(home),
            name,
        ),
{
    let mut out: Vec<PlacedPath> = Vec::new();
    assert(paths::path_views(out@) =~= seq![]);
    if let Some(d) = given {
        let names = vec![name];
        assert(names@ =~= seq![name]);
        paths::add_path(&mut out, d, names);
    }
    if let Some(d) = setting {
        let names = vec![name];
        assert(names@ =~= seq![name]);
        paths::add_path(&mut out, d, names);
    }
    let local = vec![name];
    assert(local@ =~= seq![name]);
    paths::add_path(&mut out, "/usr/local/bin", local);
    let built = vec![name];
    assert(built@ =~= seq![name]);
    paths::add_path(&mut out, "/opt/llama.cpp/build/bin", built);
    if let Some(h) = home {
        let names = vec![".local", "bin", name];
        assert(names@ =~= seq![".local", "bin", name]);
        paths::add_path(&mut out, h, names);
    }
    assert(paths::path_views(out@) =~= binary_places(
        text::opt_str(given),
        text::opt_str(setting),
        text::opt_str(home),
        name,
    ));
    out
}

/// The first of the places from number `i` on that holds a file, else what the search path
/// gives.
pub open spec fn binary_from(
    places: Seq<(Seq<char>, bool)>,
    on_path: Option<Seq<char>>,
    i: int,
) -> Option<Seq<char>>
    decreases places.len() - i,
{
    if i < 0 || i >= places.len() {
        on_path
    } else if places[i].1 {
        Some(places[i].0)
    } else {
        binary_from(places, on_path, i + 1)
    }
}

/// The places and whether they hold a file.
pub open spec fn place_views(places: Seq<(String, bool)>) -> Seq<(Seq<char>, bool)> {
    Seq::new(places.len(), |i: int| (places[i].0@, places[i].1))
}

/// The program to run: the first of the places that holds a file, else what the search path
/// gives.
pub fn find_binary(places: &Vec<(String, bool)>, on_path: Option<String>) -> (r: Option<String>)
    ensures
        text::opt_text(r) == binary_from(place_views(places@), text::opt_text(on_path), 0),
{
    let ghost views = place_views(places@);
    for i in 0..places.len()
        invariant
            views == place_views(places@),
            binary_from(views, text::opt_text(on_path), 0) == binary_from(
                views,
                text::opt_text(on_path),
                i as int,
            ),
    {
        if places[i].1 {
            return Some(places[i].0.clone());
        }
    }
    on_path
}

/// Sets the directory of llama.cpp's programs for the rest of the run. Only the first call
/// does; the result says whether it was this one.
pub fn set_llama_cpp_path_override(place: &mut Option<String>, dir: String) -> (r: bool)
    ensures
        r == (*old(place) is None),
        *final(place) == (if *old(place) is None {
            Some(dir)
        } else {
            *old(place)
        }),
{
    if place.is_some() {
        return false;
    }
    *place = Some(dir);
    true
}

/// The directory of llama.cpp's models: the one that is set, else one in the cache
/// directory, else one in the working directory.
pub fn llamacpp_models_dir(setting: Option<&str>, cache_dir: Option<&str>) -> (r: PlacedPath)
    ensures
        r@ == (match (setting, cache_dir) {
            (Some(d), _) => (d@, seq![]),
            (None, Some(c)) => (c@, seq!["llmfit", "models"]),
            (None, None) => (".llmfit"@, seq!["models"]),
        }),
{
    match (setting, cache_dir) {
        (Some(d), _) => {
            let none: Vec<&'static str> = Vec::new();
            assert(none@ =~= seq![]);
            paths::placed(d, none)
        },
        (None, Some(c)) => {
            let names = vec!["llmfit", "models"];
            assert(names@ =~= seq!["llmfit", "models"]);
            paths::placed(c, names)
        },
        (None, None) => {
            let names = vec!["models"];
            assert(names@ =~= seq!["models"]);
            paths::placed(".llmfit", names)
        },
    }
}

// ---------------------------------------------------------------------------
// Laws
// ---------------------------------------------------------------------------

/// No two of the files that are found lead to the same file.
pub proof fn law_each_model_is_found_once(files: Seq<GgufFileView>)
    ensures
        forall|i: int, j: int|
            0 <= i < j < one_per_target(files).len() ==> (#[trigger] one_per_target(
                files,
            )[i]).target != (#[trigger] one_per_target(files)[j]).target,
    decreases files.len(),
{
    if files.len() > 0 {
        law_each_model_is_found_once(files.drop_last());
        let before = one_per_target(files.drop_last());
        lemma_target_from(before, files.last().target, 0);
    }
}

/// Where a file is found itself, it is not shown under a link to it; and every file that is
/// found is shown under one of its paths.
pub proof fn law_files_win_over_links(files: Seq<GgufFileView>, k: int)
    requires
        0 <= k < files.len(),
    ensures
        exists|i: int|
            0 <= i < one_per_target(files).len() && (#[trigger] one_per_target(files)[i]).target
                == files[k].target && (!files[k].is_alias ==> !one_per_target(files)[i].is_alias),
    decreases files.len(),
{
    let short = files.drop_last();
    let before = one_per_target(short);
    let after = one_per_target(files);
    let f = files.last();
    lemma_target_from(before, f.target, 0);
    if k < files.len() - 1 {
        law_files_win_over_links(short, k);
        let i = choose|i: int|
            0 <= i < before.len() && (#[trigger] before[i]).target == short[k].target && (
            !short[k].is_alias ==> !before[i].is_alias);
        assert(after[i].target == files[k].target);
    } else {
        match target_from(before, f.target, 0) {
            Some(i) => {
                assert(after[i].target == f.target);
            },
            None => {
                assert(after[before.len() as int] == f);
            },
        }
    }
}

/// A directory of the hub's cache tells the owner and the name of its repository; a directory
/// with another name tells none.
pub proof fn law_cache_directories_tell_the_repository(owner: Seq<char>, repo: Seq<char>)
    requires
        !text::occurs(owner + "-"@, "--"@),
    ensures
        cached_repo("models--"@ + owner + "--"@ + repo) == Some((owner, repo)),
        cached_repo("datasets--"@ + owner + "--"@ + repo) is None,
{
    reveal_strlit("models--");
    reveal_strlit("datasets--");
    reveal_strlit("--");
    reveal_strlit("-");
    let name = "models--"@ + owner + "--"@ + repo;
    let rest = owner + "--"@ + repo;
    assert(name.subrange(0, 8) =~= "models--"@);
    assert("models--"@.is_prefix_of(name));
    assert(name.skip(8) =~= rest);
    text::law_parts_occur(owner, "--"@, repo);
    text::law_finding(rest, "--"@);
    let k = text::find(rest, "--"@)->0;
    let at = owner.len() as int;
    if k < at {
        let part = rest.subrange(k, k + 2);
        let s = owner + "-"@;
        assert(s.subrange(k, k + 2) =~= part) by {
            assert(s[k] == rest[k] && s[k + 1] == rest[k + 1]);
        }
        assert(text::occurs_at(s, "--"@, k));
        assert(false);
    }
    assert(rest.take(at) =~= owner);
    assert(rest.skip(at + 2) =~= repo);
    let other = "datasets--"@ + owner + "--"@ + repo;
    if "models--"@.is_prefix_of(other) {
        assert(other.subrange(0, 8)[0] == 'd');
    }
}

/// A repository of the cache is known under its full name and under the part behind the owner,
/// and is counted once.
pub proof fn law_cached_repositories_are_known(
    names: Seq<Seq<char>>,
    name: Seq<char>,
    owner: Seq<char>,
    repo: Seq<char>,
)
    requires
        cached_repo(name) == Some((owner, repo)),
    ensures
        holds_mlx(name) <==> mlx::likely_mlx(owner, repo),
        holds_gguf(name) <==> mlx::likely_gguf(outside::lowercase(repo)),
        holds_mlx(name) ==> {
            &&& cached_mlx(names.push(name)).contains(outside::lowercase(repo))
            &&& cached_mlx(names.push(name)).contains(
                outside::lowercase(owner) + "/"@ + outside::lowercase(repo),
            )
        },
        !holds_mlx(name) ==> cached_mlx(names.push(name)) == cached_mlx(names),
        cached_mlx(names).subset_of(cached_mlx(names.push(name))),
        holds_gguf(name) ==> {
            &&& cached_gguf(names.push(name)).0.contains(outside::lowercase(repo))
            &&& cached_gguf(names.push(name)).0.contains(
                outside::lowercase(owner) + "/"@ + outside::lowercase(repo),
            )
            &&& cached_gguf(names.push(name)).1 == cached_gguf(names).1 + 1
        },
        !holds_gguf(name) ==> cached_gguf(names.push(name)) == cached_gguf(names),
        cached_gguf(Seq::empty()).1 == 0,
{
    assert(names.push(name).drop_last() =~= names);
}

/// A file is a model where it is a file and its name ends in `.gguf`; those directly in a
/// directory are found, in their order.
pub proof fn law_model_files_are_found(entries: Seq<DirEntry>, i: int, levels: nat)
    requires
        0 <= i < entries.len(),
        levels > 0,
    ensures
        entries[i].file is Some && model_name(entries[i].name@) ==> models_below(
            entries,
            levels,
        ).contains(entries[i].file->0@),
        entries[i].file is None ==> model_in(entries[i]) is None,
        !model_name(entries[i].name@) ==> model_in(entries[i]) is None,
        models_below(entries, 0).len() == 0,
{
    if entries[i].file is Some && model_name(entries[i].name@) {
        let direct = direct_models(entries, entries.len() as int);
        lemma_direct_models(entries, entries.len() as int, i);
        let k = choose|k: int| 0 <= k < direct.len() && direct[k] == entries[i].file->0@;
        assert(models_below(entries, levels)[k] == direct[k]);
    }
}

proof fn lemma_direct_models(entries: Seq<DirEntry>, n: int, i: int)
    requires
        0 <= i < n <= entries.len(),
        model_in(entries[i]) is Some,
    ensures
        direct_models(entries, n).contains(model_in(entries[i])->0),
    decreases n,
{
    let before = direct_models(entries, n - 1);
    let all = direct_models(entries, n);
    let f = model_in(entries[i])->0;
    if i < n - 1 {
        lemma_direct_models(entries, n - 1, i);
        let k = choose|k: int| 0 <= k < before.len() && before[k] == f;
        assert(all[k] == f);
    } else {
        assert(all[before.len() as int] == f);
    }
}

/// The models of a directory inside are found too, as long as the depth allows it.
pub proof fn law_models_inside_are_found(
    entries: Seq<DirEntry>,
    i: int,
    levels: nat,
    f: GgufFileView,
)
    requires
        0 <= i < entries.len(),
        levels > 0,
        entries[i].file is None,
        entries[i].inside is Some,
        models_below(entries[i].inside->0@, levels).contains(f),
    ensures
        models_below(entries, levels + 1).contains(f),
{
    lemma_models_inside(entries, entries.len() as int, i, levels, f);
    let direct = direct_models(entries, entries.len() as int);
    let inside = models_inside(entries, entries.len() as int, levels);
    let k = choose|k: int| 0 <= k < inside.len() && inside[k] == f;
    assert((direct + inside)[direct.len() + k] == f);
    assert(models_below(entries, levels + 1) == direct + inside);
}

proof fn lemma_models_inside(
    entries: Seq<DirEntry>,
    n: int,
    i: int,
    levels: nat,
    f: GgufFileView,
)
    requires
        0 <= i < n <= entries.len(),
        levels > 0,
        entries[i].file is None,
        entries[i].inside is Some,
        models_below(entries[i].inside->0@, levels).contains(f),
    ensures
        models_inside(entries, n, levels).contains(f),
    decreases n,
{
    let rest = models_inside(entries, n - 1, levels);
    let all = models_inside(entries, n, levels);
    let own = match (model_in(entries[n - 1]), entries[n - 1].inside) {
        (None, Some(inner)) => models_below(inner@, levels),
        _ => Seq::empty(),
    };
    assert(all == own + rest);
    if i < n - 1 {
        lemma_models_inside(entries, n - 1, i, levels, f);
        let k = choose|k: int| 0 <= k < rest.len() && rest[k] == f;
        assert(all[own.len() + k] == f);
    } else {
        let k = choose|k: int| 0 <= k < own.len() && own[k] == f;
        assert(all[k] == f);
    }
}

/// A file is known under its stem and under what is left of that without a mark of
/// quantization, and is counted where it has a stem.
pub proof fn law_files_are_known_by_their_stems(
    files: Seq<GgufFileView>,
    f: GgufFileView,
    stem: Seq<char>,
)
    ensures
        f.stem == Some(stem) ==> {
            &&& file_names(files.push(f)).0.contains(outside::lowercase(stem))
            &&& quant::gguf_base(outside::lowercase(stem)) matches Some(b) ==> file_names(
                files.push(f),
            ).0.contains(b)
            &&& file_names(files.push(f)).1 == file_names(files).1 + 1
        },
        f.stem is None ==> file_names(files.push(f)) == file_names(files),
        file_names(files).0.subset_of(file_names(files.push(f)).0),
        file_names(Seq::empty()).1 == 0,
{
    assert(files.push(f).drop_last() =~= files);
}

/// LM Studio's files are known by their stems and their directories too, with the publisher and
/// without, with the mark of the format and without; projections for images are left out.
pub proof fn law_lmstudio_files_are_known(
    files: Seq<GgufFileView>,
    f: GgufFileView,
    stem: Seq<char>,
    parent: Seq<char>,
    publisher: Seq<char>,
)
    requires
        f.stem == Some(stem),
        f.parent == Some(parent),
        f.grandparent == Some(publisher),
    ensures
        ({
            let all = lmstudio_files(files.push(f));
            let repo = outside::lowercase(parent);
            &&& "mmproj-"@.is_prefix_of(outside::lowercase(stem)) ==> all == lmstudio_files(files)
            &&& !"mmproj-"@.is_prefix_of(outside::lowercase(stem)) ==> {
                &&& all.0.contains(outside::lowercase(stem))
                &&& all.0.contains(repo)
                &&& all.0.contains(outside::lowercase(publisher) + "/"@ + repo)
                &&& all.0.contains(text::trim_end_text(repo, "-gguf"@))
                &&& all.0.contains(
                    outside::lowercase(publisher) + "/"@ + text::trim_end_text(repo, "-gguf"@),
                )
                &&& all.1 == lmstudio_files(files).1.insert(repo)
            }
        }),
{
    assert(files.push(f).drop_last() =~= files);
}

/// The first place that is there holds the program; where none is, the search path tells.
pub proof fn law_first_place_counts(places: Seq<(Seq<char>, bool)>, on_path: Option<Seq<char>>, i: int)
    ensures
        0 <= i < places.len() && places[i].1 && (forall|k: int|
            0 <= k < i ==> !(#[trigger] places[k]).1) ==> binary_from(places, on_path, 0) == Some(
            places[i].0,
        ),
        (forall|k: int| 0 <= k < places.len() ==> !(#[trigger] places[k]).1) ==> binary_from(
            places,
            on_path,
            0,
        ) == on_path,
{
    if 0 <= i < places.len() && places[i].1 && (forall|k: int|
        0 <= k < i ==> !(#[trigger] places[k]).1) {
        lemma_first_place(places, on_path, 0, i);
    }
    if forall|k: int| 0 <= k < places.len() ==> !(#[trigger] places[k]).1 {
        lemma_no_place(places, on_path, 0);
    }
}

proof fn lemma_first_place(
    places: Seq<(Seq<char>, bool)>,
    on_path: Option<Seq<char>>,
    from: int,
    i: int,
)
    requires
        0 <= from <= i < places.len(),
        places[i].1,
        forall|k: int| 0 <= k < i ==> !(#[trigger] places[k]).1,
    ensures
        binary_from(places, on_path, from) == Some(places[i].0),
    decreases i - from,
{
    if from < i {
        lemma_first_place(places, on_path, from + 1, i);
    }
}

proof fn lemma_no_place(places: Seq<(Seq<char>, bool)>, on_path: Option<Seq<char>>, from: int)
    requires
        0 <= from,
        forall|k: int| 0 <= k < places.len() ==> !(#[trigger] places[k]).1,
    ensures
        binary_from(places, on_path, from) == on_path,
    decreases places.len() - from,
{
    if from < places.len() {
        lemma_no_place(places, on_path, from + 1);
    }
}

/// A program is looked for where it was said first, then where the setting says, and under the
/// given name everywhere.
pub proof fn law_given_places_come_first(
    given: Seq<char>,
    setting: Seq<char>,
    home: Option<Seq<char>>,
    name: &'static str,
    i: int,
)
    ensures
        ({
            let both = binary_places(Some(given), Some(setting), home, name);
            let one = binary_places(None, Some(setting), home, name);
            &&& both[0].0 == given
            &&& both[1].0 == setting
            &&& one[0].0 == setting
            &&& 0 <= i < both.len() ==> both[i].1.len() > 0 && both[i].1.last() == name
            &&& home matches Some(h) ==> both.last().0 == h
        }),
{
}

/// The caches of the hub lie where the setting says, and nowhere else where it does; without
/// it in the user's caches.
pub proof fn law_caches_lie_where_said(
    hf_home: Seq<char>,
    cache_dir: Option<Seq<char>>,
    home: Option<Seq<char>>,
    same: bool,
)
    ensures
        hub_caches(Some(hf_home), cache_dir, home, same) == seq![(hf_home, seq!["hub"])],
        hub_caches(None, cache_dir, home, same).len() > 0,
        cache_dir is Some ==> hub_caches(None, cache_dir, home, same)[0].0 == cache_dir->0,
        cache_dir is None && home is Some ==> hub_caches(None, cache_dir, home, same)[0].0 == home->0,
        cache_dir is Some && home is Some && !same ==> hub_caches(
            None,
            cache_dir,
            home,
            same,
        ).len() == 2 && hub_caches(None, cache_dir, home, same)[1].0 == home->0,
{
}

} // verus!
