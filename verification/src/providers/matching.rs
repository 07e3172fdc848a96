//! Matching catalog names against the names that runtimes report.
use vstd::prelude::*;
use crate::names::NameSet;
use crate::outside;
use crate::providers::ollama;
use crate::providers::quant;
use crate::text;

verus! {

// ---------------------------------------------------------------------------
// Names
// ---------------------------------------------------------------------------

/// The part of a catalog name behind its last slash, in lower case.
pub open spec fn repo_lower(hf_name: Seq<char>) -> Seq<char> {
    outside::lowercase(text::after_last(hf_name, seq!['/']))
}

/// `repo` with the variant marks of instruction-tuned models taken out.
pub open spec fn without_variants(repo: Seq<char>) -> Seq<char> {
    let a = text::replace(repo, "-instruct"@, ""@);
    let b = text::replace(a, "-chat"@, ""@);
    let c = text::replace(b, "-hf"@, ""@);
    text::replace(c, "-it"@, ""@)
}

/// The part of a catalog name behind its last slash, in lower case.
pub fn repo_name_lower(hf_name: &str) -> (r: String)
    ensures
        r@ == repo_lower(hf_name@),
{
    let set = ['/'];
    assert(set@ == seq!['/']);
    outside::to_lowercase(text::tail_after(hf_name, &set))
}

/// `repo` with the variant marks of instruction-tuned models taken out.
fn strip_variants(repo: &str) -> (r: String)
    ensures
        r@ == without_variants(repo@),
{
    proof {
        reveal_strlit("-instruct");
        reveal_strlit("-chat");
        reveal_strlit("-hf");
        reveal_strlit("-it");
    }
    let a = text::replace_text(repo, "-instruct", "");
    let b = text::replace_text(&a, "-chat", "");
    let c = text::replace_text(&b, "-hf", "");
    text::replace_text(&c, "-it", "")
}

// ---------------------------------------------------------------------------
// LM Studio, vLLM and RamaLama: substring matching
// ---------------------------------------------------------------------------

/// The names under which a runtime that uses catalog names may report a model: the full
/// name, the name without its owner, and that without the marks of tuned variants, each
/// only where it differs from the one before.
pub open spec fn plain_candidates(hf_name: Seq<char>) -> Seq<Seq<char>> {
    let full = outside::lowercase(hf_name);
    let repo = repo_lower(hf_name);
    let stripped = without_variants(repo);
    seq![full] + (if repo != full {
        seq![repo]
    } else {
        seq![]
    }) + (if stripped != repo {
        seq![stripped]
    } else {
        seq![]
    })
}

/// One of the installed names contains one of the candidates.
pub open spec fn any_contains(installed: Set<Seq<char>>, candidates: Seq<Seq<char>>) -> bool {
    exists|name: Seq<char>, i: int|
        #![trigger installed.contains(name), candidates[i]]
        installed.contains(name) && 0 <= i < candidates.len() && text::occurs(name, candidates[i])
}

fn plain_candidate_list(hf_name: &str) -> (r: Vec<String>)
    ensures
        text::texts(r@) == plain_candidates(hf_name@),
{
    let full = outside::to_lowercase(hf_name);
    let repo = repo_name_lower(hf_name);
    let stripped = strip_variants(&repo);
    let repo_differs = repo != full;
    let stripped_differs = stripped != repo;
    let mut out: Vec<String> = Vec::new();
    out.push(full);
    if repo_differs {
        out.push(repo);
    }
    if stripped_differs {
        out.push(stripped);
    }
    assert(text::texts(out@) =~= plain_candidates(hf_name@));
    out
}

fn any_installed_contains(installed: &NameSet, candidates: &Vec<String>) -> (r: bool)
    ensures
        r == any_contains(installed@, text::texts(candidates@)),
{
    let items = installed.items();
    let ghost names = text::texts(items@);
    let ghost cands = text::texts(candidates@);
    for i in 0..candidates.len()
        invariant
            names == text::texts(items@),
            names.to_set() == installed@,
            cands == text::texts(candidates@),
            forall|k: int, n: int|
                0 <= k < i && 0 <= n < names.len() ==> !#[trigger] text::occurs(names[n], cands[k]),
    {
        for j in 0..items.len()
            invariant
                i < candidates.len(),
                names == text::texts(items@),
                names.to_set() == installed@,
                cands == text::texts(candidates@),
                forall|n: int|
                    0 <= n < j ==> !#[trigger] text::occurs(names[n], cands[i as int]),
        {
            if text::contains_text(&items[j], &candidates[i]) {
                assert(names.contains(names[j as int]));
                assert(installed@.contains(names[j as int]));
                assert(text::occurs(names[j as int], cands[i as int]));
                return true;
            }
        }
    }
    proof {
        if any_contains(installed@, cands) {
            let (name, k) = choose|name: Seq<char>, k: int|
                #![trigger installed@.contains(name), cands[k]]
                installed@.contains(name) && 0 <= k < cands.len() && text::occurs(name, cands[k]);
            let n = choose|n: int| 0 <= n < names.len() && names[n] == name;
            assert(!text::occurs(names[n], cands[k]));
        }
    }
    false
}

/// The names under which LM Studio's interface may report a catalog model.
pub fn hf_name_to_lmstudio_candidates(hf_name: &str) -> (r: Vec<String>)
    ensures
        text::texts(r@) == plain_candidates(hf_name@),
{
    plain_candidate_list(hf_name)
}

/// Whether LM Studio's interface reports a catalog model.
pub fn is_model_installed_lmstudio(hf_name: &str, installed: &NameSet) -> (r: bool)
    ensures
        r == any_contains(installed@, plain_candidates(hf_name@)),
{
    any_installed_contains(installed, &hf_name_to_lmstudio_candidates(hf_name))
}

/// The names under which vLLM may report a catalog model.
pub fn hf_name_to_vllm_candidates(hf_name: &str) -> (r: Vec<String>)
    ensures
        text::texts(r@) == plain_candidates(hf_name@),
{
    plain_candidate_list(hf_name)
}

/// Whether vLLM reports a catalog model.
pub fn is_model_installed_vllm(hf_name: &str, installed: &NameSet) -> (r: bool)
    ensures
        r == any_contains(installed@, plain_candidates(hf_name@)),
{
    any_installed_contains(installed, &hf_name_to_vllm_candidates(hf_name))
}

/// The names under which RamaLama may report a catalog model.
pub fn hf_name_to_ramalama_candidates(hf_name: &str) -> (r: Vec<String>)
    ensures
        text::texts(r@) == plain_candidates(hf_name@),
{
    plain_candidate_list(hf_name)
}

/// Whether RamaLama reports a catalog model.
pub fn is_model_installed_ramalama(hf_name: &str, installed: &NameSet) -> (r: bool)
    ensures
        r == any_contains(installed@, plain_candidates(hf_name@)),
{
    any_installed_contains(installed, &hf_name_to_ramalama_candidates(hf_name))
}

// ---------------------------------------------------------------------------
// LM Studio's model directory: equality
// ---------------------------------------------------------------------------

/// The names under which a catalog model lies in LM Studio's model directory: the full name
/// and the name without its owner. Tuned variants are different models there, so their
/// marks stay.
pub open spec fn disk_candidates(hf_name: Seq<char>) -> Seq<Seq<char>> {
    let full = outside::lowercase(hf_name);
    let repo = repo_lower(hf_name);
    if repo == full {
        seq![full]
    } else {
        seq![full, repo]
    }
}

/// The names under which a catalog model lies in LM Studio's model directory.
pub fn hf_name_to_lmstudio_disk_candidates(hf_name: &str) -> (r: Vec<String>)
    ensures
        text::texts(r@) == disk_candidates(hf_name@),
{
    let full = outside::to_lowercase(hf_name);
    let repo = repo_name_lower(hf_name);
    let differs = repo != full;
    let mut out: Vec<String> = Vec::new();
    out.push(full);
    if differs {
        out.push(repo);
    }
    assert(text::texts(out@) =~= disk_candidates(hf_name@));
    out
}

/// Whether a catalog model lies in LM Studio's model directory. The names found there are
/// many, so only equality counts.
pub fn is_model_installed_lmstudio_disk(hf_name: &str, on_disk: &NameSet) -> (r: bool)
    ensures
        r == (on_disk@.contains(outside::lowercase(hf_name@)) || on_disk@.contains(
            repo_lower(hf_name@),
        )),
{
    let candidates = hf_name_to_lmstudio_disk_candidates(hf_name);
    let ghost list = text::texts(candidates@);
    assert(list == disk_candidates(hf_name@));
    assert(candidates@.len() == list.len());
    let full_there = on_disk.contains(&candidates[0]);
    assert(list[0] == candidates@[0]@);
    if candidates.len() == 1 {
        return full_there;
    }
    assert(list[1] == candidates@[1]@);
    full_there || on_disk.contains(&candidates[1])
}

// ---------------------------------------------------------------------------
// Docker Model Runner
// ---------------------------------------------------------------------------

/// The catalog models, in lower case, that Docker Hub holds in its `ai/` namespace, each
/// with its tag there.
pub open spec fn docker_table() -> Seq<(&'static str, &'static str)> {
    seq![("meta-llama/llama-3.1-70b-instruct", "ai/llama3.1:70b")]
}

/// The models that Docker Hub holds, each with its tag.
pub fn docker_mr_catalog() -> (r: Vec<(&'static str, &'static str)>)
    ensures
        r@ == docker_table(),
{
    vec![("meta-llama/llama-3.1-70b-instruct", "ai/llama3.1:70b")]
}

/// The tag of the first row at or after number `i` for the name `lower`.
pub open spec fn docker_tag_from(lower: Seq<char>, i: int) -> Option<Seq<char>>
    decreases docker_table().len() - i,
{
    if i < 0 || i >= docker_table().len() {
        None
    } else if docker_table()[i].0@ == lower {
        Some(docker_table()[i].1@)
    } else {
        docker_tag_from(lower, i + 1)
    }
}

/// The tag under which Docker Hub holds a catalog model.
pub open spec fn docker_tag(hf_name: Seq<char>) -> Option<Seq<char>> {
    docker_tag_from(outside::lowercase(hf_name), 0)
}

/// The tag under which Docker Hub holds a catalog model.
pub fn docker_mr_pull_tag(hf_name: &str) -> (r: Option<String>)
    ensures
        text::opt_text(r) == docker_tag(hf_name@),
{
    let lower = outside::to_lowercase(hf_name);
    let rows = docker_mr_catalog();
    for i in 0..rows.len()
        invariant
            rows@ == docker_table(),
            lower@ == outside::lowercase(hf_name@),
            docker_tag(hf_name@) == docker_tag_from(lower@, i as int),
    {
        if text::same(rows[i].0, &lower) {
            return Some(rows[i].1.to_string());
        }
    }
    None
}

/// The names under which Docker Model Runner may report a catalog model: its tag, that
/// without the namespace, and that without the size.
pub open spec fn docker_candidates(hf_name: Seq<char>) -> Seq<Seq<char>> {
    match docker_tag(hf_name) {
        None => seq![],
        Some(tag) => seq![tag] + (match text::without_prefix(tag, "ai/"@) {
            Some(rest) => seq![rest],
            None => seq![],
        }) + seq![text::before_first(tag, seq![':'])],
    }
}

/// The names under which Docker Model Runner may report a catalog model.
pub fn hf_name_to_docker_mr_candidates(hf_name: &str) -> (r: Vec<String>)
    ensures
        text::texts(r@) == docker_candidates(hf_name@),
{
    let mut out: Vec<String> = Vec::new();
    let Some(tag) = docker_mr_pull_tag(hf_name) else {
        assert(text::texts(out@) =~= docker_candidates(hf_name@));
        return out;
    };
    let colon = [':'];
    assert(colon@ == seq![':']);
    let base = text::head_before(&tag, &colon).to_string();
    let rest = text::strip_prefix(&tag, "ai/");
    out.push(tag.clone());
    if let Some(r) = rest {
        out.push(r.to_string());
    }
    out.push(base);
    assert(text::texts(out@) =~= docker_candidates(hf_name@));
    out
}

/// An installed name is a candidate or a variant of a candidate with a size.
pub open spec fn docker_matches(installed_name: Seq<char>, candidate: Seq<char>) -> bool {
    installed_name == candidate || (text::occurs(candidate, ":"@) && (candidate
        + "-"@).is_prefix_of(installed_name))
}

/// Whether an installed name is a candidate or a variant of one.
pub fn docker_mr_installed_matches(installed_name: &str, candidate: &str) -> (r: bool)
    ensures
        r == docker_matches(installed_name@, candidate@),
{
    if text::same(installed_name, candidate) {
        return true;
    }
    if text::contains_text(candidate, ":") {
        let mut prefix = candidate.to_string();
        prefix.append("-");
        return text::starts_with(installed_name, &prefix);
    }
    false
}

/// Docker Model Runner reports a catalog model.
pub open spec fn installed_docker(hf_name: Seq<char>, installed: Set<Seq<char>>) -> bool {
    exists|name: Seq<char>, i: int|
        #![trigger installed.contains(name), docker_candidates(hf_name)[i]]
        installed.contains(name) && 0 <= i < docker_candidates(hf_name).len() && docker_matches(
            name,
            docker_candidates(hf_name)[i],
        )
}

/// Whether Docker Model Runner reports a catalog model.
pub fn is_model_installed_docker_mr(hf_name: &str, installed: &NameSet) -> (r: bool)
    ensures
        r == installed_docker(hf_name@, installed@),
{
    let candidates = hf_name_to_docker_mr_candidates(hf_name);
    let items = installed.items();
    let ghost names = text::texts(items@);
    let ghost cands = docker_candidates(hf_name@);
    for i in 0..candidates.len()
        invariant
            names == text::texts(items@),
            names.to_set() == installed@,
            cands == docker_candidates(hf_name@),
            text::texts(candidates@) == cands,
            forall|k: int, n: int|
                0 <= k < i && 0 <= n < names.len() ==> !#[trigger] docker_matches(
                    names[n],
                    cands[k],
                ),
    {
        for j in 0..items.len()
            invariant
                i < candidates.len(),
                names == text::texts(items@),
                names.to_set() == installed@,
                cands == docker_candidates(hf_name@),
                text::texts(candidates@) == cands,
                forall|n: int|
                    0 <= n < j ==> !#[trigger] docker_matches(names[n], cands[i as int]),
        {
            assert(cands[i as int] == candidates@[i as int]@);
            if docker_mr_installed_matches(&items[j], &candidates[i]) {
                assert(names.contains(names[j as int]));
                assert(installed@.contains(names[j as int]));
                assert(docker_matches(names[j as int], cands[i as int]));
                return true;
            }
        }
    }
    proof {
        if installed_docker(hf_name@, installed@) {
            let (name, k) = choose|name: Seq<char>, k: int|
                #![trigger installed@.contains(name), docker_candidates(hf_name@)[k]]
                installed@.contains(name) && 0 <= k < docker_candidates(hf_name@).len()
                    && docker_matches(name, docker_candidates(hf_name@)[k]);
            let n = choose|n: int| 0 <= n < names.len() && names[n] == name;
            assert(!docker_matches(names[n], cands[k]));
        }
    }
    false
}

// ---------------------------------------------------------------------------
// llama.cpp
// ---------------------------------------------------------------------------

/// A catalog model is among the file stems of the llama.cpp cache: its name is, or its
/// name without the marks of tuned variants.
pub open spec fn installed_llamacpp(hf_name: Seq<char>, installed: Set<Seq<char>>) -> bool {
    installed.contains(repo_lower(hf_name)) || installed.contains(
        without_variants(repo_lower(hf_name)),
    )
}

/// Whether a catalog model is among the file stems of the llama.cpp cache. Only equality
/// counts: one `gemma-3.gguf` must not stand for every model whose name begins so.
pub fn is_model_installed_llamacpp(hf_name: &str, installed: &NameSet) -> (r: bool)
    ensures
        r == installed_llamacpp(hf_name@, installed@),
{
    let repo = repo_name_lower(hf_name);
    if installed.contains(&repo) {
        return true;
    }
    installed.contains(&strip_variants(&repo))
}

// ---------------------------------------------------------------------------
// Tags of running servers
// ---------------------------------------------------------------------------

/// The stem of a reported file: what stands behind the last slash of either kind, without
/// `.gguf`.
pub open spec fn tag_stem(tag: Seq<char>) -> Seq<char> {
    text::trim_end_text(text::after_last(outside::lowercase(tag), seq!['/', '\\']), ".gguf"@)
}

/// The names that the stem of a reported file stands for.
pub open spec fn stem_names(stem: Seq<char>) -> Set<Seq<char>> {
    let gguf = match quant::gguf_base(stem) {
        Some(b) => set![b],
        None => Set::empty(),
    };
    let mlx = match quant::mlx_base(stem) {
        Some(b) => set![b],
        None => Set::empty(),
    };
    gguf.union(mlx).insert(stem)
}

/// A tag that a running server reports is one of a catalog model: as an Ollama tag, or by
/// the stem of the file that it names.
pub open spec fn tag_is_of(tag: Seq<char>, hf_name: Seq<char>) -> bool {
    ollama::installed_ollama(hf_name, None, set![outside::lowercase(tag)]) || installed_llamacpp(
        hf_name,
        stem_names(tag_stem(tag)),
    )
}

/// Whether a tag that a running server reports is one of a catalog model.
pub fn tag_matches_model(tag: &str, hf_name: &str) -> (r: bool)
    ensures
        r == tag_is_of(tag@, hf_name@),
{
    let lower = outside::to_lowercase(tag);
    let mut tags = NameSet::new();
    tags.insert(lower.clone());
    assert(tags@ =~= set![outside::lowercase(tag@)]);
    if ollama::is_model_installed(hf_name, &tags) {
        return true;
    }
    let slashes = ['/', '\\'];
    assert(slashes@ == seq!['/', '\\']);
    proof {
        reveal_strlit(".gguf");
    }
    let stem = text::trimmed_end_text(text::tail_after(&lower, &slashes), ".gguf").to_string();
    let mut stems = NameSet::new();
    if let Some(base) = quant::strip_gguf_quant_suffix(&stem) {
        stems.insert(base);
    }
    if let Some(base) = quant::strip_mlx_quant_suffix(&stem) {
        stems.insert(base);
    }
    stems.insert(stem);
    assert(stems@ =~= stem_names(tag_stem(tag@)));
    is_model_installed_llamacpp(hf_name, &stems)
}

// ---------------------------------------------------------------------------
// Laws
// ---------------------------------------------------------------------------

/// Lower-casing a text of ASCII characters twice is lower-casing it once.
pub proof fn lemma_lowercase_twice(s: Seq<char>)
    requires
        text::is_ascii_text(s),
    ensures
        text::is_ascii_text(outside::lowercase(s)),
        outside::lowercase(outside::lowercase(s)) == outside::lowercase(s),
        outside::lowercase(s).len() == s.len(),
{
    let l = text::ascii_lowercase(s);
    assert forall|i: int| 0 <= i < l.len() implies (#[trigger] l[i] as u32) < 128 by {
        assert((s[i] as u32) < 128);
    }
    assert(text::ascii_lowercase(l) =~= l);
}

proof fn lemma_no_slash(s: Seq<char>, i: int)
    requires
        0 <= i <= s.len(),
        forall|k: int| 0 <= k < s.len() ==> (#[trigger] s[k]) != '/',
    ensures
        text::rfind_any_before(s, seq!['/'], i) is None,
    decreases i,
{
    if i > 0 {
        assert(!seq!['/'].contains(s[i - 1])) by {
            assert(s[i - 1] != '/');
        }
        lemma_no_slash(s, i - 1);
    }
}

proof fn lemma_last_slash(s: Seq<char>, i: int)
    requires
        0 <= i <= s.len(),
    ensures
        match text::rfind_any_before(s, seq!['/'], i) {
            Some(j) => 0 <= j < i && forall|k: int| j < k < i ==> (#[trigger] s[k]) != '/',
            None => forall|k: int| 0 <= k < i ==> (#[trigger] s[k]) != '/',
        },
    decreases i,
{
    assert(seq!['/'][0] == '/');
    if i > 0 && !seq!['/'].contains(s[i - 1]) {
        assert(s[i - 1] != '/');
        lemma_last_slash(s, i - 1);
    }
}

/// What stands behind the last slash of a name holds none, and is the whole name or shorter.
proof fn lemma_behind_last_slash(s: Seq<char>)
    ensures
        ({
            let r = text::after_last(s, seq!['/']);
            &&& forall|k: int| 0 <= k < r.len() ==> (#[trigger] r[k]) != '/'
            &&& r == s || r.len() < s.len()
            &&& text::is_ascii_text(s) ==> text::is_ascii_text(r)
        }),
{
    let r = text::after_last(s, seq!['/']);
    lemma_last_slash(s, s.len() as int);
    let off = s.len() - r.len();
    assert(forall|k: int| 0 <= k < r.len() ==> (#[trigger] r[k]) == s[off + k]);
    if text::is_ascii_text(s) {
        assert forall|k: int| 0 <= k < r.len() implies (#[trigger] r[k] as u32) < 128 by {
            assert((s[off + k] as u32) < 128);
        }
    }
}

/// The name of a repository is that of itself: nothing is taken off twice.
pub proof fn law_repository_name_is_its_own(hf_name: Seq<char>)
    requires
        text::is_ascii_text(hf_name),
    ensures
        repo_lower(repo_lower(hf_name)) == repo_lower(hf_name),
        repo_lower(hf_name) == outside::lowercase(hf_name) || repo_lower(hf_name).len()
            < outside::lowercase(hf_name).len(),
{
    let r = text::after_last(hf_name, seq!['/']);
    lemma_behind_last_slash(hf_name);
    lemma_lowercase_twice(r);
    lemma_lowercase_twice(hf_name);
    let l = repo_lower(hf_name);
    assert forall|k: int| 0 <= k < l.len() implies (#[trigger] l[k]) != '/' by {
        assert(r[k] != '/');
    }
    lemma_no_slash(l, l.len() as int);
}

proof fn lemma_taking_out_never_lengthens(s: Seq<char>, p: Seq<char>, i: int)
    requires
        0 <= i,
    ensures
        text::replace_from(s, p, ""@, i).len() <= if i < s.len() {
            s.len() - i
        } else {
            0
        },
    decreases s.len() - i,
{
    reveal_strlit("");
    if i < s.len() {
        if p.len() > 0 && text::occurs_at(s, p, i) {
            lemma_taking_out_never_lengthens(s, p, i + p.len());
        } else {
            lemma_taking_out_never_lengthens(s, p, i + 1);
        }
    }
}

/// The names under which LM Studio, vLLM and RamaLama may report a model begin with the
/// whole name in lower case, and no two of them are the same.
pub proof fn law_plain_candidates_differ(hf_name: Seq<char>, i: int, j: int)
    requires
        text::is_ascii_text(hf_name),
        0 <= i < j < plain_candidates(hf_name).len(),
    ensures
        plain_candidates(hf_name)[0] == outside::lowercase(hf_name),
        plain_candidates(hf_name)[i] != plain_candidates(hf_name)[j],
{
    let repo = repo_lower(hf_name);
    law_repository_name_is_its_own(hf_name);
    let a = text::replace(repo, "-instruct"@, ""@);
    let b = text::replace(a, "-chat"@, ""@);
    let c = text::replace(b, "-hf"@, ""@);
    lemma_taking_out_never_lengthens(repo, "-instruct"@, 0);
    lemma_taking_out_never_lengthens(a, "-chat"@, 0);
    lemma_taking_out_never_lengthens(b, "-hf"@, 0);
    lemma_taking_out_never_lengthens(c, "-it"@, 0);
    assert(without_variants(repo).len() <= repo.len());
}

proof fn lemma_docker_row(lower: Seq<char>, i: int)
    requires
        0 <= i,
    ensures
        docker_tag_from(lower, i) matches Some(t) ==> exists|k: int|
            i <= k < docker_table().len() && (#[trigger] docker_table()[k]).0@ == lower && t
                == docker_table()[k].1@,
    decreases docker_table().len() - i,
{
    if i < docker_table().len() && docker_table()[i].0@ != lower {
        lemma_docker_row(lower, i + 1);
    }
}

/// The tag of a model at Docker Hub does not depend on the case of its name, stands in the
/// namespace of models, and is there only for a name that the table holds in full, with its
/// owner.
pub proof fn law_docker_tag_ignores_case(hf_name: Seq<char>)
    ensures
        text::is_ascii_text(hf_name) ==> docker_tag(outside::lowercase(hf_name)) == docker_tag(
            hf_name,
        ),
        docker_tag(hf_name) matches Some(t) ==> "ai/"@.is_prefix_of(t) && exists|k: int|
            0 <= k < docker_table().len() && (#[trigger] docker_table()[k]).0@
                == outside::lowercase(hf_name) && t == docker_table()[k].1@,
{
    if text::is_ascii_text(hf_name) {
        lemma_lowercase_twice(hf_name);
    }
    lemma_docker_row(outside::lowercase(hf_name), 0);
    reveal_strlit("ai/");
    reveal_strlit("ai/llama3.1:70b");
    if let Some(t) = docker_tag(hf_name) {
        assert(t == docker_table()[0].1@);
        assert(docker_table()[0].1 == "ai/llama3.1:70b");
        assert("ai/"@ =~= t.take(3));
    }
}

/// A model is found where an installed name holds its name or the part behind the owner;
/// nothing is found among no names.
pub proof fn law_plain_names_are_found(hf_name: Seq<char>, installed: Set<Seq<char>>, name: Seq<char>)
    ensures
        installed.contains(name) && text::occurs(name, outside::lowercase(hf_name)) ==> any_contains(
            installed,
            plain_candidates(hf_name),
        ),
        installed.contains(name) && text::occurs(name, repo_lower(hf_name)) ==> any_contains(
            installed,
            plain_candidates(hf_name),
        ),
        installed.contains(name) && text::occurs(name, without_variants(repo_lower(hf_name)))
            ==> any_contains(installed, plain_candidates(hf_name)),
        !any_contains(Set::empty(), plain_candidates(hf_name)),
        any_contains(installed, plain_candidates(hf_name)) ==> exists|n: Seq<char>|
            #[trigger] installed.contains(n) && (text::occurs(n, outside::lowercase(hf_name))
                || text::occurs(n, repo_lower(hf_name)) || text::occurs(
                n,
                without_variants(repo_lower(hf_name)),
            )),
{
    let c = plain_candidates(hf_name);
    let full = outside::lowercase(hf_name);
    let repo = repo_lower(hf_name);
    assert(c[0] == full);
    if repo != full {
        assert(c[1] == repo);
    }
    let stripped = without_variants(repo);
    if stripped != repo {
        assert(c[c.len() - 1] == stripped);
    }
    if any_contains(installed, c) {
        let (n, i) = choose|n: Seq<char>, i: int|
            #![trigger installed.contains(n), c[i]]
            installed.contains(n) && 0 <= i < c.len() && text::occurs(n, c[i]);
        assert(c[i] == full || c[i] == repo || c[i] == stripped);
        assert(installed.contains(n));
    }
}

/// The name of a repository is what stands behind the owner, in lower case.
pub proof fn law_owner_is_taken_off(owner: Seq<char>, repo: Seq<char>)
    requires
        !repo.contains('/'),
    ensures
        repo_lower(owner + seq!['/'] + repo) == outside::lowercase(repo),
        repo_lower(repo) == outside::lowercase(repo),
{
    let s = owner + seq!['/'] + repo;
    text::law_cutting(s, '/');
    text::law_cutting(repo, '/');
    let tail = text::after_last(s, seq!['/']);
    assert(s[owner.len() as int] == '/');
    assert(s.contains('/'));
    let at = s.len() - tail.len() - 1;
    if at > owner.len() {
        assert(repo[at - owner.len() - 1] == s[at]);
        assert(repo.contains(s[at]));
    }
    if at < owner.len() {
        assert(tail[owner.len() - at - 1] == s[owner.len() as int]);
        assert(tail.contains('/'));
    }
    assert(tail =~= repo);
}

/// In LM Studio's directory a model lies under its name or under the part behind the owner, and
/// under no other.
pub proof fn law_disk_candidates(hf_name: Seq<char>, name: Seq<char>)
    ensures
        disk_candidates(hf_name).contains(name) <==> name == outside::lowercase(hf_name) || name
            == repo_lower(hf_name),
        disk_candidates(hf_name)[0] == outside::lowercase(hf_name),
{
    let c = disk_candidates(hf_name);
    assert(c[0] == outside::lowercase(hf_name));
    if repo_lower(hf_name) != outside::lowercase(hf_name) {
        assert(c[1] == repo_lower(hf_name));
    }
    assert(c.contains(c[0]));
}

/// A model of llama.cpp counts under its name or its name without the marks of tuned variants,
/// and a longer name does not stand for it.
pub proof fn law_file_stems_are_compared(hf_name: Seq<char>, stem: Seq<char>)
    ensures
        installed_llamacpp(hf_name, set![stem]) <==> stem == repo_lower(hf_name) || stem
            == without_variants(repo_lower(hf_name)),
        !installed_llamacpp(hf_name, Set::empty()),
{
}

/// A tag with a size stands for itself and for its variants behind a hyphen; one without a size
/// only for itself.
pub proof fn law_docker_variants_match(candidate: Seq<char>, tail: Seq<char>, other: Seq<char>)
    ensures
        docker_matches(candidate, candidate),
        text::occurs(candidate, ":"@) ==> docker_matches(candidate + seq!['-'] + tail, candidate),
        !text::occurs(candidate, ":"@) && other != candidate ==> !docker_matches(other, candidate),
        docker_matches(other, candidate) ==> candidate.is_prefix_of(other),
{
    reveal_strlit("-");
    assert("-"@ =~= seq!['-']);
    let s = candidate + seq!['-'] + tail;
    let p = candidate + "-"@;
    assert(s.subrange(0, p.len() as int) =~= p);
    assert(p.is_prefix_of(s));
    assert(candidate.subrange(0, candidate.len() as int) =~= candidate);
    if p.is_prefix_of(other) {
        assert(other.subrange(0, candidate.len() as int) =~= candidate) by {
            let front = other.subrange(0, p.len() as int);
            assert forall|k: int| 0 <= k < candidate.len() implies other[k] == candidate[k] by {
                assert(front[k] == p[k]);
            }
        }
    }
}

/// The candidates of a model at Docker Hub are its tag, the tag without the namespace and the
/// tag without the size; a model without a tag has none, and nothing is found for it.
pub proof fn law_docker_candidates(hf_name: Seq<char>, installed: Set<Seq<char>>)
    ensures
        docker_tag(hf_name) is None ==> docker_candidates(hf_name).len() == 0 && !installed_docker(
            hf_name,
            installed,
        ),
        docker_tag(hf_name) matches Some(tag) ==> {
            &&& docker_candidates(hf_name).contains(tag)
            &&& docker_candidates(hf_name).contains(tag.skip(3))
            &&& docker_candidates(hf_name).contains(text::before_first(tag, seq![':']))
            &&& installed.contains(tag) ==> installed_docker(hf_name, installed)
        },
{
    law_docker_tag_ignores_case(hf_name);
    reveal_strlit("ai/");
    if let Some(tag) = docker_tag(hf_name) {
        let c = docker_candidates(hf_name);
        assert(c[0] == tag);
        assert(c[1] == tag.skip(3));
        assert(c[2] == text::before_first(tag, seq![':']));
        if installed.contains(tag) {
            assert(docker_matches(tag, c[0]));
        }
    }
}

/// A stem stands for itself and for what is left of it without a mark of quantization; a tag is
/// of a model where it names a file with the model's own stem, in whatever directory.
pub proof fn law_tags_name_files(stem: Seq<char>, tag: Seq<char>, hf_name: Seq<char>)
    ensures
        stem_names(stem).contains(stem),
        quant::gguf_base(stem) matches Some(b) ==> stem_names(stem).contains(b),
        quant::mlx_base(stem) matches Some(b) ==> stem_names(stem).contains(b),
        tag_stem(tag) == repo_lower(hf_name) ==> tag_is_of(tag, hf_name),
        quant::gguf_base(tag_stem(tag)) == Some(repo_lower(hf_name)) ==> tag_is_of(tag, hf_name),
{
}

} // verus!
