//! MLX models: repository names and the names under which they may be installed.
use vstd::prelude::*;
use crate::names::NameSet;
use crate::outside;
use crate::providers::matching;
use crate::providers::quant;
use crate::text;

verus! {

// ---------------------------------------------------------------------------
// Repositories
// ---------------------------------------------------------------------------

/// A repository name in lower case that belongs to a GGUF repository.
pub open spec fn likely_gguf(repo_lower: Seq<char>) -> bool {
    text::occurs(repo_lower, "-gguf"@) || "gguf"@.is_suffix_of(repo_lower)
}

/// A repository that holds an MLX model, going by its names; GGUF repositories never do.
pub open spec fn likely_mlx(owner: Seq<char>, repo: Seq<char>) -> bool {
    let o = outside::lowercase(owner);
    let r = outside::lowercase(repo);
    !likely_gguf(r) && (o == "mlx-community"@ || text::occurs(r, "-mlx-"@) || "-mlx"@.is_suffix_of(r)
        || text::occurs(r, "mlx-"@) || "mlx"@.is_suffix_of(r))
}

/// Whether a repository name in lower case belongs to a GGUF repository.
pub fn is_likely_gguf_repo(repo_lower: &str) -> (r: bool)
    ensures
        r == likely_gguf(repo_lower@),
{
    text::contains_text(repo_lower, "-gguf") || text::ends_with(repo_lower, "gguf")
}

/// Whether a repository holds an MLX model, going by its names.
pub fn is_likely_mlx_repo(owner: &str, repo: &str) -> (r: bool)
    ensures
        r == likely_mlx(owner@, repo@),
{
    let o = outside::to_lowercase(owner);
    let r = outside::to_lowercase(repo);
    if is_likely_gguf_repo(&r) {
        return false;
    }
    text::same(&o, "mlx-community") || text::contains_text(&r, "-mlx-") || text::ends_with(
        &r,
        "-mlx",
    ) || text::contains_text(&r, "mlx-") || text::ends_with(&r, "mlx")
}

/// The id `owner/repo` in lower case of a name that is one of an MLX repository: exactly
/// one slash, with something that is not white space on either side of it.
pub open spec fn explicit_mlx_id(hf_name: Seq<char>) -> Option<Seq<char>> {
    let parts = text::pieces(hf_name, '/');
    let owner = text::trim(parts[0]);
    let repo = text::trim(parts[1]);
    if parts.len() == 2 && owner.len() > 0 && repo.len() > 0 && likely_mlx(owner, repo) {
        Some(outside::lowercase(owner) + "/"@ + outside::lowercase(repo))
    } else {
        None
    }
}

/// The id in lower case of a name that is one of an MLX repository.
pub fn explicit_mlx_repo_id(hf_name: &str) -> (r: Option<String>)
    ensures
        text::opt_text(r) == explicit_mlx_id(hf_name@),
{
    let parts = text::split_char(hf_name, '/');
    let ghost p = text::texts(parts@);
    assert(p == text::pieces(hf_name@, '/'));
    if parts.len() != 2 {
        return None;
    }
    assert(p[0] == parts@[0]@ && p[1] == parts@[1]@);
    let owner = text::trimmed(&parts[0]);
    let repo = text::trimmed(&parts[1]);
    if owner.unicode_len() == 0 || repo.unicode_len() == 0 || !is_likely_mlx_repo(owner, repo) {
        return None;
    }
    let mut id = outside::to_lowercase(owner);
    id.append("/");
    id.append(&outside::to_lowercase(repo));
    Some(id)
}

// ---------------------------------------------------------------------------
// Candidates
// ---------------------------------------------------------------------------

/// The catalog names with a known MLX repository, each with the name of that repository
/// without its quantization mark.
pub open spec fn mlx_table() -> Seq<(&'static str, &'static str)> {
    seq![
        ("Llama-3.3-70B-Instruct", "Llama-3.3-70B-Instruct"),
        ("Llama-3.2-3B-Instruct", "Llama-3.2-3B-Instruct"),
        ("Llama-3.2-1B-Instruct", "Llama-3.2-1B-Instruct"),
        ("Llama-3.1-8B-Instruct", "Llama-3.1-8B-Instruct"),
        ("Llama-3.1-70B-Instruct", "Llama-3.1-70B-Instruct"),
        ("Qwen2.5-72B-Instruct", "Qwen2.5-72B-Instruct"),
        ("Qwen2.5-32B-Instruct", "Qwen2.5-32B-Instruct"),
        ("Qwen2.5-14B-Instruct", "Qwen2.5-14B-Instruct"),
        ("Qwen2.5-7B-Instruct", "Qwen2.5-7B-Instruct"),
        ("Qwen2.5-Coder-32B-Instruct", "Qwen2.5-Coder-32B-Instruct"),
        ("Qwen2.5-Coder-14B-Instruct", "Qwen2.5-Coder-14B-Instruct"),
        ("Qwen2.5-Coder-7B-Instruct", "Qwen2.5-Coder-7B-Instruct"),
        ("Qwen3-32B", "Qwen3-32B"),
        ("Qwen3-14B", "Qwen3-14B"),
        ("Qwen3-8B", "Qwen3-8B"),
        ("Qwen3-4B", "Qwen3-4B"),
        ("Qwen3-1.7B", "Qwen3-1.7B"),
        ("Qwen3-0.6B", "Qwen3-0.6B"),
        ("Qwen3-30B-A3B", "Qwen3-30B-A3B"),
        ("Qwen3-235B-A22B", "Qwen3-235B-A22B"),
        ("Qwen3.5-0.6B", "Qwen3.5-0.6B"),
        ("Qwen3.5-1.7B", "Qwen3.5-1.7B"),
        ("Qwen3.5-4B", "Qwen3.5-4B"),
        ("Qwen3.5-8B", "Qwen3.5-8B"),
        ("Qwen3.5-9B", "Qwen3.5-9B"),
        ("Qwen3.5-14B", "Qwen3.5-14B"),
        ("Qwen3.5-27B", "Qwen3.5-27B"),
        ("Qwen3.5-32B", "Qwen3.5-32B"),
        ("Qwen3.5-35B-A3B", "Qwen3.5-35B-A3B"),
        ("Qwen3.5-72B", "Qwen3.5-72B"),
        ("Qwen3.5-122B-A10B", "Qwen3.5-122B-A10B"),
        ("Qwen3.5-397B-A17B", "Qwen3.5-397B-A17B"),
        ("Mistral-7B-Instruct-v0.3", "Mistral-7B-Instruct-v0.3"),
        ("Mistral-Small-24B-Instruct-2501", "Mistral-Small-24B-Instruct-2501"),
        ("Mixtral-8x7B-Instruct-v0.1", "Mixtral-8x7B-Instruct-v0.1"),
        ("Mistral-Small-3.1-24B-Instruct-2503", "Mistral-Small-3.1-24B-Instruct-2503"),
        ("Ministral-8B-Instruct-2410", "Ministral-8B-Instruct-2410"),
        ("Mistral-Nemo-Instruct-2407", "Mistral-Nemo-Instruct-2407"),
        ("DeepSeek-R1-Distill-Qwen-32B", "DeepSeek-R1-Distill-Qwen-32B"),
        ("DeepSeek-R1-Distill-Qwen-7B", "DeepSeek-R1-Distill-Qwen-7B"),
        ("DeepSeek-R1-Distill-Qwen-14B", "DeepSeek-R1-Distill-Qwen-14B"),
        ("DeepSeek-R1-Distill-Llama-8B", "DeepSeek-R1-Distill-Llama-8B"),
        ("DeepSeek-R1-Distill-Llama-70B", "DeepSeek-R1-Distill-Llama-70B"),
        ("gemma-3-12b-it", "gemma-3-12b-it"),
        ("gemma-2-27b-it", "gemma-2-27b-it"),
        ("gemma-2-9b-it", "gemma-2-9b-it"),
        ("gemma-2-2b-it", "gemma-2-2b-it"),
        ("gemma-3-1b-it", "gemma-3-1b-it"),
        ("gemma-3-4b-it", "gemma-3-4b-it"),
        ("gemma-3-27b-it", "gemma-3-27b-it"),
        ("gemma-3n-E4B-it", "gemma-3n-E4B-it"),
        ("gemma-3n-E2B-it", "gemma-3n-E2B-it"),
        ("Phi-4", "Phi-4"),
        ("Phi-3.5-mini-instruct", "Phi-3.5-mini-instruct"),
        ("Phi-3-mini-4k-instruct", "Phi-3-mini-4k-instruct"),
        ("Phi-4-mini-instruct", "Phi-4-mini-instruct"),
        ("Phi-4-reasoning", "Phi-4-reasoning"),
        ("Phi-4-mini-reasoning", "Phi-4-mini-reasoning"),
        ("Llama-4-Scout-17B-16E-Instruct", "Llama-4-Scout-17B-16E-Instruct"),
        ("Llama-4-Maverick-17B-128E-Instruct", "Llama-4-Maverick-17B-128E-Instruct"),
    ]
}

fn mlx_rows() -> (r: Vec<(&'static str, &'static str)>)
    ensures
        r@ == mlx_table(),
{
    vec![
        ("Llama-3.3-70B-Instruct", "Llama-3.3-70B-Instruct"),
        ("Llama-3.2-3B-Instruct", "Llama-3.2-3B-Instruct"),
        ("Llama-3.2-1B-Instruct", "Llama-3.2-1B-Instruct"),
        ("Llama-3.1-8B-Instruct", "Llama-3.1-8B-Instruct"),
        ("Llama-3.1-70B-Instruct", "Llama-3.1-70B-Instruct"),
        ("Qwen2.5-72B-Instruct", "Qwen2.5-72B-Instruct"),
        ("Qwen2.5-32B-Instruct", "Qwen2.5-32B-Instruct"),
        ("Qwen2.5-14B-Instruct", "Qwen2.5-14B-Instruct"),
        ("Qwen2.5-7B-Instruct", "Qwen2.5-7B-Instruct"),
        ("Qwen2.5-Coder-32B-Instruct", "Qwen2.5-Coder-32B-Instruct"),
        ("Qwen2.5-Coder-14B-Instruct", "Qwen2.5-Coder-14B-Instruct"),
        ("Qwen2.5-Coder-7B-Instruct", "Qwen2.5-Coder-7B-Instruct"),
        ("Qwen3-32B", "Qwen3-32B"),
        ("Qwen3-14B", "Qwen3-14B"),
        ("Qwen3-8B", "Qwen3-8B"),
        ("Qwen3-4B", "Qwen3-4B"),
        ("Qwen3-1.7B", "Qwen3-1.7B"),
        ("Qwen3-0.6B", "Qwen3-0.6B"),
        ("Qwen3-30B-A3B", "Qwen3-30B-A3B"),
        ("Qwen3-235B-A22B", "Qwen3-235B-A22B"),
        ("Qwen3.5-0.6B", "Qwen3.5-0.6B"),
        ("Qwen3.5-1.7B", "Qwen3.5-1.7B"),
        ("Qwen3.5-4B", "Qwen3.5-4B"),
        ("Qwen3.5-8B", "Qwen3.5-8B"),
        ("Qwen3.5-9B", "Qwen3.5-9B"),
        ("Qwen3.5-14B", "Qwen3.5-14B"),
        ("Qwen3.5-27B", "Qwen3.5-27B"),
        ("Qwen3.5-32B", "Qwen3.5-32B"),
        ("Qwen3.5-35B-A3B", "Qwen3.5-35B-A3B"),
        ("Qwen3.5-72B", "Qwen3.5-72B"),
        ("Qwen3.5-122B-A10B", "Qwen3.5-122B-A10B"),
        ("Qwen3.5-397B-A17B", "Qwen3.5-397B-A17B"),
        ("Mistral-7B-Instruct-v0.3", "Mistral-7B-Instruct-v0.3"),
        ("Mistral-Small-24B-Instruct-2501", "Mistral-Small-24B-Instruct-2501"),
        ("Mixtral-8x7B-Instruct-v0.1", "Mixtral-8x7B-Instruct-v0.1"),
        ("Mistral-Small-3.1-24B-Instruct-2503", "Mistral-Small-3.1-24B-Instruct-2503"),
        ("Ministral-8B-Instruct-2410", "Ministral-8B-Instruct-2410"),
        ("Mistral-Nemo-Instruct-2407", "Mistral-Nemo-Instruct-2407"),
        ("DeepSeek-R1-Distill-Qwen-32B", "DeepSeek-R1-Distill-Qwen-32B"),
        ("DeepSeek-R1-Distill-Qwen-7B", "DeepSeek-R1-Distill-Qwen-7B"),
        ("DeepSeek-R1-Distill-Qwen-14B", "DeepSeek-R1-Distill-Qwen-14B"),
        ("DeepSeek-R1-Distill-Llama-8B", "DeepSeek-R1-Distill-Llama-8B"),
        ("DeepSeek-R1-Distill-Llama-70B", "DeepSeek-R1-Distill-Llama-70B"),
        ("gemma-3-12b-it", "gemma-3-12b-it"),
        ("gemma-2-27b-it", "gemma-2-27b-it"),
        ("gemma-2-9b-it", "gemma-2-9b-it"),
        ("gemma-2-2b-it", "gemma-2-2b-it"),
        ("gemma-3-1b-it", "gemma-3-1b-it"),
        ("gemma-3-4b-it", "gemma-3-4b-it"),
        ("gemma-3-27b-it", "gemma-3-27b-it"),
        ("gemma-3n-E4B-it", "gemma-3n-E4B-it"),
        ("gemma-3n-E2B-it", "gemma-3n-E2B-it"),
        ("Phi-4", "Phi-4"),
        ("Phi-3.5-mini-instruct", "Phi-3.5-mini-instruct"),
        ("Phi-3-mini-4k-instruct", "Phi-3-mini-4k-instruct"),
        ("Phi-4-mini-instruct", "Phi-4-mini-instruct"),
        ("Phi-4-reasoning", "Phi-4-reasoning"),
        ("Phi-4-mini-reasoning", "Phi-4-mini-reasoning"),
        ("Llama-4-Scout-17B-16E-Instruct", "Llama-4-Scout-17B-16E-Instruct"),
        ("Llama-4-Maverick-17B-128E-Instruct", "Llama-4-Maverick-17B-128E-Instruct"),
    ]
}

/// The repository name, in lower case, of the first row at or after number `i` whose catalog
/// name is `repo` or `base`.
pub open spec fn mlx_mapped_from(repo: Seq<char>, base: Seq<char>, i: int) -> Option<Seq<char>>
    decreases mlx_table().len() - i,
{
    if i < 0 || i >= mlx_table().len() {
        None
    } else {
        let name = outside::lowercase(mlx_table()[i].0@);
        if repo == name || base == name {
            Some(outside::lowercase(mlx_table()[i].1@))
        } else {
            mlx_mapped_from(repo, base, i + 1)
        }
    }
}

fn mlx_mapped(repo: &String, base: &String) -> (r: Option<String>)
    ensures
        text::opt_text(r) == mlx_mapped_from(repo@, base@, 0),
{
    let rows = mlx_rows();
    for i in 0..rows.len()
        invariant
            rows@ == mlx_table(),
            mlx_mapped_from(repo@, base@, 0) == mlx_mapped_from(repo@, base@, i as int),
    {
        let name = outside::to_lowercase(rows[i].0);
        if *repo == name || *base == name {
            return Some(outside::to_lowercase(rows[i].1));
        }
    }
    None
}

/// `list` with `x` at its end, unless `x` is empty or already there.
pub open spec fn push_unique(list: Seq<Seq<char>>, x: Seq<char>) -> Seq<Seq<char>> {
    if x.len() > 0 && !list.contains(x) {
        list.push(x)
    } else {
        list
    }
}

/// Adds `candidate` at the end, unless it is empty or already there.
pub fn push_unique_candidate(candidates: &mut Vec<String>, candidate: String)
    ensures
        text::texts(final(candidates)@) == push_unique(text::texts(old(candidates)@), candidate@),
{
    let ghost before = text::texts(candidates@);
    if candidate.as_str().unicode_len() == 0 {
        return;
    }
    for i in 0..candidates.len()
        invariant
            before == text::texts(candidates@),
            forall|j: int| 0 <= j < i ==> before[j] != candidate@,
    {
        if candidates[i] == candidate {
            assert(before[i as int] == candidate@);
            return;
        }
    }
    assert(!before.contains(candidate@));
    candidates.push(candidate);
    assert(text::texts(candidates@) =~= before.push(candidate@));
}

/// The names of the four quantized forms of `base` and `base` itself, behind `list`.
pub open spec fn with_forms(list: Seq<Seq<char>>, base: Seq<char>) -> Seq<Seq<char>> {
    let a = push_unique(list, base + "-4bit"@);
    let b = push_unique(a, base + "-8bit"@);
    let c = push_unique(b, base + "-mlx-4bit"@);
    let d = push_unique(c, base + "-mlx-8bit"@);
    push_unique(d, base)
}

/// The tuning marks that are taken off the end of a name, in the order in which they are
/// looked for.
pub open spec fn tuning_marks() -> Seq<&'static str> {
    seq!["-instruct", "-chat", "-hf", "-it", "-base"]
}

/// The length of the first of the marks at or after number `k` that ends `name`.
pub open spec fn tuning_mark_len(name: Seq<char>, k: int) -> Option<nat>
    decreases tuning_marks().len() - k,
{
    if k < 0 || k >= tuning_marks().len() {
        None
    } else if tuning_marks()[k]@.is_suffix_of(name) {
        Some(tuning_marks()[k]@.len())
    } else {
        tuning_mark_len(name, k + 1)
    }
}

pub proof fn lemma_trim_end_char_shorter(s: Seq<char>, c: char)
    ensures
        text::trim_end_char(s, c).is_prefix_of(s),
    decreases s.len(),
{
    if s.len() > 0 && s.last() == c {
        lemma_trim_end_char_shorter(s.drop_last(), c);
        let t = text::trim_end_char(s.drop_last(), c);
        assert(s.drop_last().subrange(0, t.len() as int) =~= s.subrange(0, t.len() as int));
    } else {
        assert(s.subrange(0, s.len() as int) =~= s);
    }
}

/// `name` without the tuning marks at its end and the dashes before them.
pub open spec fn without_tuning(name: Seq<char>) -> Seq<char>
    decreases name.len(),
{
    match tuning_mark_len(name, 0) {
        Some(n) => {
            proof {
                lemma_trim_end_char_shorter(name.take(name.len() - n), '-');
            }
            if 0 < n <= name.len() {
                without_tuning(text::trim_end_char(name.take(name.len() - n), '-'))
            } else {
                name
            }
        },
        None => name,
    }
}

/// The length of the tuning mark that ends `name`.
fn tuning_mark(name: &str) -> (r: Option<usize>)
    ensures
        match r {
            Some(n) => tuning_mark_len(name@, 0) == Some(n as nat) && 0 < n <= name@.len(),
            None => tuning_mark_len(name@, 0) is None,
        },
{
    let marks = ["-instruct", "-chat", "-hf", "-it", "-base"];
    assert(marks@ == tuning_marks());
    proof {
        reveal_strlit("-instruct");
        reveal_strlit("-chat");
        reveal_strlit("-hf");
        reveal_strlit("-it");
        reveal_strlit("-base");
    }
    for k in 0..marks.len()
        invariant
            marks@ == tuning_marks(),
            forall|j: int| 0 <= j < tuning_marks().len() ==> #[trigger] tuning_marks()[j]@.len() > 0,
            tuning_mark_len(name@, 0) == tuning_mark_len(name@, k as int),
    {
        if text::ends_with(name, marks[k]) {
            assert(tuning_marks()[k as int]@.len() > 0);
            return Some(marks[k].unicode_len());
        }
    }
    None
}

/// Takes the tuning marks off the end of `name`, with the dashes before them.
pub fn strip_trailing_common_model_suffixes(name: &str) -> (r: String)
    ensures
        r@ == without_tuning(name@),
{
    let mut out: &str = name;
    loop
        invariant
            without_tuning(out@) == without_tuning(name@),
        decreases out@.len(),
    {
        match tuning_mark(out) {
            Some(n) => {
                let m: usize = out.unicode_len() - n;
                let cut = out.substring_char(0, m);
                proof {
                    lemma_trim_end_char_shorter(cut@, '-');
                    assert(cut@ == out@.take(out@.len() - n));
                }
                out = text::trimmed_end_char(cut, '-');
            },
            None => {
                return out.to_string();
            },
        }
    }
}

/// The candidates that do not depend on the table: the explicit MLX id with and without
/// its owner, and the name without its owner.
pub open spec fn mlx_own_names(hf_name: Seq<char>) -> Seq<Seq<char>> {
    let start = match explicit_mlx_id(hf_name) {
        Some(id) => push_unique(push_unique(seq![], id), text::after_last(id, seq!['/'])),
        None => seq![],
    };
    push_unique(start, matching::repo_lower(hf_name))
}

/// The names under which a catalog model may be installed as an MLX model, likeliest first.
pub open spec fn mlx_candidates(hf_name: Seq<char>) -> Seq<Seq<char>> {
    let own = mlx_own_names(hf_name);
    let repo = matching::repo_lower(hf_name);
    let base = quant::mlx_repo_base(repo);
    match mlx_mapped_from(repo, base, 0) {
        Some(name) => push_unique(
            push_unique(push_unique(own, name + "-4bit"@), name + "-8bit"@),
            name,
        ),
        None => {
            let general = if base.len() > 0 {
                with_forms(own, base)
            } else {
                own
            };
            let stripped = without_tuning(base);
            if stripped.len() > 0 && stripped != base {
                with_forms(general, stripped)
            } else {
                general
            }
        },
    }
}

/// `a` followed by `b`.
fn joined(a: &str, b: &str) -> (r: String)
    ensures
        r@ == a@ + b@,
{
    let mut out = a.to_string();
    out.append(b);
    out
}

fn push_forms(candidates: &mut Vec<String>, base: &str)
    ensures
        text::texts(final(candidates)@) == with_forms(text::texts(old(candidates)@), base@),
{
    push_unique_candidate(candidates, joined(base, "-4bit"));
    push_unique_candidate(candidates, joined(base, "-8bit"));
    push_unique_candidate(candidates, joined(base, "-mlx-4bit"));
    push_unique_candidate(candidates, joined(base, "-mlx-8bit"));
    push_unique_candidate(candidates, base.to_string());
}

/// Every candidate is there once, and none is empty.
pub open spec fn clean(list: Seq<Seq<char>>) -> bool {
    list.no_duplicates() && forall|i: int| 0 <= i < list.len() ==> (#[trigger] list[i]).len() > 0
}

proof fn lemma_push_unique_clean(list: Seq<Seq<char>>, x: Seq<char>)
    requires
        clean(list),
    ensures
        clean(push_unique(list, x)),
{
    if x.len() > 0 && !list.contains(x) {
        let b = list.push(x);
        assert forall|i: int, j: int| 0 <= i < b.len() && 0 <= j < b.len() && i != j implies b[i]
            != b[j] by {
            if i == list.len() {
                assert(list.contains(list[j]));
            }
            if j == list.len() {
                assert(list.contains(list[i]));
            }
        }
    }
}

proof fn lemma_with_forms_clean(list: Seq<Seq<char>>, base: Seq<char>)
    requires
        clean(list),
    ensures
        clean(with_forms(list, base)),
{
    let a = push_unique(list, base + "-4bit"@);
    let b = push_unique(a, base + "-8bit"@);
    let c = push_unique(b, base + "-mlx-4bit"@);
    let d = push_unique(c, base + "-mlx-8bit"@);
    lemma_push_unique_clean(list, base + "-4bit"@);
    lemma_push_unique_clean(a, base + "-8bit"@);
    lemma_push_unique_clean(b, base + "-mlx-4bit"@);
    lemma_push_unique_clean(c, base + "-mlx-8bit"@);
    lemma_push_unique_clean(d, base);
}

/// No candidate of a catalog model is empty, and none occurs twice.
pub proof fn law_mlx_candidates_distinct(hf_name: Seq<char>)
    ensures
        mlx_candidates(hf_name).no_duplicates(),
        forall|i: int|
            0 <= i < mlx_candidates(hf_name).len() ==> (#[trigger] mlx_candidates(hf_name)[i]).len()
                > 0,
{
    let none: Seq<Seq<char>> = seq![];
    assert(clean(none));
    let start = match explicit_mlx_id(hf_name) {
        Some(id) => {
            lemma_push_unique_clean(none, id);
            lemma_push_unique_clean(push_unique(none, id), text::after_last(id, seq!['/']));
            push_unique(push_unique(none, id), text::after_last(id, seq!['/']))
        },
        None => none,
    };
    let repo = matching::repo_lower(hf_name);
    let base = quant::mlx_repo_base(repo);
    lemma_push_unique_clean(start, repo);
    let own = mlx_own_names(hf_name);
    match mlx_mapped_from(repo, base, 0) {
        Some(name) => {
            let a = push_unique(own, name + "-4bit"@);
            let b = push_unique(a, name + "-8bit"@);
            lemma_push_unique_clean(own, name + "-4bit"@);
            lemma_push_unique_clean(a, name + "-8bit"@);
            lemma_push_unique_clean(b, name);
        },
        None => {
            lemma_with_forms_clean(own, base);
            let general = if base.len() > 0 {
                with_forms(own, base)
            } else {
                own
            };
            lemma_with_forms_clean(general, without_tuning(base));
        },
    }
}

/// A text of ASCII characters that has no capital letter.
pub open spec fn is_lower(s: Seq<char>) -> bool {
    text::is_ascii_text(s) && outside::lowercase(s) == s
}

/// No text of the row has a capital letter.
pub open spec fn all_lower(list: Seq<Seq<char>>) -> bool {
    forall|i: int| 0 <= i < list.len() ==> is_lower(#[trigger] list[i])
}

proof fn lemma_part_is_ascii(s: Seq<char>, p: Seq<char>)
    requires
        text::is_ascii_text(s),
        text::occurs(s, p),
    ensures
        text::is_ascii_text(p),
{
    let i = choose|i: int| text::occurs_at(s, p, i);
    assert forall|k: int| 0 <= k < p.len() implies (#[trigger] p[k] as u32) < 128 by {
        assert(p[k] == s.subrange(i, i + p.len())[k]);
        assert((s[i + k] as u32) < 128);
    }
}

proof fn lemma_part_is_lower(s: Seq<char>, p: Seq<char>)
    requires
        is_lower(s),
        text::occurs(s, p),
    ensures
        is_lower(p),
{
    lemma_part_is_ascii(s, p);
    let i = choose|i: int| text::occurs_at(s, p, i);
    assert forall|k: int| 0 <= k < p.len() implies text::ascii_lower(#[trigger] p[k]) == p[k] by {
        assert(p[k] == s.subrange(i, i + p.len())[k]);
        assert(text::ascii_lowercase(s)[i + k] == s[i + k]);
    }
    assert(text::ascii_lowercase(p) =~= p);
}

proof fn lemma_joined_is_lower(a: Seq<char>, b: Seq<char>)
    requires
        is_lower(a),
        is_lower(b),
    ensures
        is_lower(a + b),
{
    let c = a + b;
    assert forall|k: int| 0 <= k < c.len() implies (#[trigger] c[k] as u32) < 128
        && text::ascii_lower(c[k]) == c[k] by {
        if k < a.len() {
            assert((a[k] as u32) < 128);
            assert(text::ascii_lowercase(a)[k] == a[k]);
        } else {
            assert((b[k - a.len()] as u32) < 128);
            assert(text::ascii_lowercase(b)[k - a.len()] == b[k - a.len()]);
        }
    }
    assert(text::ascii_lowercase(c) =~= c);
}

proof fn lemma_marks_are_lower()
    ensures
        is_lower("/"@),
        is_lower("-4bit"@),
        is_lower("-8bit"@),
        is_lower("-mlx-4bit"@),
        is_lower("-mlx-8bit"@),
{
    reveal_strlit("/");
    reveal_strlit("-4bit");
    reveal_strlit("-8bit");
    reveal_strlit("-mlx-4bit");
    reveal_strlit("-mlx-8bit");
    assert(text::ascii_lowercase("/"@) =~= "/"@);
    assert(text::ascii_lowercase("-4bit"@) =~= "-4bit"@);
    assert(text::ascii_lowercase("-8bit"@) =~= "-8bit"@);
    assert(text::ascii_lowercase("-mlx-4bit"@) =~= "-mlx-4bit"@);
    assert(text::ascii_lowercase("-mlx-8bit"@) =~= "-mlx-8bit"@);
}

proof fn lemma_piece_occurs(s: Seq<char>, sep: char, k: int)
    requires
        0 <= k < text::pieces(s, sep).len(),
    ensures
        text::occurs(s, text::pieces(s, sep)[k]),
    decreases s.len(),
{
    quant::lemma_front_occurs(s, s.len() as int);
    assert(s.take(s.len() as int) =~= s);
    if let Some(i) = text::find_any_from(s, seq![sep], 0) {
        if 0 <= i < s.len() {
            quant::lemma_front_occurs(s, i);
            if k > 0 {
                let rest = s.skip(i + 1);
                lemma_piece_occurs(rest, sep, k - 1);
                quant::lemma_back_occurs(s, i + 1);
                quant::lemma_part_of_part(s, rest, text::pieces(rest, sep)[k - 1]);
            }
        }
    }
}

proof fn lemma_trim_start_occurs(s: Seq<char>)
    ensures
        text::occurs(s, text::trim_start(s)),
    decreases s.len(),
{
    if s.len() > 0 && text::is_white_space(s[0]) {
        lemma_trim_start_occurs(s.skip(1));
        quant::lemma_back_occurs(s, 1);
        quant::lemma_part_of_part(s, s.skip(1), text::trim_start(s));
    } else {
        quant::lemma_back_occurs(s, 0);
        assert(s.skip(0) =~= s);
    }
}

proof fn lemma_trim_end_occurs(s: Seq<char>)
    ensures
        text::occurs(s, text::trim_end(s)),
    decreases s.len(),
{
    quant::lemma_front_occurs(s, s.len() as int);
    assert(s.take(s.len() as int) =~= s);
    if s.len() > 0 && text::is_white_space(s.last()) {
        lemma_trim_end_occurs(s.drop_last());
        quant::lemma_front_occurs(s, s.len() - 1);
        assert(s.take(s.len() - 1) =~= s.drop_last());
        quant::lemma_part_of_part(s, s.drop_last(), text::trim_end(s));
    }
}

/// A trimmed piece of an ASCII text, in lower case, has no capital letter.
proof fn lemma_piece_is_lower(s: Seq<char>, sep: char, k: int)
    requires
        text::is_ascii_text(s),
        0 <= k < text::pieces(s, sep).len(),
    ensures
        is_lower(outside::lowercase(text::trim(text::pieces(s, sep)[k]))),
{
    let piece = text::pieces(s, sep)[k];
    let rest = text::trim_start(piece);
    lemma_piece_occurs(s, sep, k);
    lemma_trim_start_occurs(piece);
    lemma_trim_end_occurs(rest);
    quant::lemma_part_of_part(piece, rest, text::trim(piece));
    quant::lemma_part_of_part(s, piece, text::trim(piece));
    lemma_part_is_ascii(s, text::trim(piece));
    matching::lemma_lowercase_twice(text::trim(piece));
}

proof fn lemma_after_last_occurs(s: Seq<char>)
    ensures
        text::occurs(s, text::after_last(s, seq!['/'])),
{
    lemma_slash_place(s, s.len() as int);
    quant::lemma_back_occurs(s, 0);
    assert(s.skip(0) =~= s);
    if let Some(i) = text::rfind_any_before(s, seq!['/'], s.len() as int) {
        quant::lemma_back_occurs(s, i + 1);
    }
}

proof fn lemma_slash_place(s: Seq<char>, i: int)
    requires
        0 <= i <= s.len(),
    ensures
        text::rfind_any_before(s, seq!['/'], i) matches Some(j) ==> 0 <= j < i,
    decreases i,
{
    if i > 0 {
        lemma_slash_place(s, i - 1);
    }
}

proof fn lemma_tuning_occurs(name: Seq<char>)
    ensures
        text::occurs(name, without_tuning(name)),
    decreases name.len(),
{
    quant::lemma_front_occurs(name, name.len() as int);
    assert(name.take(name.len() as int) =~= name);
    if let Some(n) = tuning_mark_len(name, 0) {
        if 0 < n <= name.len() {
            let cut = name.take(name.len() - n);
            let next = text::trim_end_char(cut, '-');
            lemma_trim_end_char_shorter(cut, '-');
            quant::lemma_front_occurs(name, name.len() - n);
            quant::lemma_trimmed_end_occurs(cut, '-');
            quant::lemma_part_of_part(name, cut, next);
            lemma_tuning_occurs(next);
            quant::lemma_part_of_part(name, next, without_tuning(next));
        }
    }
}

/// A known repository is named as the catalog names the model.
proof fn lemma_mapped_is_asked_for(repo: Seq<char>, base: Seq<char>, i: int)
    requires
        0 <= i,
    ensures
        mlx_mapped_from(repo, base, i) matches Some(name) ==> name == repo || name == base,
    decreases mlx_table().len() - i,
{
    if i < mlx_table().len() {
        assert(mlx_table()[i].0@ == mlx_table()[i].1@);
        lemma_mapped_is_asked_for(repo, base, i + 1);
    }
}

proof fn lemma_push_unique_lower(list: Seq<Seq<char>>, x: Seq<char>)
    requires
        all_lower(list),
        is_lower(x),
    ensures
        all_lower(push_unique(list, x)),
{
    let longer = list.push(x);
    assert forall|i: int| 0 <= i < longer.len() implies is_lower(#[trigger] longer[i]) by {
        if i < list.len() {
            assert(longer[i] == list[i]);
        }
    }
}

proof fn lemma_marked_lower(list: Seq<Seq<char>>, base: Seq<char>, mark: Seq<char>)
    requires
        all_lower(list),
        is_lower(base),
        is_lower(mark),
    ensures
        all_lower(push_unique(list, base + mark)),
{
    lemma_joined_is_lower(base, mark);
    lemma_push_unique_lower(list, base + mark);
}

proof fn lemma_with_forms_lower(list: Seq<Seq<char>>, base: Seq<char>)
    requires
        all_lower(list),
        is_lower(base),
    ensures
        all_lower(with_forms(list, base)),
{
    lemma_marks_are_lower();
    let a = push_unique(list, base + "-4bit"@);
    let b = push_unique(a, base + "-8bit"@);
    let c = push_unique(b, base + "-mlx-4bit"@);
    let d = push_unique(c, base + "-mlx-8bit"@);
    lemma_marked_lower(list, base, "-4bit"@);
    lemma_marked_lower(a, base, "-8bit"@);
    lemma_marked_lower(b, base, "-mlx-4bit"@);
    lemma_marked_lower(c, base, "-mlx-8bit"@);
    lemma_push_unique_lower(d, base);
}

proof fn lemma_own_names_are_lower(hf_name: Seq<char>)
    requires
        text::is_ascii_text(hf_name),
    ensures
        all_lower(mlx_own_names(hf_name)),
{
    let none: Seq<Seq<char>> = seq![];
    lemma_repo_is_lower(hf_name);
    match explicit_mlx_id(hf_name) {
        Some(id) => {
            lemma_explicit_id_is_lower(hf_name, id);
            let name = text::after_last(id, seq!['/']);
            lemma_after_last_occurs(id);
            lemma_part_is_lower(id, name);
            lemma_push_unique_lower(none, id);
            lemma_push_unique_lower(push_unique(none, id), name);
            lemma_push_unique_lower(
                push_unique(push_unique(none, id), name),
                matching::repo_lower(hf_name),
            );
        },
        None => {
            lemma_push_unique_lower(none, matching::repo_lower(hf_name));
        },
    }
}

proof fn lemma_explicit_id_is_lower(hf_name: Seq<char>, id: Seq<char>)
    requires
        text::is_ascii_text(hf_name),
        explicit_mlx_id(hf_name) == Some(id),
    ensures
        is_lower(id),
{
    let parts = text::pieces(hf_name, '/');
    let owner = outside::lowercase(text::trim(parts[0]));
    let name = outside::lowercase(text::trim(parts[1]));
    lemma_piece_is_lower(hf_name, '/', 0);
    lemma_piece_is_lower(hf_name, '/', 1);
    lemma_marks_are_lower();
    lemma_joined_is_lower(owner, "/"@);
    lemma_joined_is_lower(owner + "/"@, name);
}

/// No candidate of an ASCII name has a capital letter, where the base of its repository has
/// none.
proof fn lemma_candidates_are_lower(hf_name: Seq<char>)
    requires
        text::is_ascii_text(hf_name),
        is_lower(quant::mlx_repo_base(matching::repo_lower(hf_name))),
    ensures
        all_lower(mlx_candidates(hf_name)),
{
    let repo = matching::repo_lower(hf_name);
    let base = quant::mlx_repo_base(repo);
    let own = mlx_own_names(hf_name);
    lemma_own_names_are_lower(hf_name);
    lemma_repo_is_lower(hf_name);
    lemma_mapped_is_asked_for(repo, base, 0);
    match mlx_mapped_from(repo, base, 0) {
        Some(name) => {
            lemma_marks_are_lower();
            let a = push_unique(own, name + "-4bit"@);
            let b = push_unique(a, name + "-8bit"@);
            lemma_marked_lower(own, name, "-4bit"@);
            lemma_marked_lower(a, name, "-8bit"@);
            lemma_push_unique_lower(b, name);
        },
        None => {
            let stripped = without_tuning(base);
            lemma_with_forms_lower(own, base);
            lemma_tuning_occurs(base);
            lemma_part_is_lower(base, stripped);
            lemma_with_forms_lower(with_forms(own, base), stripped);
            lemma_with_forms_lower(own, stripped);
        },
    }
}

proof fn lemma_repo_is_lower(hf_name: Seq<char>)
    requires
        text::is_ascii_text(hf_name),
    ensures
        is_lower(matching::repo_lower(hf_name)),
{
    lemma_after_last_occurs(hf_name);
    lemma_part_is_ascii(hf_name, text::after_last(hf_name, seq!['/']));
    matching::lemma_lowercase_twice(text::after_last(hf_name, seq!['/']));
}

/// The names under which a catalog model may be installed as an MLX model. Those of an ASCII
/// name have no capital letter.
pub fn hf_name_to_mlx_candidates(hf_name: &str) -> (r: Vec<String>)
    ensures
        text::texts(r@) == mlx_candidates(hf_name@),
        text::is_ascii_text(hf_name@) ==> all_lower(text::texts(r@)),
{
    let mut candidates: Vec<String> = Vec::new();
    assert(text::texts(candidates@) =~= seq![]);
    let set = ['/'];
    assert(set@ == seq!['/']);
    if let Some(id) = explicit_mlx_repo_id(hf_name) {
        let name = text::tail_after(&id, &set).to_string();
        push_unique_candidate(&mut candidates, id);
        push_unique_candidate(&mut candidates, name);
    }
    let repo = matching::repo_name_lower(hf_name);
    push_unique_candidate(&mut candidates, repo.clone());
    let base = quant::normalize_mlx_repo_base(&repo);
    proof {
        if text::is_ascii_text(hf_name@) {
            lemma_repo_is_lower(hf_name@);
            lemma_part_is_lower(repo@, base@);
            lemma_candidates_are_lower(hf_name@);
        }
    }
    if let Some(name) = mlx_mapped(&repo, &base) {
        push_unique_candidate(&mut candidates, joined(&name, "-4bit"));
        push_unique_candidate(&mut candidates, joined(&name, "-8bit"));
        push_unique_candidate(&mut candidates, name);
        return candidates;
    }
    if base.as_str().unicode_len() > 0 {
        push_forms(&mut candidates, &base);
    }
    let stripped = strip_trailing_common_model_suffixes(&base);
    if stripped.as_str().unicode_len() > 0 && stripped != base {
        push_forms(&mut candidates, &stripped);
    }
    candidates
}

/// A catalog model is among the installed MLX models.
pub open spec fn installed_mlx(hf_name: Seq<char>, installed: Set<Seq<char>>) -> bool {
    installed.contains(outside::lowercase(hf_name)) || exists|i: int|
        0 <= i < mlx_candidates(hf_name).len() && installed.contains(
            #[trigger] mlx_candidates(hf_name)[i],
        )
}

/// Whether a catalog model is among the installed MLX models.
pub fn is_model_installed_mlx(hf_name: &str, installed: &NameSet) -> (r: bool)
    ensures
        r == installed_mlx(hf_name@, installed@),
{
    if installed.contains(&outside::to_lowercase(hf_name)) {
        return true;
    }
    let candidates = hf_name_to_mlx_candidates(hf_name);
    let ghost list = mlx_candidates(hf_name@);
    for i in 0..candidates.len()
        invariant
            list == mlx_candidates(hf_name@),
            text::texts(candidates@) == list,
            !installed@.contains(outside::lowercase(hf_name@)),
            forall|j: int| 0 <= j < i ==> !installed@.contains(#[trigger] list[j]),
    {
        assert(list[i as int] == candidates@[i as int]@);
        if installed.contains(&candidates[i]) {
            return true;
        }
    }
    false
}

/// A repository is one of GGUF files where its name ends so or says so, and then it is none of
/// MLX; the community's repositories are ones of MLX else.
pub proof fn law_repositories_are_told_apart(owner: Seq<char>, repo: Seq<char>)
    ensures
        likely_gguf(outside::lowercase(repo)) ==> !likely_mlx(owner, repo),
        text::occurs(repo, "-gguf"@) ==> likely_gguf(repo),
        "gguf"@.is_suffix_of(repo) ==> likely_gguf(repo),
        !likely_gguf(outside::lowercase(repo)) ==> {
            &&& outside::lowercase(owner) == "mlx-community"@ ==> likely_mlx(owner, repo)
            &&& text::occurs(outside::lowercase(repo), "mlx-"@) ==> likely_mlx(owner, repo)
            &&& "mlx"@.is_suffix_of(outside::lowercase(repo)) ==> likely_mlx(owner, repo)
        },
        likely_mlx(owner, repo) ==> outside::lowercase(owner) == "mlx-community"@ || text::occurs(
            outside::lowercase(repo),
            "mlx"@,
        ),
{
    let r = outside::lowercase(repo);
    reveal_strlit("-mlx-");
    reveal_strlit("-mlx");
    reveal_strlit("mlx-");
    reveal_strlit("mlx");
    if text::occurs(r, "-mlx-"@) {
        let i = choose|i: int| text::occurs_at(r, "-mlx-"@, i);
        lemma_part_occurs(r, "-mlx-"@, i, 1, "mlx"@);
    }
    if text::occurs(r, "mlx-"@) {
        let i = choose|i: int| text::occurs_at(r, "mlx-"@, i);
        lemma_part_occurs(r, "mlx-"@, i, 0, "mlx"@);
    }
    if "-mlx"@.is_suffix_of(r) {
        assert(text::occurs_at(r, "-mlx"@, r.len() - 4));
        lemma_part_occurs(r, "-mlx"@, r.len() - 4, 1, "mlx"@);
    }
    if "mlx"@.is_suffix_of(r) {
        assert(text::occurs_at(r, "mlx"@, r.len() - 3));
    }
}

proof fn lemma_part_occurs(s: Seq<char>, p: Seq<char>, i: int, j: int, q: Seq<char>)
    requires
        text::occurs_at(s, p, i),
        0 <= j,
        j + q.len() <= p.len(),
        p.subrange(j, j + q.len()) =~= q,
    ensures
        text::occurs(s, q),
{
    assert(s.subrange(i + j, i + j + q.len()) =~= s.subrange(i, i + p.len()).subrange(
        j,
        j + q.len(),
    ));
    assert(text::occurs_at(s, q, i + j));
}

/// A model that is in MLX's own form is known by its own name; every model is found under the
/// part of its name behind the owner, and under its whole name.
pub proof fn law_own_names_are_found(hf_name: Seq<char>, installed: Set<Seq<char>>)
    ensures
        installed.contains(outside::lowercase(hf_name)) ==> installed_mlx(hf_name, installed),
        matching::repo_lower(hf_name).len() > 0 ==> mlx_candidates(hf_name).contains(
            matching::repo_lower(hf_name),
        ),
        matching::repo_lower(hf_name).len() > 0 && installed.contains(matching::repo_lower(hf_name))
            ==> installed_mlx(hf_name, installed),
        explicit_mlx_id(hf_name) matches Some(id) ==> (id.len() > 0 ==> mlx_candidates(
            hf_name,
        ).contains(id)),
        !installed_mlx(hf_name, Set::empty()),
{
    let own = mlx_own_names(hf_name);
    let repo = matching::repo_lower(hf_name);
    lemma_candidates_hold_own(hf_name);
    let none: Seq<Seq<char>> = seq![];
    if let Some(id) = explicit_mlx_id(hf_name) {
        let tail = text::after_last(id, seq!['/']);
        let a = push_unique(none, id);
        let b = push_unique(a, tail);
        if id.len() > 0 {
            lemma_pushed(none, id);
            lemma_pushed_keeps(a, tail, id);
            lemma_pushed_keeps(b, repo, id);
            assert(own.contains(id));
        }
        if repo.len() > 0 {
            lemma_pushed(b, repo);
        }
    } else if repo.len() > 0 {
        lemma_pushed(none, repo);
    }
    if repo.len() > 0 {
        assert(own.contains(repo));
        let c = mlx_candidates(hf_name);
        assert(c.contains(repo));
        let i = choose|i: int| 0 <= i < c.len() && c[i] == repo;
        if installed.contains(repo) {
            assert(installed.contains(mlx_candidates(hf_name)[i]));
        }
    }
}

proof fn lemma_pushed(list: Seq<Seq<char>>, x: Seq<char>)
    requires
        x.len() > 0,
    ensures
        push_unique(list, x).contains(x),
{
    if !list.contains(x) {
        assert(list.push(x)[list.len() as int] == x);
    }
}

proof fn lemma_pushed_keeps(list: Seq<Seq<char>>, x: Seq<char>, y: Seq<char>)
    requires
        list.contains(y),
    ensures
        push_unique(list, x).contains(y),
{
    let k = choose|k: int| 0 <= k < list.len() && list[k] == y;
    assert(push_unique(list, x)[k] == y);
}

proof fn lemma_forms_keep(list: Seq<Seq<char>>, base: Seq<char>, y: Seq<char>)
    requires
        list.contains(y),
    ensures
        with_forms(list, base).contains(y),
{
    let a = push_unique(list, base + "-4bit"@);
    let b = push_unique(a, base + "-8bit"@);
    let c = push_unique(b, base + "-mlx-4bit"@);
    let d = push_unique(c, base + "-mlx-8bit"@);
    lemma_pushed_keeps(list, base + "-4bit"@, y);
    lemma_pushed_keeps(a, base + "-8bit"@, y);
    lemma_pushed_keeps(b, base + "-mlx-4bit"@, y);
    lemma_pushed_keeps(c, base + "-mlx-8bit"@, y);
    lemma_pushed_keeps(d, base, y);
}

proof fn lemma_candidates_hold_own(hf_name: Seq<char>)
    ensures
        forall|y: Seq<char>| #[trigger]
            mlx_own_names(hf_name).contains(y) ==> mlx_candidates(hf_name).contains(y),
{
    let own = mlx_own_names(hf_name);
    let repo = matching::repo_lower(hf_name);
    let base = quant::mlx_repo_base(repo);
    assert forall|y: Seq<char>| #[trigger] own.contains(y) implies mlx_candidates(
        hf_name,
    ).contains(y) by {
        match mlx_mapped_from(repo, base, 0) {
            Some(name) => {
                let a = push_unique(own, name + "-4bit"@);
                let b = push_unique(a, name + "-8bit"@);
                lemma_pushed_keeps(own, name + "-4bit"@, y);
                lemma_pushed_keeps(a, name + "-8bit"@, y);
                lemma_pushed_keeps(b, name, y);
            },
            None => {
                let general = if base.len() > 0 {
                    with_forms(own, base)
                } else {
                    own
                };
                lemma_forms_keep(own, base, y);
                lemma_forms_keep(general, without_tuning(base), y);
            },
        }
    }
}

/// A model is looked for in its forms of four and eight bits.
pub proof fn law_forms_are_looked_for(hf_name: Seq<char>)
    ensures
        ({
            let repo = matching::repo_lower(hf_name);
            let base = quant::mlx_repo_base(repo);
            &&& mlx_mapped_from(repo, base, 0) matches Some(name) ==> mlx_candidates(
                hf_name,
            ).contains(name + "-4bit"@) && mlx_candidates(hf_name).contains(name + "-8bit"@)
            &&& mlx_mapped_from(repo, base, 0) is None && base.len() > 0 ==> mlx_candidates(
                hf_name,
            ).contains(base + "-4bit"@) && mlx_candidates(hf_name).contains(base + "-8bit"@)
                && mlx_candidates(hf_name).contains(base + "-mlx-4bit"@) && mlx_candidates(
                hf_name,
            ).contains(base)
        }),
{
    reveal_strlit("-4bit");
    reveal_strlit("-8bit");
    reveal_strlit("-mlx-4bit");
    reveal_strlit("-mlx-8bit");
    let own = mlx_own_names(hf_name);
    let repo = matching::repo_lower(hf_name);
    let base = quant::mlx_repo_base(repo);
    match mlx_mapped_from(repo, base, 0) {
        Some(name) => {
            let (x, y) = (name + "-4bit"@, name + "-8bit"@);
            let a = push_unique(own, x);
            let b = push_unique(a, y);
            lemma_pushed(own, x);
            lemma_pushed_keeps(a, y, x);
            lemma_pushed_keeps(b, name, x);
            lemma_pushed(a, y);
            lemma_pushed_keeps(b, name, y);
        },
        None => {
            if base.len() > 0 {
                let general = with_forms(own, base);
                let (x, y, z, w) = (
                    base + "-4bit"@,
                    base + "-8bit"@,
                    base + "-mlx-4bit"@,
                    base + "-mlx-8bit"@,
                );
                let a = push_unique(own, x);
                let b = push_unique(a, y);
                let c = push_unique(b, z);
                let d = push_unique(c, w);
                lemma_pushed(own, x);
                lemma_pushed_keeps(a, y, x);
                lemma_pushed_keeps(b, z, x);
                lemma_pushed_keeps(c, w, x);
                lemma_pushed_keeps(d, base, x);
                lemma_pushed(a, y);
                lemma_pushed_keeps(b, z, y);
                lemma_pushed_keeps(c, w, y);
                lemma_pushed_keeps(d, base, y);
                lemma_pushed(b, z);
                lemma_pushed_keeps(c, w, z);
                lemma_pushed_keeps(d, base, z);
                lemma_pushed(d, base);
                let s = without_tuning(base);
                lemma_forms_keep(general, s, x);
                lemma_forms_keep(general, s, y);
                lemma_forms_keep(general, s, z);
                lemma_forms_keep(general, s, base);
            }
        },
    }
}

/// What is left without the marks of tuning ends in none of them, and is the front of the name.
pub proof fn law_tuning_marks_are_taken_off(name: Seq<char>)
    ensures
        without_tuning(name).is_prefix_of(name),
        !"-instruct"@.is_suffix_of(without_tuning(name)),
        !"-chat"@.is_suffix_of(without_tuning(name)),
        !"-it"@.is_suffix_of(without_tuning(name)),
        !"-hf"@.is_suffix_of(without_tuning(name)),
        !"-base"@.is_suffix_of(without_tuning(name)),
        tuning_mark_len(name, 0) is None ==> without_tuning(name) == name,
    decreases name.len(),
{
    reveal_with_fuel(tuning_mark_len, 6);
    reveal_strlit("-instruct");
    reveal_strlit("-chat");
    reveal_strlit("-it");
    reveal_strlit("-hf");
    reveal_strlit("-base");
    assert(tuning_marks()[0] == "-instruct" && tuning_marks()[1] == "-chat" && tuning_marks()[2]
        == "-hf" && tuning_marks()[3] == "-it" && tuning_marks()[4] == "-base");
    match tuning_mark_len(name, 0) {
        Some(n) => {
            assert(0 < n <= name.len());
            let cut = name.take(name.len() - n);
            let t = text::trim_end_char(cut, '-');
            lemma_trim_end_char_shorter(cut, '-');
            law_tuning_marks_are_taken_off(t);
            let w = without_tuning(name);
            assert(w == without_tuning(t));
            assert(name.subrange(0, w.len() as int) =~= w) by {
                assert(t.subrange(0, w.len() as int) =~= w);
                assert(cut.subrange(0, t.len() as int) =~= t);
                assert forall|k: int| 0 <= k < w.len() implies name[k] == w[k] by {
                    assert(t.subrange(0, w.len() as int)[k] == t[k]);
                    assert(cut.subrange(0, t.len() as int)[k] == cut[k]);
                }
            }
        },
        None => {
            assert(name.subrange(0, name.len() as int) =~= name);
        },
    }
}

} // verus!
