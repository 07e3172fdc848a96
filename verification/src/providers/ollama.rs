//! Ollama: its model tags, what an install contributes, and matching against the catalog.
use vstd::prelude::*;
use crate::names::NameSet;
use crate::numeral;
use crate::numeral::Decimal;
use crate::outside;
use crate::providers::matching;
use crate::providers::mlx;
use crate::text;

verus! {

// ---------------------------------------------------------------------------
// Catalog names with a known tag
// ---------------------------------------------------------------------------

/// The catalog names (lower case, without their owner) with an entry in Ollama's registry,
/// each with its tag. A model that is not here cannot be pulled from Ollama.
pub open spec fn ollama_table() -> Seq<(&'static str, &'static str)> {
    seq![
        ("llama-3.3-70b-instruct", "llama3.3:70b"),
        ("llama-3.2-11b-vision-instruct", "llama3.2-vision:11b"),
        ("llama-3.2-3b-instruct", "llama3.2:3b"),
        ("llama-3.2-3b", "llama3.2:3b"),
        ("llama-3.2-1b-instruct", "llama3.2:1b"),
        ("llama-3.2-1b", "llama3.2:1b"),
        ("llama-3.1-405b-instruct", "llama3.1:405b"),
        ("llama-3.1-405b", "llama3.1:405b"),
        ("llama-3.1-70b-instruct", "llama3.1:70b"),
        ("llama-3.1-8b-instruct", "llama3.1:8b"),
        ("llama-3.1-8b", "llama3.1:8b"),
        ("meta-llama-3-8b-instruct", "llama3:8b"),
        ("meta-llama-3-8b", "llama3:8b"),
        ("llama-2-7b-hf", "llama2:7b"),
        ("codellama-34b-instruct-hf", "codellama:34b"),
        ("codellama-13b-instruct-hf", "codellama:13b"),
        ("codellama-7b-instruct-hf", "codellama:7b"),
        ("gemma-3-27b-it", "gemma3:27b"),
        ("gemma-3-12b-it", "gemma3:12b"),
        ("gemma-3-4b-it", "gemma3:4b"),
        ("gemma-3-1b-it", "gemma3:1b"),
        ("gemma-2-27b-it", "gemma2:27b"),
        ("gemma-2-9b-it", "gemma2:9b"),
        ("gemma-2-2b-it", "gemma2:2b"),
        ("phi-4", "phi4"),
        ("phi-4-mini-instruct", "phi4-mini"),
        ("phi-3.5-mini-instruct", "phi3.5"),
        ("phi-3-mini-4k-instruct", "phi3"),
        ("phi-3-medium-14b-instruct", "phi3:14b"),
        ("phi-2", "phi"),
        ("orca-2-7b", "orca2:7b"),
        ("orca-2-13b", "orca2:13b"),
        ("mistral-7b-instruct-v0.3", "mistral:7b"),
        ("mistral-7b-instruct-v0.2", "mistral:7b"),
        ("mistral-nemo-instruct-2407", "mistral-nemo"),
        ("mistral-small-24b-instruct-2501", "mistral-small:24b"),
        ("mistral-small-3.1-24b-instruct-2503", "mistral-small3.1"),
        ("mistral-large-instruct-2407", "mistral-large"),
        ("devstral-small-2505", "devstral"),
        ("mixtral-8x7b-instruct-v0.1", "mixtral:8x7b"),
        ("mixtral-8x22b-instruct-v0.1", "mixtral:8x22b"),
        ("qwen2-1.5b-instruct", "qwen2:1.5b"),
        ("qwen2.5-72b-instruct", "qwen2.5:72b"),
        ("qwen2.5-32b-instruct", "qwen2.5:32b"),
        ("qwen2.5-14b-instruct", "qwen2.5:14b"),
        ("qwen2.5-7b-instruct", "qwen2.5:7b"),
        ("qwen2.5-7b", "qwen2.5:7b"),
        ("qwen2.5-3b-instruct", "qwen2.5:3b"),
        ("qwen2.5-1.5b-instruct", "qwen2.5:1.5b"),
        ("qwen2.5-1.5b", "qwen2.5:1.5b"),
        ("qwen2.5-0.5b-instruct", "qwen2.5:0.5b"),
        ("qwen2.5-0.5b", "qwen2.5:0.5b"),
        ("qwen2.5-coder-32b-instruct", "qwen2.5-coder:32b"),
        ("qwen2.5-coder-14b-instruct", "qwen2.5-coder:14b"),
        ("qwen2.5-coder-7b-instruct", "qwen2.5-coder:7b"),
        ("qwen2.5-coder-1.5b-instruct", "qwen2.5-coder:1.5b"),
        ("qwen2.5-coder-0.5b-instruct", "qwen2.5-coder:0.5b"),
        ("qwen2.5-vl-72b-instruct", "qwen2.5vl:72b"),
        ("qwen2.5-vl-7b-instruct", "qwen2.5vl:7b"),
        ("qwen2.5-vl-3b-instruct", "qwen2.5vl:3b"),
        ("qwq-32b", "qwq"),
        ("qwen3-235b-a22b", "qwen3:235b"),
        ("qwen3-32b", "qwen3:32b"),
        ("qwen3-30b-a3b", "qwen3:30b-a3b"),
        ("qwen3-30b-a3b-instruct-2507", "qwen3:30b-a3b"),
        ("qwen3-14b", "qwen3:14b"),
        ("qwen3-8b", "qwen3:8b"),
        ("qwen3-4b", "qwen3:4b"),
        ("qwen3-4b-instruct-2507", "qwen3:4b"),
        ("qwen3-1.7b-base", "qwen3:1.7b"),
        ("qwen3-0.6b", "qwen3:0.6b"),
        ("qwen3-coder-30b-a3b-instruct", "qwen3-coder"),
        ("qwen3.5-27b", "qwen3.5"),
        ("qwen3.5-35b-a3b", "qwen3.5:35b"),
        ("qwen3.5-122b-a10b", "qwen3.5:122b"),
        ("qwen3.8-27b", "qwen3.8:27b"),
        ("qwen3-coder-next", "qwen3-coder-next"),
        ("deepseek-v3", "deepseek-v3"),
        ("deepseek-v3.2", "deepseek-v3"),
        ("deepseek-r1", "deepseek-r1"),
        ("deepseek-r1-0528", "deepseek-r1"),
        ("deepseek-r1-distill-qwen-32b", "deepseek-r1:32b"),
        ("deepseek-r1-distill-qwen-14b", "deepseek-r1:14b"),
        ("deepseek-r1-distill-qwen-7b", "deepseek-r1:7b"),
        ("deepseek-r1-distill-qwen-1.5b", "deepseek-r1:1.5b"),
        ("deepseek-r1-distill-llama-70b", "deepseek-r1:70b"),
        ("deepseek-r1-distill-llama-8b", "deepseek-r1:8b"),
        ("deepseek-coder-v2-lite-instruct", "deepseek-coder-v2:16b"),
        ("tinyllama-1.1b-chat-v1.0", "tinyllama"),
        ("stablelm-2-1_6b-chat", "stablelm2:1.6b"),
        ("yi-6b-chat", "yi:6b"),
        ("yi-34b-chat", "yi:34b"),
        ("starcoder2-7b", "starcoder2:7b"),
        ("starcoder2-15b", "starcoder2:15b"),
        ("falcon-7b-instruct", "falcon:7b"),
        ("falcon-40b-instruct", "falcon:40b"),
        ("falcon-180b-chat", "falcon:180b"),
        ("falcon3-1b-instruct", "falcon3:1b"),
        ("falcon3-3b-instruct", "falcon3:3b"),
        ("falcon3-7b-instruct", "falcon3:7b"),
        ("openchat-3.5-0106", "openchat:7b"),
        ("vicuna-7b-v1.5", "vicuna:7b"),
        ("vicuna-13b-v1.5", "vicuna:13b"),
        ("glm-4-9b-chat", "glm4:9b"),
        ("solar-10.7b-instruct-v1.0", "solar:10.7b"),
        ("zephyr-7b-beta", "zephyr:7b"),
        ("c4ai-command-r-v01", "command-r"),
        ("c4ai-command-r-plus-08-2024", "command-r-plus"),
        ("c4ai-command-a-03-2025", "command-a"),
        ("nous-hermes-2-mixtral-8x7b-dpo", "nous-hermes2-mixtral:8x7b"),
        ("hermes-3-llama-3.1-8b", "hermes3:8b"),
        ("nomic-embed-text-v1.5", "nomic-embed-text"),
        ("bge-large-en-v1.5", "bge-large"),
        ("smollm2-1.7b-instruct", "smollm2:1.7b"),
        ("smollm2-135m-instruct", "smollm2:135m"),
        ("smollm2-135m", "smollm2:135m"),
        ("gemma-3n-e4b-it", "gemma3n:e4b"),
        ("gemma-3n-e2b-it", "gemma3n:e2b"),
        ("phi-4-reasoning", "phi4-reasoning"),
        ("phi-4-mini-reasoning", "phi4-mini-reasoning"),
        ("llama-3.1-nemotron-70b-instruct-hf", "nemotron:70b"),
        ("llama-3.3-nemotron-super-49b-v1", "nemotron:49b"),
        ("exaone-deep-2.4b", "exaone-deep:2.4b"),
        ("exaone-deep-7.8b", "exaone-deep:7.8b"),
        ("exaone-deep-32b", "exaone-deep:32b"),
        ("olmo-2-1124-7b-instruct", "olmo2:7b"),
        ("olmo-2-1124-13b-instruct", "olmo2:13b"),
        ("olmo-2-0325-32b-instruct", "olmo2:32b"),
        ("deepseek-v3.2-speciale", "deepseek-v3"),
        ("lfm2-350m", "lfm2:350m"),
        ("lfm2-700m", "lfm2:700m"),
        ("lfm2-1.2b", "lfm2:1.2b"),
        ("lfm2-2.6b", "lfm2:2.6b"),
        ("lfm2-2.6b-exp", "lfm2:2.6b"),
        ("lfm2-8b-a1b", "lfm2:8b-a1b"),
        ("lfm2-24b-a2b", "lfm2:24b"),
        ("lfm2.5-1.2b-instruct", "lfm2.5:1.2b"),
        ("lfm2.5-1.2b-thinking", "lfm2.5-thinking:1.2b"),
    ]
}

/// The rows of the table of known tags.
pub fn ollama_mappings() -> (r: Vec<(&'static str, &'static str)>)
    ensures
        r@ == ollama_table(),
{
    vec![
        ("llama-3.3-70b-instruct", "llama3.3:70b"),
        ("llama-3.2-11b-vision-instruct", "llama3.2-vision:11b"),
        ("llama-3.2-3b-instruct", "llama3.2:3b"),
        ("llama-3.2-3b", "llama3.2:3b"),
        ("llama-3.2-1b-instruct", "llama3.2:1b"),
        ("llama-3.2-1b", "llama3.2:1b"),
        ("llama-3.1-405b-instruct", "llama3.1:405b"),
        ("llama-3.1-405b", "llama3.1:405b"),
        ("llama-3.1-70b-instruct", "llama3.1:70b"),
        ("llama-3.1-8b-instruct", "llama3.1:8b"),
        ("llama-3.1-8b", "llama3.1:8b"),
        ("meta-llama-3-8b-instruct", "llama3:8b"),
        ("meta-llama-3-8b", "llama3:8b"),
        ("llama-2-7b-hf", "llama2:7b"),
        ("codellama-34b-instruct-hf", "codellama:34b"),
        ("codellama-13b-instruct-hf", "codellama:13b"),
        ("codellama-7b-instruct-hf", "codellama:7b"),
        ("gemma-3-27b-it", "gemma3:27b"),
        ("gemma-3-12b-it", "gemma3:12b"),
        ("gemma-3-4b-it", "gemma3:4b"),
        ("gemma-3-1b-it", "gemma3:1b"),
        ("gemma-2-27b-it", "gemma2:27b"),
        ("gemma-2-9b-it", "gemma2:9b"),
        ("gemma-2-2b-it", "gemma2:2b"),
        ("phi-4", "phi4"),
        ("phi-4-mini-instruct", "phi4-mini"),
        ("phi-3.5-mini-instruct", "phi3.5"),
        ("phi-3-mini-4k-instruct", "phi3"),
        ("phi-3-medium-14b-instruct", "phi3:14b"),
        ("phi-2", "phi"),
        ("orca-2-7b", "orca2:7b"),
        ("orca-2-13b", "orca2:13b"),
        ("mistral-7b-instruct-v0.3", "mistral:7b"),
        ("mistral-7b-instruct-v0.2", "mistral:7b"),
        ("mistral-nemo-instruct-2407", "mistral-nemo"),
        ("mistral-small-24b-instruct-2501", "mistral-small:24b"),
        ("mistral-small-3.1-24b-instruct-2503", "mistral-small3.1"),
        ("mistral-large-instruct-2407", "mistral-large"),
        ("devstral-small-2505", "devstral"),
        ("mixtral-8x7b-instruct-v0.1", "mixtral:8x7b"),
        ("mixtral-8x22b-instruct-v0.1", "mixtral:8x22b"),
        ("qwen2-1.5b-instruct", "qwen2:1.5b"),
        ("qwen2.5-72b-instruct", "qwen2.5:72b"),
        ("qwen2.5-32b-instruct", "qwen2.5:32b"),
        ("qwen2.5-14b-instruct", "qwen2.5:14b"),
        ("qwen2.5-7b-instruct", "qwen2.5:7b"),
        ("qwen2.5-7b", "qwen2.5:7b"),
        ("qwen2.5-3b-instruct", "qwen2.5:3b"),
        ("qwen2.5-1.5b-instruct", "qwen2.5:1.5b"),
        ("qwen2.5-1.5b", "qwen2.5:1.5b"),
        ("qwen2.5-0.5b-instruct", "qwen2.5:0.5b"),
        ("qwen2.5-0.5b", "qwen2.5:0.5b"),
        ("qwen2.5-coder-32b-instruct", "qwen2.5-coder:32b"),
        ("qwen2.5-coder-14b-instruct", "qwen2.5-coder:14b"),
        ("qwen2.5-coder-7b-instruct", "qwen2.5-coder:7b"),
        ("qwen2.5-coder-1.5b-instruct", "qwen2.5-coder:1.5b"),
        ("qwen2.5-coder-0.5b-instruct", "qwen2.5-coder:0.5b"),
        ("qwen2.5-vl-72b-instruct", "qwen2.5vl:72b"),
        ("qwen2.5-vl-7b-instruct", "qwen2.5vl:7b"),
        ("qwen2.5-vl-3b-instruct", "qwen2.5vl:3b"),
        ("qwq-32b", "qwq"),
        ("qwen3-235b-a22b", "qwen3:235b"),
        ("qwen3-32b", "qwen3:32b"),
        ("qwen3-30b-a3b", "qwen3:30b-a3b"),
        ("qwen3-30b-a3b-instruct-2507", "qwen3:30b-a3b"),
        ("qwen3-14b", "qwen3:14b"),
        ("qwen3-8b", "qwen3:8b"),
        ("qwen3-4b", "qwen3:4b"),
        ("qwen3-4b-instruct-2507", "qwen3:4b"),
        ("qwen3-1.7b-base", "qwen3:1.7b"),
        ("qwen3-0.6b", "qwen3:0.6b"),
        ("qwen3-coder-30b-a3b-instruct", "qwen3-coder"),
        ("qwen3.5-27b", "qwen3.5"),
        ("qwen3.5-35b-a3b", "qwen3.5:35b"),
        ("qwen3.5-122b-a10b", "qwen3.5:122b"),
        ("qwen3.8-27b", "qwen3.8:27b"),
        ("qwen3-coder-next", "qwen3-coder-next"),
        ("deepseek-v3", "deepseek-v3"),
        ("deepseek-v3.2", "deepseek-v3"),
        ("deepseek-r1", "deepseek-r1"),
        ("deepseek-r1-0528", "deepseek-r1"),
        ("deepseek-r1-distill-qwen-32b", "deepseek-r1:32b"),
        ("deepseek-r1-distill-qwen-14b", "deepseek-r1:14b"),
        ("deepseek-r1-distill-qwen-7b", "deepseek-r1:7b"),
        ("deepseek-r1-distill-qwen-1.5b", "deepseek-r1:1.5b"),
        ("deepseek-r1-distill-llama-70b", "deepseek-r1:70b"),
        ("deepseek-r1-distill-llama-8b", "deepseek-r1:8b"),
        ("deepseek-coder-v2-lite-instruct", "deepseek-coder-v2:16b"),
        ("tinyllama-1.1b-chat-v1.0", "tinyllama"),
        ("stablelm-2-1_6b-chat", "stablelm2:1.6b"),
        ("yi-6b-chat", "yi:6b"),
        ("yi-34b-chat", "yi:34b"),
        ("starcoder2-7b", "starcoder2:7b"),
        ("starcoder2-15b", "starcoder2:15b"),
        ("falcon-7b-instruct", "falcon:7b"),
        ("falcon-40b-instruct", "falcon:40b"),
        ("falcon-180b-chat", "falcon:180b"),
        ("falcon3-1b-instruct", "falcon3:1b"),
        ("falcon3-3b-instruct", "falcon3:3b"),
        ("falcon3-7b-instruct", "falcon3:7b"),
        ("openchat-3.5-0106", "openchat:7b"),
        ("vicuna-7b-v1.5", "vicuna:7b"),
        ("vicuna-13b-v1.5", "vicuna:13b"),
        ("glm-4-9b-chat", "glm4:9b"),
        ("solar-10.7b-instruct-v1.0", "solar:10.7b"),
        ("zephyr-7b-beta", "zephyr:7b"),
        ("c4ai-command-r-v01", "command-r"),
        ("c4ai-command-r-plus-08-2024", "command-r-plus"),
        ("c4ai-command-a-03-2025", "command-a"),
        ("nous-hermes-2-mixtral-8x7b-dpo", "nous-hermes2-mixtral:8x7b"),
        ("hermes-3-llama-3.1-8b", "hermes3:8b"),
        ("nomic-embed-text-v1.5", "nomic-embed-text"),
        ("bge-large-en-v1.5", "bge-large"),
        ("smollm2-1.7b-instruct", "smollm2:1.7b"),
        ("smollm2-135m-instruct", "smollm2:135m"),
        ("smollm2-135m", "smollm2:135m"),
        ("gemma-3n-e4b-it", "gemma3n:e4b"),
        ("gemma-3n-e2b-it", "gemma3n:e2b"),
        ("phi-4-reasoning", "phi4-reasoning"),
        ("phi-4-mini-reasoning", "phi4-mini-reasoning"),
        ("llama-3.1-nemotron-70b-instruct-hf", "nemotron:70b"),
        ("llama-3.3-nemotron-super-49b-v1", "nemotron:49b"),
        ("exaone-deep-2.4b", "exaone-deep:2.4b"),
        ("exaone-deep-7.8b", "exaone-deep:7.8b"),
        ("exaone-deep-32b", "exaone-deep:32b"),
        ("olmo-2-1124-7b-instruct", "olmo2:7b"),
        ("olmo-2-1124-13b-instruct", "olmo2:13b"),
        ("olmo-2-0325-32b-instruct", "olmo2:32b"),
        ("deepseek-v3.2-speciale", "deepseek-v3"),
        ("lfm2-350m", "lfm2:350m"),
        ("lfm2-700m", "lfm2:700m"),
        ("lfm2-1.2b", "lfm2:1.2b"),
        ("lfm2-2.6b", "lfm2:2.6b"),
        ("lfm2-2.6b-exp", "lfm2:2.6b"),
        ("lfm2-8b-a1b", "lfm2:8b-a1b"),
        ("lfm2-24b-a2b", "lfm2:24b"),
        ("lfm2.5-1.2b-instruct", "lfm2.5:1.2b"),
        ("lfm2.5-1.2b-thinking", "lfm2.5-thinking:1.2b"),
    ]
}

/// The tag of the first row at or after number `i` for the name `repo`.
pub open spec fn mapped_tag_from(repo: Seq<char>, i: int) -> Option<Seq<char>>
    decreases ollama_table().len() - i,
{
    if i < 0 || i >= ollama_table().len() {
        None
    } else if ollama_table()[i].0@ == repo {
        Some(ollama_table()[i].1@)
    } else {
        mapped_tag_from(repo, i + 1)
    }
}

/// The tag under which Ollama's registry holds a catalog model.
pub open spec fn mapped_tag(hf_name: Seq<char>) -> Option<Seq<char>> {
    mapped_tag_from(matching::repo_lower(hf_name), 0)
}

/// The tag under which Ollama's registry holds a catalog model.
pub fn lookup_ollama_tag(hf_name: &str) -> (r: Option<&'static str>)
    ensures
        text::opt_str(r) == mapped_tag(hf_name@),
{
    let repo = matching::repo_name_lower(hf_name);
    let rows = ollama_mappings();
    for i in 0..rows.len()
        invariant
            rows@ == ollama_table(),
            repo@ == matching::repo_lower(hf_name@),
            mapped_tag(hf_name@) == mapped_tag_from(repo@, i as int),
    {
        if text::same(rows[i].0, &repo) {
            return Some(rows[i].1);
        }
    }
    None
}

/// Whether a catalog model can be pulled from Ollama.
pub fn has_ollama_mapping(hf_name: &str) -> (r: bool)
    ensures
        r == mapped_tag(hf_name@) is Some,
{
    lookup_ollama_tag(hf_name).is_some()
}

// ---------------------------------------------------------------------------
// Candidates
// ---------------------------------------------------------------------------

/// A segment of a name that tells a number of parameters, such as `7b` or `1.7b`: digits
/// and points, then `b`.
pub open spec fn is_size_segment(seg: Seq<char>) -> bool {
    seg.len() > 1 && seg.last() == 'b' && forall|i: int|
        0 <= i < seg.len() - 1 ==> text::is_digit(#[trigger] seg[i]) || seg[i] == '.'
}

/// `name` cut at the last dash before position `p` behind which a size segment stands and
/// before which there is something.
pub open spec fn size_split_before(name: Seq<char>, p: int) -> Option<(Seq<char>, Seq<char>)>
    decreases p,
{
    if p <= 1 || p > name.len() {
        None
    } else if name[p - 1] == '-' && is_size_segment(text::before_first(name.skip(p), seq!['-'])) {
        Some((name.take(p - 1), name.skip(p)))
    } else {
        size_split_before(name, p - 1)
    }
}

/// A name in lower case as family and size: `qwen3-coder-30b-a3b` is `qwen3-coder` and
/// `30b-a3b`.
pub open spec fn size_split(name: Seq<char>) -> Option<(Seq<char>, Seq<char>)> {
    size_split_before(name, name.len() as int)
}

fn size_segment_at(cs: &Vec<char>, p: usize) -> (r: bool)
    requires
        p <= cs.len(),
    ensures
        r == is_size_segment(text::before_first(cs@.skip(p as int), seq!['-'])),
{
    let rest = text::text_of(vstd::slice::slice_subrange(cs.as_slice(), p, cs.len()));
    let set = ['-'];
    assert(set@ == seq!['-']);
    assert(rest@ == cs@.skip(p as int));
    let seg = text::chars_of(text::head_before(&rest, &set));
    let n: usize = seg.len();
    if n <= 1 || seg[n - 1] != 'b' {
        return false;
    }
    for i in 0..n - 1
        invariant
            n == seg.len(),
            n > 1,
            seg@ == text::before_first(cs@.skip(p as int), seq!['-']),
            seg@[n - 1] == 'b',
            forall|j: int| 0 <= j < i ==> text::is_digit(#[trigger] seg@[j]) || seg@[j] == '.',
    {
        let c = seg[i];
        if !(('0' <= c && c <= '9') || c == '.') {
            assert(!(text::is_digit(seg@[i as int]) || seg@[i as int] == '.'));
            return false;
        }
    }
    true
}

/// A name in lower case as family and size.
pub fn split_name_and_size<'a>(name: &'a str) -> (r: Option<(&'a str, &'a str)>)
    ensures
        match r {
            Some((family, size)) => size_split(name@) == Some((family@, size@)),
            None => size_split(name@) is None,
        },
{
    let cs = text::chars_of(name);
    let n: usize = cs.len();
    let mut p: usize = n;
    while p > 1
        invariant
            cs@ == name@,
            n == name@.len(),
            p <= n,
            size_split(name@) == size_split_before(name@, p as int),
        decreases p,
    {
        if cs[p - 1] == '-' && size_segment_at(&cs, p) {
            return Some((name.substring_char(0, p - 1), name.substring_char(p, n)));
        }
        p = p - 1;
    }
    None
}

/// The tags under which a catalog model may be installed: the known one, or else
/// `family:size`, the name without its tuning marks, and the name itself where it differs.
pub open spec fn ollama_candidates(hf_name: Seq<char>) -> Seq<Seq<char>> {
    match mapped_tag(hf_name) {
        Some(tag) => seq![tag],
        None => {
            let repo = matching::repo_lower(hf_name);
            let base = mlx::without_tuning(repo);
            (match size_split(base) {
                Some((family, size)) => seq![family + ":"@ + size],
                None => seq![],
            }) + seq![base] + (if base != repo {
                seq![repo]
            } else {
                seq![]
            })
        },
    }
}

/// The tags under which a catalog model may be installed.
pub fn hf_name_to_ollama_candidates(hf_name: &str) -> (r: Vec<String>)
    ensures
        text::texts(r@) == ollama_candidates(hf_name@),
{
    let mut out: Vec<String> = Vec::new();
    if let Some(tag) = lookup_ollama_tag(hf_name) {
        out.push(tag.to_string());
        assert(text::texts(out@) =~= ollama_candidates(hf_name@));
        return out;
    }
    let repo = matching::repo_name_lower(hf_name);
    let base = mlx::strip_trailing_common_model_suffixes(&repo);
    if let Some((family, size)) = split_name_and_size(&base) {
        let mut tag = family.to_string();
        tag.append(":");
        tag.append(size);
        out.push(tag);
    }
    let differs = base != repo;
    out.push(base);
    if differs {
        out.push(repo);
    }
    assert(text::texts(out@) =~= ollama_candidates(hf_name@));
    out
}

proof fn lemma_size_split_before(name: Seq<char>, p: int)
    ensures
        size_split_before(name, p) matches Some((family, size)) ==> family.len() > 0 && size.len()
            > 0 && name == family + seq!['-'] + size,
    decreases p,
{
    if p <= 1 || p > name.len() {
    } else if name[p - 1] == '-' && is_size_segment(text::before_first(name.skip(p), seq!['-'])) {
        assert(name.skip(p).len() > 0) by {
            if name.skip(p).len() == 0 {
                assert(text::find_any_from(name.skip(p), seq!['-'], 0) is None);
            }
        }
        assert(name =~= name.take(p - 1) + seq!['-'] + name.skip(p));
    } else {
        lemma_size_split_before(name, p - 1);
    }
}

/// A name that is split gives back itself when family and size are joined by a dash, and
/// neither part is empty.
pub proof fn law_size_split_joins(name: Seq<char>)
    ensures
        size_split(name) matches Some((family, size)) ==> family.len() > 0 && size.len() > 0 && name
            == family + seq!['-'] + size,
{
    lemma_size_split_before(name, name.len() as int);
}

/// Whether Ollama's registry holds a model goes by the part of its name behind the last slash,
/// in lower case, and a model that it holds has one candidate.
pub proof fn law_mapping_goes_by_the_repository(hf_name: Seq<char>)
    ensures
        text::is_ascii_text(hf_name) ==> mapped_tag(hf_name) == mapped_tag(
            matching::repo_lower(hf_name),
        ),
        mapped_tag(hf_name) is Some ==> ollama_candidates(hf_name).len() == 1,
{
    if text::is_ascii_text(hf_name) {
        matching::law_repository_name_is_its_own(hf_name);
    }
}

/// Two candidates that follow each other are never the same.
pub proof fn law_ollama_candidates_differ(hf_name: Seq<char>, i: int)
    requires
        0 <= i < ollama_candidates(hf_name).len() - 1,
    ensures
        ollama_candidates(hf_name)[i] != ollama_candidates(hf_name)[i + 1],
{
    let base = mlx::without_tuning(matching::repo_lower(hf_name));
    law_size_split_joins(base);
    reveal_strlit(":");
    if let Some((family, size)) = size_split(base) {
        assert((family + ":"@ + size)[family.len() as int] == ':');
        assert(base[family.len() as int] == '-');
    }
}

// ---------------------------------------------------------------------------
// Matching an installed tag
// ---------------------------------------------------------------------------

/// The size that an installed tag tells, in billions of parameters: the numeral before
/// `b` in the first segment behind the first colon.
pub open spec fn tag_size(installed_name: Seq<char>) -> Option<(nat, nat)> {
    match text::after_first(installed_name, seq![':']) {
        None => None,
        Some(rest) => match text::without_suffix(
            text::before_first(text::before_first(rest, seq![':']), seq!['-']),
            "b"@,
        ) {
            None => None,
            Some(digits) => numeral::plain_decimal(digits),
        },
    }
}

/// Reads the size out of an installed tag: `qwen2.5-coder:7b-instruct-q4_K_M` tells `7`.
pub fn ollama_tag_size_b(installed_name: &str) -> (r: Option<Decimal>)
    ensures
        match r {
            Some(d) => tag_size(installed_name@) == Some(d.parts()) && d.well_formed(),
            None => tag_size(installed_name@) is None,
        },
{
    let colon = [':'];
    let dash = ['-'];
    assert(colon@ == seq![':']);
    assert(dash@ == seq!['-']);
    match text::rest_after(installed_name, &colon) {
        None => None,
        Some(rest) => match text::strip_suffix(
            text::head_before(text::head_before(rest, &colon), &dash),
            "b",
        ) {
            None => None,
            Some(digits) => numeral::read_decimal(digits),
        },
    }
}

/// The size of an installed tag agrees with a parameter count in millions. An unknown size
/// or one of zero on either side agrees with everything.
pub open spec fn size_agrees(installed_name: Seq<char>, params_m: Option<u64>) -> bool {
    match (params_m, tag_size(installed_name)) {
        (Some(m), Some(d)) => m == 0 || d.0 == 0 || numeral::within_factor_two(d, m as nat),
        _ => true,
    }
}

/// Whether the size of an installed tag agrees with a parameter count in millions.
pub fn ollama_size_is_compatible(installed_name: &str, params_m: Option<u64>) -> (r: bool)
    ensures
        r == size_agrees(installed_name@, params_m),
{
    match (params_m, ollama_tag_size_b(installed_name)) {
        (Some(m), Some(d)) => m == 0 || d.mantissa == 0 || d.within_factor_two(m),
        _ => true,
    }
}

/// An installed name is one of the candidate: the same, or a variant of a tag with a size,
/// or any tag of a family without one whose size agrees.
pub open spec fn tag_matches(
    installed_name: Seq<char>,
    candidate: Seq<char>,
    params_m: Option<u64>,
) -> bool {
    ||| installed_name == candidate
    ||| if text::occurs(candidate, ":"@) {
        (candidate + "-"@).is_prefix_of(installed_name)
    } else {
        (candidate + ":"@).is_prefix_of(installed_name) && size_agrees(installed_name, params_m)
    }
}

/// Whether an installed name is one of the candidate.
pub fn ollama_installed_matches_candidate(
    installed_name: &str,
    candidate: &str,
    params_m: Option<u64>,
) -> (r: bool)
    ensures
        r == tag_matches(installed_name@, candidate@, params_m),
{
    if text::same(installed_name, candidate) {
        return true;
    }
    let mut prefix = candidate.to_string();
    if text::contains_text(candidate, ":") {
        prefix.append("-");
        return text::starts_with(installed_name, &prefix);
    }
    prefix.append(":");
    text::starts_with(installed_name, &prefix) && ollama_size_is_compatible(installed_name, params_m)
}

/// A catalog model is among the installed ones: its full name is, or one of the installed
/// names is one of its candidates.
pub open spec fn installed_ollama(
    hf_name: Seq<char>,
    params_m: Option<u64>,
    installed: Set<Seq<char>>,
) -> bool {
    installed.contains(outside::lowercase(hf_name)) || exists|name: Seq<char>, i: int|
        #![trigger installed.contains(name), ollama_candidates(hf_name)[i]]
        installed.contains(name) && 0 <= i < ollama_candidates(hf_name).len() && tag_matches(
            name,
            ollama_candidates(hf_name)[i],
            params_m,
        )
}

/// Whether a catalog model of `params_m` million parameters is among the installed ones.
/// With `None`, the sizes of family tags are not looked at.
pub fn is_model_installed_sized(hf_name: &str, params_m: Option<u64>, installed: &NameSet) -> (r:
    bool)
    ensures
        r == installed_ollama(hf_name@, params_m, installed@),
{
    if installed.contains(&outside::to_lowercase(hf_name)) {
        return true;
    }
    let candidates = hf_name_to_ollama_candidates(hf_name);
    let items = installed.items();
    let ghost names = text::texts(items@);
    let ghost cands = ollama_candidates(hf_name@);
    for i in 0..candidates.len()
        invariant
            names == text::texts(items@),
            names.to_set() == installed@,
            cands == ollama_candidates(hf_name@),
            text::texts(candidates@) == cands,
            !installed@.contains(outside::lowercase(hf_name@)),
            forall|k: int, n: int|
                0 <= k < i && 0 <= n < names.len() ==> !#[trigger] tag_matches(
                    names[n],
                    cands[k],
                    params_m,
                ),
    {
        for j in 0..items.len()
            invariant
                i < candidates.len(),
                names == text::texts(items@),
                names.to_set() == installed@,
                cands == ollama_candidates(hf_name@),
                text::texts(candidates@) == cands,
                forall|n: int|
                    0 <= n < j ==> !#[trigger] tag_matches(names[n], cands[i as int], params_m),
        {
            assert(cands[i as int] == candidates@[i as int]@);
            if ollama_installed_matches_candidate(&items[j], &candidates[i], params_m) {
                assert(names.contains(names[j as int]));
                assert(installed@.contains(names[j as int]));
                assert(tag_matches(names[j as int], cands[i as int], params_m));
                return true;
            }
        }
    }
    proof {
        if installed_ollama(hf_name@, params_m, installed@) {
            let (name, k) = choose|name: Seq<char>, k: int|
                #![trigger installed@.contains(name), ollama_candidates(hf_name@)[k]]
                installed@.contains(name) && 0 <= k < ollama_candidates(hf_name@).len()
                    && tag_matches(name, ollama_candidates(hf_name@)[k], params_m);
            let n = choose|n: int| 0 <= n < names.len() && names[n] == name;
            assert(!tag_matches(names[n], cands[k], params_m));
        }
    }
    false
}

/// Whether a catalog model of unknown size is among the installed ones.
pub fn is_model_installed(hf_name: &str, installed: &NameSet) -> (r: bool)
    ensures
        r == installed_ollama(hf_name@, None, installed@),
{
    is_model_installed_sized(hf_name, None, installed)
}

// ---------------------------------------------------------------------------
// What Ollama reports
// ---------------------------------------------------------------------------

/// What Ollama tells of the weights of a model.
#[derive(Debug)]
pub struct OllamaModelDetails {
    /// The parameter count of the weights, such as `8.2B`. Empty when it is not told.
    pub parameter_size: String,
}

/// A model in Ollama's list.
#[derive(Debug)]
pub struct OllamaModel {
    /// Such as `llama3.1:8b-instruct-q4_K_M`.
    pub name: String,
    /// The size on disk in bytes; zero for a model that runs elsewhere.
    pub size: u64,
    pub details: OllamaModelDetails,
}

/// What Ollama's list tells of a model.
#[verifier::ext_equal]
pub struct OllamaModelView {
    pub name: Seq<char>,
    pub size: u64,
    pub parameter_size: Seq<char>,
}

impl View for OllamaModel {
    type V = OllamaModelView;

    open spec fn view(&self) -> OllamaModelView {
        OllamaModelView {
            name: self.name@,
            size: self.size,
            parameter_size: self.details.parameter_size@,
        }
    }
}

/// What Ollama's list tells of its models.
pub open spec fn ollama_views(models: Seq<OllamaModel>) -> Seq<OllamaModelView> {
    Seq::new(models.len(), |i: int| models[i]@)
}

impl OllamaModelView {
    /// The model runs elsewhere: its tag says so, or nothing of it is on disk.
    pub open spec fn runs_elsewhere(self) -> bool {
        "-cloud"@.is_suffix_of(text::after_last(self.name, seq![':'])) || self.size == 0
    }
}

impl OllamaModel {
    /// Whether the model runs elsewhere.
    pub fn is_cloud(&self) -> (r: bool)
        ensures
            r == self@.runs_elsewhere(),
    {
        let colon = [':'];
        assert(colon@ == seq![':']);
        text::ends_with(text::tail_after(&self.name, &colon), "-cloud") || self.size == 0
    }
}

/// The size marks that a parameter count implies: the whole billions, and the count as it
/// stands where it differs. Only a count of at least one billion, told in plain decimal
/// digits and `B`, implies any.
pub open spec fn size_tokens(parameter_size: Seq<char>) -> Seq<Seq<char>> {
    let raw = outside::lowercase(text::trim(parameter_size));
    match text::without_suffix(raw, "b"@) {
        None => seq![],
        Some(digits) => match numeral::plain_decimal(digits) {
            None => seq![],
            Some((mantissa, scale)) => {
                let whole = mantissa as int / vstd::arithmetic::power::pow(10, scale);
                let token = numeral::decimal(whole as nat) + "b"@;
                if whole < 1 {
                    seq![]
                } else if token == raw {
                    seq![token]
                } else {
                    seq![token, raw]
                }
            },
        },
    }
}

/// The size marks that a parameter count implies: `8.2B` implies `8b` and `8.2b`.
pub fn size_tokens_from_parameter_size(parameter_size: &str) -> (r: Vec<String>)
    ensures
        text::texts(r@) == size_tokens(parameter_size@),
{
    let raw = outside::to_lowercase(text::trimmed(parameter_size));
    let mut out: Vec<String> = Vec::new();
    assert(text::texts(out@) =~= seq![]);
    let Some(digits) = text::strip_suffix(&raw, "b") else {
        return out;
    };
    let Some(value) = numeral::read_decimal(digits) else {
        return out;
    };
    let whole: u64 = value.whole();
    if whole < 1 {
        return out;
    }
    let mut token = numeral::number_text(whole);
    token.append("b");
    let differs = token != raw;
    out.push(token);
    if differs {
        out.push(raw);
    }
    assert(text::texts(out@) =~= size_tokens(parameter_size@));
    out
}

/// The tag that a model has when it is pulled without one.
pub const OLLAMA_DEFAULT_TAG: &'static str = "latest";

/// The names that an install of `m` stands for: its tag, and, when that leaves the size
/// open, its family and the tags of the family that its parameter count implies.
pub open spec fn install_names(m: OllamaModelView) -> Seq<Seq<char>> {
    let lower = outside::lowercase(m.name);
    let family = text::before_first(lower, seq![':']);
    let tag = match text::after_first(lower, seq![':']) {
        Some(t) => t,
        None => OLLAMA_DEFAULT_TAG@,
    };
    if tag != OLLAMA_DEFAULT_TAG@ {
        seq![lower]
    } else {
        seq![lower, family] + family_tags(family, size_tokens(m.parameter_size))
    }
}

/// The tags of a family with each of the given size marks.
pub open spec fn family_tags(family: Seq<char>, tokens: Seq<Seq<char>>) -> Seq<Seq<char>> {
    Seq::new(tokens.len(), |i: int| family + ":"@ + tokens[i])
}

/// The names that the local models among `models` stand for.
pub open spec fn installed_names(models: Seq<OllamaModelView>) -> Set<Seq<char>>
    decreases models.len(),
{
    if models.len() == 0 {
        Set::empty()
    } else {
        let before = installed_names(models.drop_last());
        if models.last().runs_elsewhere() {
            before
        } else {
            before.union(install_names(models.last()).to_set())
        }
    }
}

/// The number of local models among `models`.
pub open spec fn local_count(models: Seq<OllamaModelView>) -> nat
    decreases models.len(),
{
    if models.len() == 0 {
        0
    } else {
        local_count(models.drop_last()) + (if models.last().runs_elsewhere() {
            0nat
        } else {
            1nat
        })
    }
}

/// The names that an install stands for.
fn install_name_list(m: &OllamaModel) -> (r: Vec<String>)
    ensures
        text::texts(r@) == install_names(m@),
{
    let colon = [':'];
    assert(colon@ == seq![':']);
    let lower = outside::to_lowercase(&m.name);
    let family = text::head_before(&lower, &colon).to_string();
    let is_default = match text::rest_after(&lower, &colon) {
        Some(t) => text::same(t, OLLAMA_DEFAULT_TAG),
        None => true,
    };
    let mut out: Vec<String> = Vec::new();
    out.push(lower);
    if !is_default {
        assert(text::texts(out@) =~= install_names(m@));
        return out;
    }
    out.push(family.clone());
    let tokens = size_tokens_from_parameter_size(&m.details.parameter_size);
    let ghost ts = text::texts(tokens@);
    let ghost fixed = text::texts(out@);
    for i in 0..tokens.len()
        invariant
            ts == text::texts(tokens@),
            fixed.len() == 2,
            text::texts(out@) == fixed + family_tags(family@, ts).take(i as int),
    {
        let mut tag = family.clone();
        tag.append(":");
        tag.append(&tokens[i]);
        let ghost before = text::texts(out@);
        assert(tag@ == family_tags(family@, ts)[i as int]);
        out.push(tag);
        assert(text::texts(out@) =~= before.push(family_tags(family@, ts)[i as int]));
    }
    assert(text::texts(out@) =~= install_names(m@));
    out
}

/// The names that Ollama's list stands for, and the number of local models in it. Models
/// that run elsewhere count for nothing.
pub fn build_installed_set(models: Vec<OllamaModel>) -> (r: (NameSet, usize))
    ensures
        r.0@ == installed_names(ollama_views(models@)),
        r.1 == local_count(ollama_views(models@)),
{
    let ghost views = ollama_views(models@);
    let mut set = NameSet::new();
    let mut count: usize = 0;
    for i in 0..models.len()
        invariant
            views == ollama_views(models@),
            set@ == installed_names(views.take(i as int)),
            count == local_count(views.take(i as int)),
            count <= i,
    {
        proof {
            assert(views.take(i + 1).drop_last() == views.take(i as int));
            assert(views.take(i + 1).last() == models@[i as int]@);
        }
        if !models[i].is_cloud() {
            count = count + 1;
            let names = install_name_list(&models[i]);
            let ghost start = set@;
            let ghost list = text::texts(names@);
            assert(set@ =~= start.union(list.take(0).to_set()));
            for j in 0..names.len()
                invariant
                    list == text::texts(names@),
                    set@ == start.union(list.take(j as int).to_set()),
            {
                let name = names[j].clone();
                assert(name@ == list[j as int]);
                set.insert(name);
                proof {
                    assert(list.take(j + 1) == list.take(j as int).push(list[j as int]));
                    list.take(j as int).lemma_push_to_set_commute(list[j as int]);
                    assert(set@ =~= start.union(list.take(j + 1).to_set()));
                }
            }
            assert(list.take(list.len() as int) == list);
        }
    }
    assert(views.take(models@.len() as int) == views);
    (set, count)
}

// ---------------------------------------------------------------------------
// Laws
// ---------------------------------------------------------------------------

/// A tag in lower-case ASCII that does not end in `d`, as every tag of the table is.
spec fn plain_tag(t: Seq<char>) -> bool {
    t.len() > 0 && t.last() != 'd' && forall|i: int|
        0 <= i < t.len() ==> (#[trigger] t[i] as u32) < 128 && !('A' <= t[i] && t[i] <= 'Z')
}

proof fn lemma_tags_plain_1(i: int)
    requires
        0 <= i <= 34,
    ensures
        plain_tag(ollama_table()[i].1@),
{
    if i == 0 {
        reveal_strlit("llama3.3:70b");
        assert(ollama_table()[0].1 == "llama3.3:70b");
    } else if i == 1 {
        reveal_strlit("llama3.2-vision:11b");
        assert(ollama_table()[1].1 == "llama3.2-vision:11b");
    } else if i == 2 {
        reveal_strlit("llama3.2:3b");
        assert(ollama_table()[2].1 == "llama3.2:3b");
    } else if i == 3 {
        reveal_strlit("llama3.2:3b");
        assert(ollama_table()[3].1 == "llama3.2:3b");
    } else if i == 4 {
        reveal_strlit("llama3.2:1b");
        assert(ollama_table()[4].1 == "llama3.2:1b");
    } else if i == 5 {
        reveal_strlit("llama3.2:1b");
        assert(ollama_table()[5].1 == "llama3.2:1b");
    } else if i == 6 {
        reveal_strlit("llama3.1:405b");
        assert(ollama_table()[6].1 == "llama3.1:405b");
    } else if i == 7 {
        reveal_strlit("llama3.1:405b");
        assert(ollama_table()[7].1 == "llama3.1:405b");
    } else if i == 8 {
        reveal_strlit("llama3.1:70b");
        assert(ollama_table()[8].1 == "llama3.1:70b");
    } else if i == 9 {
        reveal_strlit("llama3.1:8b");
        assert(ollama_table()[9].1 == "llama3.1:8b");
    } else if i == 10 {
        reveal_strlit("llama3.1:8b");
        assert(ollama_table()[10].1 == "llama3.1:8b");
    } else if i == 11 {
        reveal_strlit("llama3:8b");
        assert(ollama_table()[11].1 == "llama3:8b");
    } else if i == 12 {
        reveal_strlit("llama3:8b");
        assert(ollama_table()[12].1 == "llama3:8b");
    } else if i == 13 {
        reveal_strlit("llama2:7b");
        assert(ollama_table()[13].1 == "llama2:7b");
    } else if i == 14 {
        reveal_strlit("codellama:34b");
        assert(ollama_table()[14].1 == "codellama:34b");
    } else if i == 15 {
        reveal_strlit("codellama:13b");
        assert(ollama_table()[15].1 == "codellama:13b");
    } else if i == 16 {
        reveal_strlit("codellama:7b");
        assert(ollama_table()[16].1 == "codellama:7b");
    } else if i == 17 {
        reveal_strlit("gemma3:27b");
        assert(ollama_table()[17].1 == "gemma3:27b");
    } else if i == 18 {
        reveal_strlit("gemma3:12b");
        assert(ollama_table()[18].1 == "gemma3:12b");
    } else if i == 19 {
        reveal_strlit("gemma3:4b");
        assert(ollama_table()[19].1 == "gemma3:4b");
    } else if i == 20 {
        reveal_strlit("gemma3:1b");
        assert(ollama_table()[20].1 == "gemma3:1b");
    } else if i == 21 {
        reveal_strlit("gemma2:27b");
        assert(ollama_table()[21].1 == "gemma2:27b");
    } else if i == 22 {
        reveal_strlit("gemma2:9b");
        assert(ollama_table()[22].1 == "gemma2:9b");
    } else if i == 23 {
        reveal_strlit("gemma2:2b");
        assert(ollama_table()[23].1 == "gemma2:2b");
    } else if i == 24 {
        reveal_strlit("phi4");
        assert(ollama_table()[24].1 == "phi4");
    } else if i == 25 {
        reveal_strlit("phi4-mini");
        assert(ollama_table()[25].1 == "phi4-mini");
    } else if i == 26 {
        reveal_strlit("phi3.5");
        assert(ollama_table()[26].1 == "phi3.5");
    } else if i == 27 {
        reveal_strlit("phi3");
        assert(ollama_table()[27].1 == "phi3");
    } else if i == 28 {
        reveal_strlit("phi3:14b");
        assert(ollama_table()[28].1 == "phi3:14b");
    } else if i == 29 {
        reveal_strlit("phi");
        assert(ollama_table()[29].1 == "phi");
    } else if i == 30 {
        reveal_strlit("orca2:7b");
        assert(ollama_table()[30].1 == "orca2:7b");
    } else if i == 31 {
        reveal_strlit("orca2:13b");
        assert(ollama_table()[31].1 == "orca2:13b");
    } else if i == 32 {
        reveal_strlit("mistral:7b");
        assert(ollama_table()[32].1 == "mistral:7b");
    } else if i == 33 {
        reveal_strlit("mistral:7b");
        assert(ollama_table()[33].1 == "mistral:7b");
    } else if i == 34 {
        reveal_strlit("mistral-nemo");
        assert(ollama_table()[34].1 == "mistral-nemo");
    }
}

proof fn lemma_tags_plain_2(i: int)
    requires
        35 <= i <= 69,
    ensures
        plain_tag(ollama_table()[i].1@),
{
    if i == 35 {
        reveal_strlit("mistral-small:24b");
        assert(ollama_table()[35].1 == "mistral-small:24b");
    } else if i == 36 {
        reveal_strlit("mistral-small3.1");
        assert(ollama_table()[36].1 == "mistral-small3.1");
    } else if i == 37 {
        reveal_strlit("mistral-large");
        assert(ollama_table()[37].1 == "mistral-large");
    } else if i == 38 {
        reveal_strlit("devstral");
        assert(ollama_table()[38].1 == "devstral");
    } else if i == 39 {
        reveal_strlit("mixtral:8x7b");
        assert(ollama_table()[39].1 == "mixtral:8x7b");
    } else if i == 40 {
        reveal_strlit("mixtral:8x22b");
        assert(ollama_table()[40].1 == "mixtral:8x22b");
    } else if i == 41 {
        reveal_strlit("qwen2:1.5b");
        assert(ollama_table()[41].1 == "qwen2:1.5b");
    } else if i == 42 {
        reveal_strlit("qwen2.5:72b");
        assert(ollama_table()[42].1 == "qwen2.5:72b");
    } else if i == 43 {
        reveal_strlit("qwen2.5:32b");
        assert(ollama_table()[43].1 == "qwen2.5:32b");
    } else if i == 44 {
        reveal_strlit("qwen2.5:14b");
        assert(ollama_table()[44].1 == "qwen2.5:14b");
    } else if i == 45 {
        reveal_strlit("qwen2.5:7b");
        assert(ollama_table()[45].1 == "qwen2.5:7b");
    } else if i == 46 {
        reveal_strlit("qwen2.5:7b");
        assert(ollama_table()[46].1 == "qwen2.5:7b");
    } else if i == 47 {
        reveal_strlit("qwen2.5:3b");
        assert(ollama_table()[47].1 == "qwen2.5:3b");
    } else if i == 48 {
        reveal_strlit("qwen2.5:1.5b");
        assert(ollama_table()[48].1 == "qwen2.5:1.5b");
    } else if i == 49 {
        reveal_strlit("qwen2.5:1.5b");
        assert(ollama_table()[49].1 == "qwen2.5:1.5b");
    } else if i == 50 {
        reveal_strlit("qwen2.5:0.5b");
        assert(ollama_table()[50].1 == "qwen2.5:0.5b");
    } else if i == 51 {
        reveal_strlit("qwen2.5:0.5b");
        assert(ollama_table()[51].1 == "qwen2.5:0.5b");
    } else if i == 52 {
        reveal_strlit("qwen2.5-coder:32b");
        assert(ollama_table()[52].1 == "qwen2.5-coder:32b");
    } else if i == 53 {
        reveal_strlit("qwen2.5-coder:14b");
        assert(ollama_table()[53].1 == "qwen2.5-coder:14b");
    } else if i == 54 {
        reveal_strlit("qwen2.5-coder:7b");
        assert(ollama_table()[54].1 == "qwen2.5-coder:7b");
    } else if i == 55 {
        reveal_strlit("qwen2.5-coder:1.5b");
        assert(ollama_table()[55].1 == "qwen2.5-coder:1.5b");
    } else if i == 56 {
        reveal_strlit("qwen2.5-coder:0.5b");
        assert(ollama_table()[56].1 == "qwen2.5-coder:0.5b");
    } else if i == 57 {
        reveal_strlit("qwen2.5vl:72b");
        assert(ollama_table()[57].1 == "qwen2.5vl:72b");
    } else if i == 58 {
        reveal_strlit("qwen2.5vl:7b");
        assert(ollama_table()[58].1 == "qwen2.5vl:7b");
    } else if i == 59 {
        reveal_strlit("qwen2.5vl:3b");
        assert(ollama_table()[59].1 == "qwen2.5vl:3b");
    } else if i == 60 {
        reveal_strlit("qwq");
        assert(ollama_table()[60].1 == "qwq");
    } else if i == 61 {
        reveal_strlit("qwen3:235b");
        assert(ollama_table()[61].1 == "qwen3:235b");
    } else if i == 62 {
        reveal_strlit("qwen3:32b");
        assert(ollama_table()[62].1 == "qwen3:32b");
    } else if i == 63 {
        reveal_strlit("qwen3:30b-a3b");
        assert(ollama_table()[63].1 == "qwen3:30b-a3b");
    } else if i == 64 {
        reveal_strlit("qwen3:30b-a3b");
        assert(ollama_table()[64].1 == "qwen3:30b-a3b");
    } else if i == 65 {
        reveal_strlit("qwen3:14b");
        assert(ollama_table()[65].1 == "qwen3:14b");
    } else if i == 66 {
        reveal_strlit("qwen3:8b");
        assert(ollama_table()[66].1 == "qwen3:8b");
    } else if i == 67 {
        reveal_strlit("qwen3:4b");
        assert(ollama_table()[67].1 == "qwen3:4b");
    } else if i == 68 {
        reveal_strlit("qwen3:4b");
        assert(ollama_table()[68].1 == "qwen3:4b");
    } else if i == 69 {
        reveal_strlit("qwen3:1.7b");
        assert(ollama_table()[69].1 == "qwen3:1.7b");
    }
}

proof fn lemma_tags_plain_3(i: int)
    requires
        70 <= i <= 104,
    ensures
        plain_tag(ollama_table()[i].1@),
{
    if i == 70 {
        reveal_strlit("qwen3:0.6b");
        assert(ollama_table()[70].1 == "qwen3:0.6b");
    } else if i == 71 {
        reveal_strlit("qwen3-coder");
        assert(ollama_table()[71].1 == "qwen3-coder");
    } else if i == 72 {
        reveal_strlit("qwen3.5");
        assert(ollama_table()[72].1 == "qwen3.5");
    } else if i == 73 {
        reveal_strlit("qwen3.5:35b");
        assert(ollama_table()[73].1 == "qwen3.5:35b");
    } else if i == 74 {
        reveal_strlit("qwen3.5:122b");
        assert(ollama_table()[74].1 == "qwen3.5:122b");
    } else if i == 75 {
        reveal_strlit("qwen3.8:27b");
        assert(ollama_table()[75].1 == "qwen3.8:27b");
    } else if i == 76 {
        reveal_strlit("qwen3-coder-next");
        assert(ollama_table()[76].1 == "qwen3-coder-next");
    } else if i == 77 {
        reveal_strlit("deepseek-v3");
        assert(ollama_table()[77].1 == "deepseek-v3");
    } else if i == 78 {
        reveal_strlit("deepseek-v3");
        assert(ollama_table()[78].1 == "deepseek-v3");
    } else if i == 79 {
        reveal_strlit("deepseek-r1");
        assert(ollama_table()[79].1 == "deepseek-r1");
    } else if i == 80 {
        reveal_strlit("deepseek-r1");
        assert(ollama_table()[80].1 == "deepseek-r1");
    } else if i == 81 {
        reveal_strlit("deepseek-r1:32b");
        assert(ollama_table()[81].1 == "deepseek-r1:32b");
    } else if i == 82 {
        reveal_strlit("deepseek-r1:14b");
        assert(ollama_table()[82].1 == "deepseek-r1:14b");
    } else if i == 83 {
        reveal_strlit("deepseek-r1:7b");
        assert(ollama_table()[83].1 == "deepseek-r1:7b");
    } else if i == 84 {
        reveal_strlit("deepseek-r1:1.5b");
        assert(ollama_table()[84].1 == "deepseek-r1:1.5b");
    } else if i == 85 {
        reveal_strlit("deepseek-r1:70b");
        assert(ollama_table()[85].1 == "deepseek-r1:70b");
    } else if i == 86 {
        reveal_strlit("deepseek-r1:8b");
        assert(ollama_table()[86].1 == "deepseek-r1:8b");
    } else if i == 87 {
        reveal_strlit("deepseek-coder-v2:16b");
        assert(ollama_table()[87].1 == "deepseek-coder-v2:16b");
    } else if i == 88 {
        reveal_strlit("tinyllama");
        assert(ollama_table()[88].1 == "tinyllama");
    } else if i == 89 {
        reveal_strlit("stablelm2:1.6b");
        assert(ollama_table()[89].1 == "stablelm2:1.6b");
    } else if i == 90 {
        reveal_strlit("yi:6b");
        assert(ollama_table()[90].1 == "yi:6b");
    } else if i == 91 {
        reveal_strlit("yi:34b");
        assert(ollama_table()[91].1 == "yi:34b");
    } else if i == 92 {
        reveal_strlit("starcoder2:7b");
        assert(ollama_table()[92].1 == "starcoder2:7b");
    } else if i == 93 {
        reveal_strlit("starcoder2:15b");
        assert(ollama_table()[93].1 == "starcoder2:15b");
    } else if i == 94 {
        reveal_strlit("falcon:7b");
        assert(ollama_table()[94].1 == "falcon:7b");
    } else if i == 95 {
        reveal_strlit("falcon:40b");
        assert(ollama_table()[95].1 == "falcon:40b");
    } else if i == 96 {
        reveal_strlit("falcon:180b");
        assert(ollama_table()[96].1 == "falcon:180b");
    } else if i == 97 {
        reveal_strlit("falcon3:1b");
        assert(ollama_table()[97].1 == "falcon3:1b");
    } else if i == 98 {
        reveal_strlit("falcon3:3b");
        assert(ollama_table()[98].1 == "falcon3:3b");
    } else if i == 99 {
        reveal_strlit("falcon3:7b");
        assert(ollama_table()[99].1 == "falcon3:7b");
    } else if i == 100 {
        reveal_strlit("openchat:7b");
        assert(ollama_table()[100].1 == "openchat:7b");
    } else if i == 101 {
        reveal_strlit("vicuna:7b");
        assert(ollama_table()[101].1 == "vicuna:7b");
    } else if i == 102 {
        reveal_strlit("vicuna:13b");
        assert(ollama_table()[102].1 == "vicuna:13b");
    } else if i == 103 {
        reveal_strlit("glm4:9b");
        assert(ollama_table()[103].1 == "glm4:9b");
    } else if i == 104 {
        reveal_strlit("solar:10.7b");
        assert(ollama_table()[104].1 == "solar:10.7b");
    }
}

proof fn lemma_tags_plain_4(i: int)
    requires
        105 <= i <= 137,
    ensures
        plain_tag(ollama_table()[i].1@),
{
    if i == 105 {
        reveal_strlit("zephyr:7b");
        assert(ollama_table()[105].1 == "zephyr:7b");
    } else if i == 106 {
        reveal_strlit("command-r");
        assert(ollama_table()[106].1 == "command-r");
    } else if i == 107 {
        reveal_strlit("command-r-plus");
        assert(ollama_table()[107].1 == "command-r-plus");
    } else if i == 108 {
        reveal_strlit("command-a");
        assert(ollama_table()[108].1 == "command-a");
    } else if i == 109 {
        reveal_strlit("nous-hermes2-mixtral:8x7b");
        assert(ollama_table()[109].1 == "nous-hermes2-mixtral:8x7b");
    } else if i == 110 {
        reveal_strlit("hermes3:8b");
        assert(ollama_table()[110].1 == "hermes3:8b");
    } else if i == 111 {
        reveal_strlit("nomic-embed-text");
        assert(ollama_table()[111].1 == "nomic-embed-text");
    } else if i == 112 {
        reveal_strlit("bge-large");
        assert(ollama_table()[112].1 == "bge-large");
    } else if i == 113 {
        reveal_strlit("smollm2:1.7b");
        assert(ollama_table()[113].1 == "smollm2:1.7b");
    } else if i == 114 {
        reveal_strlit("smollm2:135m");
        assert(ollama_table()[114].1 == "smollm2:135m");
    } else if i == 115 {
        reveal_strlit("smollm2:135m");
        assert(ollama_table()[115].1 == "smollm2:135m");
    } else if i == 116 {
        reveal_strlit("gemma3n:e4b");
        assert(ollama_table()[116].1 == "gemma3n:e4b");
    } else if i == 117 {
        reveal_strlit("gemma3n:e2b");
        assert(ollama_table()[117].1 == "gemma3n:e2b");
    } else if i == 118 {
        reveal_strlit("phi4-reasoning");
        assert(ollama_table()[118].1 == "phi4-reasoning");
    } else if i == 119 {
        reveal_strlit("phi4-mini-reasoning");
        assert(ollama_table()[119].1 == "phi4-mini-reasoning");
    } else if i == 120 {
        reveal_strlit("nemotron:70b");
        assert(ollama_table()[120].1 == "nemotron:70b");
    } else if i == 121 {
        reveal_strlit("nemotron:49b");
        assert(ollama_table()[121].1 == "nemotron:49b");
    } else if i == 122 {
        reveal_strlit("exaone-deep:2.4b");
        assert(ollama_table()[122].1 == "exaone-deep:2.4b");
    } else if i == 123 {
        reveal_strlit("exaone-deep:7.8b");
        assert(ollama_table()[123].1 == "exaone-deep:7.8b");
    } else if i == 124 {
        reveal_strlit("exaone-deep:32b");
        assert(ollama_table()[124].1 == "exaone-deep:32b");
    } else if i == 125 {
        reveal_strlit("olmo2:7b");
        assert(ollama_table()[125].1 == "olmo2:7b");
    } else if i == 126 {
        reveal_strlit("olmo2:13b");
        assert(ollama_table()[126].1 == "olmo2:13b");
    } else if i == 127 {
        reveal_strlit("olmo2:32b");
        assert(ollama_table()[127].1 == "olmo2:32b");
    } else if i == 128 {
        reveal_strlit("deepseek-v3");
        assert(ollama_table()[128].1 == "deepseek-v3");
    } else if i == 129 {
        reveal_strlit("lfm2:350m");
        assert(ollama_table()[129].1 == "lfm2:350m");
    } else if i == 130 {
        reveal_strlit("lfm2:700m");
        assert(ollama_table()[130].1 == "lfm2:700m");
    } else if i == 131 {
        reveal_strlit("lfm2:1.2b");
        assert(ollama_table()[131].1 == "lfm2:1.2b");
    } else if i == 132 {
        reveal_strlit("lfm2:2.6b");
        assert(ollama_table()[132].1 == "lfm2:2.6b");
    } else if i == 133 {
        reveal_strlit("lfm2:2.6b");
        assert(ollama_table()[133].1 == "lfm2:2.6b");
    } else if i == 134 {
        reveal_strlit("lfm2:8b-a1b");
        assert(ollama_table()[134].1 == "lfm2:8b-a1b");
    } else if i == 135 {
        reveal_strlit("lfm2:24b");
        assert(ollama_table()[135].1 == "lfm2:24b");
    } else if i == 136 {
        reveal_strlit("lfm2.5:1.2b");
        assert(ollama_table()[136].1 == "lfm2.5:1.2b");
    } else if i == 137 {
        reveal_strlit("lfm2.5-thinking:1.2b");
        assert(ollama_table()[137].1 == "lfm2.5-thinking:1.2b");
    }
}

proof fn lemma_tags_plain(i: int)
    requires
        0 <= i < ollama_table().len(),
    ensures
        plain_tag(ollama_table()[i].1@),
{
    if i <= 34 {
        lemma_tags_plain_1(i);
    } else if i <= 69 {
        lemma_tags_plain_2(i);
    } else if i <= 104 {
        lemma_tags_plain_3(i);
    } else {
        lemma_tags_plain_4(i);
    }
}

proof fn lemma_mapped_tag_plain(repo: Seq<char>, i: int)
    ensures
        mapped_tag_from(repo, i) matches Some(t) ==> plain_tag(t),
    decreases ollama_table().len() - i,
{
    if 0 <= i < ollama_table().len() {
        lemma_tags_plain(i);
        lemma_mapped_tag_plain(repo, i + 1);
    }
}

proof fn lemma_plain_tag_stays(t: Seq<char>)
    requires
        plain_tag(t),
    ensures
        outside::lowercase(t) == t,
        !"-cloud"@.is_suffix_of(text::after_last(t, seq![':'])),
{
    assert(text::is_ascii_text(t));
    assert(text::ascii_lowercase(t) =~= t);
    reveal_strlit("-cloud");
    let a = text::after_last(t, seq![':']);
    if "-cloud"@.is_suffix_of(a) {
        let k = text::rfind_any_before(t, seq![':'], t.len() as int);
        lemma_rfind_any_range(t, seq![':'], t.len() as int);
        assert(a.last() == t.last());
        assert(a.subrange(a.len() - 6, a.len() as int)[5] == 'd');
    }
}

proof fn lemma_rfind_any_range(s: Seq<char>, set: Seq<char>, i: int)
    ensures
        text::rfind_any_before(s, set, i) matches Some(k) ==> 0 <= k < s.len(),
    decreases i,
{
    if 0 < i <= s.len() {
        lemma_rfind_any_range(s, set, i - 1);
    }
}

/// An install whose tag tells a size stands for that tag and nothing else.
pub proof fn law_sized_install_is_one_name(m: OllamaModelView)
    requires
        text::after_first(outside::lowercase(m.name), seq![':']) matches Some(t) && t
            != OLLAMA_DEFAULT_TAG@,
    ensures
        install_names(m) == seq![outside::lowercase(m.name)],
{
}

/// A model that runs elsewhere adds nothing to the installed names.
pub proof fn law_cloud_model_adds_nothing(models: Seq<OllamaModelView>, m: OllamaModelView)
    requires
        m.runs_elsewhere(),
    ensures
        installed_names(models.push(m)) == installed_names(models),
        local_count(models.push(m)) == local_count(models),
{
    assert(models.push(m).drop_last() =~= models);
}

/// Having pulled exactly the tag that a catalog model maps to marks that model installed.
pub proof fn law_mapped_model_is_detected(hf_name: Seq<char>, m: OllamaModelView)
    requires
        mapped_tag(hf_name) == Some(m.name),
        m.size > 0,
    ensures
        installed_ollama(hf_name, None, installed_names(seq![m])),
{
    let tag = m.name;
    lemma_mapped_tag_plain(matching::repo_lower(hf_name), 0);
    lemma_plain_tag_stays(tag);
    let models = seq![m];
    assert(models.last() == m);
    assert(install_names(m)[0] == tag);
    assert(install_names(m).contains(tag));
    assert(installed_names(models).contains(tag));
    assert(ollama_candidates(hf_name)[0] == tag);
    assert(tag_matches(tag, ollama_candidates(hf_name)[0], None));
}

/// What is installed stays installed when more is.
pub proof fn law_more_installs_keep_matches(
    hf_name: Seq<char>,
    params_m: Option<u64>,
    fewer: Set<Seq<char>>,
    more: Set<Seq<char>>,
)
    requires
        fewer.subset_of(more),
        installed_ollama(hf_name, params_m, fewer),
    ensures
        installed_ollama(hf_name, params_m, more),
{
    if !fewer.contains(outside::lowercase(hf_name)) {
        let (name, i) = choose|name: Seq<char>, i: int|
            #![trigger fewer.contains(name), ollama_candidates(hf_name)[i]]
            fewer.contains(name) && 0 <= i < ollama_candidates(hf_name).len() && tag_matches(
                name,
                ollama_candidates(hf_name)[i],
                params_m,
            );
        assert(more.contains(name));
        assert(tag_matches(name, ollama_candidates(hf_name)[i], params_m));
    }
}

/// Knowing the size of a catalog model can only take matches away.
pub proof fn law_known_size_only_restricts(
    hf_name: Seq<char>,
    params_m: Option<u64>,
    installed: Set<Seq<char>>,
)
    requires
        installed_ollama(hf_name, params_m, installed),
    ensures
        installed_ollama(hf_name, None, installed),
{
    if !installed.contains(outside::lowercase(hf_name)) {
        let (name, i) = choose|name: Seq<char>, i: int|
            #![trigger installed.contains(name), ollama_candidates(hf_name)[i]]
            installed.contains(name) && 0 <= i < ollama_candidates(hf_name).len() && tag_matches(
                name,
                ollama_candidates(hf_name)[i],
                params_m,
            );
        assert(tag_matches(name, ollama_candidates(hf_name)[i], None));
    }
}

/// A candidate that tells a size only matches installed names that begin with it.
pub proof fn law_sized_candidate_needs_its_size(
    installed_name: Seq<char>,
    candidate: Seq<char>,
    params_m: Option<u64>,
)
    requires
        text::occurs(candidate, ":"@),
        tag_matches(installed_name, candidate, params_m),
    ensures
        candidate.is_prefix_of(installed_name),
{
    if installed_name != candidate {
        let p = candidate + "-"@;
        assert(installed_name.subrange(0, candidate.len() as int) =~= p.subrange(
            0,
            candidate.len() as int,
        )) by {
            assert(installed_name.subrange(0, p.len() as int) =~= p);
            assert forall|k: int| 0 <= k < candidate.len() implies installed_name[k] == p[k] by {
                assert(installed_name.subrange(0, p.len() as int)[k] == p[k]);
            }
        }
    } else {
        assert(installed_name.subrange(0, candidate.len() as int) =~= candidate);
    }
}

/// A tag with a size stands for itself and its variants behind a hyphen. A family without one
/// stands for its tags of the right size, and for all of them where no size is known.
pub proof fn law_tags_match(candidate: Seq<char>, tail: Seq<char>, params_m: Option<u64>)
    ensures
        tag_matches(candidate, candidate, params_m),
        text::occurs(candidate, ":"@) ==> tag_matches(
            candidate + seq!['-'] + tail,
            candidate,
            params_m,
        ),
        !text::occurs(candidate, ":"@) ==> tag_matches(candidate + seq![':'] + tail, candidate, None),
        !text::occurs(candidate, ":"@) && candidate + seq![':'] + tail != candidate ==> (tag_matches(
            candidate + seq![':'] + tail,
            candidate,
            params_m,
        ) <==> size_agrees(candidate + seq![':'] + tail, params_m)),
{
    reveal_strlit("-");
    reveal_strlit(":");
    assert("-"@ =~= seq!['-']);
    assert(":"@ =~= seq![':']);
    let a = candidate + seq!['-'] + tail;
    let b = candidate + seq![':'] + tail;
    assert(a.subrange(0, (candidate + "-"@).len() as int) =~= candidate + "-"@);
    assert(b.subrange(0, (candidate + ":"@).len() as int) =~= candidate + ":"@);
    assert((candidate + "-"@).is_prefix_of(a));
    assert((candidate + ":"@).is_prefix_of(b));
}

/// A size agrees with a tag where either is unknown, and where neither is more than twice the
/// other.
pub proof fn law_sizes_agree_within_two(name: Seq<char>, params_m: u64, d: (nat, nat))
    ensures
        size_agrees(name, None),
        tag_size(name) is None ==> size_agrees(name, Some(params_m)),
        size_agrees(name, Some(0u64)),
        tag_size(name) == Some(d) && params_m > 0 && d.0 > 0 ==> (size_agrees(name, Some(params_m))
            <==> d.0 * 1000 <= 2 * (params_m * vstd::arithmetic::power::pow(10, d.1)) && params_m
            * vstd::arithmetic::power::pow(10, d.1) <= 2 * (d.0 * 1000)),
{
    numeral::law_alike_within_a_factor_of_two(d, params_m as nat);
}

/// The size in a tag stands between the colon and the letter `b`.
pub proof fn law_tags_tell_their_size(family: Seq<char>, digits: Seq<char>)
    requires
        !family.contains(':'),
        numeral::all_digits(digits),
        0 < digits.len() <= numeral::MAX_DIGITS,
    ensures
        tag_size(family + seq![':'] + digits + seq!['b']) == Some((numeral::digits_value(digits), 0nat)),
        tag_size(family) is None,
{
    reveal_strlit("b");
    assert("b"@ =~= seq!['b']);
    let rest = digits + seq!['b'];
    let name = family + seq![':'] + digits + seq!['b'];
    text::law_cutting(name, ':');
    text::law_cutting(family, ':');
    let head = text::before_first(name, seq![':']);
    let tail = text::after_first(name, seq![':'])->0;
    assert(name[family.len() as int] == ':');
    assert(name.contains(':'));
    let glued = head + seq![':'] + tail;
    assert(glued[head.len() as int] == name[head.len() as int]);
    if head.len() < family.len() {
        assert(family[head.len() as int] == ':');
        assert(family.contains(':'));
    }
    if head.len() > family.len() {
        assert(head[family.len() as int] == glued[family.len() as int]);
        assert(head.contains(':'));
    }
    assert(tail =~= rest) by {
        assert forall|k: int| 0 <= k < rest.len() implies #[trigger] tail[k] == rest[k] by {
            assert(glued[head.len() + 1 + k] == name[head.len() + 1 + k]);
        }
    }
    assert forall|k: int| 0 <= k < rest.len() implies rest[k] != ':' && rest[k] != '-' by {
        if k < digits.len() {
            assert(text::is_digit(digits[k]));
            assert(rest[k] == digits[k]);
        }
    }
    assert(!rest.contains(':'));
    assert(!rest.contains('-'));
    text::law_cutting(rest, ':');
    text::law_cutting(rest, '-');
    assert(rest.subrange(rest.len() - 1, rest.len() as int) =~= "b"@);
    assert("b"@.is_suffix_of(rest));
    assert(rest.take(rest.len() - 1) =~= digits);
    numeral::law_points_are_placed(digits, Seq::empty());
}

/// A model that is here is known under its own name; with the usual tag it is known under its
/// family and the sizes of it too. It is counted once.
pub proof fn law_installed_models_are_known(models: Seq<OllamaModelView>, m: OllamaModelView)
    requires
        !m.runs_elsewhere(),
    ensures
        installed_names(models.push(m)).contains(outside::lowercase(m.name)),
        installed_names(models).subset_of(installed_names(models.push(m))),
        local_count(models.push(m)) == local_count(models) + 1,
        text::after_first(outside::lowercase(m.name), seq![':']) is None
            ==> installed_names(models.push(m)).contains(
            text::before_first(outside::lowercase(m.name), seq![':']),
        ),
        text::after_first(outside::lowercase(m.name), seq![':']) == Some("latest"@)
            ==> installed_names(models.push(m)).contains(
            text::before_first(outside::lowercase(m.name), seq![':']),
        ),
        local_count(Seq::empty()) == 0,
{
    assert(models.push(m).drop_last() =~= models);
    let names = install_names(m);
    assert(names[0] == outside::lowercase(m.name));
    assert(names.contains(names[0]));
    if text::after_first(outside::lowercase(m.name), seq![':']) is None || text::after_first(
        outside::lowercase(m.name),
        seq![':'],
    ) == Some("latest"@) {
        assert(names[1] == text::before_first(outside::lowercase(m.name), seq![':']));
        assert(names.contains(names[1]));
    }
}

/// A model runs elsewhere where its tag says so or it takes no room here.
pub proof fn law_cloud_models_run_elsewhere(family: Seq<char>, size: u64, parameters: Seq<char>)
    requires
        !family.contains(':'),
        size > 0,
    ensures
        (OllamaModelView { name: family + ":120b-cloud"@, size, parameter_size: parameters }).runs_elsewhere(),
        !(OllamaModelView { name: family + ":120b"@, size, parameter_size: parameters }).runs_elsewhere(),
        (OllamaModelView { name: family, size: 0, parameter_size: parameters }).runs_elsewhere(),
{
    reveal_strlit(":120b-cloud");
    reveal_strlit(":120b");
    reveal_strlit("-cloud");
    let a = ":120b-cloud"@.skip(1);
    let b = ":120b"@.skip(1);
    lemma_behind_colon(family, a);
    lemma_behind_colon(family, b);
    assert(family + ":120b-cloud"@ =~= family + seq![':'] + a);
    assert(family + ":120b"@ =~= family + seq![':'] + b);
    assert(a.subrange(4, 10) =~= "-cloud"@);
    assert("-cloud"@.is_suffix_of(a));
}

proof fn lemma_behind_colon(family: Seq<char>, tag: Seq<char>)
    requires
        !tag.contains(':'),
    ensures
        text::after_last(family + seq![':'] + tag, seq![':']) == tag,
{
    let s = family + seq![':'] + tag;
    text::law_cutting(s, ':');
    let tail = text::after_last(s, seq![':']);
    assert(s[family.len() as int] == ':');
    assert(s.contains(':'));
    let at = s.len() - tail.len() - 1;
    if at > family.len() {
        assert(tag[at - family.len() - 1] == s[at]);
        assert(tag.contains(s[at]));
    }
    if at < family.len() {
        assert(tail[family.len() - at - 1] == s[family.len() as int]);
        assert(tail.contains(':'));
    }
    assert(tail =~= tag);
}

/// A model without a row in the table goes by its name without the marks of tuning, and with its
/// size behind a colon where the name tells one.
pub proof fn law_unmapped_candidates(hf_name: Seq<char>)
    requires
        mapped_tag(hf_name) is None,
    ensures
        ({
            let repo = matching::repo_lower(hf_name);
            let base = mlx::without_tuning(repo);
            &&& ollama_candidates(hf_name).contains(base)
            &&& ollama_candidates(hf_name).contains(repo)
            &&& size_split(base) matches Some((family, size)) ==> ollama_candidates(hf_name)[0]
                == family + ":"@ + size
        }),
{
    let repo = matching::repo_lower(hf_name);
    let base = mlx::without_tuning(repo);
    let c = ollama_candidates(hf_name);
    let n: int = if size_split(base) is Some {
        1
    } else {
        0
    };
    assert(c[n] == base);
    assert(c.contains(c[n]));
    if base != repo {
        assert(c[n + 1] == repo);
        assert(c.contains(c[n + 1]));
    }
}

/// The size at the end of a name is taken from behind its last hyphen.
pub proof fn law_sizes_at_the_end_are_split(family: Seq<char>, digits: Seq<char>)
    requires
        family.len() > 0,
        numeral::all_digits(digits),
        digits.len() > 0,
    ensures
        size_split(family + seq!['-'] + digits + seq!['b']) == Some((family, digits + seq!['b'])),
{
    let size = digits + seq!['b'];
    let name = family + seq!['-'] + digits + seq!['b'];
    assert forall|k: int| 0 <= k < size.len() implies size[k] != '-' by {
        if k < digits.len() {
            assert(text::is_digit(digits[k]));
            assert(size[k] == digits[k]);
        }
    }
    assert(!size.contains('-'));
    text::law_cutting(size, '-');
    assert(is_size_segment(size)) by {
        assert forall|i: int| 0 <= i < size.len() - 1 implies text::is_digit(#[trigger] size[i])
            || size[i] == '.' by {
            assert(text::is_digit(digits[i]));
        }
    }
    let at = family.len() as int + 1;
    assert(name.skip(at) =~= size);
    assert(name.take(at - 1) =~= family);
    lemma_split_later(name, at, name.len() as int);
}

proof fn lemma_split_later(name: Seq<char>, at: int, p: int)
    requires
        1 < at <= p <= name.len(),
        name[at - 1] == '-',
        forall|k: int| at <= k < name.len() ==> #[trigger] name[k] != '-',
        is_size_segment(text::before_first(name.skip(at), seq!['-'])),
    ensures
        size_split_before(name, p) == Some((name.take(at - 1), name.skip(at))),
    decreases p,
{
    if p > at {
        assert(name[p - 1] != '-');
        lemma_split_later(name, at, p - 1);
    }
}

/// The first row of a repository counts, and a repository that is in no row has no tag.
pub proof fn law_rows_tell_the_tag(hf_name: Seq<char>)
    ensures
        mapped_tag(hf_name) matches Some(tag) ==> exists|i: int|
            0 <= i < ollama_table().len() && (#[trigger] ollama_table()[i]).0@
                == matching::repo_lower(hf_name) && ollama_table()[i].1@ == tag,
        mapped_tag(hf_name) is None ==> forall|i: int|
            0 <= i < ollama_table().len() ==> (#[trigger] ollama_table()[i]).0@
                != matching::repo_lower(hf_name),
{
    lemma_rows_from(matching::repo_lower(hf_name), 0);
}

proof fn lemma_rows_from(repo: Seq<char>, i: int)
    requires
        0 <= i,
    ensures
        mapped_tag_from(repo, i) matches Some(tag) ==> exists|k: int|
            i <= k < ollama_table().len() && (#[trigger] ollama_table()[k]).0@ == repo
                && ollama_table()[k].1@ == tag,
        mapped_tag_from(repo, i) is None ==> forall|k: int|
            i <= k < ollama_table().len() ==> (#[trigger] ollama_table()[k]).0@ != repo,
    decreases ollama_table().len() - i,
{
    if i < ollama_table().len() && ollama_table()[i].0@ != repo {
        lemma_rows_from(repo, i + 1);
    }
}

} // verus!
