//! The model hub: queries, the files of repositories, quantized variants and downloads.
use vstd::arithmetic::power::*;
use vstd::prelude::*;
use crate::estimate;
use crate::json::{Json, JsonNumber, JsonTree};
use crate::json;
use crate::numeral::Decimal;
use crate::outside;
use crate::text;

verus! {

pub const HF_API: &'static str = "https://huggingface.co/api/models";

// ---------------------------------------------------------------------------
// Queries
// ---------------------------------------------------------------------------

/// What stands before the first occurrence of `p`, all of `s` where there is none.
pub open spec fn cut_at(s: Seq<char>, p: Seq<char>) -> Seq<char> {
    match text::find(s, p) {
        Some(i) => s.take(i),
        None => s,
    }
}

/// `s` without the scheme and the host of the model hub at its start.
pub open spec fn without_hub(s: Seq<char>) -> Seq<char> {
    let a = match text::without_prefix(s, "https://"@) {
        Some(rest) => rest,
        None => match text::without_prefix(s, "http://"@) {
            Some(rest) => rest,
            None => s,
        },
    };
    match text::without_prefix(a, "huggingface.co/"@) {
        Some(rest) => rest,
        None => a,
    }
}

/// The model name in what a user typed or pasted.
pub open spec fn cleaned_query(input: Seq<char>) -> Seq<char> {
    let a = without_hub(text::trim(input));
    let b = cut_at(cut_at(a, "?"@), "#"@);
    let c = cut_at(cut_at(b, "/tree/"@), "/blob/"@);
    text::trim_end_char(c, '/')
}

fn cut<'a>(s: &'a str, p: &str) -> (r: &'a str)
    ensures
        r@ == cut_at(s@, p@),
{
    match text::find_text(s, p) {
        Some(i) => s.substring_char(0, i),
        None => s,
    }
}

/// The model name in what a user typed or pasted: the address of a page of the model hub
/// gives the name of the model.
pub fn clean_model_query(input: &str) -> (r: String)
    ensures
        r@ == cleaned_query(input@),
{
    let s = text::trimmed(input);
    let a = match text::strip_prefix(s, "https://") {
        Some(rest) => rest,
        None => match text::strip_prefix(s, "http://") {
            Some(rest) => rest,
            None => s,
        },
    };
    let b = match text::strip_prefix(a, "huggingface.co/") {
        Some(rest) => rest,
        None => a,
    };
    let c = cut(cut(b, "?"), "#");
    let d = cut(cut(c, "/tree/"), "/blob/");
    text::trimmed_end_char(d, '/').to_string()
}

/// A query that is looked up as the name of a repository before it is searched for.
pub open spec fn names_repo(query: Seq<char>) -> bool {
    text::occurs(query, "/"@) && !text::occurs(query, " "@)
}

/// Whether a query is looked up as the name of a repository before it is searched for.
pub fn is_exact_query(query: &str) -> (r: bool)
    ensures
        r == names_repo(query@),
{
    text::contains_text(query, "/") && !text::contains_text(query, " ")
}

/// The value of the authorization header for a token: none for one that is just white
/// space.
pub open spec fn bearer(token: Option<Seq<char>>) -> Option<Seq<char>> {
    match token {
        Some(t) => if text::trim(t).len() > 0 {
            Some("Bearer "@ + text::trim(t))
        } else {
            None
        },
        None => None,
    }
}

/// The value of the authorization header for a token.
pub fn bearer_header(token: Option<&str>) -> (r: Option<String>)
    ensures
        text::opt_text(r) == bearer(text::opt_str(token)),
{
    match token {
        Some(t) => {
            let t = text::trimmed(t);
            if t.unicode_len() > 0 {
                let mut out = "Bearer ".to_string();
                out.append(t);
                Some(out)
            } else {
                None
            }
        },
        None => None,
    }
}

/// A model in the answer to a search.
#[derive(Clone, Debug)]
pub struct HfModel {
    pub id: String,
    pub downloads: i64,
    pub likes: i64,
    pub trending_score: JsonNumber,
    pub private: bool,
    pub pipeline_tag: Option<String>,
}

/// What is told of a model in the answer to a search.
pub struct HfModelView {
    pub id: Seq<char>,
    pub downloads: i64,
    pub likes: i64,
    pub trending_score: JsonNumber,
    pub private: bool,
    pub pipeline_tag: Option<Seq<char>>,
}

impl View for HfModel {
    type V = HfModelView;

    open spec fn view(&self) -> HfModelView {
        HfModelView {
            id: self.id@,
            downloads: self.downloads,
            likes: self.likes,
            trending_score: self.trending_score,
            private: self.private,
            pipeline_tag: text::opt_text(self.pipeline_tag),
        }
    }
}

/// A whole number that fits into an `i64`.
pub open spec fn signed_value(t: JsonTree) -> Option<i64> {
    match t {
        JsonTree::Number(JsonNumber::Unsigned(n)) => if n <= i64::MAX {
            Some(n as i64)
        } else {
            None
        },
        JsonTree::Number(JsonNumber::Negative(n)) => Some(n),
        _ => None,
    }
}

fn signed_of(v: &Json) -> (r: Option<i64>)
    ensures
        r == signed_value(v.tree()),
{
    match v.as_number() {
        Some(JsonNumber::Unsigned(n)) => if n <= i64::MAX as u64 {
            Some(n as i64)
        } else {
            None
        },
        Some(JsonNumber::Negative(n)) => Some(n),
        _ => None,
    }
}

/// The whole number under `key`, zero where there is none.
pub open spec fn count_at(t: JsonTree, key: Seq<char>) -> i64 {
    match t.member(key) {
        Some(v) => match signed_value(v) {
            Some(n) => n,
            None => 0,
        },
        None => 0,
    }
}

fn count_of(v: &Json, key: &str) -> (r: i64)
    ensures
        r == count_at(v.tree(), key@),
{
    match v.get(key) {
        Some(x) => match signed_of(x) {
            Some(n) => n,
            None => 0,
        },
        None => 0,
    }
}

/// What an entry of the model hub tells of the model with the given id.
pub open spec fn hub_model(t: JsonTree, id: Seq<char>) -> HfModelView {
    HfModelView {
        id,
        downloads: count_at(t, "downloads"@),
        likes: count_at(t, "likes"@),
        trending_score: match t.member("trendingScore"@) {
            Some(v) => match v.as_number() {
                Some(n) => n,
                None => JsonNumber::Unsigned(0),
            },
            None => JsonNumber::Unsigned(0),
        },
        private: match t.member("private"@) {
            Some(v) => v.as_bool() == Some(true),
            None => false,
        },
        pipeline_tag: t.text_member("pipeline_tag"@),
    }
}

fn model_of(v: &Json, id: &str) -> (r: HfModel)
    ensures
        r@ == hub_model(v.tree(), id@),
{
    HfModel {
        id: id.to_string(),
        downloads: count_of(v, "downloads"),
        likes: count_of(v, "likes"),
        trending_score: match v.get("trendingScore") {
            Some(x) => match x.as_number() {
                Some(n) => n,
                None => JsonNumber::Unsigned(0),
            },
            None => JsonNumber::Unsigned(0),
        },
        private: match v.get("private") {
            Some(x) => match x.as_bool() {
                Some(b) => b,
                None => false,
            },
            None => false,
        },
        pipeline_tag: match v.get_str("pipeline_tag") {
            Some(s) => Some(s.to_string()),
            None => None,
        },
    }
}

/// The models of a list.
pub open spec fn model_views(list: Seq<HfModel>) -> Seq<HfModelView> {
    Seq::new(list.len(), |i: int| list[i]@)
}

/// One of the models has this id.
pub open spec fn has_id(list: Seq<HfModelView>, id: Seq<char>) -> bool {
    exists|i: int| 0 <= i < list.len() && (#[trigger] list[i]).id == id
}

/// The models found: the one that was looked up by name first, then those of the search that
/// have an id and are not there yet.
pub open spec fn found_models(exact: Option<JsonTree>, listed: Seq<JsonTree>) -> Seq<HfModelView>
    decreases listed.len(),
{
    if listed.len() == 0 {
        match exact {
            Some(t) => match t.text_member("id"@) {
                Some(id) => seq![hub_model(t, id)],
                None => seq![],
            },
            None => seq![],
        }
    } else {
        let before = found_models(exact, listed.drop_last());
        match listed.last().text_member("id"@) {
            Some(id) => if id.len() == 0 || has_id(before, id) {
                before
            } else {
                before.push(hub_model(listed.last(), id))
            },
            None => before,
        }
    }
}

/// What the documents of a list say.
pub open spec fn trees(list: Seq<Json>) -> Seq<JsonTree> {
    Seq::new(list.len(), |i: int| list[i].tree())
}

fn holds_id(list: &Vec<HfModel>, id: &str) -> (r: bool)
    ensures
        r == has_id(model_views(list@), id@),
{
    for i in 0..list.len()
        invariant
            forall|j: int| 0 <= j < i ==> (#[trigger] model_views(list@)[j]).id != id@,
    {
        assert(model_views(list@)[i as int].id == list@[i as int].id@);
        if text::same(&list[i].id, id) {
            return true;
        }
    }
    false
}

/// The models that a search found; `exact` is the answer to looking the query up by name.
pub fn collect_search(exact: Option<&Json>, listed: &Vec<Json>) -> (r: Vec<HfModel>)
    ensures
        model_views(r@) == found_models(json::opt_tree(exact), trees(listed@)),
{
    let mut out: Vec<HfModel> = Vec::new();
    if let Some(m) = exact {
        if let Some(id) = m.get_str("id") {
            out.push(model_of(m, id));
        }
    }
    let ghost ts = trees(listed@);
    assert(ts.take(0) =~= seq![]);
    assert(model_views(out@) =~= found_models(json::opt_tree(exact), ts.take(0)));
    for i in 0..listed.len()
        invariant
            ts == trees(listed@),
            model_views(out@) == found_models(json::opt_tree(exact), ts.take(i as int)),
    {
        proof {
            assert(ts.take(i + 1).drop_last() =~= ts.take(i as int));
            assert(ts.take(i + 1).last() == listed@[i as int].tree());
        }
        if let Some(id) = listed[i].get_str("id") {
            if id.unicode_len() > 0 && !holds_id(&out, id) {
                let ghost before = model_views(out@);
                out.push(model_of(&listed[i], id));
                assert(model_views(out@) =~= before.push(hub_model(listed@[i as int].tree(), id@)));
            }
        }
    }
    assert(ts.take(listed@.len() as int) =~= ts);
    out
}

proof fn lemma_found_ids_distinct(exact: Option<JsonTree>, listed: Seq<JsonTree>)
    ensures
        forall|i: int, j: int|
            #![trigger found_models(exact, listed)[i], found_models(exact, listed)[j]]
            0 <= i < j < found_models(exact, listed).len() ==> found_models(exact, listed)[i].id
                != found_models(exact, listed)[j].id,
    decreases listed.len(),
{
    if listed.len() > 0 {
        lemma_found_ids_distinct(exact, listed.drop_last());
    }
}

/// No two models that a search found have the same id.
pub proof fn law_search_ids_distinct(exact: Option<JsonTree>, listed: Seq<JsonTree>, i: int, j: int)
    requires
        0 <= i < j < found_models(exact, listed).len(),
    ensures
        found_models(exact, listed)[i].id != found_models(exact, listed)[j].id,
{
    lemma_found_ids_distinct(exact, listed);
}

// ---------------------------------------------------------------------------
// Files of repositories
// ---------------------------------------------------------------------------

/// A GGUF file of a repository.
#[derive(Debug)]
pub struct GgufRepoFile {
    pub path: String,
    pub size_bytes: u64,
    pub is_mmproj: bool,
}

/// What is told of a GGUF file.
pub struct GgufRepoFileView {
    pub path: Seq<char>,
    pub size_bytes: u64,
    pub is_mmproj: bool,
}

impl View for GgufRepoFile {
    type V = GgufRepoFileView;

    open spec fn view(&self) -> GgufRepoFileView {
        GgufRepoFileView {
            path: self.path@,
            size_bytes: self.size_bytes,
            is_mmproj: self.is_mmproj,
        }
    }
}

/// The GGUF file that an entry of a repository tells of.
pub open spec fn gguf_entry(t: JsonTree) -> Option<GgufRepoFileView> {
    match t.text_member("path"@) {
        Some(path) => {
            let lower = text::ascii_lowercase(path);
            if ".gguf"@.is_suffix_of(lower) {
                Some(
                    GgufRepoFileView {
                        path,
                        size_bytes: match t.member("size"@) {
                            Some(v) => match v.as_unsigned() {
                                Some(n) => n,
                                None => 0,
                            },
                            None => 0,
                        },
                        is_mmproj: "mmproj"@.is_prefix_of(lower),
                    },
                )
            } else {
                None
            }
        },
        None => None,
    }
}

/// The GGUF files that the entries of a repository tell of, in their order.
pub open spec fn gguf_entries(list: Seq<JsonTree>) -> Seq<GgufRepoFileView>
    decreases list.len(),
{
    if list.len() == 0 {
        seq![]
    } else {
        let before = gguf_entries(list.drop_last());
        match gguf_entry(list.last()) {
            Some(f) => before.push(f),
            None => before,
        }
    }
}

/// The files of a list.
pub open spec fn file_views(list: Seq<GgufRepoFile>) -> Seq<GgufRepoFileView> {
    Seq::new(list.len(), |i: int| list[i]@)
}

fn gguf_file_of(v: &Json) -> (r: Option<GgufRepoFile>)
    ensures
        match r {
            Some(f) => gguf_entry(v.tree()) == Some(f@),
            None => gguf_entry(v.tree()) is None,
        },
{
    let Some(path) = v.get_str("path") else {
        return None;
    };
    let lower = text::ascii_lowered(path);
    if !text::ends_with(&lower, ".gguf") {
        return None;
    }
    let size_bytes: u64 = match v.get("size") {
        Some(x) => match x.as_u64() {
            Some(n) => n,
            None => 0,
        },
        None => 0,
    };
    Some(
        GgufRepoFile {
            path: path.to_string(),
            size_bytes,
            is_mmproj: text::starts_with(&lower, "mmproj"),
        },
    )
}

/// The GGUF files that the entries of a repository tell of.
pub fn gguf_repo_files(entries: &Vec<Json>) -> (r: Vec<GgufRepoFile>)
    ensures
        file_views(r@) == gguf_entries(trees(entries@)),
{
    let mut out: Vec<GgufRepoFile> = Vec::new();
    let ghost ts = trees(entries@);
    assert(file_views(out@) =~= gguf_entries(ts.take(0)));
    for i in 0..entries.len()
        invariant
            ts == trees(entries@),
            file_views(out@) == gguf_entries(ts.take(i as int)),
    {
        proof {
            assert(ts.take(i + 1).drop_last() =~= ts.take(i as int));
            assert(ts.take(i + 1).last() == entries@[i as int].tree());
        }
        if let Some(f) = gguf_file_of(&entries[i]) {
            let ghost before = file_views(out@);
            let ghost fv = f@;
            out.push(f);
            assert(file_views(out@) =~= before.push(fv));
        }
    }
    assert(ts.take(entries@.len() as int) =~= ts);
    out
}

/// What stands behind the last slash of a path.
pub open spec fn base_name(path: Seq<char>) -> Seq<char> {
    text::after_last(path, seq!['/'])
}

/// The name of a model without its owner.
pub fn extract_base_name<'a>(model_id: &'a str) -> (r: &'a str)
    ensures
        r@ == base_name(model_id@),
{
    let slash = ['/'];
    assert(slash@ == seq!['/']);
    text::tail_after(model_id, &slash)
}

/// A helper file, which is no language model by itself: a head for the prediction of several
/// tokens, a vision projector, a calibration matrix, a vocabulary or a draft model.
pub open spec fn auxiliary_file(path: Seq<char>) -> bool {
    let lower = text::ascii_lowercase(path);
    let name = text::ascii_lowercase(base_name(path));
    ||| "mtp/"@.is_prefix_of(lower)
    ||| text::occurs(lower, "/mtp/"@)
    ||| text::occurs(lower, "/mtp-"@)
    ||| "mtp-"@.is_prefix_of(name)
    ||| "mtp_"@.is_prefix_of(name)
    ||| text::occurs(name, "-mtp-"@)
    ||| text::occurs(name, "_mtp_"@)
    ||| text::occurs(name, "-mtp."@)
    ||| text::occurs(name, "_mtp."@)
    ||| "mmproj"@.is_prefix_of(name)
    ||| text::occurs(lower, "/mmproj"@)
    ||| "imatrix"@.is_prefix_of(name)
    ||| text::occurs(lower, "/imatrix"@)
    ||| "vocab"@.is_prefix_of(name)
    ||| "tokenizer"@.is_prefix_of(name)
    ||| "draft"@.is_prefix_of(name)
    ||| "speculative"@.is_prefix_of(name)
}

/// Whether a file is a helper file, which is no language model by itself.
pub fn is_auxiliary_gguf_file(path: &str) -> (r: bool)
    ensures
        r == auxiliary_file(path@),
{
    let lower = text::ascii_lowered(path);
    let name = text::ascii_lowered(extract_base_name(path));
    if text::starts_with(&lower, "mtp/") || text::contains_text(&lower, "/mtp/")
        || text::contains_text(&lower, "/mtp-") || text::starts_with(&name, "mtp-")
        || text::starts_with(&name, "mtp_") || text::contains_text(&name, "-mtp-")
        || text::contains_text(&name, "_mtp_") || text::contains_text(&name, "-mtp.")
        || text::contains_text(&name, "_mtp.") {
        return true;
    }
    if text::starts_with(&name, "mmproj") || text::contains_text(&lower, "/mmproj") {
        return true;
    }
    if text::starts_with(&name, "imatrix") || text::contains_text(&lower, "/imatrix") {
        return true;
    }
    if text::starts_with(&name, "vocab") || text::starts_with(&name, "tokenizer") {
        return true;
    }
    text::starts_with(&name, "draft") || text::starts_with(&name, "speculative")
}

/// The mark of a part of a model that is split over several files.
pub const SHARD_PATTERN: &'static str = "-\\d{5}-of-\\d{5}$";

/// The quantization label at the end of the stem of a GGUF file.
pub const QUANT_PATTERN: &'static str = "[-_]((?:UD-)?(?:I?Q\\d+(?:_(?:K(?:_[SMLX]{1,2})?|0|1|XXS|XS|S|M|NL))?|BF16|F16|FP16))$";

/// The first capture group of a match.
pub open spec fn first_group(groups: Option<Seq<Option<Seq<char>>>>) -> Option<Seq<char>> {
    match groups {
        Some(g) => if g.len() > 1 {
            g[1]
        } else {
            None
        },
        None => None,
    }
}

/// The quantization label of a GGUF file; helper files have none.
pub open spec fn quant_label(filename: Seq<char>) -> Option<Seq<char>> {
    match text::without_suffix(filename, ".gguf"@) {
        None => None,
        Some(stem) => if auxiliary_file(filename) {
            None
        } else {
            let whole = outside::lite_replaced(SHARD_PATTERN@, stem, ""@);
            first_group(outside::lite_groups(QUANT_PATTERN@, whole))
        },
    }
}

/// The groups of a match.
pub open spec fn opt_groups(groups: Option<Vec<Option<String>>>) -> Option<
    Seq<Option<Seq<char>>>,
> {
    match groups {
        Some(g) => Some(outside::group_texts(g@)),
        None => None,
    }
}

/// The text of the first capture group of a match.
pub fn label_from_groups(groups: Option<Vec<Option<String>>>) -> (r: Option<String>)
    ensures
        text::opt_text(r) == first_group(opt_groups(groups)),
{
    let Some(g) = groups else {
        return None;
    };
    if g.len() <= 1 {
        return None;
    }
    assert(outside::group_texts(g@)[1] == text::opt_text(g@[1]));
    g[1].clone()
}

/// The quantization label of a GGUF file, such as `Q4_K_M`.
pub fn parse_gguf_quant_label(filename: &str) -> (r: Option<String>)
    ensures
        text::opt_text(r) == quant_label(filename@),
{
    let Some(stem) = text::strip_suffix(filename, ".gguf") else {
        return None;
    };
    if is_auxiliary_gguf_file(filename) {
        return None;
    }
    let whole = outside::lite_replace(SHARD_PATTERN, stem, "");
    label_from_groups(outside::lite_captures(QUANT_PATTERN, &whole))
}

// ---------------------------------------------------------------------------
// Quantized variants
// ---------------------------------------------------------------------------

#[derive(Clone, Copy, Debug, PartialEq, Eq, Structural)]
pub enum QuantFormat {
    FP16,
    FP8,
    AWQ,
    GPTQ,
    BNB,
    GGUF,
}

/// A quantized variant of a model.
#[derive(Clone, Debug)]
pub struct QuantVariant {
    pub repo_id: String,
    pub format: QuantFormat,
    pub label: String,
    pub weight_bytes: Option<u64>,
    /// In millions.
    pub params_m: Option<u64>,
    pub gguf_file: Option<String>,
    pub vllm_native: bool,
}

/// What is told of a quantized variant.
pub struct QuantVariantView {
    pub repo_id: Seq<char>,
    pub format: QuantFormat,
    pub label: Seq<char>,
    pub weight_bytes: Option<u64>,
    pub params_m: Option<u64>,
    pub gguf_file: Option<Seq<char>>,
    pub vllm_native: bool,
}

impl View for QuantVariant {
    type V = QuantVariantView;

    open spec fn view(&self) -> QuantVariantView {
        QuantVariantView {
            repo_id: self.repo_id@,
            format: self.format,
            label: self.label@,
            weight_bytes: self.weight_bytes,
            params_m: self.params_m,
            gguf_file: text::opt_text(self.gguf_file),
            vllm_native: self.vllm_native,
        }
    }
}

/// The variants of a list.
pub open spec fn variant_views(list: Seq<QuantVariant>) -> Seq<QuantVariantView> {
    Seq::new(list.len(), |i: int| list[i]@)
}

/// The quantization that the name of a repository tells.
pub open spec fn name_format(name: Seq<char>) -> Option<QuantFormat> {
    let n = outside::lowercase(name);
    if "-awq"@.is_suffix_of(n) || text::occurs(n, "-awq-"@) || text::occurs(n, "-awq_"@) {
        Some(QuantFormat::AWQ)
    } else if text::occurs(n, "-gptq"@) {
        Some(QuantFormat::GPTQ)
    } else if "-fp8"@.is_suffix_of(n) || "-fp8-dynamic"@.is_suffix_of(n) {
        Some(QuantFormat::FP8)
    } else if "-bnb-4bit"@.is_suffix_of(n) {
        Some(QuantFormat::BNB)
    } else {
        None
    }
}

/// The quantization that the name of a repository tells.
pub fn format_from_repo_suffix(name: &str) -> (r: Option<QuantFormat>)
    ensures
        r == name_format(name@),
{
    let n = outside::to_lowercase(name);
    if text::ends_with(&n, "-awq") || text::contains_text(&n, "-awq-") || text::contains_text(
        &n,
        "-awq_",
    ) {
        return Some(QuantFormat::AWQ);
    }
    if text::contains_text(&n, "-gptq") {
        return Some(QuantFormat::GPTQ);
    }
    if text::ends_with(&n, "-fp8") || text::ends_with(&n, "-fp8-dynamic") {
        return Some(QuantFormat::FP8);
    }
    if text::ends_with(&n, "-bnb-4bit") {
        return Some(QuantFormat::BNB);
    }
    None
}

/// The label of a variant in a repository of its own.
pub open spec fn format_label(format: QuantFormat) -> Seq<char> {
    match format {
        QuantFormat::AWQ => "AWQ"@,
        QuantFormat::GPTQ => "GPTQ"@,
        QuantFormat::FP8 => "FP8"@,
        QuantFormat::BNB => "BNB-4bit"@,
        _ => "Unknown"@,
    }
}

fn label_of(format: QuantFormat) -> (r: String)
    ensures
        r@ == format_label(format),
{
    match format {
        QuantFormat::AWQ => "AWQ".to_string(),
        QuantFormat::GPTQ => "GPTQ".to_string(),
        QuantFormat::FP8 => "FP8".to_string(),
        QuantFormat::BNB => "BNB-4bit".to_string(),
        _ => "Unknown".to_string(),
    }
}

/// A variant that vLLM takes as it is.
pub open spec fn native_variant(repo_id: Seq<char>, format: QuantFormat, label: Seq<char>) -> QuantVariantView {
    QuantVariantView {
        repo_id,
        format,
        label,
        weight_bytes: None,
        params_m: None,
        gguf_file: None,
        vllm_native: true,
    }
}

fn make_native(repo_id: &str, format: QuantFormat, label: String) -> (r: QuantVariant)
    ensures
        r@ == native_variant(repo_id@, format, label@),
{
    QuantVariant {
        repo_id: repo_id.to_string(),
        format,
        label,
        weight_bytes: None,
        params_m: None,
        gguf_file: None,
        vllm_native: true,
    }
}

/// How the variants of a model are looked for.
#[derive(Debug)]
pub enum VariantPlan {
    /// The model is a variant itself.
    Known(QuantVariant),
    /// The files of this repository are the variants.
    GgufRepo(String),
    /// Ask for each repository of `candidates`, search each publisher with the terms of
    /// `searches`, and look into each GGUF repository of `gguf_repos`.
    Search { candidates: Vec<String>, searches: Vec<String>, gguf_repos: Vec<String> },
}

/// What stands before the first slash of a model id.
pub open spec fn owner_name(model_id: Seq<char>) -> Seq<char> {
    text::before_first(model_id, seq!['/'])
}

pub open spec fn quant_suffixes() -> Seq<&'static str> {
    seq!["-AWQ", "-GPTQ-Int4", "-GPTQ", "-FP8", "-FP8-dynamic", "-bnb-4bit"]
}

pub open spec fn quant_publishers() -> Seq<&'static str> {
    seq!["neuralmagic", "hugging-quants", "ISTA-DASLab", "TheBloke"]
}

pub open spec fn gguf_publishers() -> Seq<&'static str> {
    seq!["unsloth", "bartowski", "TheBloke"]
}

/// The repository in which a publisher keeps the GGUF files of a model.
pub open spec fn gguf_repo_id(publisher: Seq<char>, base: Seq<char>) -> Seq<char> {
    if publisher.len() == 0 {
        base
    } else if "-gguf"@.is_suffix_of(outside::lowercase(base)) {
        publisher + "/"@ + base
    } else {
        publisher + "/"@ + base + "-GGUF"@
    }
}

/// The repository in which a publisher keeps the GGUF files of a model.
pub fn gguf_repo_of(publisher: &str, base: &str) -> (r: String)
    ensures
        r@ == gguf_repo_id(publisher@, base@),
{
    if publisher.unicode_len() == 0 {
        return base.to_string();
    }
    let mut out = publisher.to_string();
    out.append("/");
    out.append(base);
    if !text::ends_with(&outside::to_lowercase(base), "-gguf") {
        out.append("-GGUF");
    }
    out
}

/// The model id names a GGUF repository.
pub open spec fn names_gguf_repo(model_id: Seq<char>) -> bool {
    "-gguf"@.is_suffix_of(outside::lowercase(model_id)) || text::occurs(
        outside::lowercase(model_id),
        ".gguf"@,
    )
}

/// The way in which the variants of a model are looked for.
pub open spec fn plan_of(plan: VariantPlan, model_id: Seq<char>) -> bool {
    match name_format(model_id) {
        Some(format) => plan matches VariantPlan::Known(v) && v@ == native_variant(
            model_id,
            format,
            format_label(format),
        ),
        None => if names_gguf_repo(model_id) {
            plan matches VariantPlan::GgufRepo(repo) && repo@ == model_id
        } else {
            plan matches VariantPlan::Search { candidates, searches, gguf_repos }
            && text::texts(candidates@) == Seq::new(
                6,
                |i: int|
                    owner_name(model_id) + "/"@ + base_name(model_id) + quant_suffixes()[i]@,
            )
            && text::texts(searches@) == Seq::new(
                4,
                |i: int| quant_publishers()[i]@ + "/"@ + base_name(model_id),
            )
            && text::texts(gguf_repos@) == Seq::new(
                3,
                |i: int| gguf_repo_id(gguf_publishers()[i]@, base_name(model_id)),
            )
        },
    }
}

/// How the variants of a model are looked for.
pub fn variant_plan(model_id: &str) -> (r: VariantPlan)
    ensures
        plan_of(r, model_id@),
{
    if let Some(format) = format_from_repo_suffix(model_id) {
        return VariantPlan::Known(make_native(model_id, format, label_of(format)));
    }
    let lower = outside::to_lowercase(model_id);
    if text::ends_with(&lower, "-gguf") || text::contains_text(&lower, ".gguf") {
        return VariantPlan::GgufRepo(model_id.to_string());
    }
    let slash = ['/'];
    assert(slash@ == seq!['/']);
    let base = extract_base_name(model_id);
    let org = text::head_before(model_id, &slash);
    let suffixes = ["-AWQ", "-GPTQ-Int4", "-GPTQ", "-FP8", "-FP8-dynamic", "-bnb-4bit"];
    assert(suffixes@ == quant_suffixes());
    let ghost want = Seq::new(
        6,
        |i: int| owner_name(model_id@) + "/"@ + base_name(model_id@) + quant_suffixes()[i]@,
    );
    let mut candidates: Vec<String> = Vec::new();
    for i in 0..suffixes.len()
        invariant
            suffixes@ == quant_suffixes(),
            org@ == owner_name(model_id@),
            base@ == base_name(model_id@),
            want == Seq::new(
                6,
                |i: int| owner_name(model_id@) + "/"@ + base_name(model_id@) + quant_suffixes()[i]@,
            ),
            text::texts(candidates@) == want.take(i as int),
    {
        let mut id = org.to_string();
        id.append("/");
        id.append(base);
        id.append(suffixes[i]);
        let ghost before = text::texts(candidates@);
        assert(id@ == want[i as int]);
        candidates.push(id);
        assert(text::texts(candidates@) =~= before.push(want[i as int]));
    }
    let publishers = ["neuralmagic", "hugging-quants", "ISTA-DASLab", "TheBloke"];
    assert(publishers@ == quant_publishers());
    let ghost terms = Seq::new(4, |i: int| quant_publishers()[i]@ + "/"@ + base_name(model_id@));
    let mut searches: Vec<String> = Vec::new();
    for i in 0..publishers.len()
        invariant
            publishers@ == quant_publishers(),
            base@ == base_name(model_id@),
            terms == Seq::new(4, |i: int| quant_publishers()[i]@ + "/"@ + base_name(model_id@)),
            text::texts(searches@) == terms.take(i as int),
    {
        let mut term = publishers[i].to_string();
        term.append("/");
        term.append(base);
        let ghost before = text::texts(searches@);
        assert(term@ == terms[i as int]);
        searches.push(term);
        assert(text::texts(searches@) =~= before.push(terms[i as int]));
    }
    let gguf = ["unsloth", "bartowski", "TheBloke"];
    assert(gguf@ == gguf_publishers());
    let ghost repos = Seq::new(3, |i: int| gguf_repo_id(gguf_publishers()[i]@, base_name(model_id@)));
    let mut gguf_repos: Vec<String> = Vec::new();
    for i in 0..gguf.len()
        invariant
            gguf@ == gguf_publishers(),
            base@ == base_name(model_id@),
            repos == Seq::new(
                3,
                |i: int| gguf_repo_id(gguf_publishers()[i]@, base_name(model_id@)),
            ),
            text::texts(gguf_repos@) == repos.take(i as int),
    {
        let repo = gguf_repo_of(gguf[i], base);
        let ghost before = text::texts(gguf_repos@);
        assert(repo@ == repos[i as int]);
        gguf_repos.push(repo);
        assert(text::texts(gguf_repos@) =~= before.push(repos[i as int]));
    }
    assert(text::texts(candidates@) =~= want);
    assert(text::texts(searches@) =~= terms);
    assert(text::texts(gguf_repos@) =~= repos);
    VariantPlan::Search { candidates, searches, gguf_repos }
}

/// The first id of a publisher's search whose name tells a quantization.
pub open spec fn first_quantized(list: Seq<JsonTree>) -> Option<Seq<char>>
    decreases list.len(),
{
    if list.len() == 0 {
        None
    } else {
        match list[0].text_member("id"@) {
            Some(id) => if name_format(id) is Some {
                Some(id)
            } else {
                first_quantized(list.skip(1))
            },
            None => first_quantized(list.skip(1)),
        }
    }
}

/// The first id of a publisher's search whose name tells a quantization.
pub fn check_publisher(answer: &Vec<Json>) -> (r: Option<String>)
    ensures
        text::opt_text(r) == first_quantized(trees(answer@)),
{
    let ghost ts = trees(answer@);
    assert(ts.skip(0) =~= ts);
    for i in 0..answer.len()
        invariant
            ts == trees(answer@),
            first_quantized(ts) == first_quantized(ts.skip(i as int)),
    {
        assert(ts.skip(i as int)[0] == answer@[i as int].tree());
        assert(ts.skip(i as int).skip(1) =~= ts.skip(i + 1));
        if let Some(id) = answer[i].get_str("id") {
            if format_from_repo_suffix(id).is_some() {
                return Some(id.to_string());
            }
        }
    }
    None
}

/// The position of the first variant at or after number `i` with the given label.
pub open spec fn label_from(list: Seq<QuantVariantView>, label: Seq<char>, i: int) -> Option<int>
    decreases list.len() - i,
{
    if i < 0 || i >= list.len() {
        None
    } else if list[i].label == label {
        Some(i)
    } else {
        label_from(list, label, i + 1)
    }
}

/// The position of the first variant at or after number `i` before which `label` comes, the
/// end of the list where there is none.
pub open spec fn slot_from(list: Seq<QuantVariantView>, label: Seq<char>, i: int) -> int
    decreases list.len() - i,
{
    if i < 0 || i >= list.len() {
        list.len() as int
    } else if text::comes_before(label, list[i].label) {
        i
    } else {
        slot_from(list, label, i + 1)
    }
}

/// The sum of two known sizes, at most the largest number; otherwise the first.
pub open spec fn joint_size(a: Option<u64>, b: Option<u64>) -> Option<u64> {
    match (a, b) {
        (Some(x), Some(y)) => Some(
            if x + y > u64::MAX {
                u64::MAX
            } else {
                (x + y) as u64
            },
        ),
        _ => a,
    }
}

/// `list` with a GGUF file added: its size to the variant with its label where there is one,
/// else a variant of its own at its place in the order of labels.
pub open spec fn with_gguf_file(
    list: Seq<QuantVariantView>,
    repo_id: Seq<char>,
    file: Seq<char>,
    label: Seq<char>,
    size: Option<u64>,
) -> Seq<QuantVariantView> {
    match label_from(list, label, 0) {
        Some(k) => list.update(
            k,
            QuantVariantView {
                weight_bytes: joint_size(list[k].weight_bytes, size),
                ..list[k]
            },
        ),
        None => list.insert(
            slot_from(list, label, 0),
            QuantVariantView {
                repo_id,
                format: QuantFormat::GGUF,
                label,
                weight_bytes: size,
                params_m: None,
                gguf_file: Some(file),
                vllm_native: false,
            },
        ),
    }
}

/// The size under `size`, where it is a whole number.
pub open spec fn entry_size(t: JsonTree) -> Option<u64> {
    match t.member("size"@) {
        Some(v) => v.as_unsigned(),
        None => None,
    }
}

/// The variants that the files of a GGUF repository make up, one for each quantization label,
/// in the order of the labels. The files of a split model count as one.
pub open spec fn gguf_variants(repo_id: Seq<char>, files: Seq<JsonTree>) -> Seq<QuantVariantView>
    decreases files.len(),
{
    if files.len() == 0 {
        seq![]
    } else {
        let before = gguf_variants(repo_id, files.drop_last());
        let name = match files.last().text_member("rfilename"@) {
            Some(n) => n,
            None => ""@,
        };
        match quant_label(name) {
            Some(label) => with_gguf_file(before, repo_id, name, label, entry_size(files.last())),
            None => before,
        }
    }
}

fn find_label(list: &Vec<QuantVariant>, label: &str) -> (r: Option<usize>)
    ensures
        match r {
            Some(k) => k < list.len() && label_from(variant_views(list@), label@, 0) == Some(
                k as int,
            ),
            None => label_from(variant_views(list@), label@, 0) is None,
        },
{
    let ghost vs = variant_views(list@);
    for i in 0..list.len()
        invariant
            vs == variant_views(list@),
            label_from(vs, label@, 0) == label_from(vs, label@, i as int),
    {
        assert(vs[i as int] == list@[i as int]@);
        if text::same(&list[i].label, label) {
            return Some(i);
        }
    }
    None
}

fn find_slot(list: &Vec<QuantVariant>, label: &str) -> (r: usize)
    ensures
        r == slot_from(variant_views(list@), label@, 0),
        r <= list.len(),
{
    let ghost vs = variant_views(list@);
    for i in 0..list.len()
        invariant
            vs == variant_views(list@),
            slot_from(vs, label@, 0) == slot_from(vs, label@, i as int),
    {
        assert(vs[i as int] == list@[i as int]@);
        if text::is_before(label, &list[i].label) {
            return i;
        }
    }
    list.len()
}

fn add_sizes(a: Option<u64>, b: Option<u64>) -> (r: Option<u64>)
    ensures
        r == joint_size(a, b),
{
    match (a, b) {
        (Some(x), Some(y)) => Some(x.saturating_add(y)),
        _ => a,
    }
}

fn add_gguf_file(
    list: &mut Vec<QuantVariant>,
    repo_id: &str,
    file: &str,
    label: String,
    size: Option<u64>,
)
    ensures
        variant_views(final(list)@) == with_gguf_file(
            variant_views(old(list)@),
            repo_id@,
            file@,
            label@,
            size,
        ),
{
    let ghost before = variant_views(list@);
    let ghost l = label@;
    match find_label(list, &label) {
        Some(k) => {
            let mut v = list.remove(k);
            v.weight_bytes = add_sizes(v.weight_bytes, size);
            let ghost vv = v@;
            list.insert(k, v);
            assert(variant_views(list@) =~= before.update(k as int, vv));
        },
        None => {
            let slot = find_slot(list, &label);
            let v = QuantVariant {
                repo_id: repo_id.to_string(),
                format: QuantFormat::GGUF,
                label,
                weight_bytes: size,
                params_m: None,
                gguf_file: Some(file.to_string()),
                vllm_native: false,
            };
            let ghost vv = v@;
            list.insert(slot, v);
            assert(variant_views(list@) =~= before.insert(slot as int, vv));
        },
    }
}

/// The variants that the files of a GGUF repository make up.
pub fn check_gguf_repo(repo_id: &str, siblings: &Vec<Json>) -> (r: Vec<QuantVariant>)
    ensures
        variant_views(r@) == gguf_variants(repo_id@, trees(siblings@)),
{
    let mut out: Vec<QuantVariant> = Vec::new();
    let ghost ts = trees(siblings@);
    assert(variant_views(out@) =~= gguf_variants(repo_id@, ts.take(0)));
    for i in 0..siblings.len()
        invariant
            ts == trees(siblings@),
            variant_views(out@) == gguf_variants(repo_id@, ts.take(i as int)),
    {
        proof {
            assert(ts.take(i + 1).drop_last() =~= ts.take(i as int));
            assert(ts.take(i + 1).last() == siblings@[i as int].tree());
        }
        let name: &str = match siblings[i].get_str("rfilename") {
            Some(n) => n,
            None => "",
        };
        if let Some(label) = parse_gguf_quant_label(name) {
            let size: Option<u64> = match siblings[i].get("size") {
                Some(v) => v.as_u64(),
                None => None,
            };
            add_gguf_file(&mut out, repo_id, name, label, size);
        }
    }
    assert(ts.take(siblings@.len() as int) =~= ts);
    out
}

/// The labels come in their order, none twice.
pub open spec fn labels_ordered(list: Seq<QuantVariantView>) -> bool {
    forall|i: int, j: int|
        #![trigger list[i], list[j]]
        0 <= i < j < list.len() ==> text::comes_before(list[i].label, list[j].label)
}

proof fn lemma_slot(list: Seq<QuantVariantView>, label: Seq<char>, i: int)
    requires
        0 <= i <= list.len(),
        forall|k: int| 0 <= k < i ==> !text::comes_before(label, (#[trigger] list[k]).label),
    ensures
        i <= slot_from(list, label, i) <= list.len(),
        forall|k: int|
            0 <= k < slot_from(list, label, i) ==> !text::comes_before(
                label,
                (#[trigger] list[k]).label,
            ),
        slot_from(list, label, i) < list.len() ==> text::comes_before(
            label,
            list[slot_from(list, label, i)].label,
        ),
    decreases list.len() - i,
{
    if i < list.len() && !text::comes_before(label, list[i].label) {
        lemma_slot(list, label, i + 1);
    }
}

proof fn lemma_no_label(list: Seq<QuantVariantView>, label: Seq<char>, i: int)
    requires
        0 <= i,
        label_from(list, label, i) is None,
    ensures
        forall|k: int| i <= k < list.len() ==> (#[trigger] list[k]).label != label,
    decreases list.len() - i,
{
    if i < list.len() {
        lemma_no_label(list, label, i + 1);
    }
}

proof fn lemma_label_found(list: Seq<QuantVariantView>, label: Seq<char>, i: int)
    ensures
        label_from(list, label, i) matches Some(k) ==> 0 <= k < list.len() && list[k].label
            == label,
    decreases list.len() - i,
{
    if 0 <= i < list.len() {
        lemma_label_found(list, label, i + 1);
    }
}

proof fn lemma_file_keeps_order(
    list: Seq<QuantVariantView>,
    repo_id: Seq<char>,
    file: Seq<char>,
    label: Seq<char>,
    size: Option<u64>,
)
    requires
        labels_ordered(list),
    ensures
        labels_ordered(with_gguf_file(list, repo_id, file, label, size)),
{
    lemma_label_found(list, label, 0);
    let out = with_gguf_file(list, repo_id, file, label, size);
    match label_from(list, label, 0) {
        Some(k) => {
            assert forall|i: int, j: int|
                #![trigger out[i], out[j]]
                0 <= i < j < out.len() implies text::comes_before(out[i].label, out[j].label) by {
                assert(out[i].label == list[i].label);
                assert(out[j].label == list[j].label);
            }
        },
        None => {
            lemma_no_label(list, label, 0);
            lemma_slot(list, label, 0);
            let s = slot_from(list, label, 0);
            assert forall|i: int, j: int|
                #![trigger out[i], out[j]]
                0 <= i < j < out.len() implies text::comes_before(out[i].label, out[j].label) by {
                if i < s {
                    assert(out[i] == list[i]);
                    text::lemma_before_total(list[i].label, label);
                    if j > s {
                        assert(out[j] == list[j - 1]);
                    } else if j < s {
                        assert(out[j] == list[j]);
                    }
                } else if i == s {
                    assert(out[j] == list[j - 1]);
                    if j - 1 > s {
                        text::lemma_before_transitive(label, list[s].label, list[j - 1].label);
                    }
                } else {
                    assert(out[i] == list[i - 1]);
                    assert(out[j] == list[j - 1]);
                }
            }
        },
    }
}

/// The variants of a GGUF repository come in the order of their labels, and no label comes
/// twice.
pub proof fn law_gguf_variants_ordered(repo_id: Seq<char>, files: Seq<JsonTree>)
    ensures
        labels_ordered(gguf_variants(repo_id, files)),
    decreases files.len(),
{
    if files.len() > 0 {
        law_gguf_variants_ordered(repo_id, files.drop_last());
        let name = match files.last().text_member("rfilename"@) {
            Some(n) => n,
            None => ""@,
        };
        if let Some(label) = quant_label(name) {
            lemma_file_keeps_order(
                gguf_variants(repo_id, files.drop_last()),
                repo_id,
                name,
                label,
                entry_size(files.last()),
            );
        }
    }
}

/// One of the variants has this format and this label.
pub open spec fn has_variant(list: Seq<QuantVariantView>, v: QuantVariantView) -> bool {
    exists|i: int|
        0 <= i < list.len() && (#[trigger] list[i]).format == v.format && list[i].label == v.label
}

/// `list` with `v` at its end, unless a variant of the same format and label is there.
pub open spec fn push_variant(list: Seq<QuantVariantView>, v: QuantVariantView) -> Seq<
    QuantVariantView,
> {
    if has_variant(list, v) {
        list
    } else {
        list.push(v)
    }
}

/// `list` with the variants of `more` that are new to it, in their order.
pub open spec fn push_variants(list: Seq<QuantVariantView>, more: Seq<QuantVariantView>) -> Seq<
    QuantVariantView,
>
    decreases more.len(),
{
    if more.len() == 0 {
        list
    } else {
        push_variant(push_variants(list, more.drop_last()), more.last())
    }
}

/// The variants in repositories of their own, of those that were found.
pub open spec fn repo_variants(found: Seq<Option<Seq<char>>>) -> Seq<QuantVariantView>
    decreases found.len(),
{
    if found.len() == 0 {
        seq![]
    } else {
        let before = repo_variants(found.drop_last());
        match found.last() {
            Some(id) => match name_format(id) {
                Some(format) => before.push(native_variant(id, format, format_label(format))),
                None => before,
            },
            None => before,
        }
    }
}

/// The texts of a row of optional strings.
pub open spec fn opt_texts(v: Seq<Option<String>>) -> Seq<Option<Seq<char>>> {
    Seq::new(v.len(), |i: int| text::opt_text(v[i]))
}

/// All variants of a model: the model itself, those in the repositories that were found and
/// those among GGUF files, the first of each format and label.
pub open spec fn all_variants(
    model_id: Seq<char>,
    found: Seq<Option<Seq<char>>>,
    gguf: Seq<QuantVariantView>,
) -> Seq<QuantVariantView> {
    let base = seq![native_variant(model_id, QuantFormat::FP16, "FP16"@)];
    push_variants(push_variants(base, repo_variants(found)), gguf)
}

fn holds_variant(list: &Vec<QuantVariant>, v: &QuantVariant) -> (r: bool)
    ensures
        r == has_variant(variant_views(list@), v@),
{
    let ghost vs = variant_views(list@);
    for i in 0..list.len()
        invariant
            vs == variant_views(list@),
            forall|j: int|
                0 <= j < i ==> !((#[trigger] vs[j]).format == v@.format && vs[j].label == v@.label),
    {
        assert(vs[i as int] == list@[i as int]@);
        if list[i].format == v.format && text::same(&list[i].label, &v.label) {
            return true;
        }
    }
    false
}

fn keep_new(list: &mut Vec<QuantVariant>, v: QuantVariant)
    ensures
        variant_views(final(list)@) == push_variant(variant_views(old(list)@), v@),
{
    if !holds_variant(list, &v) {
        let ghost before = variant_views(list@);
        let ghost vv = v@;
        list.push(v);
        assert(variant_views(list@) =~= before.push(vv));
    }
}

/// All variants of a model, the first of each format and label: `found` holds the answers to
/// the candidates and searches of the plan, `gguf` the variants in its GGUF repositories.
pub fn discover_quant_variants(
    model_id: &str,
    found: &Vec<Option<String>>,
    gguf: Vec<QuantVariant>,
) -> (r: Vec<QuantVariant>)
    ensures
        variant_views(r@) == all_variants(model_id@, opt_texts(found@), variant_views(gguf@)),
{
    let mut out: Vec<QuantVariant> = Vec::new();
    out.push(make_native(model_id, QuantFormat::FP16, "FP16".to_string()));
    let ghost base = seq![native_variant(model_id@, QuantFormat::FP16, "FP16"@)];
    assert(variant_views(out@) =~= base);
    let ghost fs = opt_texts(found@);
    assert(repo_variants(fs.take(0)) =~= seq![]);
    for i in 0..found.len()
        invariant
            fs == opt_texts(found@),
            base == seq![native_variant(model_id@, QuantFormat::FP16, "FP16"@)],
            variant_views(out@) == push_variants(base, repo_variants(fs.take(i as int))),
    {
        proof {
            assert(fs.take(i + 1).drop_last() =~= fs.take(i as int));
            assert(fs.take(i + 1).last() == text::opt_text(found@[i as int]));
        }
        if let Some(id) = &found[i] {
            if let Some(format) = format_from_repo_suffix(id) {
                let v = make_native(id, format, label_of(format));
                proof {
                    let a = repo_variants(fs.take(i as int));
                    let b = repo_variants(fs.take(i + 1));
                    assert(b == a.push(v@));
                    assert(b.drop_last() =~= a);
                }
                keep_new(&mut out, v);
            }
        }
    }
    assert(fs.take(found@.len() as int) =~= fs);
    let ghost own = variant_views(out@);
    let ghost gs = variant_views(gguf@);
    let mut rest = gguf;
    let n: usize = rest.len();
    let mut k: usize = 0;
    assert(gs.take(0) =~= seq![]);
    assert(gs.skip(0) =~= gs);
    while k < n
        invariant
            k <= n,
            n == gs.len(),
            variant_views(rest@) == gs.skip(k as int),
            variant_views(out@) == push_variants(own, gs.take(k as int)),
        decreases n - k,
    {
        let ghost before = rest@;
        assert(variant_views(before).len() == gs.skip(k as int).len());
        let v = rest.remove(0);
        proof {
            assert(variant_views(before)[0] == gs.skip(k as int)[0]);
            assert(v@ == gs[k as int]);
            assert(gs.take(k + 1).drop_last() =~= gs.take(k as int));
            assert forall|i: int| 0 <= i < rest@.len() implies rest@[i]@ == gs.skip(k + 1)[i] by {
                assert(variant_views(before)[i + 1] == gs.skip(k as int)[i + 1]);
            }
            assert(variant_views(rest@) =~= gs.skip(k + 1));
        }
        keep_new(&mut out, v);
        k = k + 1;
    }
    assert(gs.take(n as int) =~= gs);
    out
}

/// No two variants of the list have the same format and label.
pub open spec fn variants_distinct(list: Seq<QuantVariantView>) -> bool {
    forall|i: int, j: int|
        #![trigger list[i], list[j]]
        0 <= i < j < list.len() ==> list[i].format != list[j].format || list[i].label
            != list[j].label
}

proof fn lemma_push_variants_distinct(list: Seq<QuantVariantView>, more: Seq<QuantVariantView>)
    requires
        variants_distinct(list),
    ensures
        variants_distinct(push_variants(list, more)),
        list.is_prefix_of(push_variants(list, more)),
    decreases more.len(),
{
    if more.len() > 0 {
        lemma_push_variants_distinct(list, more.drop_last());
        let a = push_variants(list, more.drop_last());
        let b = push_variant(a, more.last());
        assert(list =~= b.subrange(0, list.len() as int)) by {
            assert(list =~= a.subrange(0, list.len() as int));
            assert(a.subrange(0, list.len() as int) =~= b.subrange(0, list.len() as int));
        }
    } else {
        assert(list =~= list.subrange(0, list.len() as int));
    }
}

/// The unquantized model is always the first variant, and no format and label come twice.
pub proof fn law_variants_distinct(
    model_id: Seq<char>,
    found: Seq<Option<Seq<char>>>,
    gguf: Seq<QuantVariantView>,
)
    ensures
        all_variants(model_id, found, gguf).len() > 0,
        all_variants(model_id, found, gguf)[0] == native_variant(
            model_id,
            QuantFormat::FP16,
            "FP16"@,
        ),
        variants_distinct(all_variants(model_id, found, gguf)),
{
    let base = seq![native_variant(model_id, QuantFormat::FP16, "FP16"@)];
    let own = push_variants(base, repo_variants(found));
    lemma_push_variants_distinct(base, repo_variants(found));
    lemma_push_variants_distinct(own, gguf);
    assert(own.subrange(0, 1)[0] == own[0]);
    let all = all_variants(model_id, found, gguf);
    assert(all.subrange(0, own.len() as int)[0] == all[0]);
}

// ---------------------------------------------------------------------------
// Enrichment
// ---------------------------------------------------------------------------

/// How long answers of the model hub are kept, in seconds.
pub const CACHE_SECONDS: u64 = 3600;

/// Whether an answer of the given age may still be used.
pub fn cache_is_fresh(age_seconds: u64) -> (r: bool)
    ensures
        r == (age_seconds < CACHE_SECONDS),
{
    age_seconds < CACHE_SECONDS
}

/// What is kept of an answer of the hub, with its age in seconds, where it is used: it is then
/// the result, and nothing is fetched. Where there is none, the hub has to be asked.
pub fn kept_or_fetch<T>(kept: Option<(T, u64)>) -> (r: Option<T>)
    ensures
        r == (match kept {
            Some((value, age)) => if age < 3600 {
                Some(value)
            } else {
                None
            },
            None => None,
        }),
{
    match kept {
        Some((value, age)) => if cache_is_fresh(age) {
            Some(value)
        } else {
            None
        },
        None => None,
    }
}

/// The parts of a second in which the times of kept answers are told.
pub const PARTS_OF_A_SECOND: u64 = 1_000_000_000;

/// Answers of the hub that are kept, by the ids of the models, each with the time at which it
/// came, in billionths of a second.
#[derive(Debug)]
pub struct Shelf<T> {
    entries: Vec<(String, T, u64)>,
}

impl<T> Shelf<T> {
    spec fn place_from(entries: Seq<(String, T, u64)>, id: Seq<char>, i: int) -> Option<int>
        decreases entries.len() - i,
    {
        if i < 0 || i >= entries.len() {
            None
        } else if entries[i].0@ == id {
            Some(i)
        } else {
            Self::place_from(entries, id, i + 1)
        }
    }

    /// What is kept for a model, and when it came.
    pub closed spec fn at(self, id: Seq<char>) -> Option<(T, u64)> {
        match Self::place_from(self.entries@, id, 0) {
            Some(i) => Some((self.entries@[i].1, self.entries@[i].2)),
            None => None,
        }
    }

    proof fn lemma_place(entries: Seq<(String, T, u64)>, id: Seq<char>, i: int)
        requires
            0 <= i,
        ensures
            Self::place_from(entries, id, i) matches Some(k) ==> i <= k < entries.len()
                && entries[k].0@ == id,
        decreases entries.len() - i,
    {
        if i < entries.len() && entries[i].0@ != id {
            Self::lemma_place(entries, id, i + 1);
        }
    }

    proof fn lemma_set(entries: Seq<(String, T, u64)>, k: int, x: (String, T, u64), id: Seq<char>, i: int)
        requires
            0 <= i,
            0 <= k < entries.len(),
            entries[k].0@ == x.0@,
        ensures
            Self::place_from(entries.update(k, x), id, i) == Self::place_from(entries, id, i),
        decreases entries.len() - i,
    {
        if i < entries.len() && entries[i].0@ != id {
            Self::lemma_set(entries, k, x, id, i + 1);
        }
    }

    proof fn lemma_push(entries: Seq<(String, T, u64)>, x: (String, T, u64), id: Seq<char>, i: int)
        requires
            0 <= i <= entries.len(),
        ensures
            Self::place_from(entries.push(x), id, i) == (match Self::place_from(entries, id, i) {
                Some(k) => Some(k),
                None => if x.0@ == id {
                    Some(entries.len() as int)
                } else {
                    None
                },
            }),
        decreases entries.len() - i,
    {
        if i < entries.len() && entries[i].0@ != id {
            Self::lemma_push(entries, x, id, i + 1);
        } else if i == entries.len() {
            assert(Self::place_from(entries.push(x), id, i + 1) is None);
        }
    }

    /// A shelf with nothing on it.
    pub fn new() -> (r: Shelf<T>)
        ensures
            forall|id: Seq<char>| #[trigger] r.at(id) is None,
    {
        Shelf { entries: Vec::new() }
    }

    fn find(&self, id: &str) -> (r: Option<usize>)
        ensures
            match r {
                Some(k) => Self::place_from(self.entries@, id@, 0) == Some(k as int) && k
                    < self.entries@.len(),
                None => Self::place_from(self.entries@, id@, 0) is None,
            },
    {
        for i in 0..self.entries.len()
            invariant
                Self::place_from(self.entries@, id@, 0) == Self::place_from(
                    self.entries@,
                    id@,
                    i as int,
                ),
        {
            if text::same(&self.entries[i].0, id) {
                return Some(i);
            }
        }
        None
    }

    /// What is kept for a model, unless it is an hour old or older. The hub is asked only
    /// where there is none.
    pub fn kept(&self, id: &str, now: u64) -> (r: Option<&T>)
        ensures
            match self.at(id@) {
                Some((value, time)) => if now - time < CACHE_SECONDS * PARTS_OF_A_SECOND {
                    r == Some(&value)
                } else {
                    r is None
                },
                None => r is None,
            },
    {
        match self.find(id) {
            Some(k) => {
                let time: u64 = self.entries[k].2;
                let age: u64 = if now > time {
                    (now - time) / PARTS_OF_A_SECOND
                } else {
                    0
                };
                kept_or_fetch(Some((&self.entries[k].1, age)))
            },
            None => None,
        }
    }

    /// Keeps an answer for a model in the place of what was kept for it.
    pub fn keep(&mut self, id: &str, value: T, now: u64)
        ensures
            forall|other: Seq<char>| #[trigger]
                final(self).at(other) == (if other == id@ {
                    Some((value, now))
                } else {
                    old(self).at(other)
                }),
    {
        let ghost before = self.entries@;
        match self.find(id) {
            Some(k) => {
                let name = id.to_string();
                let ghost x = (name, value, now);
                self.entries.set(k, (name, value, now));
                proof {
                    Self::lemma_place(before, id@, 0);
                    assert(self.entries@ == before.update(k as int, x));
                    assert forall|other: Seq<char>| #[trigger]
                        self.at(other) == (if other == id@ {
                            Some((value, now))
                        } else {
                            old(self).at(other)
                        }) by {
                        Self::lemma_set(before, k as int, x, other, 0);
                        Self::lemma_place(before, other, 0);
                    }
                }
            },
            None => {
                let name = id.to_string();
                let ghost x = (name, value, now);
                self.entries.push((name, value, now));
                proof {
                    assert(self.entries@ == before.push(x));
                    assert forall|other: Seq<char>| #[trigger]
                        self.at(other) == (if other == id@ {
                            Some((value, now))
                        } else {
                            old(self).at(other)
                        }) by {
                        Self::lemma_push(before, x, other, 0);
                        Self::lemma_place(before, other, 0);
                    }
                }
            },
        }
    }
}

/// The name of a model without the mark of GGUF repositories.
pub open spec fn ungguf_name(model_id: Seq<char>) -> Seq<char> {
    text::trim_end_text(text::trim_end_text(base_name(model_id), "-GGUF"@), "-gguf"@)
}

/// The repositories whose configuration stands in for that of a model that has none.
pub open spec fn stand_ins(model_id: Seq<char>) -> Seq<Seq<char>> {
    let a = owner_name(model_id) + "/"@ + ungguf_name(model_id);
    let b = ungguf_name(model_id);
    (if a != model_id {
        seq![a]
    } else {
        seq![]
    }) + (if b != model_id {
        seq![b]
    } else {
        seq![]
    })
}

/// The repositories whose configuration stands in for that of a model that has none, in the
/// order in which they are tried.
pub fn config_candidates(model_id: &str) -> (r: Vec<String>)
    ensures
        text::texts(r@) == stand_ins(model_id@),
{
    proof {
        reveal_strlit("-GGUF");
        reveal_strlit("-gguf");
    }
    let slash = ['/'];
    assert(slash@ == seq!['/']);
    let base = text::trimmed_end_text(
        text::trimmed_end_text(extract_base_name(model_id), "-GGUF"),
        "-gguf",
    );
    let mut with_owner = text::head_before(model_id, &slash).to_string();
    with_owner.append("/");
    with_owner.append(base);
    let mut out: Vec<String> = Vec::new();
    if !text::same(&with_owner, model_id) {
        out.push(with_owner);
    }
    if !text::same(base, model_id) {
        out.push(base.to_string());
    }
    assert(text::texts(out@) =~= stand_ins(model_id@));
    out
}

/// The context of a model and where it comes from.
#[derive(Clone, Copy, Debug, PartialEq, Eq, Structural)]
pub struct ContextChoice {
    pub tokens: usize,
    pub source: estimate::ContextSource,
    pub estimated: bool,
}

/// The context of a model: what its configuration declares, or else that of its family, or
/// else the default.
pub open spec fn chosen_context(model_id: Seq<char>, config: Option<JsonTree>) -> ContextChoice {
    let declared = match config {
        Some(t) => estimate::declared_context(t),
        None => None,
    };
    if estimate::above_zero(declared) {
        ContextChoice {
            tokens: declared->0,
            source: estimate::ContextSource::Config,
            estimated: false,
        }
    } else {
        match estimate::family_context(model_id) {
            Some(n) => ContextChoice {
                tokens: n,
                source: estimate::ContextSource::Family,
                estimated: true,
            },
            None => ContextChoice {
                tokens: estimate::DEFAULT_CONTEXT,
                source: estimate::ContextSource::Default,
                estimated: true,
            },
        }
    }
}

/// The context of a model.
pub fn choose_context(model_id: &str, config: Option<&Json>) -> (r: ContextChoice)
    ensures
        r == chosen_context(model_id@, json::opt_tree(config)),
{
    if let Some(c) = config {
        let (tokens, source) = estimate::parse_context(c);
        if tokens > 0 {
            return ContextChoice { tokens, source, estimated: false };
        }
    }
    match estimate::family_fallback(model_id) {
        Some(n) => ContextChoice {
            tokens: n,
            source: estimate::ContextSource::Family,
            estimated: true,
        },
        None => ContextChoice {
            tokens: estimate::DEFAULT_CONTEXT,
            source: estimate::ContextSource::Default,
            estimated: true,
        },
    }
}

/// How the source of a context is shown.
pub fn context_source_label(source: estimate::ContextSource) -> (r: &'static str)
    ensures
        r@ == (match source {
            estimate::ContextSource::Config => "config.json"@,
            estimate::ContextSource::Family => "family default"@,
            estimate::ContextSource::Default => "generic default"@,
        }),
{
    match source {
        estimate::ContextSource::Config => "config.json",
        estimate::ContextSource::Family => "family default",
        estimate::ContextSource::Default => "generic default",
    }
}

/// A parameter count, as it was found.
#[derive(Clone, Copy, Debug, PartialEq, Eq, Structural)]
pub enum ParamsCount {
    /// A number of parameters.
    Count(u128),
    /// The size of the weights.
    Indexed(estimate::IndexedWeights),
    /// A number of billions in the name of the model.
    Named(Decimal),
}

/// A parameter count in whole millions.
pub open spec fn millions_of(p: ParamsCount) -> int {
    match p {
        ParamsCount::Count(n) => n as int / 1_000_000,
        ParamsCount::Indexed(w) => if w.bytes_per_param == 0 {
            0
        } else {
            w.total_bytes as int / w.bytes_per_param as int / 1_000_000
        },
        ParamsCount::Named(d) => (d.mantissa * 1_000) / pow(10, d.scale as nat),
    }
}

/// A number divided by a power of ten.
fn shifted(n: u128, places: u8) -> (r: u128)
    ensures
        r == n as int / pow(10, places as nat),
    decreases places,
{
    proof {
        reveal(pow);
    }
    if places == 0 {
        return n;
    }
    let q = shifted(n, places - 1);
    proof {
        let u = pow(10, (places - 1) as nat);
        lemma_pow_positive(10, (places - 1) as nat);
        assert(n as int / u / 10 == n as int / (u * 10)) by {
            vstd::arithmetic::div_mod::lemma_div_denominator(n as int, u, 10);
        }
        assert(u * 10 == 10 * u);
    }
    q / 10
}

/// A parameter count in whole millions; what is too large for the machine is its largest
/// number.
pub fn millions(p: ParamsCount) -> (r: u64)
    ensures
        r == (if millions_of(p) > u64::MAX {
            u64::MAX as int
        } else {
            millions_of(p)
        }),
{
    let n: u128 = match p {
        ParamsCount::Count(n) => n / 1_000_000,
        ParamsCount::Indexed(w) => if w.bytes_per_param == 0 {
            0
        } else {
            (w.total_bytes / w.bytes_per_param as u64 / 1_000_000) as u128
        },
        ParamsCount::Named(d) => shifted(d.mantissa as u128 * 1_000, d.scale),
    };
    if n > u64::MAX as u128 {
        u64::MAX
    } else {
        n as u64
    }
}

/// What the configuration of a model tells.
#[derive(Clone, Debug)]
pub struct EnrichedStats {
    pub params: Option<ParamsCount>,
    pub context: ContextChoice,
    pub head_dim: Option<usize>,
    pub n_layers: Option<usize>,
    pub n_kv_heads: Option<usize>,
    pub torch_dtype: Option<String>,
}

/// The value under `key`, or that under `key` in the nested configuration of the text model.
pub open spec fn text_or_own(t: JsonTree, key: Seq<char>) -> Option<JsonTree> {
    match t.member(key) {
        Some(v) => Some(v),
        None => match t.member("text_config"@) {
            Some(sub) => sub.member(key),
            None => None,
        },
    }
}

/// The number of layers that a configuration tells.
pub open spec fn config_layers(t: JsonTree) -> Option<usize> {
    match text_or_own(t, "num_hidden_layers"@) {
        Some(v) => estimate::size_value(v),
        None => None,
    }
}

/// The number of KV heads that a configuration tells: its own, or its number of attention
/// heads, or those of the nested configuration of the text model.
pub open spec fn config_kv_heads(t: JsonTree) -> Option<usize> {
    let v = match t.member("num_key_value_heads"@) {
        Some(v) => Some(v),
        None => match t.member("num_attention_heads"@) {
            Some(v) => Some(v),
            None => match t.member("text_config"@) {
                Some(sub) => match sub.member("num_key_value_heads"@) {
                    Some(v) => Some(v),
                    None => match sub.member("num_attention_heads"@) {
                        Some(v) => Some(v),
                        None => sub.member("num_kv_heads"@),
                    },
                },
                None => None,
            },
        },
    };
    match v {
        Some(x) => estimate::size_value(x),
        None => None,
    }
}

/// The type of the weights that a configuration tells.
pub open spec fn config_dtype(t: JsonTree) -> Option<Seq<char>> {
    match text_or_own(t, "torch_dtype"@) {
        Some(v) => v.as_text(),
        None => None,
    }
}

fn own_or_text<'a>(cfg: &'a Json, key: &str) -> (r: Option<&'a Json>)
    ensures
        json::opt_tree(r) == text_or_own(cfg.tree(), key@),
{
    match cfg.get(key) {
        Some(v) => Some(v),
        None => match cfg.get("text_config") {
            Some(sub) => sub.get(key),
            None => None,
        },
    }
}

fn kv_heads_of(cfg: &Json) -> (r: Option<usize>)
    ensures
        r == config_kv_heads(cfg.tree()),
{
    let v = match cfg.get("num_key_value_heads") {
        Some(v) => Some(v),
        None => match cfg.get("num_attention_heads") {
            Some(v) => Some(v),
            None => match cfg.get("text_config") {
                Some(sub) => match sub.get("num_key_value_heads") {
                    Some(v) => Some(v),
                    None => match sub.get("num_attention_heads") {
                        Some(v) => Some(v),
                        None => sub.get("num_kv_heads"),
                    },
                },
                None => None,
            },
        },
    };
    match v {
        Some(x) => estimate::usize_of(x),
        None => None,
    }
}

/// The weights that the first index file with a size tells of.
pub open spec fn first_indexed(files: Seq<Option<JsonTree>>, dtype: Option<Seq<char>>) -> Option<
    estimate::IndexedWeights,
>
    decreases files.len(),
{
    if files.len() == 0 {
        None
    } else {
        let own = match files[0] {
            Some(t) => match t.member("metadata"@) {
                Some(m) => match m.member("total_size"@) {
                    Some(s) => match s.as_unsigned() {
                        Some(n) => Some(
                            estimate::IndexedWeights {
                                total_bytes: n,
                                bytes_per_param: estimate::stored_bytes(dtype),
                            },
                        ),
                        None => None,
                    },
                    None => None,
                },
                None => None,
            },
            None => None,
        };
        match own {
            Some(w) => Some(w),
            None => first_indexed(files.skip(1), dtype),
        }
    }
}

/// The optional documents of a list.
pub open spec fn opt_trees(v: Seq<Option<Json>>) -> Seq<Option<JsonTree>> {
    Seq::new(
        v.len(),
        |i: int|
            match v[i] {
                Some(j) => Some(j.tree()),
                None => None,
            },
    )
}

fn first_index(files: &Vec<Option<Json>>, dtype: Option<&str>) -> (r: Option<
    estimate::IndexedWeights,
>)
    ensures
        r == first_indexed(opt_trees(files@), text::opt_str(dtype)),
{
    let ghost fs = opt_trees(files@);
    assert(fs.skip(0) =~= fs);
    for i in 0..files.len()
        invariant
            fs == opt_trees(files@),
            first_indexed(fs, text::opt_str(dtype)) == first_indexed(
                fs.skip(i as int),
                text::opt_str(dtype),
            ),
    {
        proof {
            assert(fs.skip(i as int)[0] == fs[i as int]);
            assert(fs.skip(i as int).skip(1) =~= fs.skip(i + 1));
        }
        if let Some(f) = &files[i] {
            if let Some(w) = estimate::parse_params_from_index(f, dtype) {
                return Some(w);
            }
        }
    }
    None
}

/// The number of billions that the name of a model tells.
pub open spec fn named_params(model_id: Seq<char>) -> Option<(nat, nat)> {
    estimate::group_decimal(
        outside::lite_groups(estimate::PARAMS_PATTERN@, base_name(model_id)),
    )
}

/// The parameter count of a model with a configuration: what the model hub publishes, or else
/// what the index files tell, or else what the dimensions imply, or else what the name tells.
pub open spec fn params_of(
    r: Option<ParamsCount>,
    model_id: Seq<char>,
    config: JsonTree,
    published: Option<JsonTree>,
    index_files: Seq<Option<JsonTree>>,
) -> bool {
    let hub = match published {
        Some(t) => estimate::published_params(t),
        None => None,
    };
    match hub {
        Some(n) => r matches Some(ParamsCount::Count(c)) && c == n,
        None => match first_indexed(index_files, config_dtype(config)) {
            Some(w) => r == Some(ParamsCount::Indexed(w)),
            None => match estimate::config_params(config) {
                Some(n) => r matches Some(ParamsCount::Count(c)) && c == n,
                None => named_of(r, model_id),
            },
        },
    }
}

/// The parameter count is the one that the name of the model tells.
pub open spec fn named_of(r: Option<ParamsCount>, model_id: Seq<char>) -> bool {
    match named_params(model_id) {
        Some(p) => r matches Some(ParamsCount::Named(d)) && d.parts() == p,
        None => r is None,
    }
}

fn name_params(model_id: &str) -> (r: Option<ParamsCount>)
    ensures
        named_of(r, model_id@),
{
    match estimate::parse_params_from_name(model_id) {
        Some(d) => Some(ParamsCount::Named(d)),
        None => None,
    }
}

fn config_params_count(
    model_id: &str,
    config: &Json,
    dtype: Option<&str>,
    published: Option<&Json>,
    index_files: &Vec<Option<Json>>,
) -> (r: Option<ParamsCount>)
    requires
        text::opt_str(dtype) == config_dtype(config.tree()),
    ensures
        params_of(
            r,
            model_id@,
            config.tree(),
            json::opt_tree(published),
            opt_trees(index_files@),
        ),
{
    if let Some(p) = published {
        if let Some(n) = estimate::parse_params_from_safetensors_api(p) {
            return Some(ParamsCount::Count(n));
        }
    }
    if let Some(w) = first_index(index_files, dtype) {
        return Some(ParamsCount::Indexed(w));
    }
    if let Some(n) = estimate::estimate_params_from_config(config) {
        return Some(ParamsCount::Count(n));
    }
    name_params(model_id)
}

/// What is known of a model: `config` is its configuration, `published` the answer of the
/// model hub about its weights, `index_files` the index files of its weights.
pub fn enrich(
    model_id: &str,
    config: Option<&Json>,
    published: Option<&Json>,
    index_files: &Vec<Option<Json>>,
) -> (r: EnrichedStats)
    ensures
        r.context == chosen_context(model_id@, json::opt_tree(config)),
        match config {
            Some(c) => r.head_dim == estimate::config_head_dim(c.tree()) && r.n_layers
                == config_layers(c.tree()) && r.n_kv_heads == config_kv_heads(c.tree())
                && text::opt_text(r.torch_dtype) == config_dtype(c.tree()) && params_of(
                r.params,
                model_id@,
                c.tree(),
                json::opt_tree(published),
                opt_trees(index_files@),
            ),
            None => r.head_dim is None && r.n_layers is None && r.n_kv_heads is None
                && r.torch_dtype is None && named_of(r.params, model_id@),
        },
        config matches Some(c) ==> (c.tree().member("num_key_value_heads"@) matches Some(v)
            ==> r.n_kv_heads == estimate::size_value(v)),
        config matches Some(c) ==> (c.tree().member("num_hidden_layers"@) matches Some(v)
            ==> r.n_layers == estimate::size_value(v)),
        config matches Some(c) ==> (c.tree().member("torch_dtype"@) matches Some(v)
            ==> text::opt_text(r.torch_dtype) == v.as_text()),
        r.context.tokens > 0,
{
    let context = choose_context(model_id, config);
    proof {
        law_declared_context_counts(model_id@, model_id@, json::opt_tree(config));
    }
    let Some(c) = config else {
        return EnrichedStats {
            params: name_params(model_id),
            context,
            head_dim: None,
            n_layers: None,
            n_kv_heads: None,
            torch_dtype: None,
        };
    };
    let dtype: Option<&str> = match own_or_text(c, "torch_dtype") {
        Some(v) => v.as_str(),
        None => None,
    };
    EnrichedStats {
        params: config_params_count(model_id, c, dtype, published, index_files),
        context,
        head_dim: estimate::head_dim_from_config(c),
        n_layers: match own_or_text(c, "num_hidden_layers") {
            Some(v) => estimate::usize_of(v),
            None => None,
        },
        n_kv_heads: kv_heads_of(c),
        torch_dtype: match dtype {
            Some(d) => Some(d.to_string()),
            None => None,
        },
    }
}

// ---------------------------------------------------------------------------
// Laws
// ---------------------------------------------------------------------------

/// A configuration that tells its number of KV heads has that many, whatever number of
/// attention heads it tells. The attention heads count only where it tells no KV heads, and
/// the configuration of the text model only where the outer one tells neither.
pub proof fn law_kv_heads_are_the_ones_told(t: JsonTree, n: u64)
    requires
        n <= usize::MAX,
    ensures
        t.member("num_key_value_heads"@) == Some(JsonTree::Number(JsonNumber::Unsigned(n)))
            ==> config_kv_heads(t) == Some(n as usize),
        t.member("num_key_value_heads"@) is None && t.member("num_attention_heads"@) == Some(
            JsonTree::Number(JsonNumber::Unsigned(n)),
        ) ==> config_kv_heads(t) == Some(n as usize),
        t.member("num_key_value_heads"@) is None && t.member("num_attention_heads"@) is None
            && t.member("text_config"@) is None ==> config_kv_heads(t) is None,
        t.member("num_key_value_heads"@) is None && t.member("num_attention_heads"@) is None ==> (
        t.member("text_config"@) matches Some(sub) ==> {
            &&& sub.member("num_key_value_heads"@) == Some(
                JsonTree::Number(JsonNumber::Unsigned(n)),
            ) ==> config_kv_heads(t) == Some(n as usize)
            &&& sub.member("num_key_value_heads"@) is None && sub.member("num_attention_heads"@)
                == Some(JsonTree::Number(JsonNumber::Unsigned(n))) ==> config_kv_heads(t) == Some(
                n as usize,
            )
            &&& sub.member("num_key_value_heads"@) is None && sub.member(
                "num_attention_heads"@,
            ) is None && sub.member("num_kv_heads"@) == Some(
                JsonTree::Number(JsonNumber::Unsigned(n)),
            ) ==> config_kv_heads(t) == Some(n as usize)
        }),
{
}

/// Two configurations that tell the same number of KV heads have as many, whatever else they
/// tell.
pub proof fn law_kv_heads_do_not_depend_on_the_rest(t: JsonTree, u: JsonTree)
    requires
        t.member("num_key_value_heads"@) is Some,
        t.member("num_key_value_heads"@) == u.member("num_key_value_heads"@),
    ensures
        config_kv_heads(t) == config_kv_heads(u),
{
}

/// The number of layers and the type of the weights are the ones that a configuration tells
/// itself; the configuration of its text model counts only where it does not.
pub proof fn law_layers_are_the_ones_told(t: JsonTree, n: u64, dtype: Seq<char>)
    requires
        n <= usize::MAX,
    ensures
        t.member("num_hidden_layers"@) == Some(JsonTree::Number(JsonNumber::Unsigned(n)))
            ==> config_layers(t) == Some(n as usize),
        t.member("num_hidden_layers"@) is None ==> (t.member("text_config"@) matches Some(sub)
            ==> (sub.member("num_hidden_layers"@) == Some(
            JsonTree::Number(JsonNumber::Unsigned(n)),
        ) ==> config_layers(t) == Some(n as usize))),
        t.member("torch_dtype"@) == Some(JsonTree::Text(dtype)) ==> config_dtype(t) == Some(dtype),
        t.member("torch_dtype"@) is None ==> (t.member("text_config"@) matches Some(sub) ==> (
        sub.member("torch_dtype"@) == Some(JsonTree::Text(dtype)) ==> config_dtype(t) == Some(
            dtype,
        ))),
        t.member("torch_dtype"@) is None && t.member("text_config"@) is None ==> config_dtype(
            t,
        ) is None && (t.member("num_hidden_layers"@) is None ==> config_layers(t) is None),
{
}

/// The context of a model is never zero. What its configuration declares counts, whatever its
/// family is, and is no estimate; everything else is one. A model of which nothing is known
/// has 4096 tokens.
pub proof fn law_declared_context_counts(a: Seq<char>, b: Seq<char>, config: Option<JsonTree>)
    ensures
        ({
            let declared = match config {
                Some(t) => estimate::declared_context(t),
                None => None,
            };
            let c = chosen_context(a, config);
            &&& declared matches Some(n) ==> (n > 0 ==> c.tokens == n && c
                == chosen_context(b, config))
            &&& c.estimated <==> c.source != estimate::ContextSource::Config
            &&& c.source == estimate::ContextSource::Config <==> (declared matches Some(n) && n
                > 0)
            &&& c.source == estimate::ContextSource::Default ==> c.tokens == 4096
            &&& c.source == estimate::ContextSource::Family ==> estimate::family_context(a)
                == Some(c.tokens)
            &&& c.source == estimate::ContextSource::Default <==> c.estimated
                && estimate::family_context(a) is None
            &&& c.tokens > 0
        }),
{
    estimate::lemma_family_context_positive(outside::lowercase(a), 0);
}

/// The parameters that the model hub publishes count before all others; the index files count
/// before the dimensions, and the name of the model counts last.
pub proof fn law_published_parameters_count_first(
    r: Option<ParamsCount>,
    model_id: Seq<char>,
    config: JsonTree,
    published: Option<JsonTree>,
    index_files: Seq<Option<JsonTree>>,
)
    requires
        params_of(r, model_id, config, published, index_files),
    ensures
        ({
            let hub = match published {
                Some(t) => estimate::published_params(t),
                None => None,
            };
            let index = first_indexed(index_files, config_dtype(config));
            let implied = estimate::config_params(config);
            &&& hub matches Some(n) ==> (r matches Some(ParamsCount::Count(c)) && c == n)
            &&& hub is None ==> (index matches Some(w) ==> r == Some(ParamsCount::Indexed(w)))
            &&& hub is None && index is None ==> (implied matches Some(n) ==> (
            r matches Some(ParamsCount::Count(c)) && c == n))
            &&& r matches Some(ParamsCount::Named(_)) ==> hub is None && index is None
                && implied is None
            &&& r is None ==> hub is None && index is None && implied is None && named_params(
                model_id,
            ) is None
        }),
{
}

/// A count of parameters in millions is never more than the count and less than a million
/// short of it; the bytes of the weights are first divided among the parameters, and what a
/// name tells are thousands of millions.
pub proof fn law_millions_are_close(p: ParamsCount)
    ensures
        p matches ParamsCount::Count(n) ==> millions_of(p) * 1_000_000 <= n < (millions_of(p) + 1)
            * 1_000_000,
        p matches ParamsCount::Indexed(w) ==> (w.bytes_per_param > 0 ==> millions_of(p)
            * 1_000_000 * w.bytes_per_param <= w.total_bytes < (millions_of(p) + 1) * 1_000_000
            * w.bytes_per_param),
        p matches ParamsCount::Named(d) ==> millions_of(p) * pow(10, d.scale as nat) <= 1_000
            * d.mantissa < (millions_of(p) + 1) * pow(10, d.scale as nat),
{
    match p {
        ParamsCount::Count(_) => {},
        ParamsCount::Indexed(w) => {
            if w.bytes_per_param > 0 {
                let n = w.total_bytes as int;
                let b = w.bytes_per_param as int;
                let q = n / b;
                let m = q / 1_000_000;
                assert(m * 1_000_000 * b <= n < (m + 1) * 1_000_000 * b) by (nonlinear_arith)
                    requires
                        q == n / b,
                        b > 0,
                        m * 1_000_000 <= q,
                        q + 1 <= (m + 1) * 1_000_000,
                ;
            }
        },
        ParamsCount::Named(d) => {
            let u = pow(10, d.scale as nat);
            lemma_pow_positive(10, d.scale as nat);
            let n = d.mantissa * 1_000;
            let m = n / u;
            assert(m * u <= n < (m + 1) * u) by (nonlinear_arith)
                requires
                    m == n / u,
                    u > 0,
            ;
        },
    }
}

/// What is told of a model is what the hub tells of it: each number under its own name, and
/// zero where the hub tells none.
pub proof fn law_hub_numbers_are_repeated(t: JsonTree, id: Seq<char>, n: u64)
    requires
        n <= i64::MAX,
    ensures
        hub_model(t, id).id == id,
        t.member("downloads"@) == Some(JsonTree::Number(JsonNumber::Unsigned(n))) ==> hub_model(
            t,
            id,
        ).downloads == n,
        t.member("downloads"@) is None ==> hub_model(t, id).downloads == 0,
        t.member("likes"@) == Some(JsonTree::Number(JsonNumber::Unsigned(n))) ==> hub_model(
            t,
            id,
        ).likes == n,
        t.member("likes"@) is None ==> hub_model(t, id).likes == 0,
        t.member("private"@) == Some(JsonTree::Bool(true)) <==> hub_model(t, id).private,
        t.member("trendingScore"@) matches Some(JsonTree::Number(x)) ==> hub_model(
            t,
            id,
        ).trending_score == x,
        t.member("pipeline_tag"@) matches Some(JsonTree::Text(tag)) ==> hub_model(
            t,
            id,
        ).pipeline_tag == Some(tag),
{
}

/// A search finds the model that was looked up by its name first, and every model of the list
/// that has an id; and it finds no others.
pub proof fn law_search_finds_all(exact: Option<JsonTree>, listed: Seq<JsonTree>, k: int)
    ensures
        exact matches Some(t) ==> (t.text_member("id"@) matches Some(id) ==> found_models(
            exact,
            listed,
        ).len() > 0 && found_models(exact, listed)[0] == hub_model(t, id)),
        0 <= k < listed.len() ==> (listed[k].text_member("id"@) matches Some(id) ==> (id.len() > 0
            ==> has_id(found_models(exact, listed), id))),
        0 <= k < found_models(exact, listed).len() ==> {
            let m = found_models(exact, listed)[k];
            ||| exact matches Some(t) && t.text_member("id"@) == Some(m.id) && m == hub_model(
                t,
                m.id,
            )
            ||| exists|j: int|
                0 <= j < listed.len() && (#[trigger] listed[j]).text_member("id"@) == Some(m.id)
                    && m == hub_model(listed[j], m.id)
        },
    decreases listed.len(),
{
    if listed.len() > 0 {
        let rest = listed.drop_last();
        let before = found_models(exact, rest);
        let all = found_models(exact, listed);
        law_search_finds_all(exact, rest, k);
        law_search_finds_all(exact, rest, 0);
        assert(forall|i: int| 0 <= i < before.len() ==> all[i] == before[i]);
        if 0 <= k < listed.len() {
            if let Some(id) = listed[k].text_member("id"@) {
                if id.len() > 0 {
                    if k < rest.len() {
                        assert(rest[k] == listed[k]);
                        let i = choose|i: int|
                            0 <= i < before.len() && (#[trigger] before[i]).id == id;
                        assert(all[i].id == id);
                    } else if has_id(before, id) {
                        let i = choose|i: int|
                            0 <= i < before.len() && (#[trigger] before[i]).id == id;
                        assert(all[i].id == id);
                    } else {
                        assert(all.last().id == id);
                        assert(all[all.len() - 1].id == id);
                    }
                }
            }
        }
        if 0 <= k < all.len() {
            if k < before.len() {
                let m = before[k];
                assert(forall|j: int| 0 <= j < rest.len() ==> rest[j] == listed[j]);
            } else {
                assert(listed[listed.len() - 1] == listed.last());
            }
        }
    }
}

/// The files of a repository that are models are those whose names end in `.gguf`, in upper or
/// lower case, with the sizes that the repository tells; the ones for vision begin with
/// `mmproj`.
pub proof fn law_gguf_files_are_told_by_their_names(t: JsonTree, path: Seq<char>)
    requires
        t.member("path"@) == Some(JsonTree::Text(path)),
    ensures
        gguf_entry(t) is Some <==> ".gguf"@.is_suffix_of(text::ascii_lowercase(path)),
        gguf_entry(t) matches Some(f) ==> {
            &&& f.path == path
            &&& t.member("size"@) matches Some(JsonTree::Number(JsonNumber::Unsigned(n)))
                ==> f.size_bytes == n
            &&& f.is_mmproj <==> "mmproj"@.is_prefix_of(text::ascii_lowercase(path))
        },
{
}

/// Every model file of a repository is listed, each as often as it is there, in the order in
/// which the repository tells of them.
pub proof fn law_gguf_files_are_all_listed(a: Seq<JsonTree>, t: JsonTree)
    ensures
        gguf_entries(seq![]) == Seq::<GgufRepoFileView>::empty(),
        gguf_entries(a.push(t)) == (match gguf_entry(t) {
            Some(f) => gguf_entries(a).push(f),
            None => gguf_entries(a),
        }),
{
    assert(a.push(t).drop_last() =~= a);
}

/// A file that only helps another has no quantization label: one whose name begins with the
/// mark of a vision part, of several predicted tokens, of a matrix, of a vocabulary or of a
/// draft.
pub proof fn law_helpers_are_no_variants(filename: Seq<char>)
    requires
        ({
            let name = text::ascii_lowercase(base_name(filename));
            ||| "mmproj"@.is_prefix_of(name)
            ||| "mtp-"@.is_prefix_of(name)
            ||| "mtp_"@.is_prefix_of(name)
            ||| "imatrix"@.is_prefix_of(name)
            ||| "vocab"@.is_prefix_of(name)
            ||| "tokenizer"@.is_prefix_of(name)
            ||| "draft"@.is_prefix_of(name)
            ||| "speculative"@.is_prefix_of(name)
        }),
    ensures
        quant_label(filename) is None,
{
}

/// The end of the name of a repository tells its quantization.
pub proof fn law_formats_are_told_by_names(name: Seq<char>)
    ensures
        ({
            let n = outside::lowercase(name);
            let awq = "-awq"@.is_suffix_of(n) || text::occurs(n, "-awq-"@) || text::occurs(
                n,
                "-awq_"@,
            );
            let gptq = text::occurs(n, "-gptq"@);
            &&& awq <==> name_format(name) == Some(QuantFormat::AWQ)
            &&& gptq && !awq <==> name_format(name) == Some(QuantFormat::GPTQ)
            &&& !awq && !gptq && ("-fp8"@.is_suffix_of(n) || "-fp8-dynamic"@.is_suffix_of(n))
                <==> name_format(name) == Some(QuantFormat::FP8)
            &&& "-bnb-4bit"@.is_suffix_of(n) ==> name_format(name) is Some
            &&& name_format(name) == Some(QuantFormat::BNB) ==> "-bnb-4bit"@.is_suffix_of(n)
            &&& name_format(name) != Some(QuantFormat::FP16) && name_format(name) != Some(
                QuantFormat::GGUF,
            )
        }),
{
}

/// A model that is a variant itself is its own only variant, one that names a GGUF repository
/// is looked for there, and each other is looked for under the name that it has with its own
/// owner and with the publishers of variants.
pub proof fn law_variants_are_looked_for(plan: VariantPlan, model_id: Seq<char>)
    requires
        plan_of(plan, model_id),
    ensures
        name_format(model_id) matches Some(format) ==> (plan matches VariantPlan::Known(v)
            && v@.repo_id == model_id && v@.format == format && v@.vllm_native
            && v@.weight_bytes is None && v@.gguf_file is None),
        name_format(model_id) is None && names_gguf_repo(model_id) ==> (
        plan matches VariantPlan::GgufRepo(repo) && repo@ == model_id),
        plan matches VariantPlan::Search { candidates, searches, gguf_repos } ==> {
            let own = owner_name(model_id) + "/"@ + base_name(model_id);
            &&& candidates@.len() == 6
            &&& candidates@[0]@ == own + "-AWQ"@
            &&& candidates@[1]@ == own + "-GPTQ-Int4"@
            &&& candidates@[2]@ == own + "-GPTQ"@
            &&& candidates@[3]@ == own + "-FP8"@
            &&& candidates@[4]@ == own + "-FP8-dynamic"@
            &&& candidates@[5]@ == own + "-bnb-4bit"@
            &&& searches@.len() == 4
            &&& searches@[0]@ == "neuralmagic/"@ + base_name(model_id)
            &&& searches@[1]@ == "hugging-quants/"@ + base_name(model_id)
            &&& searches@[2]@ == "ISTA-DASLab/"@ + base_name(model_id)
            &&& searches@[3]@ == "TheBloke/"@ + base_name(model_id)
            &&& gguf_repos@.len() == 3
            &&& gguf_repos@[0]@ == gguf_repo_id("unsloth"@, base_name(model_id))
            &&& gguf_repos@[1]@ == gguf_repo_id("bartowski"@, base_name(model_id))
            &&& gguf_repos@[2]@ == gguf_repo_id("TheBloke"@, base_name(model_id))
        },
{
    if let VariantPlan::Search { candidates, searches, gguf_repos } = plan {
        let c = text::texts(candidates@);
        let s = text::texts(searches@);
        let g = text::texts(gguf_repos@);
        assert(c.len() == 6 && s.len() == 4 && g.len() == 3);
        assert(c[0] == candidates@[0]@ && c[1] == candidates@[1]@ && c[2] == candidates@[2]@
            && c[3] == candidates@[3]@ && c[4] == candidates@[4]@ && c[5] == candidates@[5]@);
        assert(s[0] == searches@[0]@ && s[1] == searches@[1]@ && s[2] == searches@[2]@ && s[3]
            == searches@[3]@);
        assert(g[0] == gguf_repos@[0]@ && g[1] == gguf_repos@[1]@ && g[2] == gguf_repos@[2]@);
        reveal_strlit("/");
        reveal_strlit("neuralmagic");
        reveal_strlit("neuralmagic/");
        reveal_strlit("hugging-quants");
        reveal_strlit("hugging-quants/");
        reveal_strlit("ISTA-DASLab");
        reveal_strlit("ISTA-DASLab/");
        reveal_strlit("TheBloke");
        reveal_strlit("TheBloke/");
        assert("neuralmagic"@ + "/"@ =~= "neuralmagic/"@);
        assert("hugging-quants"@ + "/"@ =~= "hugging-quants/"@);
        assert("ISTA-DASLab"@ + "/"@ =~= "ISTA-DASLab/"@);
        assert("TheBloke"@ + "/"@ =~= "TheBloke/"@);
    }
}

/// A publisher keeps the GGUF files of a model under the model's own name, marked as GGUF once.
pub proof fn law_gguf_repository_is_marked_once(publisher: Seq<char>, base: Seq<char>)
    requires
        publisher.len() > 0,
    ensures
        "-gguf"@.is_suffix_of(outside::lowercase(base)) ==> gguf_repo_id(publisher, base)
            == publisher + "/"@ + base,
        !"-gguf"@.is_suffix_of(outside::lowercase(base)) ==> gguf_repo_id(publisher, base)
            == publisher + "/"@ + base + "-GGUF"@,
{
}

/// A file of a GGUF repository is counted to the variant with its label: where there is one
/// its size is added and nothing else changes; else a new variant has the size and the name of
/// the file.
pub proof fn law_files_of_one_label_add_up(
    list: Seq<QuantVariantView>,
    repo_id: Seq<char>,
    file: Seq<char>,
    label: Seq<char>,
    size: Option<u64>,
    i: int,
)
    requires
        0 <= i < list.len(),
        forall|a: int, b: int|
            #![trigger list[a], list[b]]
            0 <= a < b < list.len() ==> list[a].label != list[b].label,
    ensures
        ({
            let after = with_gguf_file(list, repo_id, file, label, size);
            &&& list[i].label == label ==> after.len() == list.len() && after[i].gguf_file
                == list[i].gguf_file && after[i].label == label && (list[i].weight_bytes is Some
                && size is Some && list[i].weight_bytes->0 + size->0 <= u64::MAX ==> after[i].weight_bytes
                == Some((list[i].weight_bytes->0 + size->0) as u64)) && (size is None
                ==> after[i].weight_bytes == list[i].weight_bytes)
            &&& list[i].label != label ==> after.contains(list[i])
            &&& label_from(list, label, 0) is None ==> after.len() == list.len() + 1
                && after.contains(
                (QuantVariantView {
                    repo_id,
                    format: QuantFormat::GGUF,
                    label,
                    weight_bytes: size,
                    params_m: None,
                    gguf_file: Some(file),
                    vllm_native: false,
                }),
            )
        }),
{
    lemma_label_from(list, label, 0);
    lemma_slot_in_range(list, label, 0);
    let after = with_gguf_file(list, repo_id, file, label, size);
    match label_from(list, label, 0) {
        Some(k) => {
            if list[i].label == label {
                assert(k == i);
            } else {
                assert(after[i] == list[i]);
            }
        },
        None => {
            assert(list[i].label != label);
            let s = slot_from(list, label, 0);
            if i < s {
                assert(after[i] == list[i]);
            } else {
                assert(after[i + 1] == list[i]);
            }
            assert(after[s].label == label);
        },
    }
}

proof fn lemma_label_from(list: Seq<QuantVariantView>, label: Seq<char>, i: int)
    requires
        0 <= i,
    ensures
        match label_from(list, label, i) {
            Some(k) => i <= k < list.len() && list[k].label == label,
            None => forall|j: int| i <= j < list.len() ==> (#[trigger] list[j]).label != label,
        },
    decreases list.len() - i,
{
    if i < list.len() && list[i].label != label {
        lemma_label_from(list, label, i + 1);
    }
}

proof fn lemma_slot_in_range(list: Seq<QuantVariantView>, label: Seq<char>, i: int)
    requires
        0 <= i <= list.len(),
    ensures
        i <= slot_from(list, label, i) <= list.len(),
    decreases list.len() - i,
{
    if i < list.len() {
        lemma_slot_in_range(list, label, i + 1);
    }
}

proof fn lemma_push_variants_keeps(list: Seq<QuantVariantView>, more: Seq<QuantVariantView>)
    ensures
        forall|v: QuantVariantView| #[trigger]
            has_variant(list, v) ==> has_variant(push_variants(list, more), v),
        forall|i: int|
            0 <= i < more.len() ==> has_variant(push_variants(list, more), #[trigger] more[i]),
    decreases more.len(),
{
    if more.len() > 0 {
        let rest = more.drop_last();
        lemma_push_variants_keeps(list, rest);
        let a = push_variants(list, rest);
        let b = push_variants(list, more);
        assert forall|v: QuantVariantView| #[trigger] has_variant(a, v) implies has_variant(
            b,
            v,
        ) by {
            let i = choose|i: int|
                0 <= i < a.len() && (#[trigger] a[i]).format == v.format && a[i].label == v.label;
            assert(b[i] == a[i]);
        }
        assert forall|i: int| 0 <= i < more.len() implies has_variant(b, #[trigger] more[i]) by {
            if i < rest.len() {
                assert(rest[i] == more[i]);
                assert(has_variant(a, rest[i]));
            } else if !has_variant(a, more.last()) {
                assert(b[b.len() - 1] == more.last());
            }
        }
    }
}

proof fn lemma_repo_variant_is_there(found: Seq<Option<Seq<char>>>, k: int)
    requires
        0 <= k < found.len(),
        found[k] is Some,
        name_format(found[k]->0) is Some,
    ensures
        exists|i: int|
            0 <= i < repo_variants(found).len() && (#[trigger] repo_variants(found)[i]).format
                == name_format(found[k]->0)->0 && repo_variants(found)[i].repo_id == found[k]->0,
    decreases found.len(),
{
    let all = repo_variants(found);
    let before = repo_variants(found.drop_last());
    if k < found.len() - 1 {
        lemma_repo_variant_is_there(found.drop_last(), k);
        let i = choose|i: int|
            0 <= i < before.len() && (#[trigger] before[i]).format == name_format(found[k]->0)->0
                && before[i].repo_id == found[k]->0;
        assert(all[i] == before[i]);
    } else {
        assert(all[all.len() - 1].repo_id == found[k]->0);
    }
}

/// No format that was found is lost: for every repository whose name tells a quantization, and
/// for every GGUF variant, a variant of that format is among all.
pub proof fn law_found_variants_are_there(
    model_id: Seq<char>,
    found: Seq<Option<Seq<char>>>,
    gguf: Seq<QuantVariantView>,
    k: int,
)
    ensures
        0 <= k < gguf.len() ==> has_variant(all_variants(model_id, found, gguf), gguf[k]),
        0 <= k < found.len() && found[k] is Some && name_format(found[k]->0) is Some ==> exists|
            i: int,
        |
            0 <= i < all_variants(model_id, found, gguf).len() && (#[trigger] all_variants(
                model_id,
                found,
                gguf,
            )[i]).format == name_format(found[k]->0)->0,
{
    let base = seq![native_variant(model_id, QuantFormat::FP16, "FP16"@)];
    let own = push_variants(base, repo_variants(found));
    lemma_push_variants_keeps(base, repo_variants(found));
    lemma_push_variants_keeps(own, gguf);
    if 0 <= k < found.len() && found[k] is Some && name_format(found[k]->0) is Some {
        lemma_repo_variant_is_there(found, k);
        let rv = repo_variants(found);
        let i = choose|i: int|
            0 <= i < rv.len() && (#[trigger] rv[i]).format == name_format(found[k]->0)->0
                && rv[i].repo_id == found[k]->0;
        assert(has_variant(own, rv[i]));
        assert(has_variant(all_variants(model_id, found, gguf), rv[i]));
    }
}

/// The authorization for the hub is the token without the white space around it, and there is
/// none where that leaves nothing.
pub proof fn law_token_is_sent_trimmed(token: Seq<char>)
    ensures
        bearer(None) is None,
        bearer(Some(token)) is None <==> text::trim(token).len() == 0,
        bearer(Some(token)) matches Some(h) ==> h.len() == 7 + text::trim(token).len() && h.skip(7)
            == text::trim(token) && h.take(7) == "Bearer "@,
{
    reveal_strlit("Bearer ");
    let t = text::trim(token);
    assert(("Bearer "@ + t).skip(7) =~= t);
    assert(("Bearer "@ + t).take(7) =~= "Bearer "@);
}

/// The name of a model that is cleaned from what was typed holds no query and no mark of a
/// place on the page, and does not end with a slash.
pub proof fn law_cleaned_query_is_a_name(input: Seq<char>)
    ensures
        !text::occurs(cleaned_query(input), "?"@),
        !text::occurs(cleaned_query(input), "#"@),
        !text::occurs(cleaned_query(input), "/tree/"@),
        !text::occurs(cleaned_query(input), "/blob/"@),
        cleaned_query(input).len() > 0 ==> cleaned_query(input).last() != '/',
{
    reveal_strlit("?");
    reveal_strlit("#");
    reveal_strlit("/tree/");
    reveal_strlit("/blob/");
    let a = without_hub(text::trim(input));
    let b = cut_at(a, "?"@);
    let c = cut_at(b, "#"@);
    let d = cut_at(c, "/tree/"@);
    let e = cut_at(d, "/blob/"@);
    let f = text::trim_end_char(e, '/');
    lemma_cut_at(a, "?"@);
    lemma_cut_at(b, "#"@);
    lemma_cut_at(c, "/tree/"@);
    lemma_cut_at(d, "/blob/"@);
    lemma_trim_end_char_is_prefix(e, '/');
    lemma_prefix_holds_no_more(c, b, "?"@);
    lemma_prefix_holds_no_more(d, c, "?"@);
    lemma_prefix_holds_no_more(e, d, "?"@);
    lemma_prefix_holds_no_more(f, e, "?"@);
    lemma_prefix_holds_no_more(d, c, "#"@);
    lemma_prefix_holds_no_more(e, d, "#"@);
    lemma_prefix_holds_no_more(f, e, "#"@);
    lemma_prefix_holds_no_more(e, d, "/tree/"@);
    lemma_prefix_holds_no_more(f, e, "/tree/"@);
    lemma_prefix_holds_no_more(f, e, "/blob/"@);
}

proof fn lemma_find_from(s: Seq<char>, p: Seq<char>, i: int)
    requires
        0 <= i,
    ensures
        match text::find_from(s, p, i) {
            Some(k) => i <= k && text::occurs_at(s, p, k) && forall|j: int|
                i <= j < k ==> !#[trigger] text::occurs_at(s, p, j),
            None => forall|j: int| i <= j ==> !#[trigger] text::occurs_at(s, p, j),
        },
    decreases s.len() + 1 - i,
{
    if i + p.len() <= s.len() && !text::occurs_at(s, p, i) {
        lemma_find_from(s, p, i + 1);
    }
}

proof fn lemma_cut_at(s: Seq<char>, p: Seq<char>)
    requires
        p.len() > 0,
    ensures
        !text::occurs(cut_at(s, p), p),
        cut_at(s, p).len() <= s.len(),
        cut_at(s, p) == s.take(cut_at(s, p).len() as int),
{
    lemma_find_from(s, p, 0);
    let t = cut_at(s, p);
    assert(t =~= s.take(t.len() as int));
    if text::occurs(t, p) {
        let j = choose|j: int| text::occurs_at(t, p, j);
        assert(t.subrange(j, j + p.len()) =~= s.subrange(j, j + p.len()));
        assert(text::occurs_at(s, p, j));
    }
}

proof fn lemma_prefix_holds_no_more(t: Seq<char>, s: Seq<char>, p: Seq<char>)
    requires
        t.len() <= s.len(),
        t == s.take(t.len() as int),
        !text::occurs(s, p),
    ensures
        !text::occurs(t, p),
{
    if text::occurs(t, p) {
        let j = choose|j: int| text::occurs_at(t, p, j);
        assert(t.subrange(j, j + p.len()) =~= s.subrange(j, j + p.len()));
        assert(text::occurs_at(s, p, j));
    }
}

proof fn lemma_trim_end_char_is_prefix(s: Seq<char>, c: char)
    ensures
        ({
            let t = text::trim_end_char(s, c);
            &&& t.len() <= s.len()
            &&& t == s.take(t.len() as int)
            &&& t.len() > 0 ==> t.last() != c
        }),
    decreases s.len(),
{
    if s.len() > 0 && s.last() == c {
        lemma_trim_end_char_is_prefix(s.drop_last(), c);
        let t = text::trim_end_char(s, c);
        assert(t =~= s.take(t.len() as int));
    } else {
        assert(s.take(s.len() as int) =~= s);
    }
}

/// The name of a model by itself is left as it is.
pub proof fn law_plain_names_are_kept(name: Seq<char>)
    requires
        text::trim(name) == name,
        !"https://"@.is_prefix_of(name),
        !"http://"@.is_prefix_of(name),
        !"huggingface.co/"@.is_prefix_of(name),
        !text::occurs(name, "?"@),
        !text::occurs(name, "#"@),
        !text::occurs(name, "/tree/"@),
        !text::occurs(name, "/blob/"@),
        name.len() > 0 ==> name.last() != '/',
    ensures
        cleaned_query(name) == name,
{
    lemma_find_from(name, "?"@, 0);
    lemma_find_from(name, "#"@, 0);
    lemma_find_from(name, "/tree/"@, 0);
    lemma_find_from(name, "/blob/"@, 0);
}

/// What stands in for the configuration of a model is never the model itself, and the one of
/// the same owner comes first.
pub proof fn law_stand_ins_are_others(model_id: Seq<char>, i: int)
    requires
        0 <= i < stand_ins(model_id).len(),
    ensures
        stand_ins(model_id).len() <= 2,
        stand_ins(model_id)[i] != model_id,
        i == 0 && owner_name(model_id) + "/"@ + ungguf_name(model_id) != model_id ==> stand_ins(
            model_id,
        )[i] == owner_name(model_id) + "/"@ + ungguf_name(model_id),
{
}

/// The first index file that tells a size tells the bytes of the weights, and the type of the
/// numbers how many each takes; files that tell none are passed over.
pub proof fn law_index_files_tell_the_weights(
    t: JsonTree,
    m: JsonTree,
    n: u64,
    files: Seq<Option<JsonTree>>,
    dtype: Option<Seq<char>>,
)
    ensures
        t.member("metadata"@) == Some(m) && m.member("total_size"@) == Some(
            JsonTree::Number(JsonNumber::Unsigned(n)),
        ) ==> first_indexed(seq![Some(t)] + files, dtype) is Some && first_indexed(
            seq![Some(t)] + files,
            dtype,
        )->0.total_bytes == n,
        t.member("metadata"@) is None ==> first_indexed(seq![Some(t)] + files, dtype)
            == first_indexed(files, dtype),
        first_indexed(seq![None] + files, dtype) == first_indexed(files, dtype),
        first_indexed(Seq::empty(), dtype) is None,
        first_indexed(files, dtype) matches Some(w) ==> w.bytes_per_param == estimate::stored_bytes(
            dtype,
        ),
    decreases files.len(),
{
    let (a, b) = (seq![Some(t)] + files, seq![None::<JsonTree>] + files);
    assert(a[0] == Some(t) && a.skip(1) =~= files);
    assert(b[0] is None && b.skip(1) =~= files);
    if files.len() > 0 {
        law_index_files_tell_the_weights(t, m, n, files.skip(1), dtype);
    }
}

/// Each format of quantization is labelled with its own name.
pub proof fn law_labels_of_formats(a: QuantFormat, b: QuantFormat)
    ensures
        format_label(QuantFormat::AWQ) == "AWQ"@,
        format_label(QuantFormat::GPTQ) == "GPTQ"@,
        format_label(QuantFormat::FP8) == "FP8"@,
        (a is AWQ || a is GPTQ || a is FP8 || a is BNB) && format_label(a) == format_label(b) ==> a
            == b,
{
    reveal_strlit("AWQ");
    reveal_strlit("GPTQ");
    reveal_strlit("FP8");
    reveal_strlit("BNB-4bit");
    reveal_strlit("Unknown");
    assert("AWQ"@[0] == 'A' && "FP8"@[0] == 'F');
    assert("AWQ"@.len() == 3 && "GPTQ"@.len() == 4 && "FP8"@.len() == 3 && "BNB-4bit"@.len() == 8
        && "Unknown"@.len() == 7);
}

/// The size of a file is the number under `size`, and a query with a slash and without a space
/// names a repository.
pub proof fn law_sizes_and_queries(t: JsonTree, n: u64, owner: Seq<char>, name: Seq<char>)
    ensures
        t.member("size"@) == Some(JsonTree::Number(JsonNumber::Unsigned(n))) ==> entry_size(t)
            == Some(n),
        t.member("size"@) is None ==> entry_size(t) is None,
        !owner.contains(' ') && !name.contains(' ') ==> names_repo(owner + seq!['/'] + name),
        names_repo(owner) ==> owner.contains('/') && !owner.contains(' '),
{
    reveal_strlit("/");
    reveal_strlit(" ");
    assert("/"@ =~= seq!['/']);
    assert(" "@ =~= seq![' ']);
    let q = owner + seq!['/'] + name;
    text::law_parts_occur(owner, "/"@, name);
    if text::occurs(q, " "@) && !owner.contains(' ') && !name.contains(' ') {
        let i = choose|i: int| text::occurs_at(q, " "@, i);
        assert(q.subrange(i, i + 1)[0] == q[i]);
        assert(q[i] == ' ');
        if i < owner.len() {
            assert(owner.contains(owner[i]));
        } else if i > owner.len() {
            assert(name.contains(name[i - owner.len() - 1]));
        }
    }
    if names_repo(owner) {
        let i = choose|i: int| text::occurs_at(owner, "/"@, i);
        assert(owner.subrange(i, i + 1)[0] == owner[i]);
        assert(owner.contains(owner[i]));
        if owner.contains(' ') {
            let k = choose|k: int| 0 <= k < owner.len() && owner[k] == ' ';
            assert(owner.subrange(k, k + 1) =~= " "@);
            assert(text::occurs_at(owner, " "@, k));
        }
    }
}

/// The label of a file stands in its name before `.gguf`; a file of another kind and a helper
/// have none.
pub proof fn law_labels_stand_before_the_end(stem: Seq<char>)
    ensures
        !auxiliary_file(stem + ".gguf"@) ==> quant_label(stem + ".gguf"@) == first_group(
            outside::lite_groups(
                QUANT_PATTERN@,
                outside::lite_replaced(SHARD_PATTERN@, stem, ""@),
            ),
        ),
        auxiliary_file(stem + ".gguf"@) ==> quant_label(stem + ".gguf"@) is None,
        !".gguf"@.is_suffix_of(stem) ==> quant_label(stem) is None,
{
    let s = stem + ".gguf"@;
    assert(s.subrange(stem.len() as int, s.len() as int) =~= ".gguf"@);
    assert(s.take(stem.len() as int) =~= stem);
}

} // verus!
