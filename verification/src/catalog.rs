//! Models with the variants that fit the hardware.
use vstd::prelude::*;
use crate::context_fit;
use crate::double;
use crate::estimate;
use crate::fit;
use crate::fit::{FitResult, HardwareProfile, ModelArchInfo, Ranked, VariantInput};
use crate::hf;
use crate::hf::{HfModel, QuantFormat, QuantVariant};
use crate::names::NameSet;
use crate::numeral;
use crate::outside;
use crate::json::JsonNumber;
use crate::memory::MemorySettings;
use crate::servers::ServerStats;
use crate::text;

verus! {

/// What is known of a model.
#[derive(Clone, Copy, Debug, PartialEq, Eq, Structural)]
pub struct KnownModel {
    pub stats: ServerStats,
    pub context_source: estimate::ContextSource,
    /// The context was not told by the model itself.
    pub context_estimated: bool,
}

// ---------------------------------------------------------------------------
// Scoring a model
// ---------------------------------------------------------------------------

/// A variant and how well it fits.
#[derive(Debug)]
pub struct ScoredVariant {
    pub variant: QuantVariant,
    pub input: VariantInput,
    pub fit: FitResult,
}

impl Ranked for ScoredVariant {
    open spec fn rank(self) -> (u8, i64) {
        fit::variant_rank(self.input, self.fit)
    }

    fn rank_of(&self) -> (r: (u8, i64)) {
        (
            self.fit.score,
            if self.input.is_gguf {
                0
            } else {
                1
            },
        )
    }
}

/// The name of a variant's quantization.
pub open spec fn variant_quant_of(format: QuantFormat, label: Seq<char>) -> Seq<char> {
    match format {
        QuantFormat::FP16 => "fp16"@,
        QuantFormat::FP8 => "fp8"@,
        QuantFormat::AWQ => "awq"@,
        QuantFormat::GPTQ => "gptq"@,
        QuantFormat::BNB => "bnb"@,
        QuantFormat::GGUF => if label.len() == 0 {
            "gguf"@
        } else {
            outside::lowercase(label)
        },
    }
}

/// The name of a variant's quantization.
pub fn variant_quant(format: QuantFormat, label: &str) -> (r: String)
    ensures
        r@ == variant_quant_of(format, label@),
{
    match format {
        QuantFormat::FP16 => "fp16".to_string(),
        QuantFormat::FP8 => "fp8".to_string(),
        QuantFormat::AWQ => "awq".to_string(),
        QuantFormat::GPTQ => "gptq".to_string(),
        QuantFormat::BNB => "bnb".to_string(),
        QuantFormat::GGUF => if label.unicode_len() == 0 {
            "gguf".to_string()
        } else {
            outside::to_lowercase(label)
        },
    }
}

/// The architecture of a model of which the given is known.
pub open spec fn arch_of(known: Option<KnownModel>) -> ModelArchInfo {
    match known {
        Some(k) => ModelArchInfo {
            params_m: k.stats.params_m,
            context: k.stats.context,
            n_layers: k.stats.n_layers,
            n_kv_heads: k.stats.n_kv_heads,
            head_dim: k.stats.head_dim,
        },
        None => ModelArchInfo {
            params_m: None,
            context: 4096,
            n_layers: None,
            n_kv_heads: None,
            head_dim: None,
        },
    }
}

/// The variant with its parameters: those of the model where it has none of its own.
pub open spec fn with_params(v: hf::QuantVariantView, params_m: Option<u64>) -> hf::QuantVariantView {
    hf::QuantVariantView {
        params_m: match v.params_m {
            Some(n) => Some(n),
            None => params_m,
        },
        ..v
    }
}

/// The variant was scored under the settings of memory.
pub open spec fn is_scored(
    s: ScoredVariant,
    v: hf::QuantVariantView,
    hw: HardwareProfile,
    arch: ModelArchInfo,
    memory: MemorySettings,
) -> bool {
    let w = with_params(v, arch.params_m);
    &&& s.variant@ == w
    &&& s.input.quant_str@ == variant_quant_of(w.format, w.label)
    &&& s.input.weight_bytes == w.weight_bytes
    &&& s.input.params_m == w.params_m
    &&& s.input.is_gguf == (w.format == QuantFormat::GGUF)
    &&& fit::is_fit_under(s.fit, hw, s.input, arch, None, memory)
}

fn score_one(
    v: QuantVariant,
    hw: &HardwareProfile,
    arch: &ModelArchInfo,
    memory: &MemorySettings,
) -> (r: ScoredVariant)
    ensures
        is_scored(r, v@, *hw, *arch, *memory),
{
    let mut v = v;
    if v.params_m.is_none() {
        v.params_m = arch.params_m;
    }
    let input = VariantInput {
        quant_str: variant_quant(v.format, &v.label),
        weight_bytes: v.weight_bytes,
        params_m: v.params_m,
        is_gguf: v.format == QuantFormat::GGUF,
    };
    let result = fit::score_variant_under(hw, &input, arch, None, memory);
    ScoredVariant { variant: v, input, fit: result }
}

/// A model with its variants, the best first.
#[derive(Debug)]
pub struct ModelWithFit {
    pub id: String,
    pub downloads: i64,
    pub likes: i64,
    pub trending_score: JsonNumber,
    pub pipeline_tag: Option<String>,
    pub known: Option<KnownModel>,
    pub variants: Vec<ScoredVariant>,
    pub best_variant_idx: usize,
}

impl ModelWithFit {
    /// The score of the variant to take; zero where there is none.
    pub open spec fn best_score_of(self) -> u8 {
        if self.best_variant_idx < self.variants@.len() {
            self.variants@[self.best_variant_idx as int].fit.score
        } else {
            0
        }
    }

    /// How many parameters the model has, in billions with one digit behind the point; nothing
    /// where that is not known, or not below two to the power of sixty-four.
    pub open spec fn parameter_count_of(self) -> Option<Seq<char>> {
        match self.known {
            Some(k) => match k.stats.params_b {
                Some(bits) => match double::tenths_of(bits) {
                    Some(t) => Some(
                        numeral::decimal((t / 10) as nat) + "."@ + numeral::decimal((t % 10) as nat)
                            + "B"@,
                    ),
                    None => None,
                },
                None => None,
            },
            None => None,
        }
    }

    /// How many parameters the model has, such as `7.6B`.
    pub fn parameter_count(&self) -> (r: Option<String>)
        ensures
            text::opt_text(r) == self.parameter_count_of(),
    {
        let Some(known) = self.known else {
            return None;
        };
        let Some(bits) = known.stats.params_b else {
            return None;
        };
        match double::tenths(bits) {
            Some(t) => {
                let mut out = numeral::number_text((t / 10) as u64);
                out.append(".");
                out.append(&numeral::number_text((t % 10) as u64));
                out.append("B");
                Some(out)
            },
            None => None,
        }
    }

    /// The variant to take.
    pub fn best(&self) -> (r: Option<&ScoredVariant>)
        ensures
            match r {
                Some(v) => self.best_variant_idx < self.variants@.len() && *v
                    == self.variants@[self.best_variant_idx as int],
                None => self.best_variant_idx >= self.variants@.len(),
            },
    {
        if self.best_variant_idx < self.variants.len() {
            Some(&self.variants[self.best_variant_idx])
        } else {
            None
        }
    }

    /// The score of the variant to take.
    pub fn best_score(&self) -> (r: u8)
        ensures
            r == self.best_score_of(),
    {
        if self.best_variant_idx < self.variants.len() {
            self.variants[self.best_variant_idx].fit.score
        } else {
            0
        }
    }
}

impl Ranked for ModelWithFit {
    open spec fn rank(self) -> (u8, i64) {
        (self.best_score_of(), self.downloads)
    }

    fn rank_of(&self) -> (r: (u8, i64)) {
        (self.best_score(), self.downloads)
    }
}

/// The variant fits and has the quantization that is preferred.
pub open spec fn takes(s: ScoredVariant, format: Seq<char>) -> bool {
    fit::is_preferred((s.input, s.fit), format)
}

/// The place of the first variant from number `i` on that is preferred.
pub open spec fn taken_from(s: Seq<ScoredVariant>, format: Seq<char>, i: int) -> Option<int>
    decreases s.len() - i,
{
    if i < 0 || i >= s.len() {
        None
    } else if takes(s[i], format) {
        Some(i)
    } else {
        taken_from(s, format, i + 1)
    }
}

/// The scored variants, as they came, of which `ranked` is the order by rank.
pub open spec fn are_scored(
    scored: Seq<ScoredVariant>,
    variants: Seq<hf::QuantVariantView>,
    hw: HardwareProfile,
    arch: ModelArchInfo,
    memory: MemorySettings,
) -> bool {
    scored.len() == variants.len() && forall|i: int|
        0 <= i < scored.len() ==> is_scored(
            #[trigger] scored[i],
            variants[i],
            hw,
            arch,
            memory,
        )
}

/// The model has its variants in the order of their ranks, and the one to take is the first
/// that has the preferred quantization and fits, else the first.
pub open spec fn is_model_scored(
    r: ModelWithFit,
    m: HfModel,
    known: Option<KnownModel>,
    variants: Seq<hf::QuantVariantView>,
    hw: HardwareProfile,
    preferred: Seq<char>,
    memory: MemorySettings,
) -> bool {
    &&& r.id@ == m.id@
    &&& r.downloads == m.downloads
    &&& r.likes == m.likes
    &&& r.trending_score == m.trending_score
    &&& r.pipeline_tag == m.pipeline_tag
    &&& r.known == known
    &&& exists|scored: Seq<ScoredVariant>|
        are_scored(scored, variants, hw, arch_of(known), memory) && r.variants@ == #[trigger] fit::ranked(
            scored,
        )
    &&& r.best_variant_idx == (match taken_from(r.variants@, preferred, 0) {
        Some(i) => i,
        None => 0,
    })
}

/// Scores the variants of a model under the settings of memory.
pub fn score_model(
    m: HfModel,
    known: Option<KnownModel>,
    variants: Vec<QuantVariant>,
    hw: &HardwareProfile,
    preferred: &str,
    memory: &MemorySettings,
) -> (r: ModelWithFit)
    ensures
        is_model_scored(r, m, known, hf::variant_views(variants@), *hw, preferred@, *memory),
{
    let arch: ModelArchInfo = match known {
        Some(k) => ModelArchInfo {
            params_m: k.stats.params_m,
            context: k.stats.context,
            n_layers: k.stats.n_layers,
            n_kv_heads: k.stats.n_kv_heads,
            head_dim: k.stats.head_dim,
        },
        None => ModelArchInfo {
            params_m: None,
            context: 4096,
            n_layers: None,
            n_kv_heads: None,
            head_dim: None,
        },
    };
    assert(arch == arch_of(known));
    let ghost all = variants@;
    let ghost views = hf::variant_views(variants@);
    let mut rest = variants;
    let mut items: Vec<ScoredVariant> = Vec::new();
    let ghost mut n: int = 0;
    assert(all.skip(0) =~= all);
    while rest.len() > 0
        invariant
            0 <= n <= all.len(),
            views == hf::variant_views(all),
            rest@ == all.skip(n),
            items@.len() == n,
            forall|i: int|
                0 <= i < n ==> is_scored(#[trigger] items@[i], views[i], *hw, arch, *memory),
        decreases rest@.len(),
    {
        let v = rest.remove(0);
        assert(all.skip(n)[0] == all[n]);
        assert(all.skip(n).remove(0) =~= all.skip(n + 1));
        items.push(score_one(v, hw, &arch, memory));
        proof {
            n = n + 1;
        }
    }
    let ghost scored = items@;
    assert(are_scored(scored, views, *hw, arch, *memory));
    fit::rank_items(&mut items);
    assert(items@ == fit::ranked(scored));
    let mut best_variant_idx: usize = 0;
    let mut i: usize = 0;
    let mut found = false;
    while i < items.len() && !found
        invariant
            i <= items@.len(),
            !found ==> best_variant_idx == 0 && taken_from(items@, preferred@, 0) == taken_from(
                items@,
                preferred@,
                i as int,
            ),
            found ==> taken_from(items@, preferred@, 0) == Some(best_variant_idx as int),
        decreases items@.len() - i,
    {
        if text::same_ignoring_case(&items[i].input.quant_str, preferred) && items[i].fit.verdict
            != fit::FitVerdict::DoesNotFit {
            best_variant_idx = i;
            found = true;
        }
        i += 1;
    }
    ModelWithFit {
        id: m.id,
        downloads: m.downloads,
        likes: m.likes,
        trending_score: m.trending_score,
        pipeline_tag: m.pipeline_tag,
        known,
        variants: items,
        best_variant_idx,
    }
}

/// A model that was found, what is known of it, and its variants.
#[derive(Debug)]
pub struct FoundModel {
    pub model: HfModel,
    pub known: Option<KnownModel>,
    pub variants: Vec<QuantVariant>,
}

/// The models were scored one by one.
pub open spec fn are_models_scored(
    scored: Seq<ModelWithFit>,
    found: Seq<FoundModel>,
    hw: HardwareProfile,
    preferred: Seq<char>,
    memory: MemorySettings,
) -> bool {
    scored.len() == found.len() && forall|i: int|
        0 <= i < scored.len() ==> is_model_scored(
            #[trigger] scored[i],
            found[i].model,
            found[i].known,
            hf::variant_views(found[i].variants@),
            hw,
            preferred,
            memory,
        )
}

/// Scores models under the settings of memory and puts them in order: the highest score first,
/// and of the same score the one that is downloaded most.
pub fn process_models_with_fit(
    found: Vec<FoundModel>,
    hw: &HardwareProfile,
    preferred: &str,
    memory: &MemorySettings,
) -> (r: Vec<ModelWithFit>)
    ensures
        exists|scored: Seq<ModelWithFit>|
            are_models_scored(scored, found@, *hw, preferred@, *memory) && r@
                == #[trigger] fit::ranked(scored),
{
    let ghost all = found@;
    let mut rest = found;
    let mut out: Vec<ModelWithFit> = Vec::new();
    let ghost mut n: int = 0;
    assert(all.skip(0) =~= all);
    while rest.len() > 0
        invariant
            0 <= n <= all.len(),
            rest@ == all.skip(n),
            out@.len() == n,
            forall|i: int|
                0 <= i < n ==> is_model_scored(
                    #[trigger] out@[i],
                    all[i].model,
                    all[i].known,
                    hf::variant_views(all[i].variants@),
                    *hw,
                    preferred@,
                    *memory,
                ),
        decreases rest@.len(),
    {
        let f = rest.remove(0);
        proof {
            assert(all.skip(n)[0] == all[n]);
            assert(all.skip(n).remove(0) =~= all.skip(n + 1));
            n = n + 1;
        }
        out.push(score_model(f.model, f.known, f.variants, hw, preferred, memory));
    }
    let ghost scored = out@;
    assert(are_models_scored(scored, all, *hw, preferred@, *memory));
    fit::rank_items(&mut out);
    assert(out@ == fit::ranked(scored));
    out
}

proof fn lemma_ranked_is_there<T: Ranked>(s: Seq<T>, i: int)
    requires
        0 <= i < fit::ranked(s).len(),
    ensures
        s.contains(fit::ranked(s)[i]),
{
    broadcast use vstd::seq_lib::group_to_multiset_ensures;

    let x = fit::ranked(s)[i];
    fit::law_ranking_keeps_the_items(s);
    assert(fit::ranked(s).contains(x));
    assert(s.to_multiset().count(x) > 0);
}

/// No variant of any model gets a context beyond the cap of the settings.
pub proof fn law_no_context_exceeds_the_cap(
    scored: Seq<ModelWithFit>,
    found: Seq<FoundModel>,
    hw: HardwareProfile,
    preferred: Seq<char>,
    memory: MemorySettings,
    i: int,
    j: int,
)
    requires
        are_models_scored(scored, found, hw, preferred, memory),
        0 <= i < fit::ranked(scored).len(),
        0 <= j < fit::ranked(scored)[i].variants@.len(),
        memory.max_context_cap matches Some(c) && c > 0,
    ensures
        fit::ranked(scored)[i].variants@[j].fit.extended_context <= memory.max_context_cap->0,
        fit::ranked(scored)[i].variants@[j].fit.usable_context <= memory.max_context_cap->0,
{
    let m = fit::ranked(scored)[i];
    lemma_ranked_is_there(scored, i);
    let k = choose|k: int| 0 <= k < scored.len() && scored[k] == m;
    let f = found[k];
    let views = hf::variant_views(f.variants@);
    assert(is_model_scored(scored[k], f.model, f.known, views, hw, preferred, memory));
    let arch = arch_of(f.known);
    let all = choose|all: Seq<ScoredVariant>|
        are_scored(all, views, hw, arch, memory) && m.variants@ == #[trigger] fit::ranked(all);
    lemma_ranked_is_there(all, j);
    let n = choose|n: int| 0 <= n < all.len() && all[n] == m.variants@[j];
    assert(is_scored(all[n], views[n], hw, arch, memory));
    fit::law_settings_bound_the_context(hw, all[n].input, arch, memory);
}

// ---------------------------------------------------------------------------
// Searching
// ---------------------------------------------------------------------------

/// The hub is searched where fewer models than this are known here.
pub const ENOUGH_RESULTS: usize = 15;

/// The query to search for; there is nothing to search for in one that is just white space.
pub fn searched_query<'a>(query: &'a str) -> (r: Option<&'a str>)
    ensures
        text::opt_str(r) == (if text::trim(query@).len() == 0 {
            None
        } else {
            Some(text::trim(query@))
        }),
{
    let q = text::trimmed(query);
    if q.unicode_len() == 0 {
        None
    } else {
        Some(q)
    }
}

/// Whether the hub is searched too.
pub fn searches_hub(known: usize) -> (r: bool)
    ensures
        r == (known < ENOUGH_RESULTS),
{
    known < ENOUGH_RESULTS
}

/// The names in lower case.
pub open spec fn lower_names(ids: Seq<Seq<char>>) -> Set<Seq<char>>
    decreases ids.len(),
{
    if ids.len() == 0 {
        Set::empty()
    } else {
        lower_names(ids.drop_last()).insert(outside::lowercase(ids.last()))
    }
}

/// The models whose names are not among the known ones, whatever the case of their letters.
pub open spec fn new_models_of(found: Seq<HfModel>, known: Set<Seq<char>>) -> Seq<HfModel>
    decreases found.len(),
{
    if found.len() == 0 {
        found
    } else if known.contains(outside::lowercase(found.last().id@)) {
        new_models_of(found.drop_last(), known)
    } else {
        new_models_of(found.drop_last(), known).push(found.last())
    }
}

/// The models of the hub that are not known here.
pub fn new_models(found: Vec<HfModel>, known_ids: &Vec<String>) -> (r: Vec<HfModel>)
    ensures
        r@ == new_models_of(found@, lower_names(text::texts(known_ids@))),
{
    let ghost ids = text::texts(known_ids@);
    let mut known = NameSet::new();
    assert(ids.take(0) =~= Seq::empty());
    for i in 0..known_ids.len()
        invariant
            ids == text::texts(known_ids@),
            known@ == lower_names(ids.take(i as int)),
    {
        assert(ids.take(i + 1).drop_last() =~= ids.take(i as int));
        assert(ids.take(i + 1).last() == known_ids@[i as int]@);
        known.insert(outside::to_lowercase(&known_ids[i]));
    }
    assert(ids.take(known_ids@.len() as int) =~= ids);
    let ghost all = found@;
    let mut rest = found;
    let mut out: Vec<HfModel> = Vec::new();
    let ghost mut n: int = 0;
    assert(all.take(0) =~= Seq::empty());
    assert(all.skip(0) =~= all);
    while rest.len() > 0
        invariant
            0 <= n <= all.len(),
            rest@ == all.skip(n),
            known@ == lower_names(ids),
            out@ == new_models_of(all.take(n), lower_names(ids)),
        decreases rest@.len(),
    {
        let m = rest.remove(0);
        proof {
            assert(all.skip(n)[0] == all[n]);
            assert(all.skip(n).remove(0) =~= all.skip(n + 1));
            assert(all.take(n + 1).drop_last() =~= all.take(n));
            assert(all.take(n + 1).last() == all[n]);
            n = n + 1;
        }
        if !known.contains(&outside::to_lowercase(&m.id)) {
            out.push(m);
        }
    }
    assert(all.take(n) =~= all);
    out
}

// ---------------------------------------------------------------------------
// The figures of a model
// ---------------------------------------------------------------------------

/// The figures of a model on the card at hand.
#[derive(Debug)]
pub struct ModelStats {
    pub model_id: String,
    pub known: KnownModel,
    /// The bytes that one token adds to the KV cache.
    pub kv_bytes_per_token: Option<u128>,
    /// In parts.
    pub weight: Option<i128>,
    pub context_fit: Option<usize>,
    /// The tokens per second with weights of two bytes, one byte and about half a byte, in
    /// millionths.
    pub max_tok_s_fp16: Option<u128>,
    pub max_tok_s_fp8: Option<u128>,
    pub max_tok_s_int4: Option<u128>,
    pub vram_total_mb: Option<u64>,
    pub gpu_name: Option<String>,
}

/// The bandwidth that is reckoned with where the card is not known, in GB/s.
pub const USUAL_BANDWIDTH: u32 = 700;

/// The bandwidth of a card, in GB/s.
pub open spec fn bandwidth_of(gpu_name: Seq<char>) -> u32 {
    match estimate::bandwidth_from(outside::lowercase(gpu_name), 0) {
        Some(b) => b,
        None => USUAL_BANDWIDTH,
    }
}

/// The bandwidth of a card, or the usual one where there is none.
pub open spec fn bandwidth_or_usual(gpu_name: Option<Seq<char>>) -> u32 {
    match gpu_name {
        Some(g) => bandwidth_of(g),
        None => USUAL_BANDWIDTH,
    }
}

/// The most tokens per second, where the number of parameters is known and is not zero.
pub open spec fn most_speed(bandwidth: u32, params_m: Option<u64>, quant: Seq<char>) -> Option<int> {
    match params_m {
        Some(p) => if p > 0 {
            Some(estimate::speed_of(bandwidth, p, quant))
        } else {
            None
        },
        None => None,
    }
}

/// The optional number as a mathematical one.
pub open spec fn opt_int(n: Option<u128>) -> Option<int> {
    match n {
        Some(x) => Some(x as int),
        None => None,
    }
}

fn top_speed(bandwidth: u32, params_m: Option<u64>, quant: &str) -> (r: Option<u128>)
    ensures
        opt_int(r) == most_speed(bandwidth, params_m, quant@),
{
    match params_m {
        Some(p) => if p > 0 {
            Some(estimate::tokens_per_sec(bandwidth, p, quant))
        } else {
            None
        },
        None => None,
    }
}

/// A model in the answer to a search, with what is known of it.
#[derive(Debug)]
pub struct ModelWithStats {
    pub id: String,
    pub downloads: i64,
    pub likes: i64,
    pub trending_score: JsonNumber,
    pub pipeline_tag: Option<String>,
    pub known: Option<KnownModel>,
    /// The most tokens per second, in millionths.
    pub max_tok_s: Option<u128>,
    pub quant_assumed: String,
}

/// A model in the answer to a search, with what is known of it and the speed that the card
/// at hand allows.
pub fn model_with_stats(
    m: HfModel,
    known: Option<KnownModel>,
    gpu_name: Option<&str>,
    quant: &str,
) -> (r: ModelWithStats)
    ensures
        r.id == m.id,
        r.downloads == m.downloads,
        r.likes == m.likes,
        r.trending_score == m.trending_score,
        r.pipeline_tag == m.pipeline_tag,
        r.known == known,
        opt_int(r.max_tok_s) == most_speed(
            bandwidth_or_usual(text::opt_str(gpu_name)),
            match known {
                Some(k) => k.stats.params_m,
                None => None,
            },
            quant@,
        ),
        r.quant_assumed@ == quant@,
{
    let bandwidth: u32 = match gpu_name {
        Some(g) => estimate::gpu_bandwidth(g).0,
        None => USUAL_BANDWIDTH,
    };
    let params_m: Option<u64> = match known {
        Some(k) => k.stats.params_m,
        None => None,
    };
    ModelWithStats {
        id: m.id,
        downloads: m.downloads,
        likes: m.likes,
        trending_score: m.trending_score,
        pipeline_tag: m.pipeline_tag,
        known,
        max_tok_s: top_speed(bandwidth, params_m, quant),
        quant_assumed: quant.to_string(),
    }
}

/// What a server needs beside the weights, in parts: 2500 MiB.
pub const STATS_OVERHEAD: i128 = 671_088_640_000;

/// The share of the card's memory that counts for a model: that of the first server that is
/// set up for it, else the usual one.
pub open spec fn model_util(
    servers: Seq<(String, u32)>,
    model_id: Seq<char>,
    usual: u32,
    i: int,
) -> u32
    decreases servers.len() - i,
{
    if i < 0 || i >= servers.len() {
        usual
    } else if servers[i].0@ == model_id {
        servers[i].1
    } else {
        model_util(servers, model_id, usual, i + 1)
    }
}

/// The share of the card's memory that counts for a model; the servers are given by their
/// models and shares.
pub fn util_for_model(servers: &Vec<(String, u32)>, model_id: &str, usual: u32) -> (r: u32)
    ensures
        r == model_util(servers@, model_id@, usual, 0),
{
    for i in 0..servers.len()
        invariant
            model_util(servers@, model_id@, usual, 0) == model_util(
                servers@,
                model_id@,
                usual,
                i as int,
            ),
    {
        if text::same(&servers[i].0, model_id) {
            return servers[i].1;
        }
    }
    usual
}

/// The bytes that one token adds to the KV cache, where the dimensions are known.
pub open spec fn stats_kv(s: ServerStats) -> Option<int> {
    match (s.n_layers, s.n_kv_heads, s.head_dim) {
        (Some(l), Some(k), Some(h)) => Some(estimate::token_bytes(l, k, h)),
        _ => None,
    }
}

/// The context that fits on the card.
pub open spec fn stats_context(
    vram_mb: u64,
    util: u32,
    params_m: u64,
    quant: Seq<char>,
    kv_bytes: int,
) -> int {
    let room = context_fit::share_of(vram_mb, util as int) - estimate::weights_of(params_m, quant)
        - STATS_OVERHEAD;
    let kv = kv_bytes * context_fit::PARTS_PER_BYTE;
    if room <= 0 || kv <= 0 {
        0
    } else {
        context_fit::at_least(context_fit::context_for(room, kv), 512)
    }
}

/// The figures of a model under a quantization, on a card with the given name and memory;
/// an empty name and no memory stand for no card.
pub fn model_stats(
    model_id: &str,
    known: KnownModel,
    quant: &str,
    gpu_name: &str,
    vram_mb: u64,
    util: u32,
) -> (r: ModelStats)
    ensures
        r.model_id@ == model_id@,
        r.known == known,
        match r.kv_bytes_per_token {
            Some(n) => stats_kv(known.stats) == Some(n as int),
            None => stats_kv(known.stats) is None,
        },
        match r.weight {
            Some(w) => known.stats.params_m matches Some(p) && w == estimate::weights_of(p, quant@),
            None => known.stats.params_m is None,
        },
        match r.context_fit {
            Some(n) => vram_mb > 0 && (known.stats.params_m matches Some(p) && (stats_kv(
                known.stats,
            ) matches Some(kv) && n == stats_context(vram_mb, util, p, quant@, kv))),
            None => vram_mb == 0 || known.stats.params_m is None || stats_kv(known.stats) is None,
        },
        ({
            let bandwidth = bandwidth_or_usual(
                if gpu_name@.len() == 0 {
                    None
                } else {
                    Some(gpu_name@)
                },
            );
            let params_m = known.stats.params_m;
            opt_int(r.max_tok_s_fp16) == most_speed(bandwidth, params_m, "fp16"@) && opt_int(
                r.max_tok_s_fp8,
            ) == most_speed(bandwidth, params_m, "fp8"@) && opt_int(r.max_tok_s_int4) == most_speed(
                bandwidth,
                params_m,
                "awq"@,
            )
        }),
        r.vram_total_mb == (if vram_mb > 0 {
            Some(vram_mb)
        } else {
            None
        }),
        text::opt_text(r.gpu_name) == (if gpu_name@.len() == 0 {
            None
        } else {
            Some(gpu_name@)
        }),
{
    let s = known.stats;
    let kv_bytes_per_token: Option<u128> = match (s.n_layers, s.n_kv_heads, s.head_dim) {
        (Some(l), Some(k), Some(h)) => Some(estimate::kv_bytes_per_token(l, k, h)),
        _ => None,
    };
    assert(kv_bytes_per_token matches Some(n) ==> n <= 0x1000_0000_0000_0000_0000_0000_0000);
    let weight: Option<i128> = match s.params_m {
        Some(p) => Some(estimate::weight_gb(p, quant)),
        None => None,
    };
    let context_fit: Option<usize> = match (s.params_m, kv_bytes_per_token) {
        (Some(p), Some(kv)) => if vram_mb > 0 {
            Some(
                estimate::context_fit(
                    vram_mb,
                    util,
                    p,
                    quant,
                    kv as i128 * context_fit::PARTS_PER_BYTE,
                    STATS_OVERHEAD,
                ),
            )
        } else {
            None
        },
        _ => None,
    };
    let bandwidth: u32 = if gpu_name.unicode_len() == 0 {
        USUAL_BANDWIDTH
    } else {
        estimate::gpu_bandwidth(gpu_name).0
    };
    let vram_total_mb: Option<u64> = if vram_mb > 0 {
        Some(vram_mb)
    } else {
        None
    };
    ModelStats {
        model_id: model_id.to_string(),
        known,
        kv_bytes_per_token,
        weight,
        context_fit,
        max_tok_s_fp16: top_speed(bandwidth, s.params_m, "fp16"),
        max_tok_s_fp8: top_speed(bandwidth, s.params_m, "fp8"),
        max_tok_s_int4: top_speed(bandwidth, s.params_m, "awq"),
        vram_total_mb,
        gpu_name: if gpu_name.unicode_len() == 0 {
            None
        } else {
            Some(gpu_name.to_string())
        },
    }
}

// ---------------------------------------------------------------------------
// Laws
// ---------------------------------------------------------------------------

/// A model that was scored is the one that was found, with as many variants as it has, the
/// higher scores first; the one to take has the preferred quantization and fits wherever one
/// does, and else comes first.
pub proof fn law_scored_model_is_the_one_found(
    r: ModelWithFit,
    m: HfModel,
    known: Option<KnownModel>,
    variants: Seq<hf::QuantVariantView>,
    hw: HardwareProfile,
    preferred: Seq<char>,
    memory: MemorySettings,
    i: int,
    j: int,
)
    requires
        is_model_scored(r, m, known, variants, hw, preferred, memory),
        0 <= i < j < r.variants@.len(),
    ensures
        r.id@ == m.id@,
        r.downloads == m.downloads,
        r.likes == m.likes,
        r.known == known,
        r.variants@.len() == variants.len(),
        r.variants@[i].fit.score >= r.variants@[j].fit.score,
        ({
            let best = r.best_variant_idx as int;
            let suits = |s: ScoredVariant|
                text::same_but_case(s.input.quant_str@, preferred) && s.fit.verdict
                    != fit::FitVerdict::DoesNotFit;
            &&& 0 <= best < r.variants@.len()
            &&& suits(r.variants@[j]) ==> best <= j && suits(r.variants@[best])
            &&& best > 0 ==> suits(r.variants@[best])
        }),
{
    let scored = choose|scored: Seq<ScoredVariant>|
        are_scored(scored, variants, hw, arch_of(known), memory) && r.variants@
            == #[trigger] fit::ranked(scored);
    fit::lemma_ranked_length(scored);
    fit::law_ranking_orders_the_items(scored, i, j);
    lemma_taken(r.variants@, preferred, 0, j);
}

proof fn lemma_taken(s: Seq<ScoredVariant>, format: Seq<char>, i: int, k: int)
    requires
        0 <= i <= s.len(),
    ensures
        taken_from(s, format, i) matches Some(j) ==> i <= j < s.len() && takes(s[j], format),
        i <= k < s.len() && takes(s[k], format) ==> (taken_from(s, format, i) matches Some(j) && j
            <= k),
    decreases s.len() - i,
{
    if i < s.len() && !takes(s[i], format) {
        lemma_taken(s, format, i + 1, k);
    }
}

/// A variant is scored as itself: with its own size, its own parameters where it has any and
/// those of the model where it has none, and as a GGUF file exactly where it is one.
pub proof fn law_variants_are_scored_as_themselves(
    s: ScoredVariant,
    v: hf::QuantVariantView,
    hw: HardwareProfile,
    arch: ModelArchInfo,
    memory: MemorySettings,
)
    requires
        is_scored(s, v, hw, arch, memory),
    ensures
        s.variant@.repo_id == v.repo_id,
        s.variant@.format == v.format,
        s.variant@.label == v.label,
        s.variant@.gguf_file == v.gguf_file,
        s.input.weight_bytes == v.weight_bytes,
        v.params_m is Some ==> s.input.params_m == v.params_m,
        v.params_m is None ==> s.input.params_m == arch.params_m,
        s.input.is_gguf <==> v.format == QuantFormat::GGUF,
        v.weight_bytes matches Some(n) ==> s.fit.weight == n * 256,
        s.fit.measured_tok_s is None,
        s.fit.native_context == arch.context,
        v.format == QuantFormat::FP16 ==> s.input.quant_str@ == "fp16"@,
        v.format == QuantFormat::FP8 ==> s.input.quant_str@ == "fp8"@,
        v.format == QuantFormat::AWQ ==> s.input.quant_str@ == "awq"@,
        v.format == QuantFormat::GPTQ ==> s.input.quant_str@ == "gptq"@,
        v.format == QuantFormat::BNB ==> s.input.quant_str@ == "bnb"@,
        v.format == QuantFormat::GGUF && v.label.len() > 0 ==> s.input.quant_str@
            == outside::lowercase(v.label),
{
}

/// The architecture that counts is what is known of the model; of one of which nothing is
/// known only that its context is 4096 tokens.
pub proof fn law_architecture_is_what_is_known(k: KnownModel)
    ensures
        arch_of(Some(k)).params_m == k.stats.params_m,
        arch_of(Some(k)).context == k.stats.context,
        arch_of(Some(k)).n_layers == k.stats.n_layers,
        arch_of(Some(k)).n_kv_heads == k.stats.n_kv_heads,
        arch_of(Some(k)).head_dim == k.stats.head_dim,
        arch_of(None).context == 4096,
        arch_of(None).params_m is None && arch_of(None).n_layers is None,
{
}

/// Models come in the order of the scores of the variants to take, and of the same score the
/// one that is downloaded most comes first.
pub proof fn law_best_models_come_first(s: Seq<ModelWithFit>, i: int, j: int)
    requires
        0 <= i < j < s.len(),
    ensures
        fit::ranked(s)[i].best_score_of() >= fit::ranked(s)[j].best_score_of(),
        fit::ranked(s)[i].best_score_of() == fit::ranked(s)[j].best_score_of() ==> fit::ranked(
            s,
        )[i].downloads >= fit::ranked(s)[j].downloads,
{
    fit::lemma_ranked_length(s);
    fit::law_ranking_orders_the_items(s, i, j);
}

/// The score of a model is that of the variant to take, and nothing where it has none.
pub proof fn law_score_is_that_of_the_best(m: ModelWithFit)
    ensures
        m.best_variant_idx < m.variants@.len() ==> m.best_score_of()
            == m.variants@[m.best_variant_idx as int].fit.score,
        m.variants@.len() == 0 ==> m.best_score_of() == 0,
{
}

/// The models of a search that are new are all those whose names are not known, whatever the
/// case of their letters, in their order.
pub proof fn law_new_models_are_the_unknown_ones(
    found: Seq<HfModel>,
    m: HfModel,
    ids: Seq<Seq<char>>,
)
    ensures
        ids.contains(m.id@) ==> new_models_of(found.push(m), lower_names(ids)) == new_models_of(
            found,
            lower_names(ids),
        ),
        (forall|i: int|
            0 <= i < ids.len() ==> outside::lowercase(#[trigger] ids[i]) != outside::lowercase(
                m.id@,
            )) ==> new_models_of(found.push(m), lower_names(ids)) == new_models_of(
            found,
            lower_names(ids),
        ).push(m),
{
    assert(found.push(m).drop_last() =~= found);
    lemma_lower_names(ids, outside::lowercase(m.id@));
    if ids.contains(m.id@) {
        let i = choose|i: int| 0 <= i < ids.len() && ids[i] == m.id@;
        assert(outside::lowercase(ids[i]) == outside::lowercase(m.id@));
    }
}

proof fn lemma_lower_names(ids: Seq<Seq<char>>, name: Seq<char>)
    ensures
        lower_names(ids).contains(name) <==> exists|i: int|
            0 <= i < ids.len() && outside::lowercase(#[trigger] ids[i]) == name,
    decreases ids.len(),
{
    if ids.len() > 0 {
        let front = ids.drop_last();
        lemma_lower_names(front, name);
        if lower_names(front).contains(name) {
            let i = choose|i: int|
                0 <= i < front.len() && outside::lowercase(#[trigger] front[i]) == name;
            assert(ids[i] == front[i]);
        }
        if exists|i: int| 0 <= i < ids.len() && outside::lowercase(#[trigger] ids[i]) == name {
            let i = choose|i: int|
                0 <= i < ids.len() && outside::lowercase(#[trigger] ids[i]) == name;
            if i < front.len() {
                assert(front[i] == ids[i]);
            }
        }
        assert(ids[ids.len() - 1] == ids.last());
    }
}

/// The share of the memory that counts for a model is that of the first server that is set up
/// for it, and the usual one where none is.
pub proof fn law_share_of_the_models_server(
    servers: Seq<(String, u32)>,
    model_id: Seq<char>,
    usual: u32,
    i: int,
)
    requires
        0 <= i <= servers.len(),
    ensures
        i < servers.len() && servers[i].0@ == model_id ==> model_util(servers, model_id, usual, i)
            == servers[i].1,
        (forall|k: int| i <= k < servers.len() ==> (#[trigger] servers[k]).0@ != model_id)
            ==> model_util(servers, model_id, usual, i) == usual,
        i < servers.len() && servers[i].0@ != model_id ==> model_util(servers, model_id, usual, i)
            == model_util(servers, model_id, usual, i + 1),
    decreases servers.len() - i,
{
    if i < servers.len() && servers[i].0@ != model_id {
        law_share_of_the_models_server(servers, model_id, usual, i + 1);
    }
}

/// The most speed of a model is none where its size is not known, and is never less with fewer
/// bits.
pub proof fn law_fewer_bits_are_faster(bandwidth: u32, params_m: u64)
    requires
        params_m > 0,
    ensures
        most_speed(bandwidth, None, "fp16"@) is None,
        most_speed(bandwidth, Some(0), "fp16"@) is None,
        most_speed(bandwidth, Some(params_m), "awq"@) is Some,
        most_speed(bandwidth, Some(params_m), "awq"@)->0 >= most_speed(
            bandwidth,
            Some(params_m),
            "fp8"@,
        )->0,
        most_speed(bandwidth, Some(params_m), "fp8"@)->0 >= most_speed(
            bandwidth,
            Some(params_m),
            "fp16"@,
        )->0,
{
    estimate::lemma_named_formats();
    let n = bandwidth * 50_000_000_000;
    let a = params_m * 55;
    let b = params_m * 100;
    let c = params_m * 200;
    assert(n / c <= n / b && n / b <= n / a) by (nonlinear_arith)
        requires
            n >= 0,
            0 < a <= b,
            b <= c,
    ;
}

/// The context of a model's figures: its KV cache, the weights and 2500 MiB fit into the share
/// of the card, unless that would be less than 512 tokens.
pub proof fn law_stats_context_has_room(
    vram_mb: u64,
    util: u32,
    params_m: u64,
    quant: Seq<char>,
    kv_bytes: int,
)
    requires
        kv_bytes > 0,
    ensures
        ({
            let n = stats_context(vram_mb, util, params_m, quant, kv_bytes);
            let room = context_fit::share_of(vram_mb, util as int) - estimate::weights_of(
                params_m,
                quant,
            ) - 2500 * context_fit::MIB;
            &&& room <= 0 <==> n == 0
            &&& n > 512 ==> n * (kv_bytes * 256) <= room
            &&& 512 < n < usize::MAX ==> (n + 1) * (kv_bytes * 256) > room
        }),
{
    let n = stats_context(vram_mb, util, params_m, quant, kv_bytes);
    let room = context_fit::share_of(vram_mb, util as int) - estimate::weights_of(params_m, quant)
        - STATS_OVERHEAD;
    if room > 0 && n > 512 {
        context_fit::law_context_is_largest_that_fits(room, kv_bytes * 256, n);
        if n < usize::MAX {
            context_fit::law_context_is_largest_that_fits(room, kv_bytes * 256, n + 1);
        }
    }
}

/// All models that were found are scored, each in its place.
pub proof fn law_all_found_models_are_scored(
    scored: Seq<ModelWithFit>,
    found: Seq<FoundModel>,
    hw: HardwareProfile,
    preferred: Seq<char>,
    memory: MemorySettings,
    i: int,
)
    requires
        are_models_scored(scored, found, hw, preferred, memory),
    ensures
        scored.len() == found.len(),
        0 <= i < found.len() ==> is_model_scored(
            scored[i],
            found[i].model,
            found[i].known,
            hf::variant_views(found[i].variants@),
            hw,
            preferred,
            memory,
        ),
{
}

} // verus!
