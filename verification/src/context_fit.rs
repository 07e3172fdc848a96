//! Whether a context fits: the memory that a model's weights and its KV cache take, held
//! against the memory of the machine.
//!
//! Amounts of memory are counted in parts: a 256th of a byte, so that the size of every
//! cache type is a whole number of parts per element. Utilization is counted in basis
//! points: a ten-thousandth.
use vstd::prelude::*;
use crate::double;
use crate::estimate;
use crate::numeral;
use crate::text;

verus! {

pub const PARTS_PER_BYTE: i128 = 256;

/// Parts of a MiB.
pub const MIB: i128 = 268_435_456;

/// Parts of a GiB.
pub const GIB: i128 = 274_877_906_944;

/// Basis points of the whole.
pub const WHOLE: i128 = 10_000;

/// The largest amount of KV cache, in parts: far more than any machine holds. What is more
/// counts as this much.
pub const KV_LIMIT: i128 = 0x100_0000_0000_0000_0000_0000_0000_0000;

/// The most elements that a token adds to a KV cache; what is more counts as this many.
pub const ELEMENT_LIMIT: i128 = 0x1_0000_0000_0000_0000_0000_0000;

/// The largest amount of memory that the estimates take, in parts.
pub const AMOUNT_LIMIT: i128 = 0x1_0000_0000_0000_0000_0000_0000_0000;

// ---------------------------------------------------------------------------
// Memory arithmetic
// ---------------------------------------------------------------------------

/// The tokens whose KV cache of `kv` parts each fits into `budget` parts.
pub open spec fn context_for(budget: int, kv: int) -> int {
    if budget <= 0 || kv <= 0 {
        0
    } else if budget / kv > usize::MAX {
        usize::MAX as int
    } else {
        budget / kv
    }
}

/// The tokens whose KV cache of `kv_bytes_per_token` parts each fits into `budget` parts.
pub fn vram_context_for_budget(budget: i128, kv_per_token: i128) -> (r: usize)
    ensures
        r == context_for(budget as int, kv_per_token as int),
{
    if budget <= 0 || kv_per_token <= 0 {
        return 0;
    }
    assert(0 <= budget as int / kv_per_token as int <= budget) by (nonlinear_arith)
        requires
            budget > 0,
            kv_per_token > 0,
    ;
    let tokens: i128 = budget / kv_per_token;
    if tokens > usize::MAX as i128 {
        usize::MAX
    } else {
        tokens as usize
    }
}

/// A row of tokens fits into a budget exactly when its KV cache is no larger.
pub proof fn law_context_is_largest_that_fits(budget: int, kv: int, tokens: int)
    requires
        kv > 0,
        0 <= tokens <= usize::MAX,
    ensures
        tokens <= context_for(budget, kv) <==> tokens * kv <= (if budget > 0 {
            budget
        } else {
            0
        }),
{
    if budget > 0 {
        let q = budget / kv;
        assert(q >= 0) by (nonlinear_arith)
            requires
                budget > 0,
                kv > 0,
                q == budget / kv,
        ;
        assert(q * kv <= budget < (q + 1) * kv) by (nonlinear_arith)
            requires
                kv > 0,
                q == budget / kv,
        ;
        if tokens <= q {
            assert(tokens * kv <= q * kv) by (nonlinear_arith)
                requires
                    tokens <= q,
                    kv > 0,
            ;
        } else {
            assert((q + 1) * kv <= tokens * kv) by (nonlinear_arith)
                requires
                    tokens >= q + 1,
                    kv > 0,
            ;
        }
    } else {
        assert(tokens <= 0 <==> tokens * kv <= 0) by (nonlinear_arith)
            requires
                kv > 0,
                tokens >= 0,
        ;
    }
}

/// `n` rounded down to a multiple of 1024, or `n` itself below that.
pub open spec fn rounded_context(n: int) -> int {
    if n < 1024 {
        n
    } else {
        (n / 1024) * 1024
    }
}

/// `value` rounded down to a multiple of 1024, or itself below that.
pub fn round_context_down(value: usize) -> (r: usize)
    ensures
        r == rounded_context(value as int),
        r <= value,
{
    if value < 1_024 {
        value
    } else {
        (value / 1_024) * 1_024
    }
}

/// `amount / unit` rounded to the nearest whole number, halves to the even one; zero for an
/// amount below zero.
pub open spec fn rounded(amount: int, unit: int) -> int {
    if amount <= 0 {
        0
    } else {
        let q = amount / unit;
        let r = amount % unit;
        if 2 * r > unit || (2 * r == unit && q % 2 == 1) {
            q + 1
        } else {
            q
        }
    }
}

fn rounded_units(amount: i128, unit: i128) -> (r: u64)
    requires
        1024 <= unit <= GIB,
        amount <= KV_LIMIT,
    ensures
        r == (if rounded(amount as int, unit as int) > u64::MAX {
            u64::MAX as int
        } else {
            rounded(amount as int, unit as int)
        }),
{
    if amount <= 0 {
        return 0;
    }
    assert(0 <= amount as int / unit as int <= amount) by (nonlinear_arith)
        requires
            amount > 0,
            unit > 0,
    ;
    let q: i128 = amount / unit;
    let rest: i128 = amount % unit;
    let n: i128 = if 2 * rest > unit || (2 * rest == unit && q % 2 == 1) {
        q + 1
    } else {
        q
    };
    if n > u64::MAX as i128 {
        u64::MAX
    } else {
        n as u64
    }
}

/// The least whole number of `unit`s that hold `amount`.
pub open spec fn ceiling(amount: int, unit: int) -> int {
    if amount <= 0 {
        0
    } else {
        (amount + unit - 1) / unit
    }
}

/// The least whole number of `unit`s that hold `amount`.
pub fn ceiling_units(amount: i128, unit: i128) -> (r: usize)
    requires
        1024 <= unit <= GIB * WHOLE,
        amount <= 2 * KV_LIMIT,
    ensures
        r == (if ceiling(amount as int, unit as int) > usize::MAX {
            usize::MAX as int
        } else {
            ceiling(amount as int, unit as int)
        }),
{
    if amount <= 0 {
        return 0;
    }
    let top: i128 = amount + unit - 1;
    assert(0 <= top as int / unit as int <= top) by (nonlinear_arith)
        requires
            top > 0,
            unit > 0,
    ;
    let n: i128 = top / unit;
    if n > usize::MAX as i128 {
        usize::MAX
    } else {
        n as usize
    }
}

pub open spec fn at_least(a: int, b: int) -> int {
    if a < b {
        b
    } else {
        a
    }
}

pub open spec fn at_most(a: int, b: int) -> int {
    if a > b {
        b
    } else {
        a
    }
}

/// The elements for the given numbers of layers, of heads and of elements of a head.
pub open spec fn dims(layers: int, heads: int, dim: int) -> int {
    at_most(layers * heads * dim, ELEMENT_LIMIT as int)
}

/// The KV cache of some tokens.
pub open spec fn kv_of(tokens: int, kv: int) -> int {
    at_most(tokens * kv, KV_LIMIT as int)
}

/// `n`, or the limit where there is one and it is less.
pub open spec fn limited(n: int, limit: Option<usize>) -> int {
    match limit {
        Some(l) => at_most(n, l as int),
        None => n,
    }
}

fn limit_to(n: usize, limit: Option<usize>) -> (r: usize)
    ensures
        r == limited(n as int, limit),
{
    match limit {
        Some(l) => if n > l {
            l
        } else {
            n
        },
        None => n,
    }
}

/// The sum, or the largest number where it is more than that.
pub open spec fn capped_sum(a: int, b: int) -> int {
    at_most(a + b, usize::MAX as int)
}

// ---------------------------------------------------------------------------
// Cache types
// ---------------------------------------------------------------------------

/// The bytes of an element of vLLM's KV cache of type `dtype`; `auto` goes by the type of
/// the weights.
pub open spec fn vllm_element_bytes(dtype: Seq<char>, torch_dtype: Option<Seq<char>>) -> Option<
    u8,
> {
    let d = text::ascii_lowercase(dtype);
    if d == "float16"@ || d == "f16"@ || d == "bfloat16"@ || d == "bf16"@ {
        Some(2)
    } else if d == "fp8"@ || d == "fp8_e4m3"@ || d == "fp8_e5m2"@ {
        Some(1)
    } else if d == "auto"@ {
        match torch_dtype {
            Some(t) => if text::occurs(text::ascii_lowercase(t), "fp8"@) || text::occurs(
                text::ascii_lowercase(t),
                "float8"@,
            ) {
                Some(1)
            } else {
                Some(2)
            },
            None => Some(2),
        }
    } else {
        None
    }
}

/// The bytes of an element of vLLM's KV cache.
pub fn vllm_dtype_bytes(dtype: &str, torch_dtype: Option<&str>) -> (r: Option<u8>)
    ensures
        r == vllm_element_bytes(dtype@, text::opt_str(torch_dtype)),
        r matches Some(b) ==> 1 <= b <= 2,
{
    let d = text::ascii_lowered(dtype);
    if text::same(&d, "float16") || text::same(&d, "f16") || text::same(&d, "bfloat16")
        || text::same(&d, "bf16") {
        return Some(2);
    }
    if text::same(&d, "fp8") || text::same(&d, "fp8_e4m3") || text::same(&d, "fp8_e5m2") {
        return Some(1);
    }
    if text::same(&d, "auto") {
        return match torch_dtype {
            Some(t) => {
                let t = text::ascii_lowered(t);
                if text::contains_text(&t, "fp8") || text::contains_text(&t, "float8") {
                    Some(1)
                } else {
                    Some(2)
                }
            },
            None => Some(2),
        };
    }
    None
}

/// llama.cpp's cache types, each with the parts that one element takes.
pub open spec fn cache_types() -> Seq<(&'static str, u32)> {
    seq![
        ("f32", 1024u32),
        ("float32", 1024u32),
        ("f16", 512u32),
        ("fp16", 512u32),
        ("bf16", 512u32),
        ("bfloat16", 512u32),
        ("q2_k", 84u32),
        ("q3_k", 110u32),
        ("iq3_xxs", 110u32),
        ("q4_0", 144u32),
        ("iq4_nl", 144u32),
        ("q4_1", 160u32),
        ("q4_k", 144u32),
        ("iq4_xs", 144u32),
        ("q5_0", 176u32),
        ("q5_1", 192u32),
        ("q5_k", 176u32),
        ("q6_k", 210u32),
        ("q8_0", 272u32),
        ("q8_1", 288u32),
        ("q8_k", 292u32),
    ]
}

/// The parts of an element for the first row at or after number `i` with the name `name`.
pub open spec fn cache_parts_from(name: Seq<char>, i: int) -> Option<u32>
    decreases cache_types().len() - i,
{
    if i < 0 || i >= cache_types().len() {
        None
    } else if cache_types()[i].0@ == name {
        Some(cache_types()[i].1)
    } else {
        cache_parts_from(name, i + 1)
    }
}

/// The parts that one element of a cache of type `cache_type` takes.
pub open spec fn cache_parts(cache_type: Seq<char>) -> Option<u32> {
    cache_parts_from(text::ascii_lowercase(cache_type), 0)
}

/// The parts that one element of a cache of type `cache_type` takes: 256 times its bytes.
pub fn cache_bytes_per_element(cache_type: &str) -> (r: Option<u32>)
    ensures
        r == cache_parts(cache_type@),
        r matches Some(p) ==> 1 <= p <= 1024,
{
    let name = text::ascii_lowered(cache_type);
    let rows = vec![
        ("f32", 1024u32),
        ("float32", 1024u32),
        ("f16", 512u32),
        ("fp16", 512u32),
        ("bf16", 512u32),
        ("bfloat16", 512u32),
        ("q2_k", 84u32),
        ("q3_k", 110u32),
        ("iq3_xxs", 110u32),
        ("q4_0", 144u32),
        ("iq4_nl", 144u32),
        ("q4_1", 160u32),
        ("q4_k", 144u32),
        ("iq4_xs", 144u32),
        ("q5_0", 176u32),
        ("q5_1", 192u32),
        ("q5_k", 176u32),
        ("q6_k", 210u32),
        ("q8_0", 272u32),
        ("q8_1", 288u32),
        ("q8_k", 292u32),
    ];
    assert(rows@ == cache_types());
    for i in 0..rows.len()
        invariant
            rows@ == cache_types(),
            name@ == text::ascii_lowercase(cache_type@),
            cache_parts(cache_type@) == cache_parts_from(name@, i as int),
            forall|j: int| 0 <= j < cache_types().len() ==> 1 <= (#[trigger] cache_types()[j]).1 <= 1024,
    {
        if text::same(rows[i].0, &name) {
            assert(1 <= cache_types()[i as int].1 <= 1024);
            return Some(rows[i].1);
        }
    }
    None
}

// ---------------------------------------------------------------------------
// Utilization
// ---------------------------------------------------------------------------

pub open spec fn clamped(n: int, low: int, high: int) -> int {
    at_most(at_least(n, low), high)
}

/// The most of a card's memory that is ever used, in basis points.
pub open spec fn util_cap(vram_total_mb: u64) -> int {
    if vram_total_mb >= 20_000 {
        9_200
    } else if vram_total_mb >= 15_000 {
        9_000
    } else {
        8_600
    }
}

/// What the memory that is free now leaves of a card, in whole percents, counted in basis
/// points: all that is free but 1400 MiB.
pub open spec fn free_share(vram_total_mb: u64, vram_free_mb: u64) -> int {
    if vram_free_mb < 1_400 {
        0
    } else {
        100 * double::percents((vram_free_mb - 1_400) as nat, vram_total_mb as nat) as int
    }
}

/// The utilization that a server gets, in basis points: what it asks for, within the cap of
/// the card and what is free now.
pub open spec fn effective_util(requested: u32, vram_total_mb: u64, vram_free_mb: Option<u64>) -> int {
    let cap = util_cap(vram_total_mb);
    let safe = match vram_free_mb {
        Some(free) => if free > 0 {
            clamped(free_share(vram_total_mb, free), 1_000, cap)
        } else {
            cap
        },
        None => cap,
    };
    at_most(clamped(requested as int, 1_000, cap), safe)
}

fn clamp_u32(n: u32, low: u32, high: u32) -> (r: u32)
    ensures
        r == clamped(n as int, low as int, high as int),
{
    let a: u32 = if n < low {
        low
    } else {
        n
    };
    if a > high {
        high
    } else {
        a
    }
}

/// The utilization that a server gets, in basis points.
pub fn effective_gpu_mem_util(requested: u32, vram_total_mb: u64, vram_free_mb: Option<u64>) -> (r:
    u32)
    ensures
        r == effective_util(requested, vram_total_mb, vram_free_mb),
        1_000 <= r <= 9_200,
{
    let cap: u32 = if vram_total_mb >= 20_000 {
        9_200
    } else if vram_total_mb >= 15_000 {
        9_000
    } else {
        8_600
    };
    let mut safe: u32 = cap;
    if let Some(free) = vram_free_mb {
        if free > 0 {
            let percent: u128 = if free < 1_400 {
                0
            } else {
                double::percent(free - 1_400, vram_total_mb)
            };
            let share: u32 = if percent > 100 {
                10_000
            } else {
                (percent as u32) * 100
            };
            safe = clamp_u32(share, 1_000, cap);
        }
    }
    let wanted = clamp_u32(requested, 1_000, cap);
    if wanted > safe {
        safe
    } else {
        wanted
    }
}

/// `points` basis points of `mb` MiB, in parts, rounded down.
pub open spec fn share_of(mb: u64, points: int) -> int {
    (mb * MIB * points) / (WHOLE as int)
}

/// `points` basis points of `mb` MiB, in parts, rounded down.
pub fn share_parts(mb: u64, points: u32) -> (r: i128)
    ensures
        r == share_of(mb, points as int),
        0 <= r <= AMOUNT_LIMIT,
        points <= WHOLE ==> r <= mb * MIB,
{
    let whole: i128 = mb as i128 * MIB;
    let p: i128 = points as i128;
    assert(0 <= whole * p <= 0x1_0000_0000_0000_0000 * MIB * 0x1_0000_0000) by (nonlinear_arith)
        requires
            0 <= whole <= 0x1_0000_0000_0000_0000 * MIB,
            0 <= p <= 0x1_0000_0000,
    ;
    let scaled: i128 = whole * p;
    assert(mb * MIB * points == whole * p);
    assert(p <= WHOLE ==> scaled as int / 10_000 <= whole) by (nonlinear_arith)
        requires
            scaled == whole * p,
            0 <= whole,
            0 <= p,
    ;
    scaled / WHOLE
}

// ---------------------------------------------------------------------------
// Reports
// ---------------------------------------------------------------------------

#[derive(Clone, Copy, Debug, PartialEq, Eq, Structural)]
pub enum ContextFitStatus {
    Fits,
    FitsWithCpu,
    Tight,
    DoesNotFit,
    Unknown,
}

/// What to do about a context.
#[derive(Clone, Copy, Debug, PartialEq, Eq, Structural)]
pub enum Advice {
    Unknown,
    VllmTight { mib: u64 },
    VllmFits { mib: u64 },
    VllmOverflowConfigured,
    VllmCloseAppsOrOffload { limit: usize, required_gb: usize, requested: usize },
    VllmCloseApps { limit: usize },
    VllmUseFp8,
    VllmEnableOffload { required_gb: usize, requested: usize },
    VllmEnableOverflow,
    VllmLowerContext { limit: usize },
    VllmLowerOrOffloadWeights { offload_gb: usize },
    VllmLowerOrSmallerModel,
    LlamaTight { mib: u64 },
    LlamaFits { mib: u64 },
    LlamaCpuOverflow,
    LlamaEnableOverflow { requested: usize, limit: usize },
    LlamaUseQ8,
    LlamaUseQ4,
    LlamaLowerContext { limit: usize },
    LlamaReduceWeights { offload_gb: usize },
    LlamaLowerLayers,
}

/// What a report warns of.
#[derive(Clone, Copy, Debug, PartialEq, Eq, Structural)]
pub enum Warning {
    VllmUnavailable,
    VllmZero,
    VllmUnsupportedDtype,
    VllmOverNative,
    VllmClamped { asked_percent: u64, given_percent: u64 },
    LlamaUnavailable,
    LlamaCacheUnavailable,
    LlamaFreeUnknown,
    LlamaOverNative,
    LlamaCpuMoe,
    LlamaFlashAttention,
    LlamaFit,
}

/// The figures of a report: amounts of memory in parts, contexts in tokens, utilization in
/// basis points.
#[derive(Clone, Copy, Debug, PartialEq, Eq, Structural)]
pub struct FitFigures {
    pub kv_per_token: i128,
    pub required_kv: i128,
    pub vram_budget: i128,
    pub projected_vram: i128,
    pub vram_headroom: i128,
    pub max_vram_context: usize,
    pub max_with_ram_context: usize,
    pub max_context_no_overflow: usize,
    pub max_context_with_overflow: usize,
    pub overflow_enabled: bool,
    pub overflow_required_gb: Option<usize>,
    pub fits_with_current_free: bool,
    pub ram_required: i128,
    pub effective_gpu_mem_util: Option<u32>,
    pub required_cpu_offload_gb: Option<usize>,
}

/// What a report decides.
#[derive(Clone, Copy, Debug, PartialEq, Eq, Structural)]
pub struct FitDecision {
    pub status: ContextFitStatus,
    pub fits: bool,
    pub recommended_context: Option<usize>,
    /// Recommend `fp8_e4m3` for vLLM's KV cache.
    pub recommend_fp8: bool,
    /// Recommend this type for both of llama.cpp's caches.
    pub recommend_cache: Option<CacheChoice>,
    pub advice: Advice,
}

/// The cache types that a report recommends.
#[derive(Clone, Copy, Debug, PartialEq, Eq, Structural)]
pub enum CacheChoice {
    Q8,
    Q4,
}

/// Whether a context fits, and what to do about it. `figures` is there when the model and
/// the machine are known well enough.
#[derive(Debug)]
pub struct ContextFitReport {
    pub backend: String,
    pub model_id: String,
    pub requested_context: usize,
    pub native_context: Option<usize>,
    pub context_estimated: bool,
    pub weight_bytes: Option<u64>,
    pub weight_source: String,
    pub kv_cache_label: String,
    pub overflow_label: String,
    pub vram_total_mb: Option<u64>,
    pub vram_free_mb: Option<u64>,
    pub ram_total_mb: Option<u64>,
    pub ram_available_mb: Option<u64>,
    pub figures: Option<FitFigures>,
    pub decision: FitDecision,
    pub warnings: Vec<Warning>,
}

/// The decision where the model or the machine is not known well enough.
pub open spec fn undecided() -> FitDecision {
    FitDecision {
        status: ContextFitStatus::Unknown,
        fits: false,
        recommended_context: None,
        recommend_fp8: false,
        recommend_cache: None,
        advice: Advice::Unknown,
    }
}

fn undecided_decision() -> (r: FitDecision)
    ensures
        r == undecided(),
{
    FitDecision {
        status: ContextFitStatus::Unknown,
        fits: false,
        recommended_context: None,
        recommend_fp8: false,
        recommend_cache: None,
        advice: Advice::Unknown,
    }
}

// ---------------------------------------------------------------------------
// vLLM
// ---------------------------------------------------------------------------

/// What is known of a model, a server of vLLM for it and the machine.
#[derive(Debug)]
pub struct VllmFitInput {
    pub model_id: String,
    pub requested_context: usize,
    pub native_context: Option<usize>,
    pub context_estimated: bool,
    pub weight_bytes: Option<u64>,
    pub weight_source: String,
    pub n_layers: Option<usize>,
    pub n_kv_heads: Option<usize>,
    pub head_dim: Option<usize>,
    pub kv_cache_dtype: String,
    pub vram_total_mb: Option<u64>,
    pub vram_free_mb: Option<u64>,
    pub ram_total_mb: Option<u64>,
    pub ram_available_mb: Option<u64>,
    /// In basis points.
    pub gpu_mem_util: u32,
    pub vram_overhead_bytes: u64,
    pub max_context_cap: Option<usize>,
    pub ram_overflow_enabled: bool,
    pub manual_ram_limit_mb: Option<u64>,
    pub safety_reserve_mb: u64,
    pub cpu_offload_gb: usize,
    pub kv_offload_gb: usize,
}

/// The RAM that may be used, in parts: none when overflow is off, the manual limit where
/// one is set, or else what is available, or the total, without the reserve.
pub open spec fn usable_ram(
    total: Option<u64>,
    available: Option<u64>,
    enabled: bool,
    manual: Option<u64>,
    reserve: u64,
) -> Option<int> {
    if !enabled {
        Some(0)
    } else if manual matches Some(m) && m > 0 {
        Some(manual->0 * MIB)
    } else {
        match (available, total) {
            (Some(a), _) => Some(at_least(a - reserve, 0) * MIB),
            (None, Some(t)) => Some(at_least(t - reserve, 0) * MIB),
            (None, None) => None,
        }
    }
}

/// The RAM that may be used, in parts.
pub fn usable_ram_parts(
    total: Option<u64>,
    available: Option<u64>,
    enabled: bool,
    manual: Option<u64>,
    reserve: u64,
) -> (r: Option<i128>)
    ensures
        match r {
            Some(p) => usable_ram(total, available, enabled, manual, reserve) == Some(p as int)
                && 0 <= p <= 0x1_0000_0000_0000_0000 * MIB,
            None => usable_ram(total, available, enabled, manual, reserve) is None,
        },
{
    if !enabled {
        return Some(0);
    }
    if let Some(m) = manual {
        if m > 0 {
            return Some(m as i128 * MIB);
        }
    }
    match (available, total) {
        (Some(a), _) => Some(a.saturating_sub(reserve) as i128 * MIB),
        (None, Some(t)) => Some(t.saturating_sub(reserve) as i128 * MIB),
        (None, None) => None,
    }
}

/// The limit of a model's context: its own, within the cap of the settings.
pub open spec fn context_limit(native: Option<usize>, cap: Option<usize>) -> Option<usize> {
    match native {
        Some(n) => if n == 0 {
            None
        } else {
            match cap {
                Some(c) => if c > 0 && c < n {
                    Some(c)
                } else {
                    Some(n)
                },
                None => Some(n),
            }
        },
        None => None,
    }
}

fn limit_of(native: Option<usize>, cap: Option<usize>) -> (r: Option<usize>)
    ensures
        r == context_limit(native, cap),
{
    match native {
        Some(n) => if n == 0 {
            None
        } else {
            match cap {
                Some(c) => if c > 0 && c < n {
                    Some(c)
                } else {
                    Some(n)
                },
                None => Some(n),
            }
        },
        None => None,
    }
}

impl VllmFitInput {
    /// The sizes that the analysis needs are known.
    pub open spec fn sizes_known(self) -> bool {
        self.n_layers is Some && self.n_kv_heads is Some && self.head_dim is Some
            && self.vram_total_mb is Some && self.weight_bytes is Some
    }

    /// Nothing that is multiplied is zero.
    pub open spec fn sizes_positive(self) -> bool {
        self.requested_context > 0 && self.n_layers->0 > 0 && self.n_kv_heads->0 > 0
            && self.head_dim->0 > 0
    }

    pub open spec fn element_bytes(self) -> Option<u8> {
        vllm_element_bytes(self.kv_cache_dtype@, None)
    }

    /// What keeps the analysis from being made.
    pub open spec fn obstacle(self) -> Option<Warning> {
        if !self.sizes_known() {
            Some(Warning::VllmUnavailable)
        } else if !self.sizes_positive() {
            Some(Warning::VllmZero)
        } else if self.element_bytes() is None {
            Some(Warning::VllmUnsupportedDtype)
        } else {
            None
        }
    }

    /// The elements that one token adds to the KV cache: a key and a value for each layer.
    pub open spec fn elements(self) -> int {
        2 * dims(self.n_layers->0 as int, self.n_kv_heads->0 as int, self.head_dim->0 as int)
    }

    pub open spec fn kv_per_token(self) -> int {
        self.elements() * self.element_bytes()->0 * PARTS_PER_BYTE
    }

    pub open spec fn required_kv(self) -> int {
        kv_of(self.requested_context as int, self.kv_per_token())
    }

    pub open spec fn limit(self) -> Option<usize> {
        context_limit(self.native_context, self.max_context_cap)
    }

    pub open spec fn offload(self) -> int {
        self.cpu_offload_gb * GIB
    }

    pub open spec fn gpu_weights(self) -> int {
        at_least(self.weight_bytes->0 * PARTS_PER_BYTE - self.offload(), 0)
    }

    /// What the card holds beside the KV cache.
    pub open spec fn fixed(self) -> int {
        self.gpu_weights() + self.vram_overhead_bytes * PARTS_PER_BYTE
    }

    pub open spec fn budget(self) -> int {
        share_of(self.vram_total_mb->0, clamped(self.gpu_mem_util as int, 1_000, 9_500))
            - self.fixed()
    }

    pub open spec fn current_util(self) -> int {
        effective_util(self.gpu_mem_util, self.vram_total_mb->0, self.vram_free_mb)
    }

    pub open spec fn current_budget(self) -> int {
        share_of(self.vram_total_mb->0, self.current_util()) - self.fixed()
    }

    pub open spec fn max_vram(self) -> int {
        limited(context_for(self.budget(), self.kv_per_token()), self.limit())
    }

    pub open spec fn current_max(self) -> int {
        limited(context_for(self.current_budget(), self.kv_per_token()), self.limit())
    }

    pub open spec fn ram_usable(self) -> int {
        match usable_ram(
            self.ram_total_mb,
            self.ram_available_mb,
            self.ram_overflow_enabled,
            self.manual_ram_limit_mb,
            self.safety_reserve_mb,
        ) {
            Some(p) => p,
            None => 0,
        }
    }

    /// The tokens whose KV cache fits into the RAM beside the weights that are there.
    pub open spec fn ram_max(self) -> int {
        if self.ram_overflow_enabled {
            context_for(at_least(self.ram_usable() - self.offload(), 0), self.kv_per_token())
        } else {
            0
        }
    }

    pub open spec fn max_with_ram(self) -> int {
        limited(capped_sum(self.current_max(), self.ram_max()), self.limit())
    }

    pub open spec fn overflow_enabled(self) -> bool {
        self.ram_overflow_enabled && self.kv_offload_gb > 0
    }

    pub open spec fn configured_ram(self) -> int {
        if self.overflow_enabled() {
            at_most(self.ram_max(), context_for(self.kv_offload_gb * GIB, self.kv_per_token()))
        } else {
            0
        }
    }

    pub open spec fn max_with_configured(self) -> int {
        limited(capped_sum(self.current_max(), self.configured_ram()), self.limit())
    }

    /// The whole GiB that hold the KV cache beyond what the card takes now.
    pub open spec fn overflow_gb(self) -> int {
        if self.requested_context > self.current_max() {
            at_least(
                at_most(
                    ceiling(
                        kv_of(
                            self.requested_context - self.current_max(),
                            self.kv_per_token(),
                        ),
                        GIB as int,
                    ),
                    usize::MAX as int,
                ),
                1,
            )
        } else {
            0
        }
    }

    pub open spec fn native_fits(self) -> bool {
        self.limit() matches Some(l) ==> self.requested_context <= l
    }

    pub open spec fn vram_fits(self) -> bool {
        self.required_kv() <= at_least(self.budget(), 0) && self.native_fits()
    }

    pub open spec fn current_fits(self) -> bool {
        self.required_kv() <= at_least(self.current_budget(), 0) && self.native_fits()
    }

    pub open spec fn current_headroom(self) -> int {
        self.current_budget() - self.required_kv()
    }

    pub open spec fn ram_required(self) -> int {
        self.offload() + (if self.current_fits() {
            0
        } else {
            kv_of(
                at_least(self.requested_context - self.current_max(), 0),
                self.kv_per_token(),
            )
        })
    }

    /// The whole GiB of weights that have to leave the card before anything else fits.
    pub open spec fn required_offload(self) -> Option<usize> {
        if self.budget() <= 0 {
            Some(
                at_most(
                    ceiling(
                        self.fixed() * WHOLE - self.vram_total_mb->0 * MIB * self.gpu_mem_util,
                        GIB * WHOLE,
                    ),
                    usize::MAX as int,
                ) as usize,
            )
        } else {
            None
        }
    }

    /// The tokens that fit on the card now with an FP8 cache.
    pub open spec fn fp8_max(self) -> int {
        limited(context_for(self.current_budget(), self.elements() * PARTS_PER_BYTE), self.limit())
    }

    pub open spec fn figures(self) -> FitFigures {
        FitFigures {
            kv_per_token: self.kv_per_token() as i128,
            required_kv: self.required_kv() as i128,
            vram_budget: self.budget() as i128,
            projected_vram: (self.fixed() + self.required_kv()) as i128,
            vram_headroom: (self.budget() - self.required_kv()) as i128,
            max_vram_context: self.max_vram() as usize,
            max_with_ram_context: self.max_with_configured() as usize,
            max_context_no_overflow: self.current_max() as usize,
            max_context_with_overflow: (if self.overflow_enabled() {
                self.max_with_configured()
            } else {
                self.max_with_ram()
            }) as usize,
            overflow_enabled: self.overflow_enabled(),
            overflow_required_gb: Some(self.overflow_gb() as usize),
            fits_with_current_free: self.current_fits(),
            ram_required: self.ram_required() as i128,
            effective_gpu_mem_util: Some(self.current_util() as u32),
            required_cpu_offload_gb: self.required_offload(),
        }
    }

    /// The headroom on the card now, in MiB.
    pub open spec fn headroom_mib(self) -> u64 {
        at_most(rounded(self.current_headroom(), MIB as int), u64::MAX as int) as u64
    }

    pub open spec fn decision(self) -> FitDecision {
        let requested = self.requested_context;
        let lower = rounded_context(self.current_max()) as usize;
        if self.current_fits() {
            let tight = 10 * self.current_headroom() < at_least(self.current_budget(), MIB as int);
            FitDecision {
                status: if tight {
                    ContextFitStatus::Tight
                } else if self.cpu_offload_gb > 0 {
                    ContextFitStatus::FitsWithCpu
                } else {
                    ContextFitStatus::Fits
                },
                fits: true,
                recommended_context: Some(requested),
                recommend_fp8: false,
                recommend_cache: None,
                advice: if tight {
                    Advice::VllmTight { mib: self.headroom_mib() }
                } else {
                    Advice::VllmFits { mib: self.headroom_mib() }
                },
            }
        } else if self.overflow_enabled() && self.max_with_configured() >= requested
            && self.native_fits() {
            FitDecision {
                status: ContextFitStatus::FitsWithCpu,
                fits: true,
                recommended_context: Some(requested),
                recommend_fp8: false,
                recommend_cache: None,
                advice: Advice::VllmOverflowConfigured,
            }
        } else if self.vram_fits() {
            FitDecision {
                status: ContextFitStatus::Tight,
                fits: false,
                recommended_context: Some(lower),
                recommend_fp8: false,
                recommend_cache: None,
                advice: if self.overflow_gb() > 0 {
                    Advice::VllmCloseAppsOrOffload {
                        limit: lower,
                        required_gb: self.overflow_gb() as usize,
                        requested,
                    }
                } else {
                    Advice::VllmCloseApps { limit: lower }
                },
            }
        } else if self.native_fits() && self.kv_cache_dtype@ != "fp8_e4m3"@ && self.fp8_max()
            >= requested {
            FitDecision {
                status: ContextFitStatus::DoesNotFit,
                fits: false,
                recommended_context: Some(requested),
                recommend_fp8: true,
                recommend_cache: None,
                advice: Advice::VllmUseFp8,
            }
        } else if self.native_fits() && self.max_with_ram() >= requested {
            FitDecision {
                status: ContextFitStatus::DoesNotFit,
                fits: false,
                recommended_context: None,
                recommend_fp8: false,
                recommend_cache: None,
                advice: if self.overflow_gb() > 0 {
                    Advice::VllmEnableOffload { required_gb: self.overflow_gb() as usize, requested }
                } else {
                    Advice::VllmEnableOverflow
                },
            }
        } else {
            FitDecision {
                status: ContextFitStatus::DoesNotFit,
                fits: false,
                recommended_context: Some(lower),
                recommend_fp8: false,
                recommend_cache: None,
                advice: if lower > 0 {
                    Advice::VllmLowerContext { limit: lower }
                } else {
                    match self.required_offload() {
                        Some(offload_gb) => Advice::VllmLowerOrOffloadWeights { offload_gb },
                        None => Advice::VllmLowerOrSmallerModel,
                    }
                },
            }
        }
    }

    pub open spec fn warnings(self) -> Seq<Warning> {
        (if !self.native_fits() {
            seq![Warning::VllmOverNative]
        } else {
            seq![]
        }) + (if self.current_util() + 50 < self.gpu_mem_util {
            seq![
                Warning::VllmClamped {
                    asked_percent: rounded_percent(self.gpu_mem_util as int),
                    given_percent: rounded_percent(self.current_util()),
                },
            ]
        } else {
            seq![]
        })
    }
}

/// Basis points as a whole number of percents, halves to the even one.
pub open spec fn rounded_percent(points: int) -> u64 {
    let q = points / 100;
    let r = points % 100;
    (if r > 50 || (r == 50 && q % 2 == 1) {
        q + 1
    } else {
        q
    }) as u64
}

fn percent_of(points: u32) -> (r: u64)
    ensures
        r == rounded_percent(points as int),
{
    let q: u32 = points / 100;
    let rest: u32 = points % 100;
    if rest > 50 || (rest == 50 && q % 2 == 1) {
        q as u64 + 1
    } else {
        q as u64
    }
}

proof fn lemma_dims_positive(a: int, b: int, c: int)
    requires
        a > 0,
        b > 0,
        c > 0,
    ensures
        0 < dims(a, b, c) <= ELEMENT_LIMIT,
{
    assert(a * b * c > 0) by (nonlinear_arith)
        requires
            a > 0,
            b > 0,
            c > 0,
    ;
}

/// The elements for the given numbers of layers, of heads and of elements of a head.
pub(crate) fn product(a: usize, b: usize, c: usize) -> (r: i128)
    ensures
        r == dims(a as int, b as int, c as int),
        0 <= r <= ELEMENT_LIMIT,
        a > 0 && b > 0 && c > 0 ==> r > 0,
{
    proof {
        if a > 0 && b > 0 && c > 0 {
            lemma_dims_positive(a as int, b as int, c as int);
        }
        let ab = a * b;
        assert(ab * c >= 0 && (c == 0 ==> ab * c == 0)) by (nonlinear_arith)
            requires
                ab == a * b,
                a >= 0,
                b >= 0,
                c >= 0,
        ;
    }
    if c == 0 {
        return 0;
    }
    assert(0 <= a * b <= 0xffff_ffff_ffff_ffff * 0xffff_ffff_ffff_ffff) by (nonlinear_arith)
        requires
            0 <= a <= 0xffff_ffff_ffff_ffff,
            0 <= b <= 0xffff_ffff_ffff_ffff,
    ;
    let ab: u128 = a as u128 * b as u128;
    let limit: u128 = ELEMENT_LIMIT as u128;
    let d: u128 = c as u128;
    proof {
        let q = limit as int / d as int;
        assert(q >= 0 && (ab <= q <==> ab * c <= limit)) by (nonlinear_arith)
            requires
                c > 0,
                d == c,
                q == limit as int / d as int,
                limit >= 0,
        ;
    }
    if ab > limit / d {
        ELEMENT_LIMIT
    } else {
        (ab * d) as i128
    }
}

/// The KV cache of some tokens.
fn kv_amount(tokens: usize, kv: i128) -> (r: i128)
    requires
        kv > 0,
    ensures
        r == kv_of(tokens as int, kv as int),
        0 <= r <= KV_LIMIT,
        tokens > 0 ==> r > 0,
{
    proof {
        let q = KV_LIMIT as int / kv as int;
        let t = tokens as int;
        let k = kv as int;
        assert(0 <= q <= KV_LIMIT) by (nonlinear_arith)
            requires
                k > 0,
                q == KV_LIMIT as int / k,
        ;
        assert(t <= q <==> t * k <= KV_LIMIT) by (nonlinear_arith)
            requires
                k > 0,
                q == KV_LIMIT as int / k,
        ;
        assert(0 <= t * k && (t > 0 ==> t * k > 0)) by (nonlinear_arith)
            requires
                k > 0,
                t >= 0,
        ;
    }
    if tokens as i128 > KV_LIMIT / kv {
        KV_LIMIT
    } else {
        tokens as i128 * kv
    }
}

proof fn lemma_element_bytes(e: int, b: int)
    requires
        1 <= b <= 2,
    ensures
        e * b == (if b == 1 {
            e
        } else {
            2 * e
        }),
{
    assert(e * b == (if b == 1 {
        e
    } else {
        2 * e
    })) by (nonlinear_arith)
        requires
            1 <= b <= 2,
    ;
}

/// The amounts that the analysis of a vLLM context works with.
struct VllmAmounts {
    kv: i128,
    fp8_kv: i128,
    required: i128,
    fixed: i128,
    budget: i128,
    current_budget: i128,
    current_util: u32,
    max_vram: usize,
    current_max: usize,
    max_with_ram: usize,
    max_with_configured: usize,
    limit: Option<usize>,
}

impl VllmAmounts {
    spec fn of(self, v: VllmFitInput) -> bool {
        &&& self.kv == v.kv_per_token()
        &&& self.fp8_kv == v.elements() * PARTS_PER_BYTE
        &&& self.required == v.required_kv()
        &&& self.fixed == v.fixed()
        &&& self.budget == v.budget()
        &&& self.current_budget == v.current_budget()
        &&& self.current_util == v.current_util()
        &&& self.max_vram == v.max_vram()
        &&& self.current_max == v.current_max()
        &&& self.max_with_ram == v.max_with_ram()
        &&& self.max_with_configured == v.max_with_configured()
        &&& self.limit == v.limit()
        &&& 0 < self.kv <= 0x400_0000_0000_0000_0000_0000_0000
        &&& 0 < self.fp8_kv
        &&& 0 < self.required <= KV_LIMIT
        &&& 0 <= self.fixed <= 0x1_0000_0000_0000_0000 * PARTS_PER_BYTE * 2
        &&& self.budget <= 0x1_0000_0000_0000_0000 * MIB
        &&& self.current_budget <= 0x1_0000_0000_0000_0000 * MIB
    }
}

fn capped_add(a: usize, b: usize) -> (r: usize)
    ensures
        r == capped_sum(a as int, b as int),
{
    a.saturating_add(b)
}

fn vllm_amounts(v: &VllmFitInput, bytes: u8) -> (r: VllmAmounts)
    requires
        v.obstacle() is None,
        v.element_bytes() == Some(bytes),
        1 <= bytes <= 2,
    ensures
        r.of(*v),
{
    let layers: usize = v.n_layers.unwrap();
    let heads: usize = v.n_kv_heads.unwrap();
    let dim: usize = v.head_dim.unwrap();
    let total: u64 = v.vram_total_mb.unwrap();
    let weights: u64 = v.weight_bytes.unwrap();
    let elements: i128 = 2 * product(layers, heads, dim);
    let fp8_kv: i128 = elements * PARTS_PER_BYTE;
    let kv: i128 = if bytes == 1 {
        fp8_kv
    } else {
        2 * fp8_kv
    };
    proof {
        lemma_element_bytes(elements as int, bytes as int);
    }
    assert(kv == v.kv_per_token());
    let required = kv_amount(v.requested_context, kv);
    let limit = limit_of(v.native_context, v.max_context_cap);
    let offload: i128 = v.cpu_offload_gb as i128 * GIB;
    let all_weights: i128 = weights as i128 * PARTS_PER_BYTE;
    let gpu_weights: i128 = if all_weights > offload {
        all_weights - offload
    } else {
        0
    };
    let fixed: i128 = gpu_weights + v.vram_overhead_bytes as i128 * PARTS_PER_BYTE;
    let budget: i128 = share_parts(total, clamp_u32(v.gpu_mem_util, 1_000, 9_500)) - fixed;
    let current_util = effective_gpu_mem_util(v.gpu_mem_util, total, v.vram_free_mb);
    let current_budget: i128 = share_parts(total, current_util) - fixed;
    let max_vram = limit_to(vram_context_for_budget(budget, kv), limit);
    let current_max = limit_to(vram_context_for_budget(current_budget, kv), limit);
    let ram_usable: i128 = match usable_ram_parts(
        v.ram_total_mb,
        v.ram_available_mb,
        v.ram_overflow_enabled,
        v.manual_ram_limit_mb,
        v.safety_reserve_mb,
    ) {
        Some(p) => p,
        None => 0,
    };
    let ram_for_kv: i128 = if ram_usable > offload {
        ram_usable - offload
    } else {
        0
    };
    let ram_max: usize = if v.ram_overflow_enabled {
        vram_context_for_budget(ram_for_kv, kv)
    } else {
        0
    };
    let max_with_ram = limit_to(capped_add(current_max, ram_max), limit);
    let configured: usize = if v.ram_overflow_enabled && v.kv_offload_gb > 0 {
        let cap = vram_context_for_budget(v.kv_offload_gb as i128 * GIB, kv);
        if ram_max > cap {
            cap
        } else {
            ram_max
        }
    } else {
        0
    };
    let max_with_configured = limit_to(capped_add(current_max, configured), limit);
    VllmAmounts {
        kv,
        fp8_kv,
        required,
        fixed,
        budget,
        current_budget,
        current_util,
        max_vram,
        current_max,
        max_with_ram,
        max_with_configured,
        limit,
    }
}

fn positive_part(a: i128) -> (r: i128)
    ensures
        r == at_least(a as int, 0),
{
    if a < 0 {
        0
    } else {
        a
    }
}

fn vllm_figures(v: &VllmFitInput, a: &VllmAmounts) -> (r: FitFigures)
    requires
        v.obstacle() is None,
        a.of(*v),
    ensures
        r == v.figures(),
{
    let overflow_enabled = v.ram_overflow_enabled && v.kv_offload_gb > 0;
    let native_fits = match a.limit {
        Some(l) => v.requested_context <= l,
        None => true,
    };
    let current_fits = a.required <= positive_part(a.current_budget) && native_fits;
    let missing: usize = v.requested_context.saturating_sub(a.current_max);
    let missing_kv = kv_amount(missing, a.kv);
    let overflow_gb: usize = if v.requested_context > a.current_max {
        let gb = ceiling_units(missing_kv, GIB);
        if gb < 1 {
            1
        } else {
            gb
        }
    } else {
        0
    };
    let offload: i128 = v.cpu_offload_gb as i128 * GIB;
    let ram_required: i128 = if current_fits {
        offload
    } else {
        offload + missing_kv
    };
    let required_offload: Option<usize> = if a.budget <= 0 {
        let total: u64 = v.vram_total_mb.unwrap();
        let whole: i128 = total as i128 * MIB;
        assert(0 <= whole * v.gpu_mem_util <= whole * 0x1_0000_0000) by (nonlinear_arith)
            requires
                0 <= whole,
                0 <= v.gpu_mem_util < 0x1_0000_0000,
        ;
        let asked: i128 = whole * v.gpu_mem_util as i128;
        assert(total * MIB * v.gpu_mem_util == whole * v.gpu_mem_util);
        Some(ceiling_units(a.fixed * WHOLE - asked, GIB * WHOLE))
    } else {
        None
    };
    FitFigures {
        kv_per_token: a.kv,
        required_kv: a.required,
        vram_budget: a.budget,
        projected_vram: a.fixed + a.required,
        vram_headroom: a.budget - a.required,
        max_vram_context: a.max_vram,
        max_with_ram_context: a.max_with_configured,
        max_context_no_overflow: a.current_max,
        max_context_with_overflow: if overflow_enabled {
            a.max_with_configured
        } else {
            a.max_with_ram
        },
        overflow_enabled,
        overflow_required_gb: Some(overflow_gb),
        fits_with_current_free: current_fits,
        ram_required,
        effective_gpu_mem_util: Some(a.current_util),
        required_cpu_offload_gb: required_offload,
    }
}

fn vllm_decision(v: &VllmFitInput, a: &VllmAmounts, f: &FitFigures) -> (r: FitDecision)
    requires
        v.obstacle() is None,
        a.of(*v),
        *f == v.figures(),
    ensures
        r == v.decision(),
{
    let requested = v.requested_context;
    let native_fits = match a.limit {
        Some(l) => requested <= l,
        None => true,
    };
    let overflow_gb: usize = f.overflow_required_gb.unwrap();
    let lower = round_context_down(a.current_max);
    let headroom: i128 = a.current_budget - a.required;
    if f.fits_with_current_free {
        let threshold: i128 = if a.current_budget < MIB {
            MIB
        } else {
            a.current_budget
        };
        let tight = 10 * headroom < threshold;
        let mib = rounded_units(headroom, MIB);
        return FitDecision {
            status: if tight {
                ContextFitStatus::Tight
            } else if v.cpu_offload_gb > 0 {
                ContextFitStatus::FitsWithCpu
            } else {
                ContextFitStatus::Fits
            },
            fits: true,
            recommended_context: Some(requested),
            recommend_fp8: false,
            recommend_cache: None,
            advice: if tight {
                Advice::VllmTight { mib }
            } else {
                Advice::VllmFits { mib }
            },
        };
    }
    if f.overflow_enabled && a.max_with_configured >= requested && native_fits {
        return FitDecision {
            status: ContextFitStatus::FitsWithCpu,
            fits: true,
            recommended_context: Some(requested),
            recommend_fp8: false,
            recommend_cache: None,
            advice: Advice::VllmOverflowConfigured,
        };
    }
    if a.required <= positive_part(a.budget) && native_fits {
        return FitDecision {
            status: ContextFitStatus::Tight,
            fits: false,
            recommended_context: Some(lower),
            recommend_fp8: false,
            recommend_cache: None,
            advice: if overflow_gb > 0 {
                Advice::VllmCloseAppsOrOffload { limit: lower, required_gb: overflow_gb, requested }
            } else {
                Advice::VllmCloseApps { limit: lower }
            },
        };
    }
    let fp8_max = limit_to(vram_context_for_budget(a.current_budget, a.fp8_kv), a.limit);
    if native_fits && !text::same(&v.kv_cache_dtype, "fp8_e4m3") && fp8_max >= requested {
        return FitDecision {
            status: ContextFitStatus::DoesNotFit,
            fits: false,
            recommended_context: Some(requested),
            recommend_fp8: true,
            recommend_cache: None,
            advice: Advice::VllmUseFp8,
        };
    }
    if native_fits && a.max_with_ram >= requested {
        return FitDecision {
            status: ContextFitStatus::DoesNotFit,
            fits: false,
            recommended_context: None,
            recommend_fp8: false,
            recommend_cache: None,
            advice: if overflow_gb > 0 {
                Advice::VllmEnableOffload { required_gb: overflow_gb, requested }
            } else {
                Advice::VllmEnableOverflow
            },
        };
    }
    FitDecision {
        status: ContextFitStatus::DoesNotFit,
        fits: false,
        recommended_context: Some(lower),
        recommend_fp8: false,
        recommend_cache: None,
        advice: if lower > 0 {
            Advice::VllmLowerContext { limit: lower }
        } else {
            match f.required_cpu_offload_gb {
                Some(offload_gb) => Advice::VllmLowerOrOffloadWeights { offload_gb },
                None => Advice::VllmLowerOrSmallerModel,
            }
        },
    }
}

impl ContextFitReport {
    /// The report repeats what a vLLM server was asked for.
    pub open spec fn repeats_vllm(self, v: VllmFitInput) -> bool {
        &&& self.backend@ == "vllm"@
        &&& self.model_id@ == v.model_id@
        &&& self.requested_context == v.requested_context
        &&& self.native_context == v.native_context
        &&& self.context_estimated == v.context_estimated
        &&& self.weight_bytes == v.weight_bytes
        &&& self.weight_source@ == v.weight_source@
        &&& self.kv_cache_label@ == v.kv_cache_dtype@
        &&& self.overflow_label@ == "CPU KV cache"@
        &&& self.vram_total_mb == v.vram_total_mb
        &&& self.vram_free_mb == v.vram_free_mb
        &&& self.ram_total_mb == v.ram_total_mb
        &&& self.ram_available_mb == v.ram_available_mb
    }

    /// The report answers whether the context of a vLLM server fits.
    pub open spec fn answers_vllm(self, v: VllmFitInput) -> bool {
        &&& self.repeats_vllm(v)
        &&& match v.obstacle() {
            Some(w) => self.figures is None && self.decision == undecided() && self.warnings@
                == seq![w],
            None => self.figures == Some(v.figures()) && self.decision == v.decision()
                && self.warnings@ == v.warnings(),
        }
    }
}

fn vllm_report(
    v: &VllmFitInput,
    figures: Option<FitFigures>,
    decision: FitDecision,
    warnings: Vec<Warning>,
) -> (r: ContextFitReport)
    ensures
        r.repeats_vllm(*v),
        r.figures == figures,
        r.decision == decision,
        r.warnings == warnings,
{
    ContextFitReport {
        backend: "vllm".to_string(),
        model_id: v.model_id.clone(),
        requested_context: v.requested_context,
        native_context: v.native_context,
        context_estimated: v.context_estimated,
        weight_bytes: v.weight_bytes,
        weight_source: v.weight_source.clone(),
        kv_cache_label: v.kv_cache_dtype.clone(),
        overflow_label: "CPU KV cache".to_string(),
        vram_total_mb: v.vram_total_mb,
        vram_free_mb: v.vram_free_mb,
        ram_total_mb: v.ram_total_mb,
        ram_available_mb: v.ram_available_mb,
        figures,
        decision,
        warnings,
    }
}

/// What keeps a vLLM context from being analyzed, or the bytes of an element of its cache.
fn vllm_obstacle(v: &VllmFitInput) -> (r: Result<u8, Warning>)
    ensures
        match r {
            Ok(bytes) => v.obstacle() is None && v.element_bytes() == Some(bytes) && 1 <= bytes <= 2,
            Err(w) => v.obstacle() == Some(w),
        },
{
    let (Some(layers), Some(heads), Some(dim)) = (v.n_layers, v.n_kv_heads, v.head_dim) else {
        return Err(Warning::VllmUnavailable);
    };
    if v.vram_total_mb.is_none() || v.weight_bytes.is_none() {
        return Err(Warning::VllmUnavailable);
    }
    if v.requested_context == 0 || layers == 0 || heads == 0 || dim == 0 {
        return Err(Warning::VllmZero);
    }
    match vllm_dtype_bytes(&v.kv_cache_dtype, None) {
        Some(bytes) => Ok(bytes),
        None => Err(Warning::VllmUnsupportedDtype),
    }
}

/// Whether the requested context of a vLLM server fits into the memory of the machine.
pub fn analyze_vllm_context(v: &VllmFitInput) -> (r: ContextFitReport)
    ensures
        r.answers_vllm(*v),
{
    let mut warnings: Vec<Warning> = Vec::new();
    let bytes = match vllm_obstacle(v) {
        Ok(bytes) => bytes,
        Err(w) => {
            warnings.push(w);
            assert(warnings@ =~= seq![w]);
            return vllm_report(v, None, undecided_decision(), warnings);
        },
    };
    let amounts = vllm_amounts(v, bytes);
    let figures = vllm_figures(v, &amounts);
    let decision = vllm_decision(v, &amounts, &figures);
    let native_fits = match amounts.limit {
        Some(l) => v.requested_context <= l,
        None => true,
    };
    if !native_fits {
        warnings.push(Warning::VllmOverNative);
    }
    if amounts.current_util + 50 < v.gpu_mem_util {
        warnings.push(
            Warning::VllmClamped {
                asked_percent: percent_of(v.gpu_mem_util),
                given_percent: percent_of(amounts.current_util),
            },
        );
    }
    assert(warnings@ =~= v.warnings());
    vllm_report(v, Some(figures), decision, warnings)
}

// ---------------------------------------------------------------------------
// llama.cpp
// ---------------------------------------------------------------------------

/// What is known of a model, a server of llama.cpp for it and the machine.
#[derive(Debug)]
pub struct LlamaFitInput {
    pub model_id: String,
    pub requested_context: usize,
    pub native_context: Option<usize>,
    pub weight_bytes: Option<u64>,
    pub n_layers: Option<usize>,
    pub n_kv_heads: Option<usize>,
    pub key_head_dim: Option<usize>,
    pub value_head_dim: Option<usize>,
    pub cache_type_k: String,
    pub cache_type_v: String,
    pub flash_attn: bool,
    pub n_gpu_layers: Option<usize>,
    pub n_cpu_moe: Option<usize>,
    pub fit: bool,
    pub fit_target_bytes: u64,
    pub no_kv_offload: bool,
    pub vram_total_mb: Option<u64>,
    pub vram_free_mb: Option<u64>,
    pub ram_total_mb: Option<u64>,
    pub ram_available_mb: Option<u64>,
    pub vram_overhead_bytes: u64,
}

impl LlamaFitInput {
    /// The dimensions of the KV cache are known, and none is zero.
    pub open spec fn dims_known(self) -> bool {
        &&& self.n_layers matches Some(l) && l > 0
        &&& self.n_kv_heads matches Some(h) && h > 0
        &&& self.key_head_dim matches Some(k) && k > 0
        &&& self.value_head_dim matches Some(w) && w > 0
    }

    /// The parts that one token adds to the KV cache when an element of a key takes `key`
    /// parts and one of a value takes `value`.
    pub open spec fn kv_with(self, key: int, value: int) -> int {
        let layers = self.n_layers->0 as int;
        let heads = self.n_kv_heads->0 as int;
        dims(layers, heads, self.key_head_dim->0 as int) * key + dims(
            layers,
            heads,
            self.value_head_dim->0 as int,
        ) * value
    }

    /// What keeps the analysis from being made.
    pub open spec fn obstacle(self) -> Option<Warning> {
        if self.weight_bytes is None || self.vram_total_mb is None {
            Some(Warning::LlamaUnavailable)
        } else if !self.dims_known() || cache_parts(self.cache_type_k@) is None || cache_parts(
            self.cache_type_v@,
        ) is None {
            Some(Warning::LlamaCacheUnavailable)
        } else {
            None
        }
    }

    pub open spec fn kv_per_token(self) -> int {
        self.kv_with(
            cache_parts(self.cache_type_k@)->0 as int,
            cache_parts(self.cache_type_v@)->0 as int,
        )
    }

    pub open spec fn required_kv(self) -> int {
        kv_of(self.requested_context as int, self.kv_per_token())
    }

    pub open spec fn limit(self) -> Option<usize> {
        context_limit(self.native_context, None)
    }

    pub open spec fn free(self) -> int {
        (match self.vram_free_mb {
            Some(f) => f,
            None => self.vram_total_mb->0,
        }) * MIB
    }

    pub open spec fn weights(self) -> int {
        self.weight_bytes->0 * PARTS_PER_BYTE
    }

    /// The weights on the card: the share of the layers that are there.
    pub open spec fn gpu_weights(self) -> int {
        match self.n_gpu_layers {
            Some(n) => if n < self.n_layers->0 {
                (self.weights() * n) / (self.n_layers->0 as int)
            } else {
                self.weights()
            },
            None => self.weights(),
        }
    }

    pub open spec fn cpu_weights(self) -> int {
        self.weights() - self.gpu_weights()
    }

    pub open spec fn overhead(self) -> int {
        self.vram_overhead_bytes * PARTS_PER_BYTE + (if self.fit {
            self.fit_target_bytes * PARTS_PER_BYTE
        } else {
            0
        })
    }

    pub open spec fn budget(self) -> int {
        self.free() - self.gpu_weights() - self.overhead()
    }

    pub open spec fn max_vram(self) -> int {
        limited(context_for(self.budget(), self.kv_per_token()), self.limit())
    }

    pub open spec fn projected(self) -> int {
        self.gpu_weights() + self.overhead() + self.required_kv()
    }

    pub open spec fn headroom(self) -> int {
        self.free() - self.projected()
    }

    pub open spec fn native_fits(self) -> bool {
        self.limit() matches Some(l) ==> self.requested_context <= l
    }

    pub open spec fn vram_fits(self) -> bool {
        self.required_kv() <= at_least(self.budget(), 0) && self.native_fits()
    }

    pub open spec fn ram_available(self) -> int {
        match self.ram_available_mb {
            Some(a) => a * MIB,
            None => 0,
        }
    }

    pub open spec fn ram_required(self) -> int {
        self.cpu_weights() + self.required_kv()
    }

    pub open spec fn max_with_ram(self) -> int {
        limited(
            capped_sum(
                self.max_vram(),
                context_for(
                    at_least(self.ram_available() - self.cpu_weights(), 0),
                    self.kv_per_token(),
                ),
            ),
            self.limit(),
        )
    }

    /// The whole GiB that do not fit on the card.
    pub open spec fn required_offload(self) -> Option<usize> {
        if self.projected() > self.free() {
            Some(
                at_most(
                    ceiling(self.projected() - self.free(), GIB as int),
                    usize::MAX as int,
                ) as usize,
            )
        } else {
            None
        }
    }

    pub open spec fn figures(self) -> FitFigures {
        FitFigures {
            kv_per_token: self.kv_per_token() as i128,
            required_kv: self.required_kv() as i128,
            vram_budget: self.budget() as i128,
            projected_vram: self.projected() as i128,
            vram_headroom: self.headroom() as i128,
            max_vram_context: self.max_vram() as usize,
            max_with_ram_context: (if self.no_kv_offload {
                self.max_with_ram()
            } else {
                self.max_vram()
            }) as usize,
            max_context_no_overflow: self.max_vram() as usize,
            max_context_with_overflow: self.max_with_ram() as usize,
            overflow_enabled: self.no_kv_offload,
            overflow_required_gb: None,
            fits_with_current_free: self.vram_fits(),
            ram_required: self.ram_required() as i128,
            effective_gpu_mem_util: None,
            required_cpu_offload_gb: self.required_offload(),
        }
    }

    /// The tokens that fit on the card when both caches have elements of `parts` parts.
    pub open spec fn max_with_cache(self, parts: int) -> int {
        limited(context_for(self.budget(), self.kv_with(parts, parts)), self.limit())
    }

    pub open spec fn decision(self) -> FitDecision {
        let requested = self.requested_context;
        let lower = rounded_context(self.max_vram()) as usize;
        if self.vram_fits() {
            let tight = 10 * self.headroom() < at_least(self.free(), MIB as int);
            let mib = at_most(rounded(self.headroom(), MIB as int), u64::MAX as int) as u64;
            FitDecision {
                status: if tight {
                    ContextFitStatus::Tight
                } else {
                    ContextFitStatus::Fits
                },
                fits: true,
                recommended_context: Some(requested),
                recommend_fp8: false,
                recommend_cache: None,
                advice: if tight {
                    Advice::LlamaTight { mib }
                } else {
                    Advice::LlamaFits { mib }
                },
            }
        } else if self.no_kv_offload && self.ram_required() <= self.ram_available()
            && self.native_fits() {
            FitDecision {
                status: ContextFitStatus::FitsWithCpu,
                fits: true,
                recommended_context: Some(requested),
                recommend_fp8: false,
                recommend_cache: None,
                advice: Advice::LlamaCpuOverflow,
            }
        } else if self.native_fits() && self.max_with_ram() >= requested {
            FitDecision {
                status: ContextFitStatus::DoesNotFit,
                fits: false,
                recommended_context: Some(lower),
                recommend_fp8: false,
                recommend_cache: None,
                advice: Advice::LlamaEnableOverflow { requested, limit: lower },
            }
        } else if self.max_with_cache(272) >= requested && self.cache_type_k@ != "q8_0"@
            && self.cache_type_v@ != "q8_0"@ {
            FitDecision {
                status: ContextFitStatus::DoesNotFit,
                fits: false,
                recommended_context: Some(requested),
                recommend_fp8: false,
                recommend_cache: Some(CacheChoice::Q8),
                advice: Advice::LlamaUseQ8,
            }
        } else if self.max_with_cache(144) >= requested && self.cache_type_k@ != "q4_0"@
            && self.cache_type_v@ != "q4_0"@ {
            FitDecision {
                status: ContextFitStatus::DoesNotFit,
                fits: false,
                recommended_context: Some(requested),
                recommend_fp8: false,
                recommend_cache: Some(CacheChoice::Q4),
                advice: Advice::LlamaUseQ4,
            }
        } else {
            FitDecision {
                status: ContextFitStatus::DoesNotFit,
                fits: false,
                recommended_context: Some(lower),
                recommend_fp8: false,
                recommend_cache: None,
                advice: if lower > 0 {
                    Advice::LlamaLowerContext { limit: lower }
                } else {
                    match self.required_offload() {
                        Some(offload_gb) => Advice::LlamaReduceWeights { offload_gb },
                        None => Advice::LlamaLowerLayers,
                    }
                },
            }
        }
    }

    /// The types of a quantized V cache whose support for Flash Attention varies.
    pub open spec fn flash_varies(self) -> bool {
        let t = text::ascii_lowercase(self.cache_type_v@);
        self.flash_attn && (t == "q4_0"@ || t == "q4_1"@ || t == "q5_0"@ || t == "q5_1"@ || t
            == "iq4_nl"@)
    }

    pub open spec fn warnings(self) -> Seq<Warning> {
        (if self.vram_free_mb is None {
            seq![Warning::LlamaFreeUnknown]
        } else {
            seq![]
        }) + (if !self.native_fits() {
            seq![Warning::LlamaOverNative]
        } else {
            seq![]
        }) + (if self.n_cpu_moe matches Some(n) && n > 0 {
            seq![Warning::LlamaCpuMoe]
        } else {
            seq![]
        }) + (if self.flash_varies() {
            seq![Warning::LlamaFlashAttention]
        } else {
            seq![]
        }) + (if self.fit {
            seq![Warning::LlamaFit]
        } else {
            seq![]
        })
    }
}

/// The parts that one token adds to the KV cache.
fn llama_kv(v: &LlamaFitInput, key: u32, value: u32) -> (r: i128)
    requires
        v.dims_known(),
        1 <= key <= 1024,
        1 <= value <= 1024,
    ensures
        r == v.kv_with(key as int, value as int),
        0 < r <= 0x800_0000_0000_0000_0000_0000_0000,
{
    let layers: usize = v.n_layers.unwrap();
    let heads: usize = v.n_kv_heads.unwrap();
    let keys = product(layers, heads, v.key_head_dim.unwrap());
    let values = product(layers, heads, v.value_head_dim.unwrap());
    assert(0 < keys * key <= keys * 1024) by (nonlinear_arith)
        requires
            0 < keys,
            1 <= key <= 1024,
    ;
    assert(0 < values * value <= values * 1024) by (nonlinear_arith)
        requires
            0 < values,
            1 <= value <= 1024,
    ;
    keys * key as i128 + values * value as i128
}

/// What keeps a llama.cpp context from being analyzed, or the parts of an element of its
/// two caches.
fn llama_obstacle(v: &LlamaFitInput) -> (r: Result<(u32, u32), Warning>)
    ensures
        match r {
            Ok((key, value)) => v.obstacle() is None && v.dims_known() && cache_parts(
                v.cache_type_k@,
            ) == Some(key) && cache_parts(v.cache_type_v@) == Some(value) && 1 <= key <= 1024 && 1
                <= value <= 1024,
            Err(w) => v.obstacle() == Some(w),
        },
{
    if v.weight_bytes.is_none() || v.vram_total_mb.is_none() {
        return Err(Warning::LlamaUnavailable);
    }
    let (Some(layers), Some(heads), Some(key_dim), Some(value_dim)) = (
        v.n_layers,
        v.n_kv_heads,
        v.key_head_dim,
        v.value_head_dim,
    ) else {
        return Err(Warning::LlamaCacheUnavailable);
    };
    let (Some(key), Some(value)) = (
        cache_bytes_per_element(&v.cache_type_k),
        cache_bytes_per_element(&v.cache_type_v),
    ) else {
        return Err(Warning::LlamaCacheUnavailable);
    };
    if layers == 0 || heads == 0 || key_dim == 0 || value_dim == 0 {
        return Err(Warning::LlamaCacheUnavailable);
    }
    Ok((key, value))
}

/// The parts that one token adds to the KV cache, where they are known.
pub fn llama_kv_bytes_per_token(v: &LlamaFitInput) -> (r: Option<i128>)
    ensures
        match r {
            Some(kv) => v.dims_known() && cache_parts(v.cache_type_k@) is Some && cache_parts(
                v.cache_type_v@,
            ) is Some && kv == v.kv_per_token(),
            None => !v.dims_known() || cache_parts(v.cache_type_k@) is None || cache_parts(
                v.cache_type_v@,
            ) is None,
        },
{
    let (Some(layers), Some(heads), Some(key_dim), Some(value_dim)) = (
        v.n_layers,
        v.n_kv_heads,
        v.key_head_dim,
        v.value_head_dim,
    ) else {
        return None;
    };
    let (Some(key), Some(value)) = (
        cache_bytes_per_element(&v.cache_type_k),
        cache_bytes_per_element(&v.cache_type_v),
    ) else {
        return None;
    };
    if layers == 0 || heads == 0 || key_dim == 0 || value_dim == 0 {
        return None;
    }
    Some(llama_kv(v, key, value))
}

/// The amounts that the analysis of a llama.cpp context works with.
struct LlamaAmounts {
    kv: i128,
    required: i128,
    free: i128,
    gpu_weights: i128,
    cpu_weights: i128,
    overhead: i128,
    ram_available: i128,
    max_vram: usize,
    max_with_ram: usize,
    limit: Option<usize>,
}

impl LlamaAmounts {
    spec fn of(self, v: LlamaFitInput) -> bool {
        &&& self.kv == v.kv_per_token()
        &&& self.required == v.required_kv()
        &&& self.free == v.free()
        &&& self.gpu_weights == v.gpu_weights()
        &&& self.cpu_weights == v.cpu_weights()
        &&& self.overhead == v.overhead()
        &&& self.ram_available == v.ram_available()
        &&& self.max_vram == v.max_vram()
        &&& self.max_with_ram == v.max_with_ram()
        &&& self.limit == v.limit()
        &&& 0 <= self.required <= KV_LIMIT
        &&& 0 <= self.free <= 0x1_0000_0000_0000_0000 * MIB
        &&& 0 <= self.gpu_weights <= 0x1_0000_0000_0000_0000 * PARTS_PER_BYTE
        &&& 0 <= self.cpu_weights <= 0x1_0000_0000_0000_0000 * PARTS_PER_BYTE
        &&& 0 <= self.overhead <= 0x1_0000_0000_0000_0000 * PARTS_PER_BYTE * 2
        &&& 0 <= self.ram_available <= 0x1_0000_0000_0000_0000 * MIB
    }
}

fn llama_amounts(v: &LlamaFitInput, key: u32, value: u32) -> (r: LlamaAmounts)
    requires
        v.obstacle() is None,
        v.dims_known(),
        cache_parts(v.cache_type_k@) == Some(key),
        cache_parts(v.cache_type_v@) == Some(value),
        1 <= key <= 1024,
        1 <= value <= 1024,
    ensures
        r.of(*v),
{
    let kv = llama_kv(v, key, value);
    let required = kv_amount(v.requested_context, kv);
    let limit = limit_of(v.native_context, None);
    let free: i128 = (match v.vram_free_mb {
        Some(f) => f,
        None => v.vram_total_mb.unwrap(),
    }) as i128 * MIB;
    let weights: i128 = v.weight_bytes.unwrap() as i128 * PARTS_PER_BYTE;
    let layers: usize = v.n_layers.unwrap();
    let mut gpu_weights: i128 = weights;
    if let Some(n) = v.n_gpu_layers {
        if n < layers {
            let (part, rest) = estimate::mul_div(weights as u128, n as u128, layers as u128);
            assert(part as int == (weights * n) / (layers as int)) by (nonlinear_arith)
                requires
                    part * layers + rest == weights * n,
                    0 <= rest < layers,
            ;
            gpu_weights = part as i128;
        }
    }
    let cpu_weights: i128 = weights - gpu_weights;
    let overhead: i128 = v.vram_overhead_bytes as i128 * PARTS_PER_BYTE + if v.fit {
        v.fit_target_bytes as i128 * PARTS_PER_BYTE
    } else {
        0
    };
    let budget: i128 = free - gpu_weights - overhead;
    let max_vram = limit_to(vram_context_for_budget(budget, kv), limit);
    let ram_available: i128 = match v.ram_available_mb {
        Some(a) => a as i128 * MIB,
        None => 0,
    };
    let ram_context = vram_context_for_budget(positive_part(ram_available - cpu_weights), kv);
    let max_with_ram = limit_to(capped_add(max_vram, ram_context), limit);
    LlamaAmounts {
        kv,
        required,
        free,
        gpu_weights,
        cpu_weights,
        overhead,
        ram_available,
        max_vram,
        max_with_ram,
        limit,
    }
}

fn llama_figures(v: &LlamaFitInput, a: &LlamaAmounts) -> (r: FitFigures)
    requires
        v.obstacle() is None,
        a.of(*v),
    ensures
        r == v.figures(),
{
    let native_fits = match a.limit {
        Some(l) => v.requested_context <= l,
        None => true,
    };
    let budget: i128 = a.free - a.gpu_weights - a.overhead;
    let projected: i128 = a.gpu_weights + a.overhead + a.required;
    let required_offload: Option<usize> = if projected > a.free {
        Some(ceiling_units(projected - a.free, GIB))
    } else {
        None
    };
    FitFigures {
        kv_per_token: a.kv,
        required_kv: a.required,
        vram_budget: budget,
        projected_vram: projected,
        vram_headroom: a.free - projected,
        max_vram_context: a.max_vram,
        max_with_ram_context: if v.no_kv_offload {
            a.max_with_ram
        } else {
            a.max_vram
        },
        max_context_no_overflow: a.max_vram,
        max_context_with_overflow: a.max_with_ram,
        overflow_enabled: v.no_kv_offload,
        overflow_required_gb: None,
        fits_with_current_free: a.required <= positive_part(budget) && native_fits,
        ram_required: a.cpu_weights + a.required,
        effective_gpu_mem_util: None,
        required_cpu_offload_gb: required_offload,
    }
}

fn llama_decision(v: &LlamaFitInput, a: &LlamaAmounts, f: &FitFigures) -> (r: FitDecision)
    requires
        v.obstacle() is None,
        v.dims_known(),
        a.of(*v),
        *f == v.figures(),
    ensures
        r == v.decision(),
{
    let requested = v.requested_context;
    let native_fits = match a.limit {
        Some(l) => requested <= l,
        None => true,
    };
    let lower = round_context_down(a.max_vram);
    let projected: i128 = a.gpu_weights + a.overhead + a.required;
    let headroom: i128 = a.free - projected;
    let budget: i128 = a.free - a.gpu_weights - a.overhead;
    if f.fits_with_current_free {
        let threshold: i128 = if a.free < MIB {
            MIB
        } else {
            a.free
        };
        let tight = 10 * headroom < threshold;
        let mib = rounded_units(headroom, MIB);
        return FitDecision {
            status: if tight {
                ContextFitStatus::Tight
            } else {
                ContextFitStatus::Fits
            },
            fits: true,
            recommended_context: Some(requested),
            recommend_fp8: false,
            recommend_cache: None,
            advice: if tight {
                Advice::LlamaTight { mib }
            } else {
                Advice::LlamaFits { mib }
            },
        };
    }
    if v.no_kv_offload && a.cpu_weights + a.required <= a.ram_available && native_fits {
        return FitDecision {
            status: ContextFitStatus::FitsWithCpu,
            fits: true,
            recommended_context: Some(requested),
            recommend_fp8: false,
            recommend_cache: None,
            advice: Advice::LlamaCpuOverflow,
        };
    }
    if native_fits && a.max_with_ram >= requested {
        return FitDecision {
            status: ContextFitStatus::DoesNotFit,
            fits: false,
            recommended_context: Some(lower),
            recommend_fp8: false,
            recommend_cache: None,
            advice: Advice::LlamaEnableOverflow { requested, limit: lower },
        };
    }
    let q8_max = limit_to(vram_context_for_budget(budget, llama_kv(v, 272, 272)), a.limit);
    if q8_max >= requested && !text::same(&v.cache_type_k, "q8_0") && !text::same(
        &v.cache_type_v,
        "q8_0",
    ) {
        return FitDecision {
            status: ContextFitStatus::DoesNotFit,
            fits: false,
            recommended_context: Some(requested),
            recommend_fp8: false,
            recommend_cache: Some(CacheChoice::Q8),
            advice: Advice::LlamaUseQ8,
        };
    }
    let q4_max = limit_to(vram_context_for_budget(budget, llama_kv(v, 144, 144)), a.limit);
    if q4_max >= requested && !text::same(&v.cache_type_k, "q4_0") && !text::same(
        &v.cache_type_v,
        "q4_0",
    ) {
        return FitDecision {
            status: ContextFitStatus::DoesNotFit,
            fits: false,
            recommended_context: Some(requested),
            recommend_fp8: false,
            recommend_cache: Some(CacheChoice::Q4),
            advice: Advice::LlamaUseQ4,
        };
    }
    FitDecision {
        status: ContextFitStatus::DoesNotFit,
        fits: false,
        recommended_context: Some(lower),
        recommend_fp8: false,
        recommend_cache: None,
        advice: if lower > 0 {
            Advice::LlamaLowerContext { limit: lower }
        } else {
            match f.required_cpu_offload_gb {
                Some(offload_gb) => Advice::LlamaReduceWeights { offload_gb },
                None => Advice::LlamaLowerLayers,
            }
        },
    }
}

impl ContextFitReport {
    /// The report repeats what a llama.cpp server was asked for.
    pub open spec fn repeats_llama(self, v: LlamaFitInput) -> bool {
        &&& self.backend@ == "llamacpp"@
        &&& self.model_id@ == v.model_id@
        &&& self.requested_context == v.requested_context
        &&& self.native_context == v.native_context
        &&& !self.context_estimated
        &&& self.weight_bytes == v.weight_bytes
        &&& self.weight_source@ == "gguf_file_size"@
        &&& self.kv_cache_label@ == "K "@ + v.cache_type_k@ + " / V "@ + v.cache_type_v@
        &&& self.overflow_label@ == "CPU KV cache"@
        &&& self.vram_total_mb == v.vram_total_mb
        &&& self.vram_free_mb == v.vram_free_mb
        &&& self.ram_total_mb == v.ram_total_mb
        &&& self.ram_available_mb == v.ram_available_mb
    }

    /// The report answers whether the context of a llama.cpp server fits.
    pub open spec fn answers_llama(self, v: LlamaFitInput) -> bool {
        &&& self.repeats_llama(v)
        &&& match v.obstacle() {
            Some(w) => self.figures is None && self.decision == undecided() && self.warnings@
                == seq![w],
            None => self.figures == Some(v.figures()) && self.decision == v.decision()
                && self.warnings@ == v.warnings(),
        }
    }
}

fn llama_report(
    v: &LlamaFitInput,
    figures: Option<FitFigures>,
    decision: FitDecision,
    warnings: Vec<Warning>,
) -> (r: ContextFitReport)
    ensures
        r.repeats_llama(*v),
        r.figures == figures,
        r.decision == decision,
        r.warnings == warnings,
{
    let mut label = "K ".to_string();
    label.append(&v.cache_type_k);
    label.append(" / V ");
    label.append(&v.cache_type_v);
    ContextFitReport {
        backend: "llamacpp".to_string(),
        model_id: v.model_id.clone(),
        requested_context: v.requested_context,
        native_context: v.native_context,
        context_estimated: false,
        weight_bytes: v.weight_bytes,
        weight_source: "gguf_file_size".to_string(),
        kv_cache_label: label,
        overflow_label: "CPU KV cache".to_string(),
        vram_total_mb: v.vram_total_mb,
        vram_free_mb: v.vram_free_mb,
        ram_total_mb: v.ram_total_mb,
        ram_available_mb: v.ram_available_mb,
        figures,
        decision,
        warnings,
    }
}

/// Whether the requested context of a llama.cpp server fits into the memory of the machine.
pub fn analyze_llama_context(v: &LlamaFitInput) -> (r: ContextFitReport)
    ensures
        r.answers_llama(*v),
{
    let mut warnings: Vec<Warning> = Vec::new();
    let (key, value) = match llama_obstacle(v) {
        Ok(parts) => parts,
        Err(w) => {
            warnings.push(w);
            assert(warnings@ =~= seq![w]);
            return llama_report(v, None, undecided_decision(), warnings);
        },
    };
    let amounts = llama_amounts(v, key, value);
    let figures = llama_figures(v, &amounts);
    let decision = llama_decision(v, &amounts, &figures);
    let native_fits = match amounts.limit {
        Some(l) => v.requested_context <= l,
        None => true,
    };
    if v.vram_free_mb.is_none() {
        warnings.push(Warning::LlamaFreeUnknown);
    }
    if !native_fits {
        warnings.push(Warning::LlamaOverNative);
    }
    if let Some(n) = v.n_cpu_moe {
        if n > 0 {
            warnings.push(Warning::LlamaCpuMoe);
        }
    }
    let t = text::ascii_lowered(&v.cache_type_v);
    if v.flash_attn && (text::same(&t, "q4_0") || text::same(&t, "q4_1") || text::same(&t, "q5_0")
        || text::same(&t, "q5_1") || text::same(&t, "iq4_nl")) {
        warnings.push(Warning::LlamaFlashAttention);
    }
    if v.fit {
        warnings.push(Warning::LlamaFit);
    }
    assert(warnings@ =~= v.warnings());
    llama_report(v, Some(figures), decision, warnings)
}

// ---------------------------------------------------------------------------
// Messages
// ---------------------------------------------------------------------------

/// What a piece of advice says.
pub open spec fn advice_message(advice: Advice) -> Seq<char> {
    match advice {
        Advice::Unknown => "Insufficient metadata for a reliable fit result."@,
        Advice::VllmTight { mib } => "The context fits without overflow, but current headroom is only "@ + numeral::decimal(mib as nat) + " MiB."@,
        Advice::VllmFits { mib } => "The requested context fits without overflow with about "@ + numeral::decimal(mib as nat) + " MiB of current VRAM headroom."@,
        Advice::VllmOverflowConfigured => "The context fits with the configured CPU KV-cache overflow budget, but throughput may be lower while the offloaded portion is used."@,
        Advice::VllmCloseAppsOrOffload { limit, required_gb, requested } => "The configured GPU budget fits, but current VRAM only supports about "@ + numeral::decimal(limit as nat) + " tokens without overflow. Close GPU-heavy apps or enable at least "@ + numeral::decimal(required_gb as nat) + " GB of CPU KV offload for "@ + numeral::decimal(requested as nat) + " tokens."@,
        Advice::VllmCloseApps { limit } => "Close GPU-heavy applications or lower the context to about "@ + numeral::decimal(limit as nat) + " tokens."@,
        Advice::VllmUseFp8 => "Use FP8 E4M3 KV cache to fit this context without overflow; verify output quality after the change."@,
        Advice::VllmEnableOffload { required_gb, requested } => "Enable at least "@ + numeral::decimal(required_gb as nat) + " GB of CPU KV offload to run "@ + numeral::decimal(requested as nat) + " tokens with overflow, or lower the context to the no-overflow limit."@,
        Advice::VllmEnableOverflow => "Enable CPU KV overflow to reach the requested context without overflowing GPU memory."@,
        Advice::VllmLowerContext { limit } => "Lower the context to at most "@ + numeral::decimal(limit as nat) + " tokens for the current no-overflow limit."@,
        Advice::VllmLowerOrOffloadWeights { offload_gb } => "Lower the context or enable at least "@ + numeral::decimal(offload_gb as nat) + " GB of CPU weight offload."@,
        Advice::VllmLowerOrSmallerModel => "Lower the context, reduce GPU utilization pressure, or use a smaller model."@,
        Advice::LlamaTight { mib } => "The context fits, but only about "@ + numeral::decimal(mib as nat) + " MiB of VRAM remains."@,
        Advice::LlamaFits { mib } => "The requested context fits with about "@ + numeral::decimal(mib as nat) + " MiB of VRAM headroom."@,
        Advice::LlamaCpuOverflow => "The model can run with CPU KV-cache overflow, but generation will usually be much slower."@,
        Advice::LlamaEnableOverflow { requested, limit } => "Enable CPU KV-cache overflow (Disable KV-cache offload) to run "@ + numeral::decimal(requested as nat) + " tokens, or lower the context to about "@ + numeral::decimal(limit as nat) + " tokens."@,
        Advice::LlamaUseQ8 => "Use q8_0 for both K and V cache to reduce KV-cache memory."@,
        Advice::LlamaUseQ4 => "Use q4_0 K/V cache to fit this context; verify quality because K-cache quantization is more aggressive."@,
        Advice::LlamaLowerContext { limit } => "Lower the context to at most "@ + numeral::decimal(limit as nat) + " tokens, reduce GPU layers, or enable CPU MoE offload."@,
        Advice::LlamaReduceWeights { offload_gb } => "Reduce GPU-resident weights by about "@ + numeral::decimal(offload_gb as nat) + " GB using fewer GPU layers or CPU MoE offload, or use a smaller GGUF."@,
        Advice::LlamaLowerLayers => "Lower GPU layers, enable CPU MoE offload, use a smaller GGUF, or lower the context enough for a CPU KV cache."@,
    }
}

/// What a piece of advice says.
pub fn advice_text(advice: Advice) -> (r: String)
    ensures
        r@ == advice_message(advice),
{
    match advice {
        Advice::Unknown => "Insufficient metadata for a reliable fit result.".to_string(),
        Advice::VllmTight { mib } => {
            let mut out = "The context fits without overflow, but current headroom is only ".to_string();
            out.append(&numeral::number_text(mib as u64));
            out.append(" MiB.");
            out
        },
        Advice::VllmFits { mib } => {
            let mut out = "The requested context fits without overflow with about ".to_string();
            out.append(&numeral::number_text(mib as u64));
            out.append(" MiB of current VRAM headroom.");
            out
        },
        Advice::VllmOverflowConfigured => "The context fits with the configured CPU KV-cache overflow budget, but throughput may be lower while the offloaded portion is used.".to_string(),
        Advice::VllmCloseAppsOrOffload { limit, required_gb, requested } => {
            let mut out = "The configured GPU budget fits, but current VRAM only supports about ".to_string();
            out.append(&numeral::number_text(limit as u64));
            out.append(" tokens without overflow. Close GPU-heavy apps or enable at least ");
            out.append(&numeral::number_text(required_gb as u64));
            out.append(" GB of CPU KV offload for ");
            out.append(&numeral::number_text(requested as u64));
            out.append(" tokens.");
            out
        },
        Advice::VllmCloseApps { limit } => {
            let mut out = "Close GPU-heavy applications or lower the context to about ".to_string();
            out.append(&numeral::number_text(limit as u64));
            out.append(" tokens.");
            out
        },
        Advice::VllmUseFp8 => "Use FP8 E4M3 KV cache to fit this context without overflow; verify output quality after the change.".to_string(),
        Advice::VllmEnableOffload { required_gb, requested } => {
            let mut out = "Enable at least ".to_string();
            out.append(&numeral::number_text(required_gb as u64));
            out.append(" GB of CPU KV offload to run ");
            out.append(&numeral::number_text(requested as u64));
            out.append(" tokens with overflow, or lower the context to the no-overflow limit.");
            out
        },
        Advice::VllmEnableOverflow => "Enable CPU KV overflow to reach the requested context without overflowing GPU memory.".to_string(),
        Advice::VllmLowerContext { limit } => {
            let mut out = "Lower the context to at most ".to_string();
            out.append(&numeral::number_text(limit as u64));
            out.append(" tokens for the current no-overflow limit.");
            out
        },
        Advice::VllmLowerOrOffloadWeights { offload_gb } => {
            let mut out = "Lower the context or enable at least ".to_string();
            out.append(&numeral::number_text(offload_gb as u64));
            out.append(" GB of CPU weight offload.");
            out
        },
        Advice::VllmLowerOrSmallerModel => "Lower the context, reduce GPU utilization pressure, or use a smaller model.".to_string(),
        Advice::LlamaTight { mib } => {
            let mut out = "The context fits, but only about ".to_string();
            out.append(&numeral::number_text(mib as u64));
            out.append(" MiB of VRAM remains.");
            out
        },
        Advice::LlamaFits { mib } => {
            let mut out = "The requested context fits with about ".to_string();
            out.append(&numeral::number_text(mib as u64));
            out.append(" MiB of VRAM headroom.");
            out
        },
        Advice::LlamaCpuOverflow => "The model can run with CPU KV-cache overflow, but generation will usually be much slower.".to_string(),
        Advice::LlamaEnableOverflow { requested, limit } => {
            let mut out = "Enable CPU KV-cache overflow (Disable KV-cache offload) to run ".to_string();
            out.append(&numeral::number_text(requested as u64));
            out.append(" tokens, or lower the context to about ");
            out.append(&numeral::number_text(limit as u64));
            out.append(" tokens.");
            out
        },
        Advice::LlamaUseQ8 => "Use q8_0 for both K and V cache to reduce KV-cache memory.".to_string(),
        Advice::LlamaUseQ4 => "Use q4_0 K/V cache to fit this context; verify quality because K-cache quantization is more aggressive.".to_string(),
        Advice::LlamaLowerContext { limit } => {
            let mut out = "Lower the context to at most ".to_string();
            out.append(&numeral::number_text(limit as u64));
            out.append(" tokens, reduce GPU layers, or enable CPU MoE offload.");
            out
        },
        Advice::LlamaReduceWeights { offload_gb } => {
            let mut out = "Reduce GPU-resident weights by about ".to_string();
            out.append(&numeral::number_text(offload_gb as u64));
            out.append(" GB using fewer GPU layers or CPU MoE offload, or use a smaller GGUF.");
            out
        },
        Advice::LlamaLowerLayers => "Lower GPU layers, enable CPU MoE offload, use a smaller GGUF, or lower the context enough for a CPU KV cache.".to_string(),
    }
}

/// What a warning says; `dtype` is the cache type that was asked for.
pub open spec fn warning_message(warning: Warning, dtype: Seq<char>) -> Seq<char> {
    match warning {
        Warning::VllmUnavailable => "Model dimensions, weight size, or VRAM are unavailable."@,
        Warning::VllmZero => "Context and model dimensions must be greater than zero."@,
        Warning::VllmUnsupportedDtype => "Unsupported vLLM KV cache dtype '"@ + dtype + "'."@,
        Warning::VllmOverNative => "Requested context exceeds the model's configured native context."@,
        Warning::VllmClamped { asked_percent, given_percent } => "Current free VRAM will clamp effective utilization from "@ + numeral::decimal(asked_percent as nat) + "% to "@ + numeral::decimal(given_percent as nat) + "%."@,
        Warning::LlamaUnavailable => "GGUF file size or VRAM is unavailable."@,
        Warning::LlamaCacheUnavailable => "GGUF KV dimensions or selected K/V cache types are unavailable."@,
        Warning::LlamaFreeUnknown => "Current free VRAM is unavailable; total VRAM was used."@,
        Warning::LlamaOverNative => "Requested context exceeds the GGUF model's native context."@,
        Warning::LlamaCpuMoe => "CPU MoE offload can reduce GPU weight use, but the exact layer split is not known; this estimate is conservative."@,
        Warning::LlamaFlashAttention => "Flash Attention support for quantized V cache varies by llama.cpp build; the runtime may promote or reject this cache type."@,
        Warning::LlamaFit => "With --fit enabled, llama.cpp may move layers to CPU to make the model start; the GPU-only projection above is conservative."@,
    }
}

/// What a warning says; `dtype` is the cache type that was asked for.
pub fn warning_text(warning: Warning, dtype: &str) -> (r: String)
    ensures
        r@ == warning_message(warning, dtype@),
{
    match warning {
        Warning::VllmUnavailable => "Model dimensions, weight size, or VRAM are unavailable.".to_string(),
        Warning::VllmZero => "Context and model dimensions must be greater than zero.".to_string(),
        Warning::VllmUnsupportedDtype => {
            let mut out = "Unsupported vLLM KV cache dtype '".to_string();
            out.append(dtype);
            out.append("'.");
            out
        },
        Warning::VllmOverNative => "Requested context exceeds the model's configured native context.".to_string(),
        Warning::VllmClamped { asked_percent, given_percent } => {
            let mut out = "Current free VRAM will clamp effective utilization from ".to_string();
            out.append(&numeral::number_text(asked_percent as u64));
            out.append("% to ");
            out.append(&numeral::number_text(given_percent as u64));
            out.append("%.");
            out
        },
        Warning::LlamaUnavailable => "GGUF file size or VRAM is unavailable.".to_string(),
        Warning::LlamaCacheUnavailable => "GGUF KV dimensions or selected K/V cache types are unavailable.".to_string(),
        Warning::LlamaFreeUnknown => "Current free VRAM is unavailable; total VRAM was used.".to_string(),
        Warning::LlamaOverNative => "Requested context exceeds the GGUF model's native context.".to_string(),
        Warning::LlamaCpuMoe => "CPU MoE offload can reduce GPU weight use, but the exact layer split is not known; this estimate is conservative.".to_string(),
        Warning::LlamaFlashAttention => "Flash Attention support for quantized V cache varies by llama.cpp build; the runtime may promote or reject this cache type.".to_string(),
        Warning::LlamaFit => "With --fit enabled, llama.cpp may move layers to CPU to make the model start; the GPU-only projection above is conservative.".to_string(),
    }
}

// ---------------------------------------------------------------------------
// Laws
// ---------------------------------------------------------------------------

/// More memory, or a smaller KV cache per token, never makes the context that fits smaller.
pub proof fn law_context_grows_with_memory(budget: int, more: int, kv: int, less: int)
    requires
        budget <= more,
        0 < less <= kv,
    ensures
        context_for(budget, kv) <= context_for(more, less),
{
    if budget > 0 {
        let a = budget / kv;
        let b = more / less;
        assert(0 <= a) by (nonlinear_arith)
            requires
                budget > 0,
                kv > 0,
                a == budget / kv,
        ;
        assert(a <= b) by (nonlinear_arith)
            requires
                0 < budget <= more,
                0 < less <= kv,
                a == budget / kv,
                b == more / less,
                a >= 0,
        ;
    } else if more > 0 {
        assert(more / less >= 0) by (nonlinear_arith)
            requires
                more > 0,
                less > 0,
        ;
    }
}

/// A context beyond the limit of the model never fits, whatever the memory.
pub proof fn law_vllm_over_native_never_fits(v: VllmFitInput)
    requires
        !v.native_fits(),
    ensures
        !v.decision().fits,
        v.decision().status == ContextFitStatus::DoesNotFit,
{
}

/// A context beyond the limit of the model never fits, whatever the memory.
pub proof fn law_llama_over_native_never_fits(v: LlamaFitInput)
    requires
        !v.native_fits(),
    ensures
        !v.decision().fits,
        v.decision().status == ContextFitStatus::DoesNotFit,
{
}

proof fn lemma_share_bound(mb: u64, points: int)
    requires
        0 <= points <= WHOLE,
    ensures
        0 <= share_of(mb, points) <= mb * MIB,
{
    let whole = mb * MIB;
    assert(0 <= (whole * points) / 10_000 <= whole) by (nonlinear_arith)
        requires
            0 <= whole,
            0 <= points <= 10_000,
    ;
}

/// A vLLM context fits without overflow exactly when it is within the limit that the report
/// gives for that.
pub proof fn law_vllm_fits_within_its_limit(v: VllmFitInput)
    requires
        v.obstacle() is None,
    ensures
        v.current_fits() <==> v.requested_context <= v.current_max(),
{
    let e = v.elements();
    let b = v.element_bytes()->0 as int;
    lemma_dims_positive(v.n_layers->0 as int, v.n_kv_heads->0 as int, v.head_dim->0 as int);
    lemma_element_bytes(e, b);
    lemma_share_bound(v.vram_total_mb->0, v.current_util());
    law_context_is_largest_that_fits(
        v.current_budget(),
        v.kv_per_token(),
        v.requested_context as int,
    );
}

proof fn lemma_cache_parts_positive(name: Seq<char>, i: int)
    ensures
        cache_parts_from(name, i) matches Some(p) ==> 0 < p <= 1024,
    decreases cache_types().len() - i,
{
    if 0 <= i < cache_types().len() {
        lemma_cache_parts_positive(name, i + 1);
    }
}

/// A llama.cpp context fits on the card exactly when it is within the limit that the report
/// gives for that.
pub proof fn law_llama_fits_within_its_limit(v: LlamaFitInput)
    requires
        v.obstacle() is None,
    ensures
        v.vram_fits() <==> v.requested_context <= v.max_vram(),
{
    let layers = v.n_layers->0 as int;
    let heads = v.n_kv_heads->0 as int;
    let key = cache_parts(v.cache_type_k@)->0 as int;
    let value = cache_parts(v.cache_type_v@)->0 as int;
    lemma_cache_parts_positive(text::ascii_lowercase(v.cache_type_k@), 0);
    lemma_cache_parts_positive(text::ascii_lowercase(v.cache_type_v@), 0);
    lemma_dims_positive(layers, heads, v.key_head_dim->0 as int);
    lemma_dims_positive(layers, heads, v.value_head_dim->0 as int);
    let keys = dims(layers, heads, v.key_head_dim->0 as int);
    let values = dims(layers, heads, v.value_head_dim->0 as int);
    assert(keys * key > 0) by (nonlinear_arith)
        requires
            keys > 0,
            key > 0,
    ;
    assert(values * value > 0) by (nonlinear_arith)
        requires
            values > 0,
            value > 0,
    ;
    law_context_is_largest_that_fits(v.budget(), v.kv_per_token(), v.requested_context as int);
}

/// Overflow into RAM never lowers the limit of a vLLM context.
pub proof fn law_vllm_overflow_never_lowers_the_limit(v: VllmFitInput)
    ensures
        v.current_max() <= v.max_with_ram(),
        v.current_max() <= v.max_with_configured(),
{
    lemma_context_not_negative(
        at_least(v.ram_usable() - v.offload(), 0),
        v.kv_per_token(),
    );
    lemma_context_not_negative(v.kv_offload_gb * GIB, v.kv_per_token());
}

proof fn lemma_context_not_negative(budget: int, kv: int)
    ensures
        context_for(budget, kv) >= 0,
{
    if budget > 0 && kv > 0 {
        assert(budget / kv >= 0) by (nonlinear_arith)
            requires
                budget > 0,
                kv > 0,
        ;
    }
}

/// A context that is rounded down is no larger, and loses fewer than 1024 tokens.
pub proof fn law_rounding_is_close(n: int)
    requires
        n >= 0,
    ensures
        rounded_context(n) <= n < rounded_context(n) + 1024,
        rounded_context(n) >= 0,
{
}

/// The figures of a llama.cpp report are the amounts themselves: none is too large for its
/// field.
proof fn lemma_llama_figures(v: LlamaFitInput)
    requires
        v.obstacle() is None,
    ensures
        ({
            let f = v.figures();
            &&& f.kv_per_token == v.kv_per_token() && v.kv_per_token() > 0
            &&& f.required_kv == v.required_kv() && 0 <= v.required_kv() <= KV_LIMIT
            &&& f.vram_budget == v.budget()
            &&& f.projected_vram == v.projected()
            &&& f.vram_headroom == v.headroom()
            &&& f.max_vram_context == v.max_vram()
            &&& f.max_context_no_overflow == v.max_vram()
            &&& f.max_context_with_overflow == v.max_with_ram()
            &&& v.max_vram() <= v.max_with_ram()
            &&& f.ram_required == v.ram_required()
            &&& 0 <= v.gpu_weights() <= v.weights()
        }),
{
    let layers = v.n_layers->0 as int;
    let heads = v.n_kv_heads->0 as int;
    let key = cache_parts(v.cache_type_k@)->0 as int;
    let value = cache_parts(v.cache_type_v@)->0 as int;
    lemma_cache_parts_positive(text::ascii_lowercase(v.cache_type_k@), 0);
    lemma_cache_parts_positive(text::ascii_lowercase(v.cache_type_v@), 0);
    lemma_kv_with_range(v, key, value);
    lemma_kv_of_range(v.requested_context as int, v.kv_per_token());
    let weights = v.weights();
    if let Some(n) = v.n_gpu_layers {
        if n < layers {
            lemma_part_of(weights, n as int, layers);
        }
    }
    lemma_context_not_negative(v.budget(), v.kv_per_token());
    lemma_context_not_negative(
        at_least(v.ram_available() - v.cpu_weights(), 0),
        v.kv_per_token(),
    );
}

proof fn lemma_kv_with_range(v: LlamaFitInput, key: int, value: int)
    requires
        v.dims_known(),
        1 <= key <= 1024,
        1 <= value <= 1024,
    ensures
        0 < v.kv_with(key, value) <= 2048 * ELEMENT_LIMIT,
{
    let layers = v.n_layers->0 as int;
    let heads = v.n_kv_heads->0 as int;
    lemma_dims_positive(layers, heads, v.key_head_dim->0 as int);
    lemma_dims_positive(layers, heads, v.value_head_dim->0 as int);
    let keys = dims(layers, heads, v.key_head_dim->0 as int);
    let values = dims(layers, heads, v.value_head_dim->0 as int);
    assert(0 < keys * key <= keys * 1024) by (nonlinear_arith)
        requires
            0 < keys,
            1 <= key <= 1024,
    ;
    assert(0 < values * value <= values * 1024) by (nonlinear_arith)
        requires
            0 < values,
            1 <= value <= 1024,
    ;
}

proof fn lemma_kv_of_range(tokens: int, kv: int)
    requires
        0 <= tokens,
        0 <= kv,
    ensures
        0 <= kv_of(tokens, kv) <= KV_LIMIT,
{
    assert(0 <= tokens * kv) by (nonlinear_arith)
        requires
            0 <= tokens,
            0 <= kv,
    ;
}

/// `n` of `of` equal parts of an amount.
proof fn lemma_part_of(amount: int, n: int, of: int)
    requires
        0 <= amount,
        0 <= n <= of,
        0 < of,
    ensures
        0 <= (amount * n) / of <= amount,
        (amount * n) / of * of <= amount * n < ((amount * n) / of + 1) * of,
{
    assert(0 <= amount * n <= amount * of) by (nonlinear_arith)
        requires
            0 <= amount,
            0 <= n <= of,
    ;
    let whole = amount * n;
    let q = whole / of;
    assert(q * of <= whole < (q + 1) * of) by (nonlinear_arith)
        requires
            q == whole / of,
            of > 0,
    ;
    assert(0 <= q <= amount) by (nonlinear_arith)
        requires
            q * of <= whole < (q + 1) * of,
            0 <= whole <= amount * of,
            of > 0,
    ;
}

proof fn lemma_more_parts(amount: int, n: int, m: int, of: int)
    requires
        0 <= amount,
        n <= m,
        0 < of,
    ensures
        (amount * n) / of <= (amount * m) / of,
{
    let a = amount * n;
    let b = amount * m;
    assert(a <= b) by (nonlinear_arith)
        requires
            0 <= amount,
            n <= m,
            a == amount * n,
            b == amount * m,
    ;
    assert(a / of <= b / of) by (nonlinear_arith)
        requires
            a <= b,
            of > 0,
    ;
}

/// The layers that are put on the card bring their share of the weights with them: none bring
/// nothing, all of them bring all, and `n` of them bring `n` shares, but for less than one
/// part. What the card does not hold is in RAM.
pub proof fn law_layers_bring_their_share(v: LlamaFitInput, r: ContextFitReport)
    requires
        r.answers_llama(v),
        r.figures is Some,
    ensures
        ({
            let f = r.figures->0;
            let weights = v.weight_bytes->0 * 256;
            let layers = v.n_layers->0 as int;
            let beside = f.required_kv + v.vram_overhead_bytes * 256 + (if v.fit {
                v.fit_target_bytes * 256
            } else {
                0
            });
            let on_card = f.projected_vram - beside;
            &&& v.n_gpu_layers is None ==> on_card == weights
            &&& v.n_gpu_layers matches Some(n) ==> {
                &&& n == 0 ==> on_card == 0
                &&& n >= layers ==> on_card == weights
                &&& n <= layers ==> on_card * layers <= weights * n < (on_card + 1) * layers
            }
            &&& f.ram_required - f.required_kv == weights - on_card
        }),
{
    lemma_llama_figures(v);
    let weights = v.weights();
    let layers = v.n_layers->0 as int;
    if let Some(n) = v.n_gpu_layers {
        if n < layers {
            lemma_part_of(weights, n as int, layers);
            if n == 0 {
                assert(weights * n == 0) by (nonlinear_arith)
                    requires
                        n == 0,
                ;
                assert((weights * n) / layers == 0) by (nonlinear_arith)
                    requires
                        weights * n == 0,
                        layers > 0,
                ;
            }
        } else if n == layers {
            assert((weights + 1) * layers == weights * n + layers) by (nonlinear_arith)
                requires
                    n == layers,
            ;
        }
    }
}

/// Of two llama.cpp servers that differ only in how many layers they put on the card, the one
/// with more of them there never has less of the weights on the card, and never has room for a
/// longer context there.
pub proof fn law_more_layers_leave_less_room(
    v: LlamaFitInput,
    w: LlamaFitInput,
    few: ContextFitReport,
    many: ContextFitReport,
)
    requires
        few.answers_llama(v),
        many.answers_llama(w),
        few.figures is Some,
        w == (LlamaFitInput { n_gpu_layers: w.n_gpu_layers, ..v }),
        v.n_gpu_layers is Some,
        w.n_gpu_layers matches Some(m) ==> v.n_gpu_layers->0 <= m,
    ensures
        many.figures is Some,
        few.figures->0.projected_vram <= many.figures->0.projected_vram,
        few.figures->0.vram_budget >= many.figures->0.vram_budget,
        few.figures->0.max_vram_context >= many.figures->0.max_vram_context,
        few.figures->0.ram_required >= many.figures->0.ram_required,
        many.figures->0.fits_with_current_free ==> few.figures->0.fits_with_current_free,
{
    lemma_llama_figures(v);
    lemma_llama_figures(w);
    let n = v.n_gpu_layers->0;
    let layers = v.n_layers->0 as int;
    if n < layers {
        lemma_part_of(v.weights(), n as int, layers);
        if let Some(m) = w.n_gpu_layers {
            if m < layers {
                lemma_more_parts(v.weights(), n as int, m as int, layers);
            }
        }
    }
    assert(v.gpu_weights() <= w.gpu_weights());
    law_context_grows_with_memory(w.budget(), v.budget(), w.kv_per_token(), v.kv_per_token());
}

/// The memory of a llama.cpp report adds up: what is projected and what is left make all that
/// is free, the KV cache comes out of the budget, and it grows with each token by the keys and
/// the values of every layer.
pub proof fn law_llama_memory_adds_up(v: LlamaFitInput, r: ContextFitReport)
    requires
        r.answers_llama(v),
        r.figures is Some,
    ensures
        ({
            let f = r.figures->0;
            let free = (match v.vram_free_mb {
                Some(mb) => mb,
                None => v.vram_total_mb->0,
            }) * MIB;
            let keys = v.n_layers->0 * v.n_kv_heads->0 * v.key_head_dim->0;
            let values = v.n_layers->0 * v.n_kv_heads->0 * v.value_head_dim->0;
            &&& f.projected_vram + f.vram_headroom == free
            &&& f.vram_budget == f.vram_headroom + f.required_kv
            &&& v.requested_context * f.kv_per_token <= KV_LIMIT ==> f.required_kv
                == v.requested_context * f.kv_per_token
            &&& keys <= ELEMENT_LIMIT && values <= ELEMENT_LIMIT ==> f.kv_per_token == cache_parts(
                v.cache_type_k@,
            )->0 * keys + cache_parts(v.cache_type_v@)->0 * values
            &&& f.effective_gpu_mem_util is None
            &&& f.overflow_required_gb is None
        }),
{
    lemma_llama_figures(v);
    let keys = v.n_layers->0 * v.n_kv_heads->0 * v.key_head_dim->0;
    let values = v.n_layers->0 * v.n_kv_heads->0 * v.value_head_dim->0;
    let k = cache_parts(v.cache_type_k@)->0;
    let u = cache_parts(v.cache_type_v@)->0;
    assert(keys * k == k * keys) by (nonlinear_arith);
    assert(values * u == u * values) by (nonlinear_arith);
}

/// The contexts of a llama.cpp report: the one for the card is the longest whose KV cache the
/// budget holds and that the model knows; RAM holds more where it has room beside the weights
/// that are there, and counts only where the KV cache may be kept in it.
pub proof fn law_llama_contexts(v: LlamaFitInput, r: ContextFitReport, tokens: usize)
    requires
        r.answers_llama(v),
        r.figures is Some,
    ensures
        ({
            let f = r.figures->0;
            let known = v.native_context matches Some(n) ==> n == 0 || tokens <= n;
            let room = at_least(f.vram_budget as int, 0);
            &&& tokens <= f.max_vram_context <==> tokens * f.kv_per_token <= room && known
            &&& f.max_context_no_overflow == f.max_vram_context
            &&& f.max_vram_context <= f.max_context_with_overflow
            &&& tokens <= f.max_context_with_overflow ==> known
            &&& f.max_with_ram_context == (if v.no_kv_offload {
                f.max_context_with_overflow
            } else {
                f.max_vram_context
            })
            &&& f.overflow_enabled == v.no_kv_offload
            &&& f.fits_with_current_free <==> v.requested_context <= f.max_vram_context
        }),
{
    lemma_llama_figures(v);
    law_llama_fits_within_its_limit(v);
    law_context_is_largest_that_fits(v.budget(), v.kv_per_token(), tokens as int);
}

/// More RAM never lowers the context of a llama.cpp server, and without any that is known
/// nothing is added to what the card holds.
pub proof fn law_llama_ram_helps(
    v: LlamaFitInput,
    w: LlamaFitInput,
    little: ContextFitReport,
    much: ContextFitReport,
)
    requires
        little.answers_llama(v),
        much.answers_llama(w),
        little.figures is Some,
        w == (LlamaFitInput { ram_available_mb: w.ram_available_mb, ..v }),
        v.ram_available_mb matches Some(a) ==> (w.ram_available_mb matches Some(b) && a <= b),
    ensures
        little.figures->0.max_context_with_overflow <= much.figures->0.max_context_with_overflow,
        v.ram_available_mb is None ==> little.figures->0.max_context_with_overflow
            == little.figures->0.max_vram_context,
        little.decision.fits ==> much.decision.fits,
{
    lemma_llama_figures(v);
    lemma_llama_figures(w);
    law_context_grows_with_memory(
        at_least(v.ram_available() - v.cpu_weights(), 0),
        at_least(w.ram_available() - w.cpu_weights(), 0),
        v.kv_per_token(),
        w.kv_per_token(),
    );
}

/// What a llama.cpp report decides: the context fits where the card holds it, or where its KV
/// cache is kept in RAM and RAM holds it beside the weights that are there. It is tight where
/// less than a tenth of the memory is left.
pub proof fn law_llama_decision(v: LlamaFitInput, r: ContextFitReport)
    requires
        r.answers_llama(v),
    ensures
        r.figures is None ==> r.decision.status == ContextFitStatus::Unknown && !r.decision.fits
            && r.decision.recommended_context is None && r.warnings@.len() == 1,
        r.figures matches Some(f) ==> {
            let d = r.decision;
            let free = f.projected_vram + f.vram_headroom;
            let ram = match v.ram_available_mb {
                Some(mb) => mb * MIB,
                None => 0,
            };
            let known = v.native_context matches Some(n) ==> n == 0 || v.requested_context <= n;
            &&& d.status == ContextFitStatus::Fits || d.status == ContextFitStatus::Tight
                <==> f.fits_with_current_free
            &&& d.status == ContextFitStatus::Tight ==> f.vram_headroom * 10 < at_least(
                free,
                MIB as int,
            )
            &&& d.status == ContextFitStatus::Fits ==> f.vram_headroom * 10 >= free
            &&& d.status == ContextFitStatus::FitsWithCpu <==> !f.fits_with_current_free && known
                && v.no_kv_offload && f.ram_required <= ram
            &&& d.fits <==> d.status != ContextFitStatus::DoesNotFit
            &&& d.status != ContextFitStatus::Unknown
            &&& d.fits ==> d.recommended_context == Some(v.requested_context)
            &&& d.recommended_context is Some
            &&& !d.recommend_fp8
            &&& f.required_cpu_offload_gb is None <==> f.vram_headroom >= 0
        },
{
    if v.obstacle() is None {
        lemma_llama_figures(v);
    }
}

/// What is said to be moved off the card is enough, and no GiB too much: it is the least whole
/// number of GiB that hold what the card lacks.
pub proof fn law_llama_offload_is_the_least(v: LlamaFitInput, r: ContextFitReport)
    requires
        r.answers_llama(v),
        r.figures is Some,
        r.figures->0.vram_headroom < 0,
    ensures
        r.figures->0.required_cpu_offload_gb matches Some(gb) && {
            let lack = -r.figures->0.vram_headroom;
            &&& (gb - 1) * GIB < lack
            &&& gb < usize::MAX ==> lack <= gb * GIB
        },
{
    lemma_llama_figures(v);
    lemma_ceiling(v.projected() - v.free(), GIB as int);
    let lack = v.projected() - v.free();
    let n = ceiling(lack, GIB as int);
    if n > usize::MAX {
        assert((usize::MAX - 1) * GIB < (n - 1) * GIB) by (nonlinear_arith)
            requires
                n > usize::MAX,
        ;
    }
}

pub(crate) proof fn lemma_ceiling(amount: int, unit: int)
    requires
        amount > 0,
        unit > 0,
    ensures
        (ceiling(amount, unit) - 1) * unit < amount <= ceiling(amount, unit) * unit,
        ceiling(amount, unit) > 0,
{
    let n = (amount + unit - 1) / unit;
    assert((n - 1) * unit < amount <= n * unit && n > 0) by (nonlinear_arith)
        requires
            amount > 0,
            unit > 0,
            n == (amount + unit - 1) / unit,
    ;
}

/// A shorter context that is recommended in place of the one that was asked for does fit: the
/// server that asks for it has room for it on the card.
pub proof fn law_llama_shorter_context_fits(
    v: LlamaFitInput,
    w: LlamaFitInput,
    r: ContextFitReport,
    again: ContextFitReport,
)
    requires
        r.answers_llama(v),
        again.answers_llama(w),
        r.figures is Some,
        !r.decision.fits,
        r.decision.recommend_cache is None,
        w == (LlamaFitInput { requested_context: r.decision.recommended_context->0, ..v }),
    ensures
        again.decision.fits,
        w.requested_context <= r.figures->0.max_vram_context,
        r.figures->0.max_vram_context < w.requested_context + 1024,
{
    lemma_llama_figures(v);
    lemma_llama_figures(w);
    law_rounding_is_close(v.max_vram());
    law_llama_fits_within_its_limit(w);
}

/// The cache types that a report recommends are the ones of that name, and with them the
/// context fits on the card.
pub proof fn law_llama_smaller_cache_fits(
    v: LlamaFitInput,
    w: LlamaFitInput,
    r: ContextFitReport,
    again: ContextFitReport,
)
    requires
        r.answers_llama(v),
        again.answers_llama(w),
        r.figures is Some,
        r.decision.recommend_cache is Some,
        w == (LlamaFitInput { cache_type_k: w.cache_type_k, cache_type_v: w.cache_type_v, ..v }),
        w.cache_type_k@ == w.cache_type_v@,
        w.cache_type_k@ == (match r.decision.recommend_cache->0 {
            CacheChoice::Q8 => "q8_0"@,
            CacheChoice::Q4 => "q4_0"@,
        }),
    ensures
        !r.decision.fits,
        r.decision.recommended_context == Some(v.requested_context),
        again.decision.fits,
        again.figures->0.fits_with_current_free,
{
    lemma_recommended_cache_parts();
    lemma_llama_figures(v);
    lemma_llama_figures(w);
    law_llama_fits_within_its_limit(w);
}

proof fn lemma_recommended_cache_parts()
    ensures
        cache_parts("q8_0"@) == Some(272u32),
        cache_parts("q4_0"@) == Some(144u32),
{
    reveal_strlit("f32");
    reveal_strlit("float32");
    reveal_strlit("f16");
    reveal_strlit("fp16");
    reveal_strlit("bf16");
    reveal_strlit("bfloat16");
    reveal_strlit("q2_k");
    reveal_strlit("q3_k");
    reveal_strlit("iq3_xxs");
    reveal_strlit("q4_0");
    reveal_strlit("iq4_nl");
    reveal_strlit("q4_1");
    reveal_strlit("q4_k");
    reveal_strlit("iq4_xs");
    reveal_strlit("q5_0");
    reveal_strlit("q5_1");
    reveal_strlit("q5_k");
    reveal_strlit("q6_k");
    reveal_strlit("q8_0");
    let a = "q8_0"@;
    let b = "q4_0"@;
    assert(text::ascii_lowercase(a) =~= a);
    assert(text::ascii_lowercase(b) =~= b);
    reveal_with_fuel(cache_parts_from, 20);
    assert("float32"@.len() == 7 && "bfloat16"@.len() == 8 && "iq3_xxs"@.len() == 7
        && "iq4_nl"@.len() == 6 && "iq4_xs"@.len() == 6 && "f32"@.len() == 3 && "f16"@.len() == 3);
    assert("fp16"@[0] == 'f' && "bf16"@[0] == 'b' && a[0] == 'q' && b[0] == 'q');
    assert("q2_k"@[1] == '2' && "q3_k"@[1] == '3' && a[1] == '8' && b[1] == '4');
    assert("q4_1"@[1] == '4' && "q4_k"@[1] == '4' && "q5_0"@[1] == '5' && "q5_1"@[1] == '5'
        && "q5_k"@[1] == '5' && "q6_k"@[1] == '6');
}

/// The figures of a vLLM report are the amounts themselves: none is too large for its field.
proof fn lemma_vllm_figures(v: VllmFitInput)
    requires
        v.obstacle() is None,
    ensures
        ({
            let f = v.figures();
            &&& f.kv_per_token == v.kv_per_token() && v.kv_per_token() > 0
            &&& f.required_kv == v.required_kv() && 0 <= v.required_kv() <= KV_LIMIT
            &&& f.vram_budget == v.budget()
            &&& f.projected_vram == v.fixed() + v.required_kv()
            &&& f.vram_headroom == v.budget() - v.required_kv()
            &&& f.max_vram_context == v.max_vram()
            &&& f.max_context_no_overflow == v.current_max()
            &&& f.max_with_ram_context == v.max_with_configured()
            &&& f.max_context_with_overflow == (if v.overflow_enabled() {
                v.max_with_configured()
            } else {
                v.max_with_ram()
            })
            &&& f.effective_gpu_mem_util == Some(v.current_util() as u32)
            &&& f.effective_gpu_mem_util->0 == v.current_util()
            &&& f.overflow_required_gb is Some
            &&& f.overflow_required_gb->0 == v.overflow_gb()
            &&& f.ram_required == v.ram_required()
            &&& v.current_max() <= v.max_with_configured() <= v.max_with_ram()
            &&& 0 <= v.ram_max()
        }),
{
    let e = v.elements();
    let b = v.element_bytes()->0 as int;
    lemma_dims_positive(v.n_layers->0 as int, v.n_kv_heads->0 as int, v.head_dim->0 as int);
    lemma_element_bytes(e, b);
    lemma_kv_of_range(v.requested_context as int, v.kv_per_token());
    lemma_share_bound(v.vram_total_mb->0, v.current_util());
    lemma_share_bound(v.vram_total_mb->0, clamped(v.gpu_mem_util as int, 1_000, 9_500));
    lemma_context_not_negative(v.budget(), v.kv_per_token());
    lemma_context_not_negative(v.current_budget(), v.kv_per_token());
    lemma_context_not_negative(at_least(v.ram_usable() - v.offload(), 0), v.kv_per_token());
    lemma_context_not_negative(v.kv_offload_gb * GIB, v.kv_per_token());
    lemma_kv_of_range(
        at_least(v.requested_context - v.current_max(), 0),
        v.kv_per_token(),
    );
}

proof fn lemma_share_grows(mb: u64, low: int, high: int)
    requires
        low <= high,
    ensures
        share_of(mb, low) <= share_of(mb, high),
{
    let whole = mb * MIB;
    assert((whole * low) / 10_000 <= (whole * high) / 10_000) by (nonlinear_arith)
        requires
            0 <= whole,
            low <= high,
    ;
}

proof fn lemma_share_is_close(mb: u64, points: int)
    ensures
        share_of(mb, points) * WHOLE <= mb * MIB * points < (share_of(mb, points) + 1) * WHOLE,
{
}

/// The memory of a vLLM report adds up: what is projected and what is left make the share of
/// the card that the server asks for, which is at least a tenth and at most 95 hundredths; the
/// weights on the card are those that are not moved to RAM; and the KV cache grows with each
/// token by a key and a value for every layer.
pub proof fn law_vllm_memory_adds_up(v: VllmFitInput, r: ContextFitReport)
    requires
        r.answers_vllm(v),
        r.figures is Some,
    ensures
        ({
            let f = r.figures->0;
            let share = f.projected_vram + f.vram_headroom;
            let whole = v.vram_total_mb->0 * MIB;
            let weights = v.weight_bytes->0 * 256;
            let moved = v.cpu_offload_gb * GIB;
            let on_card = f.projected_vram - f.required_kv - v.vram_overhead_bytes * 256;
            let elements = v.n_layers->0 * v.n_kv_heads->0 * v.head_dim->0;
            &&& share * 10_000 <= whole * clamped(v.gpu_mem_util as int, 1_000, 9_500) < (share
                + 1) * 10_000
            &&& f.vram_budget == f.vram_headroom + f.required_kv
            &&& moved <= weights ==> on_card + moved == weights
            &&& moved > weights ==> on_card == 0
            &&& v.requested_context * f.kv_per_token <= KV_LIMIT ==> f.required_kv
                == v.requested_context * f.kv_per_token
            &&& elements <= ELEMENT_LIMIT ==> f.kv_per_token == 512 * elements
                || f.kv_per_token == 1024 * elements
            &&& v.kv_cache_dtype@ == "fp8_e4m3"@ && elements <= ELEMENT_LIMIT ==> f.kv_per_token
                == 512 * elements
        }),
{
    lemma_vllm_figures(v);
    lemma_share_is_close(v.vram_total_mb->0, clamped(v.gpu_mem_util as int, 1_000, 9_500));
    lemma_dims_positive(v.n_layers->0 as int, v.n_kv_heads->0 as int, v.head_dim->0 as int);
    lemma_element_bytes(v.elements(), v.element_bytes()->0 as int);
    lemma_fp8_takes_one_byte();
}

proof fn lemma_fp8_takes_one_byte()
    ensures
        vllm_element_bytes("fp8_e4m3"@, None) == Some(1u8),
{
    reveal_strlit("fp8_e4m3");
    reveal_strlit("float16");
    reveal_strlit("f16");
    reveal_strlit("bfloat16");
    reveal_strlit("bf16");
    let d = "fp8_e4m3"@;
    assert(text::ascii_lowercase(d) =~= d);
    assert(d.len() == 8 && d[0] == 'f' && "bfloat16"@[0] == 'b');
    assert("float16"@.len() == 7 && "f16"@.len() == 3 && "bf16"@.len() == 4);
}

/// The contexts of a vLLM report: the one without overflow is the longest whose KV cache the
/// share of the card that is given now holds and that the model and the settings allow. It
/// never exceeds what the card would hold if it were free, nor what the card and RAM hold
/// together.
pub proof fn law_vllm_contexts(v: VllmFitInput, r: ContextFitReport, tokens: usize)
    requires
        r.answers_vllm(v),
        r.figures is Some,
    ensures
        ({
            let f = r.figures->0;
            let known = v.native_context matches Some(n) ==> n == 0 || (tokens <= n && (
            v.max_context_cap matches Some(c) ==> c == 0 || tokens <= c));
            let fixed = f.projected_vram - f.required_kv;
            let given = share_of(v.vram_total_mb->0, f.effective_gpu_mem_util->0 as int) - fixed;
            &&& f.effective_gpu_mem_util is Some
            &&& tokens <= f.max_vram_context <==> tokens * f.kv_per_token <= at_least(
                f.vram_budget as int,
                0,
            ) && known
            &&& tokens <= f.max_context_no_overflow <==> tokens * f.kv_per_token <= at_least(
                given,
                0,
            ) && known
            &&& f.max_context_no_overflow <= f.max_vram_context
            &&& f.max_context_no_overflow <= f.max_with_ram_context
                <= f.max_context_with_overflow
            &&& tokens <= f.max_context_with_overflow ==> known
            &&& f.overflow_enabled <==> v.ram_overflow_enabled && v.kv_offload_gb > 0
            &&& !f.overflow_enabled ==> f.max_with_ram_context == f.max_context_no_overflow
            &&& !v.ram_overflow_enabled ==> f.max_context_with_overflow
                == f.max_context_no_overflow
            &&& f.fits_with_current_free <==> v.requested_context <= f.max_context_no_overflow
        }),
{
    lemma_vllm_figures(v);
    law_vllm_fits_within_its_limit(v);
    law_context_is_largest_that_fits(v.budget(), v.kv_per_token(), tokens as int);
    law_context_is_largest_that_fits(v.current_budget(), v.kv_per_token(), tokens as int);
    lemma_share_grows(
        v.vram_total_mb->0,
        v.current_util(),
        clamped(v.gpu_mem_util as int, 1_000, 9_500),
    );
    law_context_grows_with_memory(
        v.current_budget(),
        v.budget(),
        v.kv_per_token(),
        v.kv_per_token(),
    );
}

/// The share of a card that a server gets is never more than it asked for, but at least a
/// tenth; large cards give up to 92 hundredths, smaller ones up to 90 and 86. Where less than
/// 1400 MiB are free it is a tenth; where nothing is known of what is free, or the card is
/// free but for that, it is all that was asked for within those bounds.
pub proof fn law_effective_share(requested: u32, vram_total_mb: u64, vram_free_mb: Option<u64>)
    ensures
        ({
            let given = effective_util(requested, vram_total_mb, vram_free_mb);
            let most: int = if vram_total_mb < 15_000 {
                8_600
            } else if vram_total_mb < 20_000 {
                9_000
            } else {
                9_200
            };
            &&& 1_000 <= given <= most
            &&& requested >= 1_000 ==> given <= requested
            &&& requested <= 1_000 ==> given == 1_000
            &&& vram_free_mb is None || vram_free_mb == Some(0u64) ==> (requested >= most
                ==> given == most) && (1_000 <= requested <= most ==> given == requested)
            &&& vram_free_mb matches Some(free) ==> {
                &&& 0 < free < 1_400 ==> given == 1_000
                &&& free >= vram_total_mb + 1_400 && requested >= most ==> given == most
                &&& free >= vram_total_mb + 1_400 && 1_000 <= requested <= most ==> given
                    == requested
            }
        }),
{
}

/// Asking for more of a card never gives less of it.
pub proof fn law_asking_for_more_gives_no_less(
    low: u32,
    high: u32,
    vram_total_mb: u64,
    vram_free_mb: Option<u64>,
)
    requires
        low <= high,
    ensures
        effective_util(low, vram_total_mb, vram_free_mb) <= effective_util(
            high,
            vram_total_mb,
            vram_free_mb,
        ),
{
}

/// The RAM that may be used: none where overflow is off; the limit that was set by hand, where
/// there is one; else all that is available but the reserve, whatever the total is.
pub proof fn law_usable_ram(
    total: Option<u64>,
    available: Option<u64>,
    enabled: bool,
    manual: Option<u64>,
    reserve: u64,
)
    ensures
        ({
            let usable = usable_ram(total, available, enabled, manual, reserve);
            let by_hand = manual matches Some(m) && m > 0;
            &&& !enabled ==> usable == Some(0int)
            &&& enabled && by_hand ==> usable == Some(manual->0 * MIB)
            &&& enabled && !by_hand && available is Some ==> usable is Some && 0 <= usable->0
                <= available->0 * MIB && usable->0 + reserve * MIB >= available->0 * MIB && (
            usable->0 > 0 ==> usable->0 + reserve * MIB == available->0 * MIB)
            &&& enabled && !by_hand && available is None && total is Some ==> usable is Some && 0
                <= usable->0 <= total->0 * MIB && usable->0 + reserve * MIB >= total->0 * MIB && (
            usable->0 > 0 ==> usable->0 + reserve * MIB == total->0 * MIB)
            &&& usable is None <==> enabled && !by_hand && available is None && total is None
        }),
{
}

/// What a vLLM report decides: the context fits exactly where it is within what the card holds
/// now together with the overflow that is configured. Weights or KV cache in RAM are told,
/// unless the card is tight.
pub proof fn law_vllm_decision(v: VllmFitInput, r: ContextFitReport)
    requires
        r.answers_vllm(v),
    ensures
        r.figures is None ==> r.decision.status == ContextFitStatus::Unknown && !r.decision.fits
            && r.decision.recommended_context is None && r.warnings@.len() == 1,
        r.figures matches Some(f) ==> {
            let d = r.decision;
            let now = v.requested_context <= f.max_context_no_overflow;
            &&& d.fits <==> v.requested_context <= f.max_with_ram_context
            &&& d.fits ==> d.recommended_context == Some(v.requested_context)
            &&& d.status == ContextFitStatus::Fits ==> now && v.cpu_offload_gb == 0
            &&& d.status == ContextFitStatus::FitsWithCpu ==> d.fits && (!now || v.cpu_offload_gb
                > 0)
            &&& d.fits && !now ==> d.status == ContextFitStatus::FitsWithCpu
            &&& !d.fits && v.requested_context <= f.max_vram_context <==> !d.fits && d.status
                == ContextFitStatus::Tight
            &&& d.status == ContextFitStatus::DoesNotFit ==> v.requested_context
                > f.max_vram_context && !d.fits
            &&& d.status != ContextFitStatus::Unknown
            &&& d.recommend_cache is None
            &&& f.overflow_required_gb == Some(0usize) <==> now
            &&& f.required_cpu_offload_gb is Some <==> f.vram_budget <= 0
        },
{
    if v.obstacle() is None {
        lemma_vllm_figures(v);
        law_vllm_contexts(v, r, v.requested_context);
        law_vllm_fits_within_its_limit(v);
        law_context_is_largest_that_fits(
            v.budget(),
            v.kv_per_token(),
            v.requested_context as int,
        );
        lemma_share_bound(v.vram_total_mb->0, clamped(v.gpu_mem_util as int, 1_000, 9_500));
    }
}

/// The overflow that is asked for is enough, and no GiB too much: it is the least whole number
/// of GiB, and at least one, that hold the KV cache beyond what the card holds now.
pub proof fn law_vllm_overflow_is_the_least(v: VllmFitInput, r: ContextFitReport)
    requires
        r.answers_vllm(v),
        r.figures is Some,
        v.requested_context > r.figures->0.max_context_no_overflow,
        (v.requested_context - r.figures->0.max_context_no_overflow)
            * r.figures->0.kv_per_token <= usize::MAX * GIB,
        usize::MAX * GIB <= KV_LIMIT,
    ensures
        r.figures->0.overflow_required_gb matches Some(gb) && {
            let lack = (v.requested_context - r.figures->0.max_context_no_overflow)
                * r.figures->0.kv_per_token;
            &&& gb >= 1
            &&& lack <= gb * GIB
            &&& (gb - 1) * GIB < lack
            &&& r.figures->0.ram_required == v.cpu_offload_gb * GIB + lack
        },
{
    lemma_vllm_figures(v);
    law_vllm_fits_within_its_limit(v);
    let missing = v.requested_context - v.current_max();
    let lack = missing * v.kv_per_token();
    assert(lack > 0) by (nonlinear_arith)
        requires
            missing > 0,
            v.kv_per_token() > 0,
            lack == missing * v.kv_per_token(),
    ;
    lemma_ceiling(lack, GIB as int);
    let n = ceiling(lack, GIB as int);
    if n > usize::MAX {
        assert(usize::MAX * GIB <= (n - 1) * GIB) by (nonlinear_arith)
            requires
                n > usize::MAX,
        ;
    }
}

/// A shorter context that is recommended in place of the one that was asked for does fit: the
/// server that asks for it has room for it on the card as it is now.
pub proof fn law_vllm_shorter_context_fits(
    v: VllmFitInput,
    w: VllmFitInput,
    r: ContextFitReport,
    again: ContextFitReport,
)
    requires
        r.answers_vllm(v),
        again.answers_vllm(w),
        r.figures is Some,
        !r.decision.fits,
        !r.decision.recommend_fp8,
        r.decision.recommended_context matches Some(n) && n > 0,
        w == (VllmFitInput { requested_context: r.decision.recommended_context->0, ..v }),
    ensures
        again.decision.fits,
        again.figures->0.fits_with_current_free,
        w.requested_context <= r.figures->0.max_context_no_overflow,
        r.figures->0.max_context_no_overflow < w.requested_context + 1024,
{
    lemma_vllm_figures(v);
    lemma_vllm_figures(w);
    law_rounding_is_close(v.current_max());
    law_vllm_fits_within_its_limit(w);
}

/// Where an FP8 cache is recommended, the context fits on the card as it is now with it.
pub proof fn law_vllm_smaller_cache_fits(
    v: VllmFitInput,
    w: VllmFitInput,
    r: ContextFitReport,
    again: ContextFitReport,
)
    requires
        r.answers_vllm(v),
        again.answers_vllm(w),
        r.figures is Some,
        r.decision.recommend_fp8,
        w == (VllmFitInput { kv_cache_dtype: w.kv_cache_dtype, ..v }),
        w.kv_cache_dtype@ == "fp8_e4m3"@,
    ensures
        !r.decision.fits,
        r.decision.recommended_context == Some(v.requested_context),
        again.decision.fits,
        again.figures->0.fits_with_current_free,
{
    lemma_fp8_takes_one_byte();
    lemma_vllm_figures(v);
    assert(w.obstacle() is None);
    lemma_vllm_figures(w);
    lemma_element_bytes(w.elements(), 1);
    law_vllm_fits_within_its_limit(w);
}

/// Moving more of the weights to RAM never lowers the context that fits on the card.
pub proof fn law_moving_weights_makes_room(
    v: VllmFitInput,
    w: VllmFitInput,
    few: ContextFitReport,
    many: ContextFitReport,
)
    requires
        few.answers_vllm(v),
        many.answers_vllm(w),
        few.figures is Some,
        w == (VllmFitInput { cpu_offload_gb: w.cpu_offload_gb, ..v }),
        v.cpu_offload_gb <= w.cpu_offload_gb,
    ensures
        few.figures->0.max_vram_context <= many.figures->0.max_vram_context,
        few.figures->0.max_context_no_overflow <= many.figures->0.max_context_no_overflow,
        few.figures->0.projected_vram >= many.figures->0.projected_vram,
{
    lemma_vllm_figures(v);
    lemma_vllm_figures(w);
    law_context_grows_with_memory(v.budget(), w.budget(), v.kv_per_token(), w.kv_per_token());
    law_context_grows_with_memory(
        v.current_budget(),
        w.current_budget(),
        v.kv_per_token(),
        w.kv_per_token(),
    );
}

/// A report tells of whom it speaks: it repeats the model, the context that was asked for and
/// what is known of the machine.
pub proof fn law_reports_repeat_what_was_asked(
    v: VllmFitInput,
    w: LlamaFitInput,
    r: ContextFitReport,
    s: ContextFitReport,
)
    requires
        r.answers_vllm(v),
        s.answers_llama(w),
    ensures
        r.backend@ == "vllm"@,
        r.model_id@ == v.model_id@,
        r.requested_context == v.requested_context,
        r.native_context == v.native_context,
        r.weight_bytes == v.weight_bytes,
        r.vram_total_mb == v.vram_total_mb,
        r.vram_free_mb == v.vram_free_mb,
        r.ram_total_mb == v.ram_total_mb,
        r.ram_available_mb == v.ram_available_mb,
        s.backend@ == "llamacpp"@,
        s.model_id@ == w.model_id@,
        s.requested_context == w.requested_context,
        s.native_context == w.native_context,
        s.weight_bytes == w.weight_bytes,
        s.vram_total_mb == w.vram_total_mb,
        s.vram_free_mb == w.vram_free_mb,
        s.ram_total_mb == w.ram_total_mb,
        s.ram_available_mb == w.ram_available_mb,
{
}

/// Percents and units are the nearest whole ones, and of two that are as near the even one.
pub proof fn law_nearest_units(points: int, amount: int, unit: int)
    requires
        0 <= points <= 1_000_000,
        0 <= amount,
        0 < unit,
    ensures
        -50 <= 100 * rounded_percent(points) - points <= 50,
        100 * rounded_percent(points) - points == 50 || points - 100 * rounded_percent(points) == 50
            ==> rounded_percent(points) % 2 == 0,
        2 * (rounded(amount, unit) * unit - amount) <= unit,
        2 * (amount - rounded(amount, unit) * unit) <= unit,
        2 * (rounded(amount, unit) * unit - amount) == unit || 2 * (amount - rounded(amount, unit)
            * unit) == unit ==> rounded(amount, unit) % 2 == 0,
{
    let q = amount / unit;
    let r = amount % unit;
    assert(amount == q * unit + r && 0 <= r < unit && (q + 1) * unit == q * unit + unit)
        by (nonlinear_arith)
        requires
            unit > 0,
            q == amount / unit,
            r == amount % unit,
    ;
    let m = rounded(amount, unit);
    if amount == 0 {
        assert(0int / unit == 0 && 0int % unit == 0) by (nonlinear_arith)
            requires
                unit > 0,
        ;
    }
    assert(m == q || m == q + 1);
    assert(m * unit == q * unit || m * unit == (q + 1) * unit);
}

/// Flash attention varies with the values of the cache only where they are of four or five bits.
pub proof fn law_flash_attention_varies(v: LlamaFitInput)
    ensures
        v.flash_varies() ==> v.flash_attn,
        v.flash_attn ==> {
            let t = text::ascii_lowercase(v.cache_type_v@);
            &&& t == "q4_0"@ || t == "q4_1"@ || t == "q5_0"@ || t == "q5_1"@ || t == "iq4_nl"@
                <==> v.flash_varies()
            &&& t == "f16"@ || t == "q8_0"@ || t == "bf16"@ || t == "f32"@ ==> !v.flash_varies()
        },
{
    reveal_strlit("q4_0");
    reveal_strlit("q4_1");
    reveal_strlit("q5_0");
    reveal_strlit("q5_1");
    reveal_strlit("iq4_nl");
    reveal_strlit("f16");
    reveal_strlit("f32");
    reveal_strlit("bf16");
    reveal_strlit("q8_0");
    assert("q8_0"@[1] == '8' && "q4_0"@[1] == '4' && "q4_1"@[1] == '4' && "q5_0"@[1] == '5'
        && "q5_1"@[1] == '5');
    assert("bf16"@[0] == 'b' && "q4_0"@[0] == 'q' && "q4_1"@[0] == 'q' && "q5_0"@[0] == 'q'
        && "q5_1"@[0] == 'q');
    assert("f16"@.len() == 3 && "f32"@.len() == 3 && "iq4_nl"@.len() == 6 && "bf16"@.len() == 4);
}

/// An advice tells the numbers of the decision that it belongs to: the context that is
/// recommended, the one that was asked for, and what has to be moved.
pub proof fn law_advice_is_of_the_decision(
    v: VllmFitInput,
    l: LlamaFitInput,
    r: ContextFitReport,
    q: ContextFitReport,
)
    requires
        r.answers_vllm(v),
        q.answers_llama(l),
    ensures
        r.figures is Some ==> match r.decision.advice {
            Advice::VllmLowerContext { limit } => r.decision.recommended_context == Some(limit)
                && limit > 0,
            Advice::VllmCloseApps { limit } => r.decision.recommended_context == Some(limit),
            Advice::VllmCloseAppsOrOffload { limit, required_gb, requested } =>
                r.decision.recommended_context == Some(limit) && requested == v.requested_context
                && r.figures->0.overflow_required_gb == Some(required_gb),
            Advice::VllmEnableOffload { required_gb, requested } => requested == v.requested_context
                && r.figures->0.overflow_required_gb == Some(required_gb),
            Advice::VllmUseFp8 => r.decision.recommend_fp8,
            Advice::VllmLowerOrOffloadWeights { offload_gb } =>
                r.figures->0.required_cpu_offload_gb == Some(offload_gb),
            Advice::VllmFits { .. } => r.decision.fits && r.decision.status
                != ContextFitStatus::Tight,
            Advice::VllmTight { .. } => r.decision.fits && r.decision.status
                == ContextFitStatus::Tight,
            Advice::VllmOverflowConfigured => r.decision.fits,
            _ => !r.decision.fits,
        },
        q.figures is Some ==> match q.decision.advice {
            Advice::LlamaLowerContext { limit } => q.decision.recommended_context == Some(limit)
                && limit > 0,
            Advice::LlamaEnableOverflow { requested, limit } => q.decision.recommended_context
                == Some(limit) && requested == l.requested_context,
            Advice::LlamaUseQ8 => q.decision.recommend_cache == Some(CacheChoice::Q8),
            Advice::LlamaUseQ4 => q.decision.recommend_cache == Some(CacheChoice::Q4),
            Advice::LlamaFits { .. } => q.decision.fits && q.decision.status
                == ContextFitStatus::Fits,
            Advice::LlamaTight { .. } => q.decision.fits && q.decision.status
                == ContextFitStatus::Tight,
            Advice::LlamaCpuOverflow => q.decision.fits && l.no_kv_offload,
            _ => !q.decision.fits,
        },
{
    if v.obstacle() is None {
        lemma_vllm_figures(v);
    }
    if l.obstacle() is None {
        lemma_llama_figures(l);
    }
}

/// The message of an advice holds the numbers that it tells.
pub proof fn law_messages_tell_the_numbers(mib: u64, limit: usize, gb: usize, requested: usize)
    ensures
        text::occurs(advice_message(Advice::VllmTight { mib }), numeral::decimal(mib as nat)),
        text::occurs(advice_message(Advice::VllmFits { mib }), numeral::decimal(mib as nat)),
        text::occurs(advice_message(Advice::LlamaTight { mib }), numeral::decimal(mib as nat)),
        text::occurs(advice_message(Advice::LlamaFits { mib }), numeral::decimal(mib as nat)),
        text::occurs(
            advice_message(Advice::VllmLowerContext { limit }),
            numeral::decimal(limit as nat) + " tokens"@,
        ),
        text::occurs(
            advice_message(Advice::LlamaLowerContext { limit }),
            numeral::decimal(limit as nat) + " tokens"@,
        ),
        text::occurs(
            advice_message(Advice::VllmCloseApps { limit }),
            numeral::decimal(limit as nat) + " tokens"@,
        ),
        text::occurs(
            advice_message(Advice::VllmEnableOffload { required_gb: gb, requested }),
            numeral::decimal(gb as nat) + " GB"@,
        ),
        text::occurs(
            advice_message(Advice::VllmEnableOffload { required_gb: gb, requested }),
            numeral::decimal(requested as nat) + " tokens"@,
        ),
        text::occurs(
            advice_message(Advice::VllmLowerOrOffloadWeights { offload_gb: gb }),
            numeral::decimal(gb as nat) + " GB"@,
        ),
        text::occurs(
            advice_message(Advice::LlamaReduceWeights { offload_gb: gb }),
            numeral::decimal(gb as nat) + " GB"@,
        ),
{
    let (m, l, g, n) = (
        numeral::decimal(mib as nat),
        numeral::decimal(limit as nat),
        numeral::decimal(gb as nat),
        numeral::decimal(requested as nat),
    );
    text::law_parts_occur(
        "The context fits without overflow, but current headroom is only "@,
        m,
        " MiB."@,
    );
    text::law_parts_occur(
        "The requested context fits without overflow with about "@,
        m,
        " MiB of current VRAM headroom."@,
    );
    text::law_parts_occur("The context fits, but only about "@, m, " MiB of VRAM remains."@);
    text::law_parts_occur("The requested context fits with about "@, m, " MiB of VRAM headroom."@);
    reveal_strlit(" tokens");
    reveal_strlit(" GB");
    reveal_strlit(" tokens for the current no-overflow limit.");
    reveal_strlit(" tokens, reduce GPU layers, or enable CPU MoE offload.");
    reveal_strlit(" tokens.");
    reveal_strlit(" GB of CPU KV offload to run ");
    reveal_strlit(" tokens with overflow, or lower the context to the no-overflow limit.");
    reveal_strlit(" GB of CPU weight offload.");
    reveal_strlit(" GB using fewer GPU layers or CPU MoE offload, or use a smaller GGUF.");
    lemma_told("Lower the context to at most "@, l, " tokens for the current no-overflow limit."@, " tokens"@);
    lemma_told("Lower the context to at most "@, l, " tokens, reduce GPU layers, or enable CPU MoE offload."@, " tokens"@);
    lemma_told("Close GPU-heavy applications or lower the context to about "@, l, " tokens."@, " tokens"@);
    let offload = advice_message(Advice::VllmEnableOffload { required_gb: gb, requested });
    let rest = " GB of CPU KV offload to run "@ + n
        + " tokens with overflow, or lower the context to the no-overflow limit."@;
    assert(" GB"@.is_prefix_of(rest)) by {
        assert(rest.subrange(0, 3) =~= " GB"@);
    }
    assert(offload =~= "Enable at least "@ + g + rest);
    lemma_told("Enable at least "@, g, rest, " GB"@);
    lemma_told(
        "Enable at least "@ + g + " GB of CPU KV offload to run "@,
        n,
        " tokens with overflow, or lower the context to the no-overflow limit."@,
        " tokens"@,
    );
    lemma_told("Lower the context or enable at least "@, g, " GB of CPU weight offload."@, " GB"@);
    lemma_told("Reduce GPU-resident weights by about "@, g, " GB using fewer GPU layers or CPU MoE offload, or use a smaller GGUF."@, " GB"@);
}

proof fn lemma_told(front: Seq<char>, number: Seq<char>, back: Seq<char>, unit: Seq<char>)
    requires
        back.len() >= unit.len(),
        back.subrange(0, unit.len() as int) =~= unit,
    ensures
        text::occurs(front + number + back, number + unit),
{
    let rest = back.skip(unit.len() as int);
    assert(front + number + back =~= front + (number + unit) + rest) by {
        assert(back =~= unit + rest) by {
            assert forall|k: int| 0 <= k < unit.len() implies back[k] == unit[k] by {
                assert(back.subrange(0, unit.len() as int)[k] == back[k]);
            }
        }
    }
    text::law_parts_occur(front, number + unit, rest);
}

/// What overflows into the RAM takes no more than was set aside for it, and one token more would
/// not go there, unless the RAM itself holds no more.
pub proof fn law_configured_overflow_is_kept(v: VllmFitInput)
    requires
        v.obstacle() is None,
    ensures
        !v.overflow_enabled() ==> v.configured_ram() == 0,
        v.overflow_enabled() ==> {
            let n = v.configured_ram();
            &&& n <= v.ram_max()
            &&& n * v.kv_per_token() <= v.kv_offload_gb * GIB
            &&& n < v.ram_max() && n < usize::MAX ==> (n + 1) * v.kv_per_token() > v.kv_offload_gb
                * GIB
        },
{
    lemma_vllm_figures(v);
    let kv = v.kv_per_token();
    let set = v.kv_offload_gb * GIB;
    let held = context_for(set, kv);
    let n = v.configured_ram();
    law_context_is_largest_that_fits(set, kv, held);
    if v.overflow_enabled() {
        assert(set >= GIB);
        assert(0 <= n <= held) by {
            assert(0 <= v.ram_max());
        }
        let q = set / kv;
        assert(q * kv <= set < (q + 1) * kv && q >= 0) by (nonlinear_arith)
            requires
                kv > 0,
                set >= 0,
                q == set / kv,
        ;
        assert(held <= q);
        assert(n * kv <= q * kv) by (nonlinear_arith)
            requires
                0 <= n <= q,
                kv > 0,
        ;
        if n < v.ram_max() && n < usize::MAX {
            assert(n == q);
            assert((n + 1) * kv == (q + 1) * kv);
        }
    }
}

/// To move the overflow into the RAM is advised only where the context is reached with it, and
/// to lower the context only where it is not.
pub proof fn law_overflow_is_advised_where_it_helps(v: VllmFitInput, r: ContextFitReport)
    requires
        r.answers_vllm(v),
        r.figures is Some,
    ensures
        r.decision.advice is VllmEnableOffload || r.decision.advice is VllmEnableOverflow ==> {
            &&& v.requested_context <= v.max_with_ram()
            &&& r.decision.recommended_context is None
        },
        r.decision.advice is VllmLowerContext || r.decision.advice is VllmLowerOrOffloadWeights
            || r.decision.advice is VllmLowerOrSmallerModel ==> !v.native_fits()
            || v.requested_context > v.max_with_ram(),
{
}

/// A number of the cache takes two bytes, and one where it is of eight bits; the type of the
/// model decides where none was chosen.
pub proof fn law_bytes_of_cache_types(dtype: Seq<char>, torch: Seq<char>)
    ensures
        ({
            let d = text::ascii_lowercase(dtype);
            let t = text::ascii_lowercase(torch);
            &&& d == "fp8"@ || d == "fp8_e4m3"@ || d == "fp8_e5m2"@ ==> vllm_element_bytes(
                dtype,
                Some(torch),
            ) == Some(1u8)
            &&& d == "float16"@ || d == "bfloat16"@ || d == "f16"@ || d == "bf16"@
                ==> vllm_element_bytes(dtype, Some(torch)) == Some(2u8)
            &&& d == "auto"@ ==> vllm_element_bytes(dtype, None) == Some(2u8)
            &&& d == "auto"@ && text::occurs(t, "float8"@) ==> vllm_element_bytes(
                dtype,
                Some(torch),
            ) == Some(1u8)
            &&& d == "auto"@ && !text::occurs(t, "float8"@) && !text::occurs(t, "fp8"@)
                ==> vllm_element_bytes(dtype, Some(torch)) == Some(2u8)
            &&& vllm_element_bytes(dtype, Some(torch)) matches Some(n) ==> n == 1 || n == 2
            &&& vllm_element_bytes(dtype, Some(torch)) is None <==> vllm_element_bytes(
                dtype,
                None,
            ) is None
        }),
{
    reveal_strlit("fp8");
    reveal_strlit("fp8_e4m3");
    reveal_strlit("fp8_e5m2");
    reveal_strlit("float16");
    reveal_strlit("bfloat16");
    reveal_strlit("f16");
    reveal_strlit("bf16");
    reveal_strlit("auto");
    assert("auto"@[0] == 'a' && "bf16"@[0] == 'b');
    assert("fp8"@.len() == 3 && "f16"@.len() == 3 && "fp8"@[1] == 'p' && "f16"@[1] == '1');
    assert("bfloat16"@.len() == 8 && "fp8_e4m3"@.len() == 8 && "fp8_e5m2"@.len() == 8);
    assert("bfloat16"@[0] == 'b' && "fp8_e4m3"@[0] == 'f' && "fp8_e5m2"@[0] == 'f');
    assert("auto"@.len() == 4 && "bf16"@.len() == 4 && "float16"@.len() == 7);
}

/// A MiB is 1024 times 1024 bytes and a GiB 1024 of them, in the parts in which memory is
/// counted; a share is counted in ten-thousandths.
pub proof fn law_units_of_memory()
    ensures
        MIB == 1024 * 1024 * PARTS_PER_BYTE,
        GIB == 1024 * MIB,
        PARTS_PER_BYTE == 256,
        WHOLE == 10_000,
{
}

/// What is left on the card now is what there is less what the context takes, and a context
/// that leaves a tenth or more of it is not tight.
pub proof fn law_headroom_is_what_is_left(v: VllmFitInput, r: ContextFitReport)
    requires
        r.answers_vllm(v),
        r.figures is Some,
    ensures
        v.current_headroom() + v.required_kv() == v.current_budget(),
        v.current_fits() && v.current_budget() >= MIB && 10 * (v.current_budget() - v.required_kv())
            >= v.current_budget() ==> r.decision.status != ContextFitStatus::Tight
            && r.decision.advice is VllmFits,
        v.current_fits() && 10 * (v.current_budget() - v.required_kv()) < v.current_budget()
            ==> r.decision.status == ContextFitStatus::Tight && r.decision.advice is VllmTight,
{
}

} // verus!
