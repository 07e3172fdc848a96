//! Estimates from what is published about a model and from the names of models, weights
//! and graphics cards.
//!
//! Amounts of memory are counted in the parts of `context_fit`, parameters in millions.
use vstd::prelude::*;
use crate::context_fit;
use crate::context_fit::{AMOUNT_LIMIT, GIB};
use crate::double;
use crate::json::{Json, JsonNumber, JsonTree};
use crate::json;
use crate::numeral;
use crate::numeral::Decimal;
use crate::outside;
use crate::text;

verus! {

// ---------------------------------------------------------------------------
// Weights
// ---------------------------------------------------------------------------

/// `q` names a quantization of `bits` bits: it begins with `prefix` or has it before an
/// underscore.
pub open spec fn names_bits(q: Seq<char>, prefix: Seq<char>) -> bool {
    prefix.is_prefix_of(q) || text::occurs(q, prefix + "_"@)
}

/// Hundredths of a byte that a parameter takes under the quantization `quant`.
pub open spec fn param_hundredths(quant: Seq<char>) -> u32 {
    let q = text::ascii_lowercase(quant);
    if names_bits(q, "q4"@) || text::occurs(q, "iq4"@) || q == "awq"@ || q == "gptq"@ || q
        == "int4"@ {
        55
    } else if names_bits(q, "q8"@) {
        105
    } else if names_bits(q, "q5"@) {
        68
    } else if names_bits(q, "q6"@) {
        80
    } else if names_bits(q, "q3"@) || text::occurs(q, "iq3"@) {
        45
    } else if names_bits(q, "q2"@) || text::occurs(q, "iq2"@) {
        35
    } else if q == "fp8"@ || q == "int8"@ {
        100
    } else if q == "gguf"@ {
        55
    } else {
        200
    }
}

fn tells_bits(q: &str, prefix: &str) -> (r: bool)
    ensures
        r == names_bits(q@, prefix@),
{
    let mut inner = prefix.to_string();
    inner.append("_");
    text::starts_with(q, prefix) || text::contains_text(q, &inner)
}

/// Hundredths of a byte that a parameter takes under the quantization `quant`.
pub fn bytes_per_param(quant: &str) -> (r: u32)
    ensures
        r == param_hundredths(quant@),
        35 <= r <= 200,
{
    let q = text::ascii_lowered(quant);
    if tells_bits(&q, "q4") || text::contains_text(&q, "iq4") || text::same(&q, "awq")
        || text::same(&q, "gptq") || text::same(&q, "int4") {
        55
    } else if tells_bits(&q, "q8") {
        105
    } else if tells_bits(&q, "q5") {
        68
    } else if tells_bits(&q, "q6") {
        80
    } else if tells_bits(&q, "q3") || text::contains_text(&q, "iq3") {
        45
    } else if tells_bits(&q, "q2") || text::contains_text(&q, "iq2") {
        35
    } else if text::same(&q, "fp8") || text::same(&q, "int8") {
        100
    } else if text::same(&q, "gguf") {
        55
    } else {
        200
    }
}

/// The weights of `params_m` million parameters under the quantization `quant`, in parts; a
/// thousand million parameters of one byte count as a GiB.
pub open spec fn weights_of(params_m: u64, quant: Seq<char>) -> int {
    (params_m * param_hundredths(quant) * GIB) / 100_000
}

pub(crate) proof fn lemma_weights_not_negative(params_m: u64, quant: Seq<char>)
    ensures
        weights_of(params_m, quant) >= 0,
{
    let n = params_m * param_hundredths(quant);
    assert(n >= 0) by (nonlinear_arith)
        requires
            params_m >= 0,
            param_hundredths(quant) >= 0,
            n == params_m * param_hundredths(quant),
    ;
}

/// The weights of `params_m` million parameters under the quantization `quant`, in parts.
pub fn weight_gb(params_m: u64, quant: &str) -> (r: i128)
    ensures
        r == weights_of(params_m, quant@),
        0 <= r <= AMOUNT_LIMIT,
{
    let h: u32 = bytes_per_param(quant);
    assert(0 <= params_m * h <= 0x1_0000_0000_0000_0000 * 200) by (nonlinear_arith)
        requires
            0 <= params_m < 0x1_0000_0000_0000_0000,
            0 <= h <= 200,
    ;
    params_m as i128 * h as i128 * GIB / 100_000
}

// ---------------------------------------------------------------------------
// KV cache
// ---------------------------------------------------------------------------

/// The bytes that one token adds to a cache of two-byte elements: a key and a value for
/// each layer.
pub open spec fn token_bytes(n_layers: usize, n_kv_heads: usize, head_dim: usize) -> int {
    2 * context_fit::dims(n_layers as int, n_kv_heads as int, head_dim as int) * 2
}

/// The bytes that one token adds to a cache of two-byte elements.
pub fn kv_bytes_per_token(n_layers: usize, n_kv_heads: usize, head_dim: usize) -> (r: u128)
    ensures
        r == token_bytes(n_layers, n_kv_heads, head_dim),
        r <= 4 * context_fit::ELEMENT_LIMIT,
{
    2 * (context_fit::product(n_layers, n_kv_heads, head_dim) as u128) * 2
}

/// The bytes that one token adds to the cache of a model of `params_m` million parameters
/// whose dimensions are not known.
pub fn estimate_kv_bytes_per_token(params_m: u64) -> (r: u64)
    ensures
        r == (if params_m == 0 {
            0int
        } else if params_m <= 3_500 {
            32_768
        } else if params_m <= 10_000 {
            131_072
        } else if params_m <= 40_000 {
            262_144
        } else {
            327_680
        }),
{
    if params_m == 0 {
        0
    } else if params_m <= 3_500 {
        32_768
    } else if params_m <= 10_000 {
        131_072
    } else if params_m <= 40_000 {
        262_144
    } else {
        327_680
    }
}

// ---------------------------------------------------------------------------
// Context under a budget
// ---------------------------------------------------------------------------

/// The amount is within what the estimates take.
pub open spec fn amount_ok(a: i128) -> bool {
    0 <= a <= AMOUNT_LIMIT
}

/// What the card leaves for the KV cache.
pub open spec fn kv_room(vram_total_mb: u64, gpu_util: u32, weight: i128, overhead: i128) -> int {
    context_fit::share_of(vram_total_mb, gpu_util as int) - weight - overhead
}

/// The context that fits on a card beside `weight` and `overhead`: none, or at least 512
/// tokens.
pub fn context_fit_with_weight(
    vram_total_mb: u64,
    gpu_util: u32,
    weight: i128,
    kv_per_token: i128,
    overhead: i128,
) -> (r: usize)
    requires
        amount_ok(weight),
        amount_ok(overhead),
    ensures
        ({
            let room = kv_room(vram_total_mb, gpu_util, weight, overhead);
            r == (if room <= 0 || kv_per_token <= 0 {
                0
            } else {
                context_fit::at_least(context_fit::context_for(room, kv_per_token as int), 512)
            })
        }),
{
    let room: i128 = context_fit::share_parts(vram_total_mb, gpu_util) - weight - overhead;
    if room <= 0 || kv_per_token <= 0 {
        return 0;
    }
    let tokens = context_fit::vram_context_for_budget(room, kv_per_token);
    if tokens < 512 {
        512
    } else {
        tokens
    }
}

/// The context that fits on a card beside the weights of `params_m` million parameters.
pub fn context_fit(
    vram_total_mb: u64,
    gpu_util: u32,
    params_m: u64,
    quant: &str,
    kv_per_token: i128,
    overhead: i128,
) -> (r: usize)
    requires
        amount_ok(overhead),
    ensures
        ({
            let room = context_fit::share_of(vram_total_mb, gpu_util as int) - weights_of(
                params_m,
                quant@,
            ) - overhead;
            r == (if room <= 0 || kv_per_token <= 0 {
                0
            } else {
                context_fit::at_least(context_fit::context_for(room, kv_per_token as int), 512)
            })
        }),
{
    let weight = weight_gb(params_m, quant);
    context_fit_with_weight(vram_total_mb, gpu_util, weight, kv_per_token, overhead)
}

// ---------------------------------------------------------------------------
// Speed
// ---------------------------------------------------------------------------

/// The tokens per second that a card with the given bandwidth, in GB/s, makes of a model of
/// `params_m` million parameters, in millionths, rounded down: every parameter is read for
/// each token, at half the bandwidth.
pub open spec fn speed_of(bandwidth_gbs: u32, params_m: u64, quant: Seq<char>) -> int {
    if params_m == 0 {
        0
    } else {
        (bandwidth_gbs * 50_000_000_000) / (params_m * param_hundredths(quant))
    }
}

/// The tokens per second that a card makes of a model, in millionths.
pub fn tokens_per_sec(bandwidth_gbs: u32, params_m: u64, quant: &str) -> (r: u128)
    ensures
        r == speed_of(bandwidth_gbs, params_m, quant@),
        r <= 0x1_0000_0000_0000_0000_0000,
{
    if params_m == 0 {
        return 0;
    }
    let h: u32 = bytes_per_param(quant);
    assert(1 <= params_m * h <= 0x1_0000_0000_0000_0000 * 200) by (nonlinear_arith)
        requires
            1 <= params_m < 0x1_0000_0000_0000_0000,
            35 <= h <= 200,
    ;
    let n: u128 = bandwidth_gbs as u128 * 50_000_000_000;
    let d: u128 = params_m as u128 * h as u128;
    assert(0 <= n as int / d as int <= n) by (nonlinear_arith)
        requires
            d >= 1,
            n >= 0,
    ;
    n / d
}

/// The quotient and the remainder of `a` times `b` by `d`.
pub(crate) fn mul_div(a: u128, b: u128, d: u128) -> (r: (u128, u128))
    requires
        b <= d,
        0 < d <= 0x1000_0000_0000_0000_0000_0000_0000_0000,
    ensures
        r.0 * d + r.1 == a * b,
        r.1 < d,
        r.0 <= a,
    decreases a,
{
    if a == 0 {
        return (0, 0);
    }
    let half: u128 = a / 2;
    let odd: u128 = a % 2;
    let (q, m) = mul_div(half, b, d);
    let extra: u128 = if odd == 1 {
        b
    } else {
        0
    };
    let m2: u128 = 2 * m + extra;
    assert(2 * q * d + m2 == a * b) by (nonlinear_arith)
        requires
            q * d + m == half * b,
            a == 2 * half + odd,
            m2 == 2 * m + extra,
            odd == 0 && extra == 0 || odd == 1 && extra == b,
    ;
    if m2 >= 2 * d {
        assert(2 * q + 2 <= a) by (nonlinear_arith)
            requires
                2 * q * d + m2 == a * b,
                m2 >= 2 * d,
                b <= d,
                d > 0,
        ;
    } else if m2 >= d {
        assert(2 * q + 1 <= a) by (nonlinear_arith)
            requires
                2 * q * d + m2 == a * b,
                m2 >= d,
                b <= d,
                d > 0,
        ;
    }
    let (q3, m3): (u128, u128) = if m2 >= 2 * d {
        (2 * q + 2, m2 - 2 * d)
    } else if m2 >= d {
        (2 * q + 1, m2 - d)
    } else {
        (2 * q, m2)
    };
    assert(q3 * d + m3 == a * b) by (nonlinear_arith)
        requires
            2 * q * d + m2 == a * b,
            q3 == 2 * q + 2 && m3 == m2 - 2 * d || q3 == 2 * q + 1 && m3 == m2 - d || q3 == 2 * q
                && m3 == m2,
    ;
    assert(q3 <= a) by (nonlinear_arith)
        requires
            q3 * d + m3 == a * b,
            b <= d,
            m3 >= 0,
            d > 0,
    ;
    (q3, m3)
}

/// The speed where `swap` of the `total` memory of a model is in RAM: up to a fifth is lost,
/// by the share that is there.
pub open spec fn swapped_speed(speed: int, swap: int, total: int) -> int {
    (speed * (5 * total - swap)) / (5 * total)
}

/// The tokens per second of a model that is spread over the card and RAM, in millionths:
/// with weights in RAM the bus is what limits it; with swap space some of the speed is lost.
pub open spec fn spread_speed(
    bandwidth_gbs: u32,
    params_m: u64,
    quant: Seq<char>,
    swap_space_gb: int,
    cpu_offload_gb: int,
    weight: int,
) -> int {
    if cpu_offload_gb > 0 {
        speed_of(20, params_m, quant)
    } else if swap_space_gb > 0 {
        swapped_speed(
            speed_of(bandwidth_gbs, params_m, quant),
            swap_space_gb * GIB,
            weight + swap_space_gb * GIB,
        )
    } else {
        speed_of(bandwidth_gbs, params_m, quant)
    }
}

/// The tokens per second of a model that is spread over the card and RAM, in millionths. The
/// bandwidth of RAM does not count: it is the bus that limits what is there.
pub fn tokens_per_sec_tiered(
    gpu_bandwidth_gbs: u32,
    _ram_bandwidth_gbs: u32,
    params_m: u64,
    quant: &str,
    swap_space_gb: usize,
    cpu_offload_gb: usize,
    weight: i128,
) -> (r: u128)
    requires
        amount_ok(weight),
    ensures
        r == spread_speed(
            gpu_bandwidth_gbs,
            params_m,
            quant@,
            swap_space_gb as int,
            cpu_offload_gb as int,
            weight as int,
        ),
        r <= 0x1_0000_0000_0000_0000_0000,
{
    if cpu_offload_gb > 0 {
        return tokens_per_sec(20, params_m, quant);
    }
    let speed: u128 = tokens_per_sec(gpu_bandwidth_gbs, params_m, quant);
    if swap_space_gb == 0 {
        return speed;
    }
    let swap: u128 = swap_space_gb as u128 * GIB as u128;
    let total: u128 = weight as u128 + swap;
    let kept: u128 = 5 * total - swap;
    let (q, m) = mul_div(speed, kept, 5 * total);
    assert((speed * kept) / (5 * total) == q) by (nonlinear_arith)
        requires
            q * (5 * total) + m == speed * kept,
            0 <= m < 5 * total,
    ;
    q
}

/// More bandwidth never makes a model slower.
pub proof fn law_bandwidth_never_slows(a: u32, b: u32, params_m: u64, quant: Seq<char>)
    requires
        a <= b,
    ensures
        speed_of(a, params_m, quant) <= speed_of(b, params_m, quant),
{
    let d = params_m * param_hundredths(quant);
    if params_m > 0 {
        assert(d >= 1) by (nonlinear_arith)
            requires
                params_m >= 1,
                d == params_m * param_hundredths(quant),
                param_hundredths(quant) >= 35,
        ;
        let x = a * 50_000_000_000;
        let y = b * 50_000_000_000;
        assert(x / d <= y / d) by (nonlinear_arith)
            requires
                x <= y,
                d >= 1,
        ;
    }
}

/// Swap space costs at most a fifth of the speed, and never adds to it.
pub proof fn law_swap_costs_at_most_a_fifth(
    bandwidth_gbs: u32,
    params_m: u64,
    quant: Seq<char>,
    swap_space_gb: int,
    weight: int,
)
    requires
        swap_space_gb > 0,
        weight >= 0,
    ensures
        ({
            let full = speed_of(bandwidth_gbs, params_m, quant);
            let spread = spread_speed(bandwidth_gbs, params_m, quant, swap_space_gb, 0, weight);
            5 * (spread + 1) > 4 * full && spread <= full
        }),
{
    let full = speed_of(bandwidth_gbs, params_m, quant);
    let swap = swap_space_gb * GIB;
    let total = weight + swap;
    if params_m > 0 {
        let d = params_m * param_hundredths(quant);
        assert(d >= 1) by (nonlinear_arith)
            requires
                params_m >= 1,
                d == params_m * param_hundredths(quant),
                param_hundredths(quant) >= 35,
        ;
        let n = bandwidth_gbs * 50_000_000_000;
        assert(n / d >= 0) by (nonlinear_arith)
            requires
                n >= 0,
                d >= 1,
        ;
    }
    let t = 5 * total;
    let q = (full * (t - swap)) / t;
    assert(5 * (q + 1) > 4 * full && q <= full) by (nonlinear_arith)
        requires
            q == (full * (t - swap)) / t,
            full >= 0,
            0 < swap,
            5 * swap <= t,
    ;
}

/// A context that is spread over the card and RAM.
#[derive(Clone, Copy, Debug, PartialEq, Eq, Structural)]
pub struct TieredContextFit {
    pub vram_context: usize,
    pub extended_context: usize,
    pub swap_space_gb: usize,
    pub cpu_offload_gb: usize,
}

/// The whole GiB, at least one, that hold the KV cache of `tokens` tokens.
pub open spec fn swap_gb(tokens: int, kv: int) -> int {
    context_fit::at_least(
        context_fit::at_most(context_fit::ceiling(tokens * kv, GIB as int), usize::MAX as int),
        1,
    )
}

/// How a context of up to `max_context` tokens is spread: on the card as far as it goes, the
/// rest in RAM; where not even the weights fit, and it is allowed, with some of them in RAM.
pub open spec fn tiered(
    room: int,
    ram: int,
    kv: int,
    max_context: usize,
    allow_weight_offload: bool,
) -> TieredContextFit {
    if kv <= 0 || max_context == 0 {
        TieredContextFit {
            vram_context: 0,
            extended_context: 0,
            swap_space_gb: 0,
            cpu_offload_gb: 0,
        }
    } else if room > 0 {
        let on_card = context_fit::at_most(context_fit::context_for(room, kv), max_context as int);
        if on_card >= max_context || ram <= 0 {
            TieredContextFit {
                vram_context: on_card as usize,
                extended_context: on_card as usize,
                swap_space_gb: 0,
                cpu_offload_gb: 0,
            }
        } else {
            let in_ram = context_fit::at_most(
                max_context - on_card,
                context_fit::context_for(ram, kv),
            );
            TieredContextFit {
                vram_context: on_card as usize,
                extended_context: (on_card + in_ram) as usize,
                swap_space_gb: if in_ram == 0 {
                    0
                } else {
                    swap_gb(in_ram, kv) as usize
                },
                cpu_offload_gb: 0,
            }
        }
    } else if allow_weight_offload && ram > 0 {
        let offload = context_fit::at_most(
            context_fit::ceiling(-room, GIB as int),
            usize::MAX as int,
        );
        let left = ram - offload * GIB;
        let tokens = context_fit::context_for(left, kv);
        if left <= 0 || tokens == 0 {
            TieredContextFit {
                vram_context: 0,
                extended_context: 0,
                swap_space_gb: 0,
                cpu_offload_gb: offload as usize,
            }
        } else {
            let extended = context_fit::at_least(
                context_fit::at_most(tokens, max_context as int),
                context_fit::at_most(512, max_context as int),
            );
            TieredContextFit {
                vram_context: 0,
                extended_context: extended as usize,
                swap_space_gb: swap_gb(extended, kv) as usize,
                cpu_offload_gb: offload as usize,
            }
        }
    } else {
        TieredContextFit {
            vram_context: 0,
            extended_context: 0,
            swap_space_gb: 0,
            cpu_offload_gb: 0,
        }
    }
}

/// The tokens' KV cache is no larger than the budget that they were taken from.
proof fn lemma_context_within(budget: int, kv: int, tokens: int)
    requires
        budget > 0,
        kv > 0,
        0 <= tokens <= context_fit::context_for(budget, kv),
    ensures
        0 <= tokens * kv <= budget,
{
    context_fit::law_context_is_largest_that_fits(budget, kv, tokens);
    assert(0 <= tokens * kv) by (nonlinear_arith)
        requires
            0 <= tokens,
            0 < kv,
    ;
}

fn swap_space(tokens: usize, kv: i128) -> (r: usize)
    requires
        kv > 0,
        0 <= tokens * kv <= AMOUNT_LIMIT * 512,
    ensures
        r == swap_gb(tokens as int, kv as int),
{
    let gb = context_fit::ceiling_units(tokens as i128 * kv, GIB);
    if gb < 1 {
        1
    } else {
        gb
    }
}

/// How a context of up to `max_context` tokens is spread over the card and RAM.
pub fn context_fit_tiered(
    vram_total_mb: u64,
    gpu_util: u32,
    ram_usable: i128,
    weight: i128,
    kv_per_token: i128,
    overhead: i128,
    max_context: usize,
    allow_weight_offload: bool,
) -> (r: TieredContextFit)
    requires
        amount_ok(weight),
        amount_ok(overhead),
        ram_usable <= AMOUNT_LIMIT,
        kv_per_token <= AMOUNT_LIMIT,
    ensures
        r == tiered(
            kv_room(vram_total_mb, gpu_util, weight, overhead),
            ram_usable as int,
            kv_per_token as int,
            max_context,
            allow_weight_offload,
        ),
{
    let none = TieredContextFit {
        vram_context: 0,
        extended_context: 0,
        swap_space_gb: 0,
        cpu_offload_gb: 0,
    };
    if kv_per_token <= 0 || max_context == 0 {
        return none;
    }
    let room: i128 = context_fit::share_parts(vram_total_mb, gpu_util) - weight - overhead;
    if room > 0 {
        let fitting = context_fit::vram_context_for_budget(room, kv_per_token);
        let on_card: usize = if fitting > max_context {
            max_context
        } else {
            fitting
        };
        if on_card >= max_context || ram_usable <= 0 {
            return TieredContextFit {
                vram_context: on_card,
                extended_context: on_card,
                swap_space_gb: 0,
                cpu_offload_gb: 0,
            };
        }
        let possible = context_fit::vram_context_for_budget(ram_usable, kv_per_token);
        let missing: usize = max_context - on_card;
        let in_ram: usize = if missing > possible {
            possible
        } else {
            missing
        };
        proof {
            lemma_context_within(ram_usable as int, kv_per_token as int, in_ram as int);
        }
        return TieredContextFit {
            vram_context: on_card,
            extended_context: on_card + in_ram,
            swap_space_gb: if in_ram == 0 {
                0
            } else {
                swap_space(in_ram, kv_per_token)
            },
            cpu_offload_gb: 0,
        };
    }
    if allow_weight_offload && ram_usable > 0 {
        let offload = context_fit::ceiling_units(-room, GIB);
        let left: i128 = ram_usable - offload as i128 * GIB;
        let tokens = context_fit::vram_context_for_budget(left, kv_per_token);
        if left <= 0 || tokens == 0 {
            return TieredContextFit {
                vram_context: 0,
                extended_context: 0,
                swap_space_gb: 0,
                cpu_offload_gb: offload,
            };
        }
        let capped: usize = if tokens > max_context {
            max_context
        } else {
            tokens
        };
        let least: usize = if max_context < 512 {
            max_context
        } else {
            512
        };
        let extended: usize = if capped < least {
            least
        } else {
            capped
        };
        proof {
            lemma_context_within(left as int, kv_per_token as int, capped as int);
            assert(0 <= least * kv_per_token <= 512 * kv_per_token) by (nonlinear_arith)
                requires
                    0 <= least <= 512,
                    0 < kv_per_token,
            ;
        }
        return TieredContextFit {
            vram_context: 0,
            extended_context: extended,
            swap_space_gb: swap_space(extended, kv_per_token),
            cpu_offload_gb: offload,
        };
    }
    none
}

/// A spread context never goes beyond what was asked for, and what is on the card is a part
/// of the whole.
pub proof fn law_tiered_stays_within(
    room: int,
    ram: int,
    kv: int,
    max_context: usize,
    allow_weight_offload: bool,
)
    ensures
        ({
            let t = tiered(room, ram, kv, max_context, allow_weight_offload);
            t.vram_context <= t.extended_context <= max_context
        }),
{
    if kv > 0 {
        lemma_context_nonneg(room, kv);
        lemma_context_nonneg(ram, kv);
        let offload = context_fit::at_most(
            context_fit::ceiling(-room, GIB as int),
            usize::MAX as int,
        );
        lemma_context_nonneg(ram - offload * GIB, kv);
    }
}

proof fn lemma_context_nonneg(budget: int, kv: int)
    requires
        kv > 0,
    ensures
        0 <= context_fit::context_for(budget, kv) <= usize::MAX,
{
    if budget > 0 {
        assert(budget / kv >= 0) by (nonlinear_arith)
            requires
                budget > 0,
                kv > 0,
        ;
    }
}

// ---------------------------------------------------------------------------
// Graphics cards
// ---------------------------------------------------------------------------

/// The memory bandwidth of known cards in GB/s: each row holds what the name of the card
/// contains, and the rows are looked at in order.
pub open spec fn gpu_table() -> Seq<(&'static str, &'static str, u32)> {
    seq![
        ("5090", "laptop", 1418u32),
        ("5090", "", 1792u32),
        ("5080", "laptop", 960u32),
        ("5080", "", 960u32),
        ("5070 ti", "laptop", 672u32),
        ("5070 ti", "", 896u32),
        ("5070", "", 448u32),
        ("5060 ti", "", 448u32),
        ("5060", "", 288u32),
        ("4090", "", 1008u32),
        ("4080", "super", 736u32),
        ("4080", "", 716u32),
        ("4070 ti", "super", 672u32),
        ("4070 ti", "", 504u32),
        ("4070 super", "", 504u32),
        ("4070", "", 504u32),
        ("4060 ti", "", 288u32),
        ("4060", "", 272u32),
        ("3090 ti", "", 1008u32),
        ("3090", "", 936u32),
        ("3080 ti", "", 912u32),
        ("3080", "", 760u32),
        ("3070 ti", "", 608u32),
        ("3070", "", 448u32),
        ("3060 ti", "", 448u32),
        ("3060", "", 360u32),
        ("3050", "", 224u32),
    ]
}

fn gpu_rows() -> (r: Vec<(&'static str, &'static str, u32)>)
    ensures
        r@ == gpu_table(),
{
    vec![
        ("5090", "laptop", 1418u32),
        ("5090", "", 1792u32),
        ("5080", "laptop", 960u32),
        ("5080", "", 960u32),
        ("5070 ti", "laptop", 672u32),
        ("5070 ti", "", 896u32),
        ("5070", "", 448u32),
        ("5060 ti", "", 448u32),
        ("5060", "", 288u32),
        ("4090", "", 1008u32),
        ("4080", "super", 736u32),
        ("4080", "", 716u32),
        ("4070 ti", "super", 672u32),
        ("4070 ti", "", 504u32),
        ("4070 super", "", 504u32),
        ("4070", "", 504u32),
        ("4060 ti", "", 288u32),
        ("4060", "", 272u32),
        ("3090 ti", "", 1008u32),
        ("3090", "", 936u32),
        ("3080 ti", "", 912u32),
        ("3080", "", 760u32),
        ("3070 ti", "", 608u32),
        ("3070", "", 448u32),
        ("3060 ti", "", 448u32),
        ("3060", "", 360u32),
        ("3050", "", 224u32),
    ]
}

/// The bandwidth of the first row at or after number `i` for a name in lower case.
pub open spec fn bandwidth_from(name: Seq<char>, i: int) -> Option<u32>
    decreases gpu_table().len() - i,
{
    if i < 0 || i >= gpu_table().len() {
        None
    } else if text::occurs(name, gpu_table()[i].0@) && text::occurs(name, gpu_table()[i].1@) {
        Some(gpu_table()[i].2)
    } else {
        bandwidth_from(name, i + 1)
    }
}

/// The memory bandwidth of a card in GB/s, and whether the card is a known one; 700 stands
/// for any other.
pub fn gpu_bandwidth(name: &str) -> (r: (u32, bool))
    ensures
        r == (match bandwidth_from(outside::lowercase(name@), 0) {
            Some(b) => (b, true),
            None => (700u32, false),
        }),
{
    let lower = outside::to_lowercase(name);
    let rows = gpu_rows();
    for i in 0..rows.len()
        invariant
            rows@ == gpu_table(),
            lower@ == outside::lowercase(name@),
            bandwidth_from(lower@, 0) == bandwidth_from(lower@, i as int),
    {
        if text::contains_text(&lower, rows[i].0) && text::contains_text(&lower, rows[i].1) {
            return (rows[i].2, true);
        }
    }
    (700, false)
}

// ---------------------------------------------------------------------------
// Families of models
// ---------------------------------------------------------------------------

/// The context of the models of a family, which the name of the model contains; the rows are
/// looked at in order.
pub open spec fn family_table() -> Seq<(&'static str, usize)> {
    seq![
        ("qwen3", 131_072usize),
        ("qwen2", 131_072usize),
        ("qwen", 32_768usize),
        ("llama3", 8_192usize),
        ("llama-3", 8_192usize),
        ("llama", 4_096usize),
        ("mistral", 32_768usize),
        ("mixtral", 32_768usize),
        ("gemma", 8_192usize),
        ("deepseek", 131_072usize),
        ("phi-2", 2_048usize),
        ("phi2", 2_048usize),
        ("phi", 131_072usize),
        ("gpt-2", 1_024usize),
        ("gpt2", 1_024usize),
        ("gpt-j", 2_048usize),
        ("gpt-neox", 2_048usize),
        ("falcon", 2_048usize),
        ("olmo", 2_048usize),
        ("yi", 4_096usize),
        ("baichuan", 4_096usize),
        ("internlm", 32_768usize),
        ("glm", 32_768usize),
        ("codegen", 2_048usize),
        ("codellama", 16_384usize),
        ("starcoder", 8_192usize),
        ("bloom", 2_048usize),
    ]
}

/// The context of the first row at or after number `i` for a name in lower case.
pub open spec fn family_from(name: Seq<char>, i: int) -> Option<usize>
    decreases family_table().len() - i,
{
    if i < 0 || i >= family_table().len() {
        None
    } else if text::occurs(name, family_table()[i].0@) {
        Some(family_table()[i].1)
    } else {
        family_from(name, i + 1)
    }
}

/// The context that the family of a model has.
pub open spec fn family_context(model_id: Seq<char>) -> Option<usize> {
    family_from(outside::lowercase(model_id), 0)
}

pub(crate) proof fn lemma_family_context_positive(name: Seq<char>, i: int)
    ensures
        family_from(name, i) matches Some(n) ==> n > 0,
    decreases family_table().len() - i,
{
    if 0 <= i < family_table().len() {
        lemma_family_context_positive(name, i + 1);
    }
}

/// The context that the family of a model has.
pub fn family_fallback(model_id: &str) -> (r: Option<usize>)
    ensures
        r == family_context(model_id@),
{
    let lower = outside::to_lowercase(model_id);
    let rows = vec![
        ("qwen3", 131_072usize),
        ("qwen2", 131_072usize),
        ("qwen", 32_768usize),
        ("llama3", 8_192usize),
        ("llama-3", 8_192usize),
        ("llama", 4_096usize),
        ("mistral", 32_768usize),
        ("mixtral", 32_768usize),
        ("gemma", 8_192usize),
        ("deepseek", 131_072usize),
        ("phi-2", 2_048usize),
        ("phi2", 2_048usize),
        ("phi", 131_072usize),
        ("gpt-2", 1_024usize),
        ("gpt2", 1_024usize),
        ("gpt-j", 2_048usize),
        ("gpt-neox", 2_048usize),
        ("falcon", 2_048usize),
        ("olmo", 2_048usize),
        ("yi", 4_096usize),
        ("baichuan", 4_096usize),
        ("internlm", 32_768usize),
        ("glm", 32_768usize),
        ("codegen", 2_048usize),
        ("codellama", 16_384usize),
        ("starcoder", 8_192usize),
        ("bloom", 2_048usize),
    ];
    assert(rows@ == family_table());
    for i in 0..rows.len()
        invariant
            rows@ == family_table(),
            lower@ == outside::lowercase(model_id@),
            family_context(model_id@) == family_from(lower@, i as int),
    {
        if text::contains_text(&lower, rows[i].0) {
            return Some(rows[i].1);
        }
    }
    None
}

/// The context of a model of which nothing is known.
pub const DEFAULT_CONTEXT: usize = 4096;

// ---------------------------------------------------------------------------
// Configurations
// ---------------------------------------------------------------------------

/// The value of a whole number that fits into a `usize`.
pub open spec fn size_value(t: JsonTree) -> Option<usize> {
    match t.as_unsigned() {
        Some(n) => if n <= usize::MAX {
            Some(n as usize)
        } else {
            None
        },
        None => None,
    }
}

/// The value of a whole number that fits into a `usize`.
pub fn usize_of(v: &Json) -> (r: Option<usize>)
    ensures
        r == size_value(v.tree()),
{
    match v.as_u64() {
        Some(n) => if n <= usize::MAX as u64 {
            Some(n as usize)
        } else {
            None
        },
        None => None,
    }
}

/// The value of the member `key`, where it is a size.
pub open spec fn size_member(t: JsonTree, key: Seq<char>) -> Option<usize> {
    match t.member(key) {
        Some(v) => size_value(v),
        None => None,
    }
}

/// The value of the member `key`, where it is a size.
pub fn size_at(v: &Json, key: &str) -> (r: Option<usize>)
    ensures
        r == size_member(v.tree(), key@),
{
    match v.get(key) {
        Some(x) => usize_of(x),
        None => None,
    }
}

/// Where a context was found.
#[derive(Clone, Copy, Debug, PartialEq, Eq, Structural)]
pub enum ContextSource {
    /// In the configuration of the model.
    Config,
    /// In the table of families.
    Family,
    /// Nowhere.
    Default,
}

/// The names under which a configuration declares its context, in the order in which they
/// are looked for.
pub open spec fn context_keys() -> Seq<&'static str> {
    seq![
        "max_position_embeddings",
        "model_max_length",
        "n_positions",
        "max_seq_len",
        "max_seq_length",
        "max_sequence_length",
        "window",
    ]
}

/// The value under the first of the names at or after number `i` that holds a size.
pub open spec fn own_context_from(t: JsonTree, i: int) -> Option<usize>
    decreases context_keys().len() - i,
{
    if i < 0 || i >= context_keys().len() {
        None
    } else {
        match size_member(t, context_keys()[i]@) {
            Some(n) => Some(n),
            None => own_context_from(t, i + 1),
        }
    }
}

/// The factor of the RoPE scaling of a configuration, for the kinds of scaling that stretch
/// the context.
pub open spec fn rope_factor(t: JsonTree) -> Option<JsonNumber> {
    match t.member("rope_scaling"@) {
        None => None,
        Some(rope) => {
            let kind = match rope.member("type"@) {
                Some(v) => v.as_text(),
                None => rope.text_member("rope_type"@),
            };
            if kind == Some("yarn"@) || kind == Some("linear"@) || kind == Some("dynamic"@) {
                match rope.member("factor"@) {
                    Some(f) => f.as_number(),
                    None => None,
                }
            } else {
                None
            }
        },
    }
}

/// The context that a configuration declares, its own or that of the first of its nested
/// configurations that declares one above zero.
pub open spec fn declared_context(t: JsonTree) -> Option<usize>
    decreases t,
{
    match own_context_from(t, 0) {
        Some(n) => Some(
            match rope_factor(t) {
                Some(f) => double::stretched(n, f),
                None => n,
            },
        ),
        None => {
            proof {
                json::lemma_member_smaller(t, "text_config"@);
                json::lemma_member_smaller(t, "config"@);
                json::lemma_member_smaller(t, "model_config"@);
            }
            let a = match t.member("text_config"@) {
                Some(sub) => declared_context(sub),
                None => None,
            };
            let b = match t.member("config"@) {
                Some(sub) => declared_context(sub),
                None => None,
            };
            let c = match t.member("model_config"@) {
                Some(sub) => declared_context(sub),
                None => None,
            };
            if above_zero(a) {
                a
            } else if above_zero(b) {
                b
            } else if above_zero(c) {
                c
            } else {
                None
            }
        },
    }
}

/// A context of at least one token is declared.
pub open spec fn above_zero(d: Option<usize>) -> bool {
    d matches Some(n) && n > 0
}

fn own_context(config: &Json) -> (r: Option<usize>)
    ensures
        r == own_context_from(config.tree(), 0),
{
    let keys = [
        "max_position_embeddings",
        "model_max_length",
        "n_positions",
        "max_seq_len",
        "max_seq_length",
        "max_sequence_length",
        "window",
    ];
    assert(keys@ == context_keys());
    for i in 0..keys.len()
        invariant
            keys@ == context_keys(),
            own_context_from(config.tree(), 0) == own_context_from(config.tree(), i as int),
    {
        if let Some(n) = size_at(config, keys[i]) {
            return Some(n);
        }
    }
    None
}

/// The context of a configuration, stretched by its RoPE scaling where that is more than one.
fn apply_rope_scaling(config: &Json, base_ctx: usize) -> (r: usize)
    ensures
        r == (match rope_factor(config.tree()) {
            Some(f) => double::stretched(base_ctx, f),
            None => base_ctx,
        }),
{
    let Some(rope) = config.get("rope_scaling") else {
        return base_ctx;
    };
    let kind: Option<&str> = match rope.get("type") {
        Some(v) => v.as_str(),
        None => rope.get_str("rope_type"),
    };
    let stretches = match kind {
        Some(k) => text::same(k, "yarn") || text::same(k, "linear") || text::same(k, "dynamic"),
        None => false,
    };
    if !stretches {
        return base_ctx;
    }
    match rope.get("factor") {
        Some(f) => match f.as_number() {
            Some(x) => double::stretch(base_ctx, x),
            None => base_ctx,
        },
        None => base_ctx,
    }
}

fn is_above_zero(d: &Option<usize>) -> (r: bool)
    ensures
        r == above_zero(*d),
{
    match d {
        Some(n) => *n > 0,
        None => false,
    }
}

fn context_in(config: &Json) -> (r: Option<usize>)
    ensures
        r == declared_context(config.tree()),
    decreases config,
{
    if let Some(tokens) = own_context(config) {
        return Some(apply_rope_scaling(config, tokens));
    }
    let a = match config.get("text_config") {
        Some(sub) => context_in(sub),
        None => None,
    };
    if is_above_zero(&a) {
        return a;
    }
    let b = match config.get("config") {
        Some(sub) => context_in(sub),
        None => None,
    };
    if is_above_zero(&b) {
        return b;
    }
    let c = match config.get("model_config") {
        Some(sub) => context_in(sub),
        None => None,
    };
    if is_above_zero(&c) {
        return c;
    }
    None
}

/// The context that a configuration declares, with its source; where it declares none there
/// are no tokens and no source.
pub fn parse_context(config: &Json) -> (r: (usize, ContextSource))
    ensures
        r == (match declared_context(config.tree()) {
            Some(n) => (n, ContextSource::Config),
            None => (0, ContextSource::Default),
        }),
{
    match context_in(config) {
        Some(n) => (n, ContextSource::Config),
        None => (0, ContextSource::Default),
    }
}

/// The head dimension that follows from the hidden size and the number of heads.
pub open spec fn derived_head_dim(t: JsonTree) -> Option<usize> {
    match (size_member(t, "hidden_size"@), size_member(t, "num_attention_heads"@)) {
        (Some(hidden), Some(heads)) => if heads > 0 {
            Some((hidden as int / heads as int) as usize)
        } else {
            None
        },
        _ => None,
    }
}

/// The head dimension that an object declares, or that follows from its other sizes.
pub open spec fn own_head_dim(t: JsonTree) -> Option<usize> {
    match size_member(t, "head_dim"@) {
        Some(d) => Some(d),
        None => derived_head_dim(t),
    }
}

/// The head dimension of the nested configuration `key`.
pub open spec fn nested_head_dim(t: JsonTree, key: Seq<char>) -> Option<usize> {
    match t.member(key) {
        Some(sub) => own_head_dim(sub),
        None => None,
    }
}

/// The head dimension of a configuration, its own or that of the first of its nested
/// configurations that tells one.
pub open spec fn config_head_dim(t: JsonTree) -> Option<usize> {
    match own_head_dim(t) {
        Some(d) => Some(d),
        None => match nested_head_dim(t, "text_config"@) {
            Some(d) => Some(d),
            None => match nested_head_dim(t, "config"@) {
                Some(d) => Some(d),
                None => nested_head_dim(t, "model_config"@),
            },
        },
    }
}

fn derive_head_dim(cfg: &Json) -> (r: Option<usize>)
    ensures
        r == derived_head_dim(cfg.tree()),
{
    let Some(hidden) = size_at(cfg, "hidden_size") else {
        return None;
    };
    let Some(heads) = size_at(cfg, "num_attention_heads") else {
        return None;
    };
    if heads > 0 {
        Some(hidden / heads)
    } else {
        None
    }
}

fn own_dim(cfg: &Json) -> (r: Option<usize>)
    ensures
        r == own_head_dim(cfg.tree()),
{
    match size_at(cfg, "head_dim") {
        Some(d) => Some(d),
        None => derive_head_dim(cfg),
    }
}

fn nested_dim(cfg: &Json, key: &str) -> (r: Option<usize>)
    ensures
        r == nested_head_dim(cfg.tree(), key@),
{
    match cfg.get(key) {
        Some(sub) => own_dim(sub),
        None => None,
    }
}

/// The head dimension of a configuration.
pub fn head_dim_from_config(cfg: &Json) -> (r: Option<usize>)
    ensures
        r == config_head_dim(cfg.tree()),
{
    if let Some(d) = own_dim(cfg) {
        return Some(d);
    }
    if let Some(d) = nested_dim(cfg, "text_config") {
        return Some(d);
    }
    if let Some(d) = nested_dim(cfg, "config") {
        return Some(d);
    }
    nested_dim(cfg, "model_config")
}

// ---------------------------------------------------------------------------
// Parameter counts
// ---------------------------------------------------------------------------

/// The nested configuration of the language model.
pub open spec fn inner_config(t: JsonTree) -> Option<JsonTree> {
    match t.member("text_config"@) {
        Some(s) => Some(s),
        None => match t.member("model_config"@) {
            Some(s) => Some(s),
            None => t.member("config"@),
        },
    }
}

/// The size under `key`: in the nested configuration where that has the name, else in the
/// outer one.
pub open spec fn resolved_size(t: JsonTree, key: Seq<char>) -> Option<usize> {
    match inner_config(t) {
        Some(sub) => match sub.member(key) {
            Some(v) => size_value(v),
            None => size_member(t, key),
        },
        None => size_member(t, key),
    }
}

fn resolve_size(cfg: &Json, key: &str) -> (r: Option<usize>)
    ensures
        r == resolved_size(cfg.tree(), key@),
{
    let inner = match cfg.get("text_config") {
        Some(s) => Some(s),
        None => match cfg.get("model_config") {
            Some(s) => Some(s),
            None => cfg.get("config"),
        },
    };
    match inner {
        Some(sub) => match sub.get(key) {
            Some(v) => usize_of(v),
            None => size_at(cfg, key),
        },
        None => size_at(cfg, key),
    }
}

/// The parameters of a transformer with these dimensions: its attention, its feed-forward
/// layers and its embeddings.
pub open spec fn transformer_params(layers: int, hidden: int, inter: int, vocab: int) -> int {
    12 * (layers * (hidden * hidden)) + layers * (hidden * inter) + vocab * hidden
}

/// The number, or the largest that a `u128` holds.
pub open spec fn capped(n: int) -> int {
    if n > u128::MAX {
        u128::MAX as int
    } else {
        n
    }
}

fn capped_mul(a: u128, b: u128) -> (r: u128)
    ensures
        r == capped(a * b),
{
    match a.checked_mul(b) {
        Some(p) => p,
        None => u128::MAX,
    }
}

fn capped_plus(a: u128, b: u128) -> (r: u128)
    ensures
        r == capped(a + b),
{
    a.saturating_add(b)
}

/// The parameter count that a configuration implies.
pub open spec fn config_params(t: JsonTree) -> Option<int> {
    match (
        resolved_size(t, "num_hidden_layers"@),
        resolved_size(t, "hidden_size"@),
        resolved_size(t, "vocab_size"@),
    ) {
        (Some(layers), Some(hidden), Some(vocab)) => {
            let inter = match resolved_size(t, "intermediate_size"@) {
                Some(i) => i as int,
                None => hidden * 4,
            };
            if layers == 0 || hidden == 0 {
                None
            } else {
                Some(
                    capped(
                        transformer_params(layers as int, hidden as int, inter, vocab as int),
                    ),
                )
            }
        },
        _ => None,
    }
}

proof fn lemma_capped_product(x: int, y: int, a: int, b: int)
    requires
        0 <= a,
        0 <= b,
        x == capped(a),
        y == capped(b),
        y > 0,
    ensures
        capped(x * y) == capped(a * b),
{
    let m = u128::MAX as int;
    if a > m {
        assert(x * y >= m) by (nonlinear_arith)
            requires
                x == m,
                y >= 1,
                m >= 0,
        ;
        assert(a * b > m) by (nonlinear_arith)
            requires
                a > m,
                b >= 1,
                m >= 0,
        ;
    } else if b > m {
        if a == 0 {
            assert(x * y == 0) by (nonlinear_arith)
                requires
                    x == 0,
            ;
            assert(a * b == 0) by (nonlinear_arith)
                requires
                    a == 0,
            ;
        } else {
            assert(x * y >= m) by (nonlinear_arith)
                requires
                    x >= 1,
                    y == m,
                    m >= 0,
            ;
            assert(a * b > m) by (nonlinear_arith)
                requires
                    a >= 1,
                    b > m,
                    m >= 0,
            ;
        }
    }
}

/// The parameter count that the dimensions in a configuration imply.
pub fn estimate_params_from_config(cfg: &Json) -> (r: Option<u128>)
    ensures
        match r {
            Some(n) => config_params(cfg.tree()) == Some(n as int),
            None => config_params(cfg.tree()) is None,
        },
{
    let Some(layers) = resolve_size(cfg, "num_hidden_layers") else {
        return None;
    };
    let Some(hidden) = resolve_size(cfg, "hidden_size") else {
        return None;
    };
    let Some(vocab) = resolve_size(cfg, "vocab_size") else {
        return None;
    };
    let inter: u128 = match resolve_size(cfg, "intermediate_size") {
        Some(i) => i as u128,
        None => hidden as u128 * 4,
    };
    if layers == 0 || hidden == 0 {
        return None;
    }
    let h: u128 = hidden as u128;
    let l: u128 = layers as u128;
    let v: u128 = vocab as u128;
    assert(0 < h * h) by (nonlinear_arith)
        requires
            h > 0,
    ;
    assert(h * h <= 0xffff_ffff_ffff_ffff * 0xffff_ffff_ffff_ffff) by (nonlinear_arith)
        requires
            0 < h <= 0xffff_ffff_ffff_ffff,
    ;
    assert(0 <= h * inter) by (nonlinear_arith)
        requires
            h >= 0,
            inter >= 0,
    ;
    assert(0 <= v * h) by (nonlinear_arith)
        requires
            v >= 0,
            h >= 0,
    ;
    let square: u128 = capped_mul(h, h);
    let wide: u128 = capped_mul(h, inter);
    let a0: u128 = capped_mul(l, square);
    let attention: u128 = capped_mul(12, a0);
    let mlp: u128 = capped_mul(wide, l);
    let embeddings: u128 = capped_mul(v, h);
    proof {
        lemma_capped_product(l as int, square as int, l as int, h * h);
        assert(0 < l * (h * h)) by (nonlinear_arith)
            requires
                l > 0,
                h * h > 0,
        ;
        lemma_capped_product(12, a0 as int, 12, l * (h * h));
        lemma_capped_product(wide as int, l as int, h * inter, l as int);
        assert((h * inter) * l == l * (h * inter)) by (nonlinear_arith);
    }
    Some(capped_plus(capped_plus(attention, mlp), embeddings))
}

/// The parameter count in billions in a name: a numeral before `b` that stands by itself
/// between separators.
pub const PARAMS_PATTERN: &'static str = "(?i)(?:^|[-_ /])(\\d+(?:\\.\\d+)?)[bB](?:[-_ /.]|$)";

/// The number in the first capture group.
pub open spec fn group_decimal(groups: Option<Seq<Option<Seq<char>>>>) -> Option<(nat, nat)> {
    match groups {
        Some(g) => if g.len() > 1 {
            match g[1] {
                Some(digits) => numeral::plain_decimal(digits),
                None => None,
            }
        } else {
            None
        },
        None => None,
    }
}

/// The parts of an optional number.
pub open spec fn opt_parts(d: Option<Decimal>) -> Option<(nat, nat)> {
    match d {
        Some(x) => Some(x.parts()),
        None => None,
    }
}

/// The number in the first of a row of capture groups behind the whole match.
pub fn params_from_groups(groups: &Option<Vec<Option<String>>>) -> (r: Option<Decimal>)
    ensures
        opt_parts(r) == group_decimal(
            match groups {
                Some(g) => Some(outside::group_texts(g@)),
                None => None,
            },
        ),
        r matches Some(d) ==> d.well_formed(),
{
    let Some(g) = groups else {
        return None;
    };
    if g.len() <= 1 {
        return None;
    }
    assert(outside::group_texts(g@)[1] == text::opt_text(g@[1]));
    match &g[1] {
        Some(digits) => numeral::read_decimal(digits),
        None => None,
    }
}

/// The parameter count in billions that the name of a model tells: `Qwen3.8-27B-GGUF` tells
/// 27.
pub fn parse_params_from_name(name: &str) -> (r: Option<Decimal>)
    ensures
        opt_parts(r) == group_decimal(
            outside::lite_groups(PARAMS_PATTERN@, text::after_last(name@, seq!['/'])),
        ),
        r matches Some(d) ==> d.well_formed(),
{
    let slash = ['/'];
    assert(slash@ == seq!['/']);
    let groups = outside::lite_captures(PARAMS_PATTERN, text::tail_after(name, &slash));
    params_from_groups(&groups)
}

/// The sum of the whole numbers among the values of a row of members.
pub open spec fn counts_sum(members: Seq<(Seq<char>, JsonTree)>) -> nat
    decreases members.len(),
{
    if members.len() == 0 {
        0
    } else {
        counts_sum(members.drop_last()) + (match members.last().1.as_unsigned() {
            Some(n) => n as nat,
            None => 0nat,
        })
    }
}

/// The parameter count in the answer of the model hub: the counts of all types of weights.
pub open spec fn published_params(t: JsonTree) -> Option<nat> {
    match t.member("safetensors"@) {
        None => None,
        Some(s) => match s.member("parameters"@) {
            Some(JsonTree::Object(members)) => if counts_sum(members) == 0 {
                None
            } else {
                Some(counts_sum(members))
            },
            _ => None,
        },
    }
}

/// The parameter count in the answer of the model hub.
pub fn parse_params_from_safetensors_api(model_info: &Json) -> (r: Option<u128>)
    ensures
        match r {
            Some(n) => published_params(model_info.tree()) == Some(n as nat),
            None => published_params(model_info.tree()) is None,
        },
{
    let Some(section) = model_info.get("safetensors") else {
        return None;
    };
    let Some(params) = section.get("parameters") else {
        return None;
    };
    match params {
        Json::Object(members) => {
            let ghost list = params.tree()->Object_0;
            let mut total: u128 = 0;
            for i in 0..members.len()
                invariant
                    *params == Json::Object(*members),
                    list == params.tree()->Object_0,
                    total == counts_sum(list.take(i as int)),
                    total <= i * 0xffff_ffff_ffff_ffff,
            {
                proof {
                    assert(list.take(i + 1).drop_last() =~= list.take(i as int));
                    assert(list.take(i + 1).last() == list[i as int]);
                    assert(list[i as int].1 == members@[i as int].1.tree());
                    assert(i * 0xffff_ffff_ffff_ffff <= 0xffff_ffff_ffff_ffff
                        * 0xffff_ffff_ffff_ffff) by (nonlinear_arith)
                        requires
                            0 <= i <= 0xffff_ffff_ffff_ffff,
                    ;
                }
                if let Some(n) = members[i].1.as_u64() {
                    total = total + n as u128;
                }
            }
            assert(list.take(members@.len() as int) =~= list);
            if total == 0 {
                None
            } else {
                Some(total)
            }
        },
        _ => None,
    }
}

/// The bytes of the weights in an index file, and how many of them make a parameter.
#[derive(Clone, Copy, Debug, PartialEq, Eq, Structural)]
pub struct IndexedWeights {
    pub total_bytes: u64,
    pub bytes_per_param: u8,
}

/// The bytes that a parameter of type `torch_dtype` takes in a file of weights; of a type that
/// is not known, two.
pub open spec fn stored_bytes(torch_dtype: Option<Seq<char>>) -> u8 {
    match torch_dtype {
        Some(d) => {
            let l = text::ascii_lowercase(d);
            if text::occurs(l, "float32"@) {
                4
            } else if text::occurs(l, "float16"@) {
                2
            } else if text::occurs(l, "float8"@) {
                1
            } else {
                2
            }
        },
        None => 2,
    }
}

/// The weights that an index file tells of.
pub fn parse_params_from_index(index: &Json, torch_dtype: Option<&str>) -> (r: Option<
    IndexedWeights,
>)
    ensures
        r == (match index.tree().member("metadata"@) {
            Some(m) => match m.member("total_size"@) {
                Some(t) => match t.as_unsigned() {
                    Some(n) => Some(
                        IndexedWeights {
                            total_bytes: n,
                            bytes_per_param: stored_bytes(text::opt_str(torch_dtype)),
                        },
                    ),
                    None => None,
                },
                None => None,
            },
            None => None,
        }),
{
    let Some(metadata) = index.get("metadata") else {
        return None;
    };
    let Some(size) = metadata.get("total_size") else {
        return None;
    };
    let Some(total_bytes) = size.as_u64() else {
        return None;
    };
    let bytes_per_param: u8 = match torch_dtype {
        Some(d) => {
            let l = text::ascii_lowered(d);
            if text::contains_text(&l, "float32") {
                4
            } else if text::contains_text(&l, "float16") {
                2
            } else if text::contains_text(&l, "float8") {
                1
            } else {
                2
            }
        },
        None => 2,
    };
    Some(IndexedWeights { total_bytes, bytes_per_param })
}

/// The names of quantizations tell how much a parameter takes: the more bits, the more. A name
/// that tells nothing stands for weights that are not quantized, of two bytes each.
pub proof fn law_more_bits_take_more(quant: Seq<char>)
    ensures
        ({
            let q = text::ascii_lowercase(quant);
            let h = param_hundredths(quant);
            let four = text::occurs(q, "q4_"@) || text::occurs(q, "iq4"@);
            let eight = text::occurs(q, "q8_"@);
            let five = text::occurs(q, "q5_"@);
            let six = text::occurs(q, "q6_"@);
            let three = text::occurs(q, "q3_"@) || text::occurs(q, "iq3"@);
            &&& "q4"@.is_prefix_of(q) || four ==> h == 55
            &&& q == "awq"@ || q == "gptq"@ || q == "int4"@ ==> h == 55
            &&& "q8"@.is_prefix_of(q) && !four ==> h == 105
            &&& "q5"@.is_prefix_of(q) && !four && !eight ==> h == 68
            &&& "q6"@.is_prefix_of(q) && !four && !eight && !five ==> h == 80
            &&& "q3"@.is_prefix_of(q) && !four && !eight && !five && !six ==> h == 45
            &&& "q2"@.is_prefix_of(q) && !four && !eight && !five && !six && !three ==> h == 35
            &&& 35 <= h <= 200
        }),
{
    let q = text::ascii_lowercase(quant);
    reveal_strlit("q4");
    reveal_strlit("q8");
    reveal_strlit("q5");
    reveal_strlit("q6");
    reveal_strlit("q3");
    reveal_strlit("q2");
    reveal_strlit("awq");
    reveal_strlit("gptq");
    reveal_strlit("int4");
    reveal_strlit("_");
    reveal_strlit("q4_");
    reveal_strlit("q8_");
    reveal_strlit("q5_");
    reveal_strlit("q6_");
    reveal_strlit("q3_");
    assert("q4"@ + "_"@ =~= "q4_"@);
    assert("q8"@ + "_"@ =~= "q8_"@);
    assert("q5"@ + "_"@ =~= "q5_"@);
    assert("q6"@ + "_"@ =~= "q6_"@);
    assert("q3"@ + "_"@ =~= "q3_"@);
    assert("q4"@[1] == '4' && "q8"@[1] == '8' && "q5"@[1] == '5' && "q6"@[1] == '6' && "q3"@[1]
        == '3' && "q2"@[1] == '2');
    assert("awq"@[0] == 'a' && "gptq"@[0] == 'g' && "int4"@[0] == 'i');
    lemma_prefix_starts(q, "q4"@);
    lemma_prefix_starts(q, "q8"@);
    lemma_prefix_starts(q, "q5"@);
    lemma_prefix_starts(q, "q6"@);
    lemma_prefix_starts(q, "q3"@);
    lemma_prefix_starts(q, "q2"@);
}

proof fn lemma_prefix_starts(s: Seq<char>, p: Seq<char>)
    requires
        p.len() == 2,
    ensures
        p.is_prefix_of(s) ==> s.len() >= 2 && s[0] == p[0] && s[1] == p[1],
{
    if p.is_prefix_of(s) {
        assert(s.take(2)[0] == s[0]);
        assert(s.take(2)[1] == s[1]);
    }
}

/// More parameters never weigh less, and none weigh nothing; a thousand million parameters
/// take as many hundredths of a GiB as one parameter takes hundredths of a byte.
pub proof fn law_weights_grow_with_parameters(few: u64, many: u64, quant: Seq<char>)
    requires
        few <= many,
    ensures
        weights_of(few, quant) <= weights_of(many, quant),
        weights_of(0, quant) == 0,
        few == 1_000 ==> 100 * weights_of(few, quant) <= param_hundredths(quant) * GIB < 100 * (
        weights_of(few, quant) + 1),
{
    let h = param_hundredths(quant);
    assert(few * h * GIB <= many * h * GIB) by (nonlinear_arith)
        requires
            few <= many,
            h >= 0,
    ;
    let a = few * h * GIB;
    let b = many * h * GIB;
    assert(0 * h * GIB == 0) by (nonlinear_arith);
    if few == 1_000 {
        assert(few * h * GIB == 1_000 * (h * GIB)) by (nonlinear_arith)
            requires
                few == 1_000,
        ;
    }
}

/// A model makes its tokens at the speed at which half the bandwidth of the card reads its
/// parameters: the larger the model, the slower, and a model of unknown size makes none.
pub proof fn law_larger_models_are_slower(
    bandwidth_gbs: u32,
    few: u64,
    many: u64,
    quant: Seq<char>,
)
    requires
        0 < few <= many,
    ensures
        speed_of(bandwidth_gbs, many, quant) <= speed_of(bandwidth_gbs, few, quant),
        speed_of(bandwidth_gbs, 0, quant) == 0,
        ({
            let speed = speed_of(bandwidth_gbs, few, quant);
            let bytes = few * param_hundredths(quant);
            speed * bytes <= bandwidth_gbs * 50_000_000_000 < (speed + 1) * bytes
        }),
{
    let h = param_hundredths(quant);
    let d = few * h;
    let e = many * h;
    assert(0 < d <= e) by (nonlinear_arith)
        requires
            0 < few <= many,
            35 <= h,
            d == few * h,
            e == many * h,
    ;
    let n = bandwidth_gbs * 50_000_000_000;
    assert(n / e <= n / d) by (nonlinear_arith)
        requires
            n >= 0,
            0 < d <= e,
    ;
    let q = n / d;
    assert(q * d <= n < (q + 1) * d) by (nonlinear_arith)
        requires
            q == n / d,
            d > 0,
    ;
}

/// Where weights are in RAM the card's bandwidth does not matter, only that of the bus, which
/// reads 20 GB in a second; where all is on the card, nothing is lost.
pub proof fn law_offloaded_weights_are_bound_by_the_bus(
    a: u32,
    b: u32,
    params_m: u64,
    quant: Seq<char>,
    swap_space_gb: int,
    cpu_offload_gb: int,
    weight: int,
)
    requires
        cpu_offload_gb > 0,
    ensures
        spread_speed(a, params_m, quant, swap_space_gb, cpu_offload_gb, weight) == spread_speed(
            b,
            params_m,
            quant,
            swap_space_gb,
            cpu_offload_gb,
            weight,
        ),
        spread_speed(a, params_m, quant, swap_space_gb, cpu_offload_gb, weight) == speed_of(
            20,
            params_m,
            quant,
        ),
        spread_speed(a, params_m, quant, 0, 0, weight) == speed_of(a, params_m, quant),
{
}

/// A spread context: what is on the card is the most that its room holds, what is in RAM is the
/// most that is asked for beyond that and that RAM holds, and the swap space is the least whole
/// number of GiB that hold it. Weights stay on the card as long as they fit there.
pub proof fn law_spread_context(
    room: int,
    ram: int,
    kv: int,
    max_context: usize,
    allow_weight_offload: bool,
    tokens: usize,
)
    requires
        kv > 0,
        room > 0,
    ensures
        ({
            let t = tiered(room, ram, kv, max_context, allow_weight_offload);
            let in_ram = t.extended_context - t.vram_context;
            &&& tokens <= t.vram_context <==> tokens <= max_context && tokens * kv <= room
            &&& t.cpu_offload_gb == 0
            &&& ram <= 0 || t.vram_context == max_context ==> in_ram == 0
            &&& ram > 0 ==> in_ram * kv <= ram
            &&& ram > 0 && t.extended_context < max_context && t.extended_context - t.vram_context
                < usize::MAX ==> (in_ram + 1) * kv > ram
            &&& t.swap_space_gb == 0 <==> in_ram == 0
            &&& in_ram > 0 ==> (t.swap_space_gb - 1) * GIB < in_ram * kv
            &&& in_ram > 0 && t.swap_space_gb < usize::MAX ==> in_ram * kv <= t.swap_space_gb
                * GIB
        }),
{
    let t = tiered(room, ram, kv, max_context, allow_weight_offload);
    lemma_context_nonneg(room, kv);
    lemma_context_nonneg(ram, kv);
    context_fit::law_context_is_largest_that_fits(room, kv, tokens as int);
    let in_ram = t.extended_context - t.vram_context;
    if max_context > 0 && ram > 0 {
        context_fit::law_context_is_largest_that_fits(ram, kv, in_ram);
        if in_ram < usize::MAX {
            context_fit::law_context_is_largest_that_fits(ram, kv, in_ram + 1);
        }
    }
    if in_ram > 0 {
        assert(in_ram * kv > 0) by (nonlinear_arith)
            requires
                in_ram > 0,
                kv > 0,
        ;
        lemma_swap_holds(in_ram, kv);
    } else {
        assert(in_ram * kv == 0) by (nonlinear_arith)
            requires
                in_ram == 0,
        ;
    }
}

proof fn lemma_swap_holds(tokens: int, kv: int)
    requires
        tokens * kv > 0,
    ensures
        1 <= swap_gb(tokens, kv) <= usize::MAX,
        (swap_gb(tokens, kv) - 1) * GIB < tokens * kv,
        swap_gb(tokens, kv) < usize::MAX ==> tokens * kv <= swap_gb(tokens, kv) * GIB,
{
    context_fit::lemma_ceiling(tokens * kv, GIB as int);
    let n = context_fit::ceiling(tokens * kv, GIB as int);
    if n > usize::MAX {
        assert((usize::MAX - 1) * GIB < (n - 1) * GIB) by (nonlinear_arith)
            requires
                n > usize::MAX,
        ;
    }
}

/// Where the weights do not fit on the card nothing of the context is there. Where weights may
/// be put in RAM, as many whole GiB of them are as the card lacks, and no more; where they may
/// not, or there is no RAM, nothing is usable.
pub proof fn law_weights_move_where_they_must(
    room: int,
    ram: int,
    kv: int,
    max_context: usize,
    allow_weight_offload: bool,
)
    requires
        kv > 0,
        max_context > 0,
        room <= 0,
        -room <= usize::MAX * GIB,
    ensures
        ({
            let t = tiered(room, ram, kv, max_context, allow_weight_offload);
            &&& t.vram_context == 0
            &&& !allow_weight_offload || ram <= 0 ==> t.extended_context == 0 && t.swap_space_gb
                == 0 && t.cpu_offload_gb == 0
            &&& allow_weight_offload && ram > 0 ==> -room <= t.cpu_offload_gb * GIB && (room < 0
                ==> (t.cpu_offload_gb - 1) * GIB < -room)
            &&& t.extended_context > 512 ==> t.cpu_offload_gb * GIB + t.extended_context * kv
                <= ram
            &&& allow_weight_offload && ram < t.cpu_offload_gb * GIB + kv ==> t.extended_context
                == 0
        }),
{
    let t = tiered(room, ram, kv, max_context, allow_weight_offload);
    let n = context_fit::ceiling(-room, GIB as int);
    if room < 0 {
        context_fit::lemma_ceiling(-room, GIB as int);
        if n > usize::MAX {
            assert(usize::MAX * GIB <= (n - 1) * GIB) by (nonlinear_arith)
                requires
                    n > usize::MAX,
            ;
        }
    }
    let left = ram - n * GIB;
    lemma_context_nonneg(left, kv);
    if t.extended_context > 512 {
        context_fit::law_context_is_largest_that_fits(left, kv, t.extended_context as int);
        assert(t.extended_context * kv >= 0) by (nonlinear_arith)
            requires
                kv > 0,
        ;
    }
    context_fit::law_context_is_largest_that_fits(left, kv, 1);
}

/// More RAM never shortens a spread context.
pub proof fn law_more_ram_extends_the_context(
    room: int,
    little: int,
    much: int,
    kv: int,
    max_context: usize,
    allow_weight_offload: bool,
)
    requires
        little <= much,
    ensures
        tiered(room, little, kv, max_context, allow_weight_offload).extended_context <= tiered(
            room,
            much,
            kv,
            max_context,
            allow_weight_offload,
        ).extended_context,
        tiered(room, little, kv, max_context, allow_weight_offload).vram_context == tiered(
            room,
            much,
            kv,
            max_context,
            allow_weight_offload,
        ).vram_context,
{
    if kv > 0 {
        lemma_context_nonneg(room, kv);
        lemma_context_nonneg(little, kv);
        lemma_context_nonneg(much, kv);
        context_fit::law_context_grows_with_memory(little, much, kv, kv);
        let offload = context_fit::at_most(
            context_fit::ceiling(-room, GIB as int),
            usize::MAX as int,
        );
        lemma_context_nonneg(little - offload * GIB, kv);
        lemma_context_nonneg(much - offload * GIB, kv);
        context_fit::law_context_grows_with_memory(
            little - offload * GIB,
            much - offload * GIB,
            kv,
            kv,
        );
    }
}

/// A configuration tells its context under the first of these names that holds a number, the
/// one that stands further up before the ones that follow it, and before any configuration
/// within it.
pub proof fn law_context_names(t: JsonTree)
    ensures
        ({
            let at = |key: Seq<char>| size_member(t, key);
            let found = if at("max_position_embeddings"@) is Some {
                at("max_position_embeddings"@)
            } else if at("model_max_length"@) is Some {
                at("model_max_length"@)
            } else if at("n_positions"@) is Some {
                at("n_positions"@)
            } else if at("max_seq_len"@) is Some {
                at("max_seq_len"@)
            } else if at("max_seq_length"@) is Some {
                at("max_seq_length"@)
            } else if at("max_sequence_length"@) is Some {
                at("max_sequence_length"@)
            } else {
                at("window"@)
            };
            &&& found is Some && t.member("rope_scaling"@) is None ==> declared_context(t) == found
            &&& found is None ==> (declared_context(t) matches Some(n) ==> n > 0)
        }),
{
    reveal_with_fuel(own_context_from, 8);
}

/// Where a configuration tells no context itself, that of the configuration of its text model
/// counts, and the others only where that tells none.
pub proof fn law_nested_contexts(t: JsonTree)
    requires
        own_context_from(t, 0) is None,
    ensures
        t.member("text_config"@) matches Some(sub) ==> (declared_context(sub) matches Some(n)
            ==> (n > 0 ==> declared_context(t) == Some(n))),
        t.member("text_config"@) is None && t.member("config"@) is None && t.member(
            "model_config"@,
        ) is None ==> declared_context(t) is None,
{
}

/// The dimension of the heads is the one that a configuration tells, whatever else it holds;
/// where it tells none it is the hidden size divided among the heads.
pub proof fn law_head_dimension(t: JsonTree)
    ensures
        size_member(t, "head_dim"@) is Some ==> config_head_dim(t) == size_member(t, "head_dim"@),
        ({
            let heads = size_member(t, "num_attention_heads"@);
            let hidden = size_member(t, "hidden_size"@);
            let dim = config_head_dim(t);
            size_member(t, "head_dim"@) is None && hidden is Some && heads is Some && heads->0 > 0
                ==> dim is Some && dim->0 * heads->0 <= hidden->0 < (dim->0 + 1) * heads->0
        }),
{
    if size_member(t, "head_dim"@) is None && size_member(t, "hidden_size"@) is Some {
        if let Some(heads) = size_member(t, "num_attention_heads"@) {
            if heads > 0 {
                let hidden = size_member(t, "hidden_size"@)->0 as int;
                let k = heads as int;
                let d = hidden / k;
                assert(d * k <= hidden < (d + 1) * k && 0 <= d <= hidden) by (nonlinear_arith)
                    requires
                        d == hidden / k,
                        k > 0,
                        hidden >= 0,
                ;
            }
        }
    }
}

/// The parameters that a configuration implies: each layer has its attention and its
/// feed-forward part, and the vocabulary its embeddings. Where the width of the feed-forward
/// part is not told it is four times that of the model.
pub proof fn law_implied_parameters(t: JsonTree)
    requires
        t.member("text_config"@) is None,
        t.member("model_config"@) is None,
        t.member("config"@) is None,
        size_member(t, "num_hidden_layers"@) is Some,
        size_member(t, "hidden_size"@) is Some,
        size_member(t, "vocab_size"@) is Some,
    ensures
        ({
            let layers = size_member(t, "num_hidden_layers"@)->0 as int;
            let hidden = size_member(t, "hidden_size"@)->0 as int;
            let vocab = size_member(t, "vocab_size"@)->0 as int;
            let inter = match size_member(t, "intermediate_size"@) {
                Some(n) => n as int,
                None => 4 * hidden,
            };
            let each = 12 * (hidden * hidden) + hidden * inter;
            let all = layers * each + vocab * hidden;
            &&& layers == 0 || hidden == 0 ==> config_params(t) is None
            &&& layers > 0 && hidden > 0 && all <= u128::MAX ==> config_params(t) == Some(all)
        }),
{
    let layers = size_member(t, "num_hidden_layers"@)->0 as int;
    let hidden = size_member(t, "hidden_size"@)->0 as int;
    let inter = match size_member(t, "intermediate_size"@) {
        Some(n) => n as int,
        None => 4 * hidden,
    };
    let a = hidden * hidden;
    let b = hidden * inter;
    assert(layers * (12 * a + b) == 12 * (layers * a) + layers * b) by (nonlinear_arith);
}

/// The names of the formats that figures are told for: half a byte, one byte and two.
pub(crate) proof fn lemma_named_formats()
    ensures
        param_hundredths("awq"@) == 55,
        param_hundredths("fp8"@) == 100,
        param_hundredths("fp16"@) == 200,
{
    reveal_strlit("awq");
    reveal_strlit("fp8");
    reveal_strlit("fp16");
    reveal_strlit("gguf");
    reveal_strlit("int8");
    reveal_strlit("gptq");
    reveal_strlit("int4");
    let a = "awq"@;
    let b = "fp8"@;
    let c = "fp16"@;
    assert(text::ascii_lowercase(a) =~= a);
    assert(text::ascii_lowercase(b) =~= b);
    assert(text::ascii_lowercase(c) =~= c);
    assert(a[0] == 'a' && b[0] == 'f' && c[0] == 'f');
    assert("gptq"@[0] == 'g' && "int4"@[0] == 'i' && "int8"@[0] == 'i' && "gguf"@[0] == 'g');
    assert(a.len() == 3 && b.len() == 3 && c.len() == 4);
    lemma_no_bits_named(b);
    lemma_no_bits_named(c);
}

/// A name without the letter that the names of bits begin with names no bits.
proof fn lemma_no_bits_named(q: Seq<char>)
    requires
        !q.contains('q'),
    ensures
        !names_bits(q, "q4"@) && !names_bits(q, "q8"@) && !names_bits(q, "q5"@) && !names_bits(
            q,
            "q6"@,
        ) && !names_bits(q, "q3"@) && !names_bits(q, "q2"@),
        !text::occurs(q, "iq4"@) && !text::occurs(q, "iq3"@) && !text::occurs(q, "iq2"@),
{
    reveal_strlit("q4");
    reveal_strlit("q8");
    reveal_strlit("q5");
    reveal_strlit("q6");
    reveal_strlit("q3");
    reveal_strlit("q2");
    reveal_strlit("_");
    reveal_strlit("iq4");
    reveal_strlit("iq3");
    reveal_strlit("iq2");
    lemma_letter_missing(q, "q4"@, 0);
    lemma_letter_missing(q, "q8"@, 0);
    lemma_letter_missing(q, "q5"@, 0);
    lemma_letter_missing(q, "q6"@, 0);
    lemma_letter_missing(q, "q3"@, 0);
    lemma_letter_missing(q, "q2"@, 0);
    lemma_letter_missing(q, "q4"@ + "_"@, 0);
    lemma_letter_missing(q, "q8"@ + "_"@, 0);
    lemma_letter_missing(q, "q5"@ + "_"@, 0);
    lemma_letter_missing(q, "q6"@ + "_"@, 0);
    lemma_letter_missing(q, "q3"@ + "_"@, 0);
    lemma_letter_missing(q, "q2"@ + "_"@, 0);
    lemma_letter_missing(q, "iq4"@, 1);
    lemma_letter_missing(q, "iq3"@, 1);
    lemma_letter_missing(q, "iq2"@, 1);
}

proof fn lemma_letter_missing(s: Seq<char>, p: Seq<char>, k: int)
    requires
        0 <= k < p.len(),
        !s.contains(p[k]),
    ensures
        !p.is_prefix_of(s),
        !text::occurs(s, p),
{
    if p.is_prefix_of(s) {
        assert(s[k] == s.subrange(0, p.len() as int)[k]);
    }
    if text::occurs(s, p) {
        let i = choose|i: int| text::occurs_at(s, p, i);
        assert(s[i + k] == s.subrange(i, i + p.len())[k]);
    }
}

/// The bandwidth of a card is that of the first row whose words are both in its name, and the
/// context of a family that of the first row whose word is in the name of the model.
pub proof fn law_first_row_counts(name: Seq<char>, k: int)
    ensures
        0 <= k < gpu_table().len() && text::occurs(name, gpu_table()[k].0@) && text::occurs(
            name,
            gpu_table()[k].1@,
        ) && (forall|j: int|
            0 <= j < k ==> !(text::occurs(name, (#[trigger] gpu_table()[j]).0@) && text::occurs(
                name,
                gpu_table()[j].1@,
            ))) ==> bandwidth_from(name, 0) == Some(gpu_table()[k].2),
        0 <= k < family_table().len() && text::occurs(name, family_table()[k].0@) && (forall|j: int|
            0 <= j < k ==> !text::occurs(name, (#[trigger] family_table()[j]).0@)) ==> family_from(
            name,
            0,
        ) == Some(family_table()[k].1),
{
    if 0 <= k < gpu_table().len() {
        lemma_gpu_row(name, 0, k);
    }
    if 0 <= k < family_table().len() {
        lemma_family_row(name, 0, k);
    }
}

proof fn lemma_gpu_row(name: Seq<char>, i: int, k: int)
    requires
        0 <= i <= k < gpu_table().len(),
    ensures
        text::occurs(name, gpu_table()[k].0@) && text::occurs(name, gpu_table()[k].1@) && (forall|
            j: int,
        |
            i <= j < k ==> !(text::occurs(name, (#[trigger] gpu_table()[j]).0@) && text::occurs(
                name,
                gpu_table()[j].1@,
            ))) ==> bandwidth_from(name, i) == Some(gpu_table()[k].2),
    decreases k - i,
{
    if i < k {
        lemma_gpu_row(name, i + 1, k);
    }
}

proof fn lemma_family_row(name: Seq<char>, i: int, k: int)
    requires
        0 <= i <= k < family_table().len(),
    ensures
        text::occurs(name, family_table()[k].0@) && (forall|j: int|
            i <= j < k ==> !text::occurs(name, (#[trigger] family_table()[j]).0@)) ==> family_from(
            name,
            i,
        ) == Some(family_table()[k].1),
    decreases k - i,
{
    if i < k {
        lemma_family_row(name, i + 1, k);
    }
}

/// A token takes a key and a value of two bytes a number for each layer, head and dimension of
/// a head.
pub proof fn law_bytes_of_a_token(layers: usize, heads: usize, dim: usize)
    ensures
        layers * heads * dim <= context_fit::ELEMENT_LIMIT ==> token_bytes(layers, heads, dim) == 4
            * (layers * heads * dim),
{
}

/// The numbers of a model take four bytes, two or one, as the type says; without a type two.
pub proof fn law_stored_bytes(dtype: Seq<char>)
    ensures
        ({
            let l = text::ascii_lowercase(dtype);
            &&& text::occurs(l, "float32"@) ==> stored_bytes(Some(dtype)) == 4
            &&& text::occurs(l, "float16"@) && !text::occurs(l, "float32"@) ==> stored_bytes(
                Some(dtype),
            ) == 2
            &&& text::occurs(l, "float8"@) && !text::occurs(l, "float32"@) && !text::occurs(
                l,
                "float16"@,
            ) ==> stored_bytes(Some(dtype)) == 1
            &&& !text::occurs(l, "float8"@) && !text::occurs(l, "float32"@) ==> stored_bytes(
                Some(dtype),
            ) == 2
            &&& stored_bytes(None) == 2
        }),
{
}

/// The context is stretched by the factor of three kinds of scaling, whichever of two names the
/// kind stands under; any other kind stretches nothing.
pub proof fn law_scaling_factors(t: JsonTree, rope: JsonTree, kind: Seq<char>, f: JsonNumber)
    requires
        t.member("rope_scaling"@) == Some(rope),
        rope.member("factor"@) == Some(JsonTree::Number(f)),
        rope.member("type"@) == Some(JsonTree::Text(kind)) || (rope.member("type"@) is None
            && rope.member("rope_type"@) == Some(JsonTree::Text(kind))),
    ensures
        kind == "yarn"@ ==> rope_factor(t) == Some(f),
        kind == "linear"@ ==> rope_factor(t) == Some(f),
        kind == "dynamic"@ ==> rope_factor(t) == Some(f),
        kind != "yarn"@ && kind != "linear"@ && kind != "dynamic"@ ==> rope_factor(t) is None,
{
}

} // verus!
