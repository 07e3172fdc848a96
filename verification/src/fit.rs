//! How well the variants of a model fit the hardware.
//!
//! Amounts of memory are counted in the parts of `context_fit`, parameters in millions,
//! speeds in millionths of a token per second, and the parts of a score in millionths of a
//! point.
use vstd::prelude::*;
use std::cmp::Ordering;
use crate::context_fit;
use crate::context_fit::{AMOUNT_LIMIT, GIB, MIB};
use crate::estimate;
use crate::estimate::TieredContextFit;
use crate::memory::MemorySettings;
use crate::numeral;
use crate::text;

verus! {

#[derive(Clone, Copy, Debug, PartialEq, Eq, Structural)]
pub enum FitVerdict {
    Comfortable,
    Constrained,
    DoesNotFit,
}

#[derive(Clone, Copy, Debug, PartialEq, Eq, Structural)]
pub enum FormatSupport {
    Native,
    Experimental,
}

/// The share of the card, in hundredths, up to which a fit is comfortable.
pub const COMFORTABLE_MAX_PERCENT: i128 = 60;

/// The share of the card, in hundredths, up to which a model fits at all.
pub const CONSTRAINED_MAX_PERCENT: i128 = 95;

/// What a server needs beside the weights, in parts: 2500 MiB.
pub const OVERHEAD: i128 = 671_088_640_000;

/// The share of the card that a server uses, in ten-thousandths.
pub const GPU_UTIL_DEFAULT: u32 = 9_200;

/// A millionth of a hundred points.
pub const FULL: i128 = 100_000_000;

/// The hardware that models are to run on.
#[derive(Debug)]
pub struct HardwareProfile {
    pub gpu_name: String,
    pub vram_total_mb: u64,
    pub bandwidth_gbs: u32,
    pub bandwidth_known: bool,
    pub ram_total_mb: u64,
    pub ram_usable_mb: u64,
    pub ram_potential_mb: u64,
    pub ram_bandwidth_gbs: u32,
}

/// What is known of the architecture of a model.
#[derive(Clone, Copy, Debug, PartialEq, Eq, Structural)]
pub struct ModelArchInfo {
    pub params_m: Option<u64>,
    pub context: usize,
    pub n_layers: Option<usize>,
    pub n_kv_heads: Option<usize>,
    pub head_dim: Option<usize>,
}

/// A variant of a model.
#[derive(Debug)]
pub struct VariantInput {
    pub quant_str: String,
    pub weight_bytes: Option<u64>,
    /// The parameters, where they are not those of the model.
    pub params_m: Option<u64>,
    pub is_gguf: bool,
}

/// How well a variant fits.
#[derive(Debug)]
pub struct FitResult {
    pub verdict: FitVerdict,
    pub score: u8,
    pub weight: i128,
    /// The context that is on the card.
    pub vram_context: usize,
    /// The context with what of it is in RAM.
    pub extended_context: usize,
    pub usable_context: usize,
    pub native_context: usize,
    /// What of the KV cache is in RAM, in GiB.
    pub swap_space_gb: usize,
    /// What of the weights is in RAM, in GiB.
    pub cpu_offload_gb: usize,
    pub est_tok_s: Option<u128>,
    pub measured_tok_s: Option<u64>,
    pub vram_pct: u8,
    pub format_support: FormatSupport,
    pub reason: String,
}

impl FitResult {
    /// How the context is spread over the card and RAM.
    pub open spec fn spread(self) -> TieredContextFit {
        TieredContextFit {
            vram_context: self.vram_context,
            extended_context: self.extended_context,
            swap_space_gb: self.swap_space_gb,
            cpu_offload_gb: self.cpu_offload_gb,
        }
    }
}

/// A context that is all on the card.
pub open spec fn on_card(tokens: usize) -> TieredContextFit {
    TieredContextFit {
        vram_context: tokens,
        extended_context: tokens,
        swap_space_gb: 0,
        cpu_offload_gb: 0,
    }
}

// ---------------------------------------------------------------------------
// The parts of a score
// ---------------------------------------------------------------------------

/// The parameters of a variant, in millions; none count as zero.
pub open spec fn variant_params(v: VariantInput, arch: ModelArchInfo) -> u64 {
    match v.params_m {
        Some(n) => n,
        None => match arch.params_m {
            Some(n) => n,
            None => 0,
        },
    }
}

/// The weights of a variant: the size of its files where it is known, else an estimate.
pub open spec fn variant_weight(v: VariantInput, params_m: u64) -> int {
    match v.weight_bytes {
        Some(n) => n * context_fit::PARTS_PER_BYTE,
        None => estimate::weights_of(params_m, v.quant_str@),
    }
}

/// How a need fits on a card, by the share of the card that it takes.
pub open spec fn verdict_of(need: int, card: int) -> FitVerdict {
    if card > 0 && need * 100 <= card * COMFORTABLE_MAX_PERCENT {
        FitVerdict::Comfortable
    } else if card > 0 && need * 100 <= card * CONSTRAINED_MAX_PERCENT {
        FitVerdict::Constrained
    } else {
        FitVerdict::DoesNotFit
    }
}

/// The share of a card that a need takes, in hundredths, to the nearest, at most 255.
pub open spec fn percent_of(need: int, card: int) -> int {
    if card <= 0 {
        255
    } else {
        context_fit::at_most((200 * need + card) / (2 * card), 255)
    }
}

/// The points for the fit: a hundred to ninety for a comfortable one, eighty-five to thirty
/// for a constrained one, the fewer the more of the card is taken.
pub open spec fn fit_points(need: int, card: int) -> int {
    match verdict_of(need, card) {
        FitVerdict::Comfortable => FULL - (50_000_000 * need) / (3 * card),
        FitVerdict::Constrained => 85_000_000 - ((100 * need - 60 * card) * 55_000_000) / (35
            * card),
        FitVerdict::DoesNotFit => 0,
    }
}

/// The points for the speed: a hundred at eighty tokens per second and above.
pub open spec fn speed_points(speed: Option<int>) -> int {
    match speed {
        Some(s) => context_fit::at_most((s * 5) / 4, FULL as int),
        None => 0,
    }
}

/// The points for the context: a hundred where all of it is usable.
pub open spec fn context_points(usable: int, native: int) -> int {
    if native > 0 && usable > 0 {
        context_fit::at_most((usable * FULL) / native, FULL as int)
    } else {
        0
    }
}

/// The score: the fit counts four tenths, the speed and the context three tenths each, to
/// the nearest point; what does not fit gets at most twenty-five.
pub open spec fn score_of(verdict: FitVerdict, fit: int, speed: int, context: int) -> int {
    let score = (4 * fit + 3 * speed + 3 * context + 5_000_000) / 10_000_000;
    if verdict == FitVerdict::DoesNotFit {
        context_fit::at_most(score, 25)
    } else {
        score
    }
}

/// The speed at which the weights can be read, half the bandwidth being used.
pub open spec fn speed_at(bandwidth_gbs: u32, weight: int) -> int {
    (bandwidth_gbs * GIB * 1_000_000) / (2 * weight)
}

/// The speed that is expected of a variant.
pub open spec fn expected_speed(
    bandwidth_gbs: u32,
    weight: int,
    params_m: u64,
    quant: Seq<char>,
) -> Option<int> {
    if bandwidth_gbs == 0 {
        None
    } else if weight > 0 {
        Some(speed_at(bandwidth_gbs, weight))
    } else if params_m > 0 {
        Some(speed_at(bandwidth_gbs, estimate::weights_of(params_m, quant)))
    } else {
        None
    }
}

/// The parts that one token adds to the KV cache.
pub open spec fn kv_parts(arch: ModelArchInfo, params_m: u64) -> int {
    match (arch.n_layers, arch.n_kv_heads, arch.head_dim) {
        (Some(l), Some(k), Some(h)) => estimate::token_bytes(l, k, h) * context_fit::PARTS_PER_BYTE,
        _ => (if params_m == 0 {
            0int
        } else if params_m <= 3_500 {
            32_768
        } else if params_m <= 10_000 {
            131_072
        } else if params_m <= 40_000 {
            262_144
        } else {
            327_680
        }) * context_fit::PARTS_PER_BYTE,
    }
}

/// The context that a variant leaves room for, at most that of the model.
pub open spec fn usable_context_of(
    vram_total_mb: u64,
    weight: int,
    kv: int,
    known: bool,
    native: usize,
) -> int {
    let room = context_fit::share_of(vram_total_mb, GPU_UTIL_DEFAULT as int) - weight - OVERHEAD;
    if kv > 0 && known && room > 0 {
        context_fit::at_most(
            context_fit::at_least(context_fit::context_for(room, kv), 512),
            native as int,
        )
    } else {
        0
    }
}

// ---------------------------------------------------------------------------
// Words
// ---------------------------------------------------------------------------

/// Tenths of `n` units of size `d`, to the nearest, and to an even number half way between
/// two.
pub open spec fn tenths_of(n: int, d: int) -> int {
    let q = (10 * n) / d;
    let r = (10 * n) % d;
    if 2 * r > d || (2 * r == d && q % 2 == 1) {
        q + 1
    } else {
        q
    }
}

/// `n` units of size `d`, with one digit behind the point.
pub open spec fn one_digit(n: int, d: int) -> Seq<char> {
    numeral::decimal((tenths_of(n, d) / 10) as nat) + "."@ + numeral::decimal(
        (tenths_of(n, d) % 10) as nat,
    )
}

/// Why a variant fits as it does.
pub open spec fn reason_of(
    verdict: FitVerdict,
    percent: int,
    context: int,
    weight: int,
    overhead: int,
    vram_total_mb: u64,
) -> Seq<char> {
    match verdict {
        FitVerdict::Comfortable => "Comfortable fit ("@ + numeral::decimal(percent as nat)
            + "% VRAM). Room for "@ + (if context < 1000 {
            numeral::decimal(context as nat) + " tokens"@
        } else {
            numeral::decimal((context / 1000) as nat) + "k"@
        }) + " context and fast generation."@,
        FitVerdict::Constrained => "Constrained fit ("@ + numeral::decimal(percent as nat)
            + "% VRAM). Usable context limited to ~"@ + (if context < 1000 {
            numeral::decimal(context as nat) + " tokens"@
        } else {
            numeral::decimal((context / 1000) as nat) + "k tokens"@
        }) + "."@,
        FitVerdict::DoesNotFit => "Does not fit — needs ~"@ + one_digit(
            weight + overhead,
            GIB as int,
        ) + " GB but GPU has "@ + one_digit(vram_total_mb as int, 1024) + " GB VRAM."@,
    }
}

/// `n` units of size `d`, with one digit behind the point.
fn one_digit_text(n: i128, d: i128) -> (r: String)
    requires
        0 <= n <= 2 * AMOUNT_LIMIT,
        1024 <= d <= GIB,
        n / d <= u64::MAX / 20,
    ensures
        r@ == one_digit(n as int, d as int),
{
    assert(0 <= n / d && (n / d) * d <= n < (n / d + 1) * d) by (nonlinear_arith)
        requires
            0 <= n,
            d >= 1024,
    ;
    let q: i128 = (10 * n) / d;
    let rest: i128 = (10 * n) % d;
    assert(0 <= q <= 10 * (n / d) + 10) by (nonlinear_arith)
        requires
            q == (10 * n) / (d as int),
            0 <= n,
            d >= 1024,
    ;
    let t: i128 = if 2 * rest > d || (2 * rest == d && q % 2 == 1) {
        q + 1
    } else {
        q
    };
    let mut out = numeral::number_text((t / 10) as u64);
    out.append(".");
    out.append(&numeral::number_text((t % 10) as u64));
    out
}

// ---------------------------------------------------------------------------
// Scoring
// ---------------------------------------------------------------------------

/// The most that the weights of a variant can be.
pub const WEIGHT_LIMIT: i128 = 0x4000_0000_0000_0000_0000_0000;

fn weight_of(v: &VariantInput, params_m: u64) -> (r: i128)
    ensures
        r == variant_weight(*v, params_m),
        0 <= r <= WEIGHT_LIMIT,
{
    match v.weight_bytes {
        Some(n) => n as i128 * context_fit::PARTS_PER_BYTE,
        None => estimated_weight(params_m, &v.quant_str),
    }
}

fn estimated_weight(params_m: u64, quant: &str) -> (r: i128)
    ensures
        r == estimate::weights_of(params_m, quant@),
        0 <= r <= WEIGHT_LIMIT,
        params_m > 0 ==> r > 0,
{
    let h: u32 = estimate::bytes_per_param(quant);
    let r = estimate::weight_gb(params_m, quant);
    assert(0 <= params_m * h * GIB <= 0x1_0000_0000_0000_0000 * 200 * GIB) by (nonlinear_arith)
        requires
            0 <= params_m < 0x1_0000_0000_0000_0000,
            35 <= h <= 200,
    ;
    if params_m > 0 {
        assert(params_m * h * GIB >= 35 * GIB) by (nonlinear_arith)
            requires
                params_m >= 1,
                35 <= h <= 200,
        ;
    }
    r
}

fn kv_of(arch: &ModelArchInfo, params_m: u64) -> (r: i128)
    ensures
        r == kv_parts(*arch, params_m),
        0 <= r <= AMOUNT_LIMIT,
{
    match (arch.n_layers, arch.n_kv_heads, arch.head_dim) {
        (Some(l), Some(k), Some(h)) => {
            let bytes: u128 = estimate::kv_bytes_per_token(l, k, h);
            bytes as i128 * context_fit::PARTS_PER_BYTE
        },
        _ => estimate::estimate_kv_bytes_per_token(params_m) as i128 * context_fit::PARTS_PER_BYTE,
    }
}

fn judge(need: i128, card: i128) -> (r: FitVerdict)
    requires
        0 <= need <= 2 * AMOUNT_LIMIT,
        0 <= card <= AMOUNT_LIMIT,
    ensures
        r == verdict_of(need as int, card as int),
{
    if card > 0 && need * 100 <= card * COMFORTABLE_MAX_PERCENT {
        FitVerdict::Comfortable
    } else if card > 0 && need * 100 <= card * CONSTRAINED_MAX_PERCENT {
        FitVerdict::Constrained
    } else {
        FitVerdict::DoesNotFit
    }
}

proof fn lemma_fit_points(need: int, card: int)
    requires
        0 <= need,
    ensures
        0 <= fit_points(need, card) <= FULL,
{
    if card > 0 && need * 100 <= card * 60 {
        assert(0 <= (50_000_000 * need) / (3 * card) <= 10_000_000) by (nonlinear_arith)
            requires
                card > 0,
                0 <= need,
                need * 100 <= card * 60,
        ;
    } else if card > 0 && need * 100 <= card * 95 {
        assert(0 <= ((100 * need - 60 * card) * 55_000_000) / (35 * card) <= 55_000_000)
            by (nonlinear_arith)
            requires
                card > 0,
                need * 100 > card * 60,
                need * 100 <= card * 95,
        ;
    }
}

fn points_for_fit(need: i128, card: i128, verdict: FitVerdict) -> (r: i128)
    requires
        0 <= need <= 2 * AMOUNT_LIMIT,
        0 <= card <= CARD_LIMIT,
        verdict == verdict_of(need as int, card as int),
    ensures
        r == fit_points(need as int, card as int),
        0 <= r <= FULL,
{
    proof {
        lemma_fit_points(need as int, card as int);
    }
    match verdict {
        FitVerdict::Comfortable => FULL - (50_000_000 * need) / (3 * card),
        FitVerdict::Constrained => 85_000_000 - ((100 * need - 60 * card) * 55_000_000) / (35
            * card),
        FitVerdict::DoesNotFit => 0,
    }
}

/// The most that a card can have, in parts.
pub const CARD_LIMIT: i128 = 0x1000_0000_0000_0000_0000_0000;

fn percent(need: i128, card: i128) -> (r: u8)
    requires
        0 <= need <= 2 * AMOUNT_LIMIT,
        0 <= card <= AMOUNT_LIMIT,
    ensures
        r == percent_of(need as int, card as int),
{
    if card <= 0 {
        return 255;
    }
    assert(0 <= (200 * need + card) / (2 * card)) by (nonlinear_arith)
        requires
            0 <= need,
            card > 0,
    ;
    let p: i128 = (200 * need + card) / (2 * card);
    if p > 255 {
        255
    } else {
        p as u8
    }
}

fn speed_for(bandwidth_gbs: u32, weight: i128) -> (r: u128)
    requires
        weight > 0,
        weight <= WEIGHT_LIMIT,
    ensures
        r == speed_at(bandwidth_gbs, weight as int),
        r <= 0x1_0000_0000 * GIB * 1_000_000,
{
    let n: i128 = bandwidth_gbs as i128 * GIB * 1_000_000;
    assert(0 <= (n as int) / (2 * weight) <= n) by (nonlinear_arith)
        requires
            0 <= n,
            weight > 0,
    ;
    (n / (2 * weight)) as u128
}

fn points_for_speed(speed: Option<u128>) -> (r: i128)
    requires
        speed matches Some(s) ==> s <= 0x1_0000_0000 * GIB * 1_000_000,
    ensures
        r == speed_points(
            match speed {
                Some(s) => Some(s as int),
                None => None,
            },
        ),
        0 <= r <= FULL,
{
    match speed {
        Some(s) => {
            let p: u128 = (s * 5) / 4;
            if p > 100_000_000 {
                FULL
            } else {
                p as i128
            }
        },
        None => 0,
    }
}

fn points_for_context(usable: usize, native: usize) -> (r: i128)
    ensures
        r == context_points(usable as int, native as int),
        0 <= r <= FULL,
{
    if native > 0 && usable > 0 {
        assert(0 <= (usable * FULL) / (native as int)) by (nonlinear_arith)
            requires
                native > 0,
        ;
        let p: i128 = (usable as i128 * FULL) / (native as i128);
        if p > FULL {
            FULL
        } else {
            p
        }
    } else {
        0
    }
}

fn room_text(context: usize, unit: &str) -> (r: String)
    ensures
        r@ == (if context < 1000 {
            numeral::decimal(context as nat) + " tokens"@
        } else {
            numeral::decimal((context / 1000) as nat) + unit@
        }),
{
    if context < 1000 {
        let mut out = numeral::number_text(context as u64);
        out.append(" tokens");
        out
    } else {
        let mut out = numeral::number_text((context / 1000) as u64);
        out.append(unit);
        out
    }
}

fn reason_text(
    verdict: FitVerdict,
    vram_pct: u8,
    context: usize,
    weight: i128,
    overhead: i128,
    vram_total_mb: u64,
) -> (r: String)
    requires
        0 <= weight <= WEIGHT_LIMIT,
        0 <= overhead <= CARD_LIMIT,
    ensures
        r@ == reason_of(
            verdict,
            vram_pct as int,
            context as int,
            weight as int,
            overhead as int,
            vram_total_mb,
        ),
{
    match verdict {
        FitVerdict::Comfortable => {
            let mut out = "Comfortable fit (".to_string();
            out.append(&numeral::number_text(vram_pct as u64));
            out.append("% VRAM). Room for ");
            out.append(&room_text(context, "k"));
            out.append(" context and fast generation.");
            out
        },
        FitVerdict::Constrained => {
            let mut out = "Constrained fit (".to_string();
            out.append(&numeral::number_text(vram_pct as u64));
            out.append("% VRAM). Usable context limited to ~");
            out.append(&room_text(context, "k tokens"));
            out.append(".");
            out
        },
        FitVerdict::DoesNotFit => {
            let mut out = "Does not fit — needs ~".to_string();
            out.append(&one_digit_text(weight + overhead, GIB));
            out.append(" GB but GPU has ");
            out.append(&one_digit_text(vram_total_mb as i128, 1024));
            out.append(" GB VRAM.");
            out
        },
    }
}

/// The result says how well the variant fits, where a server needs `overhead` beside the
/// weights, `usable` tokens of the context can be used and the speed `expected` is expected.
pub open spec fn is_fit_with(
    r: FitResult,
    hw: HardwareProfile,
    v: VariantInput,
    arch: ModelArchInfo,
    measured_tok_s: Option<u64>,
    overhead: int,
    usable: int,
    expected: Option<int>,
) -> bool {
    let params = variant_params(v, arch);
    let weight = variant_weight(v, params);
    let need = weight + overhead;
    let card = hw.vram_total_mb * MIB;
    let speed = match measured_tok_s {
        Some(m) => Some(m as int),
        None => expected,
    };
    &&& r.verdict == verdict_of(need, card)
    &&& r.score == score_of(
        r.verdict,
        fit_points(need, card),
        speed_points(speed),
        context_points(usable, arch.context as int),
    )
    &&& r.weight == weight
    &&& r.usable_context == usable
    &&& r.native_context == arch.context
    &&& match r.est_tok_s {
        Some(s) => expected == Some(s as int),
        None => expected is None,
    }
    &&& r.measured_tok_s == measured_tok_s
    &&& r.vram_pct == percent_of(need, card)
    &&& r.format_support == (if v.is_gguf {
        FormatSupport::Experimental
    } else {
        FormatSupport::Native
    })
    &&& r.reason@ == reason_of(
        r.verdict,
        r.vram_pct as int,
        usable,
        weight,
        overhead,
        hw.vram_total_mb,
    )
}

/// Enough is known of a variant to tell its context.
pub open spec fn context_is_known(v: VariantInput, arch: ModelArchInfo) -> bool {
    variant_params(v, arch) > 0 || v.weight_bytes is Some
}

/// The result says how well the variant fits on the card alone, under the usual share and
/// overhead.
pub open spec fn is_fit_of(
    r: FitResult,
    hw: HardwareProfile,
    v: VariantInput,
    arch: ModelArchInfo,
    measured_tok_s: Option<u64>,
) -> bool {
    let params = variant_params(v, arch);
    let weight = variant_weight(v, params);
    let usable = usable_context_of(
        hw.vram_total_mb,
        weight,
        kv_parts(arch, params),
        context_is_known(v, arch),
        arch.context,
    );
    &&& is_fit_with(
        r,
        hw,
        v,
        arch,
        measured_tok_s,
        OVERHEAD as int,
        usable,
        expected_speed(hw.bandwidth_gbs, weight, params, v.quant_str@),
    )
    &&& r.spread() == on_card(r.usable_context)
}

/// The longest context under the settings: that of the model, within the cap.
pub open spec fn capped_context(native: usize, cap: Option<usize>) -> usize {
    match cap {
        Some(c) => if 0 < c < native {
            c
        } else {
            native
        },
        None => native,
    }
}

/// How the context of a variant is spread over the card and RAM under the settings.
pub open spec fn spread_under(
    hw: HardwareProfile,
    v: VariantInput,
    arch: ModelArchInfo,
    memory: MemorySettings,
) -> TieredContextFit {
    let params = variant_params(v, arch);
    estimate::tiered(
        context_fit::share_of(hw.vram_total_mb, memory.default_gpu_mem_util as int)
            - variant_weight(v, params) - memory.vram_overhead_mb * MIB,
        hw.ram_usable_mb * MIB,
        if context_is_known(v, arch) {
            kv_parts(arch, params)
        } else {
            0
        },
        capped_context(arch.context, memory.max_context_cap),
        memory.offload_weights_allowed,
    )
}

/// The speed that is expected of a variant under the settings: where some of it is in RAM, that
/// of a spread model.
pub open spec fn speed_under(
    hw: HardwareProfile,
    v: VariantInput,
    arch: ModelArchInfo,
    memory: MemorySettings,
) -> Option<int> {
    let params = variant_params(v, arch);
    let weight = variant_weight(v, params);
    let spread = spread_under(hw, v, arch, memory);
    if hw.bandwidth_gbs > 0 && params > 0 && (spread.swap_space_gb > 0 || spread.cpu_offload_gb
        > 0) {
        Some(
            estimate::spread_speed(
                hw.bandwidth_gbs,
                params,
                v.quant_str@,
                spread.swap_space_gb as int,
                spread.cpu_offload_gb as int,
                weight,
            ),
        )
    } else {
        expected_speed(hw.bandwidth_gbs, weight, params, v.quant_str@)
    }
}

/// The result says how well the variant fits under the settings: with their share and
/// overhead, and with the context spread over the card and RAM.
pub open spec fn is_fit_under(
    r: FitResult,
    hw: HardwareProfile,
    v: VariantInput,
    arch: ModelArchInfo,
    measured_tok_s: Option<u64>,
    memory: MemorySettings,
) -> bool {
    let spread = spread_under(hw, v, arch, memory);
    &&& is_fit_with(
        r,
        hw,
        v,
        arch,
        measured_tok_s,
        memory.vram_overhead_mb * MIB,
        spread.extended_context as int,
        speed_under(hw, v, arch, memory),
    )
    &&& r.spread() == spread
}

fn params_of(v: &VariantInput, arch: &ModelArchInfo) -> (r: u64)
    ensures
        r == variant_params(*v, *arch),
{
    match v.params_m {
        Some(n) => n,
        None => match arch.params_m {
            Some(n) => n,
            None => 0,
        },
    }
}

fn speed_on_card(hw: &HardwareProfile, weight: i128, params: u64, quant: &str) -> (r: Option<
    u128,
>)
    requires
        0 <= weight <= WEIGHT_LIMIT,
    ensures
        match r {
            Some(s) => expected_speed(hw.bandwidth_gbs, weight as int, params, quant@) == Some(
                s as int,
            ) && s <= 0x1_0000_0000 * GIB * 1_000_000,
            None => expected_speed(hw.bandwidth_gbs, weight as int, params, quant@) is None,
        },
{
    if hw.bandwidth_gbs == 0 {
        None
    } else if weight > 0 {
        Some(speed_for(hw.bandwidth_gbs, weight))
    } else if params > 0 {
        Some(speed_for(hw.bandwidth_gbs, estimated_weight(params, quant)))
    } else {
        None
    }
}

fn fit_with(
    hw: &HardwareProfile,
    variant: &VariantInput,
    arch: &ModelArchInfo,
    measured_tok_s: Option<u64>,
    overhead: i128,
    usable_context: usize,
    est_tok_s: Option<u128>,
    spread: TieredContextFit,
) -> (r: FitResult)
    requires
        0 <= overhead <= CARD_LIMIT,
        est_tok_s matches Some(s) ==> s <= 0x1_0000_0000 * GIB * 1_000_000,
    ensures
        is_fit_with(
            r,
            *hw,
            *variant,
            *arch,
            measured_tok_s,
            overhead as int,
            usable_context as int,
            match est_tok_s {
                Some(s) => Some(s as int),
                None => None,
            },
        ),
        r.spread() == spread,
        r.score <= 100,
{
    let params: u64 = params_of(variant, arch);
    let weight: i128 = weight_of(variant, params);
    let need: i128 = weight + overhead;
    let card: i128 = hw.vram_total_mb as i128 * MIB;
    let verdict = judge(need, card);
    let vram_pct: u8 = percent(need, card);
    let speed: Option<u128> = match measured_tok_s {
        Some(m) => Some(m as u128),
        None => est_tok_s,
    };
    let fit: i128 = points_for_fit(need, card, verdict);
    let fast: i128 = points_for_speed(speed);
    let long: i128 = points_for_context(usable_context, arch.context);
    let full: i128 = (4 * fit + 3 * fast + 3 * long + 5_000_000) / 10_000_000;
    let score: u8 = if verdict == FitVerdict::DoesNotFit && full > 25 {
        25
    } else {
        full as u8
    };
    let format_support = if variant.is_gguf {
        FormatSupport::Experimental
    } else {
        FormatSupport::Native
    };
    let reason = reason_text(
        verdict,
        vram_pct,
        usable_context,
        weight,
        overhead,
        hw.vram_total_mb,
    );
    FitResult {
        verdict,
        score,
        weight,
        vram_context: spread.vram_context,
        extended_context: spread.extended_context,
        usable_context,
        native_context: arch.context,
        swap_space_gb: spread.swap_space_gb,
        cpu_offload_gb: spread.cpu_offload_gb,
        est_tok_s,
        measured_tok_s,
        vram_pct,
        format_support,
        reason,
    }
}

/// How well a variant fits the hardware. A measured speed counts before an expected one.
pub fn score_variant(
    hw: &HardwareProfile,
    variant: &VariantInput,
    arch: &ModelArchInfo,
    measured_tok_s: Option<u64>,
) -> (r: FitResult)
    ensures
        is_fit_of(r, *hw, *variant, *arch, measured_tok_s),
        r.score <= 100,
{
    let params: u64 = params_of(variant, arch);
    let weight: i128 = weight_of(variant, params);
    let kv: i128 = kv_of(arch, params);
    let usable_context: usize = if kv > 0 && (params > 0 || variant.weight_bytes.is_some()) {
        let ctx: usize = estimate::context_fit_with_weight(
            hw.vram_total_mb,
            GPU_UTIL_DEFAULT,
            weight,
            kv,
            OVERHEAD,
        );
        if ctx < arch.context {
            ctx
        } else {
            arch.context
        }
    } else {
        0
    };
    let spread = TieredContextFit {
        vram_context: usable_context,
        extended_context: usable_context,
        swap_space_gb: 0,
        cpu_offload_gb: 0,
    };
    let est_tok_s = speed_on_card(hw, weight, params, &variant.quant_str);
    fit_with(hw, variant, arch, measured_tok_s, OVERHEAD, usable_context, est_tok_s, spread)
}

/// How well a variant fits the hardware under the settings of memory. The context is at most
/// that of the model and at most the cap of the settings.
pub fn score_variant_under(
    hw: &HardwareProfile,
    variant: &VariantInput,
    arch: &ModelArchInfo,
    measured_tok_s: Option<u64>,
    memory: &MemorySettings,
) -> (r: FitResult)
    ensures
        is_fit_under(r, *hw, *variant, *arch, measured_tok_s, *memory),
        r.score <= 100,
        r.vram_context <= r.extended_context <= r.native_context,
        memory.max_context_cap matches Some(c) ==> (c > 0 ==> r.extended_context <= c),
{
    let params: u64 = params_of(variant, arch);
    let weight: i128 = weight_of(variant, params);
    let overhead: i128 = memory.vram_overhead_mb as i128 * MIB;
    let limit: usize = match memory.max_context_cap {
        Some(c) => if 0 < c && c < arch.context {
            c
        } else {
            arch.context
        },
        None => arch.context,
    };
    let kv: i128 = if params > 0 || variant.weight_bytes.is_some() {
        kv_of(arch, params)
    } else {
        0
    };
    let spread = estimate::context_fit_tiered(
        hw.vram_total_mb,
        memory.default_gpu_mem_util,
        hw.ram_usable_mb as i128 * MIB,
        weight,
        kv,
        overhead,
        limit,
        memory.offload_weights_allowed,
    );
    proof {
        law_settings_bound_the_context(*hw, *variant, *arch, *memory);
    }
    let is_spread = spread.swap_space_gb > 0 || spread.cpu_offload_gb > 0;
    let est_tok_s: Option<u128> = if hw.bandwidth_gbs > 0 && params > 0 && is_spread {
        Some(
            estimate::tokens_per_sec_tiered(
                hw.bandwidth_gbs,
                hw.ram_bandwidth_gbs,
                params,
                &variant.quant_str,
                spread.swap_space_gb,
                spread.cpu_offload_gb,
                weight,
            ),
        )
    } else {
        speed_on_card(hw, weight, params, &variant.quant_str)
    };
    let usable_context: usize = spread.extended_context;
    fit_with(hw, variant, arch, measured_tok_s, overhead, usable_context, est_tok_s, spread)
}

// ---------------------------------------------------------------------------
// Ranking
// ---------------------------------------------------------------------------

/// What is ranked by a score and, where that is the same, by a second number; the higher
/// come first.
pub trait Ranked: Sized {
    /// The score and the second number.
    spec fn rank(self) -> (u8, i64);

    /// The score and the second number.
    fn rank_of(&self) -> (r: (u8, i64))
        ensures
            r == self.rank(),
    ;
}

/// The first comes before the second.
pub open spec fn ranks_before<T: Ranked>(a: T, b: T) -> bool {
    a.rank().0 > b.rank().0 || (a.rank().0 == b.rank().0 && a.rank().1 > b.rank().1)
}

/// Of variants with the same score, those that are no GGUF files come first.
pub open spec fn variant_rank(v: VariantInput, f: FitResult) -> (u8, i64) {
    (
        f.score,
        if v.is_gguf {
            0
        } else {
            1
        },
    )
}

impl Ranked for (VariantInput, FitResult) {
    open spec fn rank(self) -> (u8, i64) {
        variant_rank(self.0, self.1)
    }

    fn rank_of(&self) -> (r: (u8, i64)) {
        (
            self.1.score,
            if self.0.is_gguf {
                0
            } else {
                1
            },
        )
    }
}

/// The order of two variants.
pub fn compare_variant_fit(a: (&VariantInput, &FitResult), b: (&VariantInput, &FitResult)) -> (r:
    Ordering)
    ensures
        r == (if a.1.score > b.1.score {
            Ordering::Less
        } else if a.1.score < b.1.score {
            Ordering::Greater
        } else if !a.0.is_gguf && b.0.is_gguf {
            Ordering::Less
        } else if a.0.is_gguf && !b.0.is_gguf {
            Ordering::Greater
        } else {
            Ordering::Equal
        }),
{
    if a.1.score > b.1.score {
        Ordering::Less
    } else if a.1.score < b.1.score {
        Ordering::Greater
    } else if !a.0.is_gguf && b.0.is_gguf {
        Ordering::Less
    } else if a.0.is_gguf && !b.0.is_gguf {
        Ordering::Greater
    } else {
        Ordering::Equal
    }
}

/// The place of `x` among `t`: behind the last that it does not come before.
pub open spec fn rank_place<T: Ranked>(t: Seq<T>, x: T) -> int
    decreases t.len(),
{
    if t.len() == 0 || !ranks_before(x, t.last()) {
        t.len() as int
    } else {
        rank_place(t.drop_last(), x)
    }
}

/// The items in the order of their ranks; those of the same rank keep their order.
pub open spec fn ranked<T: Ranked>(s: Seq<T>) -> Seq<T>
    decreases s.len(),
{
    if s.len() == 0 {
        s
    } else {
        let t = ranked(s.drop_last());
        t.insert(rank_place(t, s.last()), s.last())
    }
}

proof fn lemma_rank_place<T: Ranked>(t: Seq<T>, x: T)
    ensures
        0 <= rank_place(t, x) <= t.len(),
        forall|i: int| rank_place(t, x) <= i < t.len() ==> ranks_before(x, #[trigger] t[i]),
        rank_place(t, x) > 0 ==> !ranks_before(x, t[rank_place(t, x) - 1]),
    decreases t.len(),
{
    if t.len() > 0 && ranks_before(x, t.last()) {
        lemma_rank_place(t.drop_last(), x);
        assert forall|i: int| rank_place(t, x) <= i < t.len() implies ranks_before(
            x,
            #[trigger] t[i],
        ) by {
            if i < t.len() - 1 {
                assert(t.drop_last()[i] == t[i]);
            }
        }
    }
}

pub(crate) proof fn lemma_ranked_length<T: Ranked>(s: Seq<T>)
    ensures
        ranked(s).len() == s.len(),
    decreases s.len(),
{
    if s.len() > 0 {
        lemma_ranked_length(s.drop_last());
        lemma_rank_place(ranked(s.drop_last()), s.last());
    }
}

/// Puts items in the order of their ranks.
pub fn rank_items<T: Ranked>(results: &mut Vec<T>)
    ensures
        final(results)@ == ranked(old(results)@),
        final(results)@.len() == old(results)@.len(),
{
    let ghost all = results@;
    let mut rest: Vec<T> = Vec::new();
    std::mem::swap(&mut rest, results);
    let ghost mut n: int = 0;
    assert(all.skip(0) =~= all);
    assert(all.take(0) =~= Seq::empty());
    while rest.len() > 0
        invariant
            all == old(results)@,
            0 <= n <= all.len(),
            rest@ == all.skip(n),
            results@ == ranked(all.take(n)),
        decreases rest@.len(),
    {
        let x = rest.remove(0);
        let (score, second): (u8, i64) = x.rank_of();
        let ghost front = results@;
        let mut i: usize = results.len();
        let mut before = true;
        assert(front.take(i as int) =~= front);
        while i > 0 && before
            invariant
                i <= results@.len(),
                results@ == front,
                (score, second) == x.rank(),
                before ==> rank_place(front, x) == rank_place(front.take(i as int), x),
                !before ==> rank_place(front, x) == i,
            decreases i + (if before { 1int } else { 0int }),
        {
            assert(front.take(i as int).drop_last() =~= front.take(i - 1));
            assert(front.take(i as int).last() == front[i - 1]);
            let (s, t): (u8, i64) = results[i - 1].rank_of();
            if score > s || (score == s && second > t) {
                i -= 1;
            } else {
                before = false;
            }
        }
        proof {
            assert(rank_place(front, x) == i);
            assert(all.take(n + 1).drop_last() =~= all.take(n));
            assert(all.take(n + 1).last() == all[n]);
            assert(all.skip(n)[0] == all[n]);
            assert(all.skip(n).remove(0) =~= all.skip(n + 1));
            n = n + 1;
        }
        results.insert(i, x);
    }
    assert(all.take(n) =~= all);
    proof {
        lemma_ranked_length(all);
    }
}

/// Puts the variants in the order of their ranks.
pub fn rank_variants(results: &mut Vec<(VariantInput, FitResult)>)
    ensures
        final(results)@ == ranked(old(results)@),
{
    rank_items(results);
}

/// The variant fits and has the format that is preferred.
pub open spec fn is_preferred(x: (VariantInput, FitResult), format: Seq<char>) -> bool {
    text::same_but_case(x.0.quant_str@, format) && x.1.verdict != FitVerdict::DoesNotFit
}

/// The place of the first variant from number `i` on that is preferred.
pub open spec fn preferred_from(
    results: Seq<(VariantInput, FitResult)>,
    format: Seq<char>,
    i: int,
) -> Option<int>
    decreases results.len() - i,
{
    if i < 0 || i >= results.len() {
        None
    } else if is_preferred(results[i], format) {
        Some(i)
    } else {
        preferred_from(results, format, i + 1)
    }
}

/// The place of the variant to take: the first that has the preferred format and fits, else
/// the first.
pub open spec fn best_of(
    results: Seq<(VariantInput, FitResult)>,
    preferred_format: Option<Seq<char>>,
) -> int {
    match preferred_format {
        Some(format) => match preferred_from(results, format, 0) {
            Some(i) => i,
            None => 0,
        },
        None => 0,
    }
}

/// The place of the variant to take.
pub fn best_variant(
    results: &Vec<(VariantInput, FitResult)>,
    preferred_format: Option<&str>,
) -> (r: usize)
    ensures
        r == best_of(results@, text::opt_str(preferred_format)),
        results@.len() > 0 ==> r < results@.len(),
{
    if let Some(format) = preferred_format {
        for i in 0..results.len()
            invariant
                preferred_from(results@, format@, 0) == preferred_from(
                    results@,
                    format@,
                    i as int,
                ),
                text::opt_str(preferred_format) == Some(format@),
        {
            if text::same_ignoring_case(&results[i].0.quant_str, format) && results[i].1.verdict
                != FitVerdict::DoesNotFit {
                return i;
            }
        }
    }
    0
}

// ---------------------------------------------------------------------------
// Laws
// ---------------------------------------------------------------------------

/// Ranking changes only the order: everything is there as often as before.
pub proof fn law_ranking_keeps_the_items<T: Ranked>(s: Seq<T>)
    ensures
        ranked(s).to_multiset() == s.to_multiset(),
    decreases s.len(),
{
    broadcast use vstd::seq_lib::group_to_multiset_ensures;

    if s.len() > 0 {
        let t = ranked(s.drop_last());
        law_ranking_keeps_the_items(s.drop_last());
        lemma_rank_place(t, s.last());
        assert(s =~= s.drop_last().push(s.last()));
        assert(ranked(s).to_multiset() =~= t.to_multiset().insert(s.last()));
    }
}

/// After ranking nothing comes before what stands in front of it.
pub proof fn law_ranking_orders_the_items<T: Ranked>(s: Seq<T>, i: int, j: int)
    requires
        0 <= i < j < s.len(),
    ensures
        ranked(s).len() == s.len(),
        !ranks_before(ranked(s)[j], ranked(s)[i]),
    decreases s.len(),
{
    lemma_ranked_length(s);
    let f = s.drop_last();
    let t = ranked(f);
    let x = s.last();
    let p = rank_place(t, x);
    lemma_ranked_length(f);
    lemma_rank_place(t, x);
    let before = |k: int|
        if k < p {
            k
        } else {
            k - 1
        };
    if i != p && j != p {
        law_ranking_orders_the_items(f, before(i), before(j));
    } else if j == p {
        if i < p - 1 {
            law_ranking_orders_the_items(f, i, p - 1);
        }
    } else {
        assert(ranks_before(x, t[j - 1]));
    }
}

/// Items of the same rank keep their order.
pub proof fn law_equal_ranks_keep_their_order<T: Ranked>(s: Seq<T>, rank: (u8, i64))
    ensures
        ranked(s).filter(|x: T| x.rank() == rank) == s.filter(|x: T| x.rank() == rank),
    decreases s.len(),
{
    if s.len() > 0 {
        let same = |x: T| x.rank() == rank;
        let f = s.drop_last();
        let x = s.last();
        let t = ranked(f);
        let p = rank_place(t, x);
        let one = seq![x];
        law_equal_ranks_keep_their_order(f, rank);
        lemma_rank_place(t, x);
        assert(t.insert(p, x) =~= t.take(p) + one + t.skip(p));
        assert(t =~= t.take(p) + t.skip(p));
        assert(s =~= f + one);
        Seq::filter_distributes_over_add(t.take(p) + one, t.skip(p), same);
        Seq::filter_distributes_over_add(t.take(p), one, same);
        Seq::filter_distributes_over_add(t.take(p), t.skip(p), same);
        Seq::filter_distributes_over_add(f, one, same);
        let behind = t.skip(p).filter(same);
        if same(x) {
            assert(behind.len() == 0) by {
                if behind.len() > 0 {
                    t.skip(p).lemma_filter_pred(same, 0);
                    lemma_filtered_is_there(t.skip(p), same, 0);
                    let k = choose|k: int| 0 <= k < t.skip(p).len() && t.skip(p)[k] == behind[0];
                    assert(ranks_before(x, t[p + k]));
                }
            }
            assert(t.take(p).filter(same) + one.filter(same) + behind =~= t.take(p).filter(same)
                + behind + one.filter(same));
        } else {
            assert(one.filter(same).len() == 0) by {
                if one.filter(same).len() > 0 {
                    one.lemma_filter_pred(same, 0);
                    lemma_filtered_is_there(one, same, 0);
                }
            }
            assert(t.take(p).filter(same) + one.filter(same) + behind =~= t.take(p).filter(same)
                + behind + one.filter(same));
        }
        assert(ranked(s).filter(same) == s.filter(same));
    }
}

proof fn lemma_filtered_is_there<T>(s: Seq<T>, pred: spec_fn(T) -> bool, i: int)
    requires
        0 <= i < s.filter(pred).len(),
    ensures
        exists|k: int| 0 <= k < s.len() && s[k] == s.filter(pred)[i],
    decreases s.len(),
{
    reveal(Seq::filter);
    if s.len() > 0 {
        let f = s.drop_last();
        if i < f.filter(pred).len() {
            lemma_filtered_is_there(f, pred, i);
            let k = choose|k: int| 0 <= k < f.len() && f[k] == f.filter(pred)[i];
            assert(s[k] == s.filter(pred)[i]);
        } else {
            assert(s[s.len() - 1] == s.filter(pred)[i]);
        }
    }
}

/// A variant that does not fit never scores above twenty-five, whatever the settings.
pub proof fn law_misfit_scores_low(
    r: FitResult,
    hw: HardwareProfile,
    v: VariantInput,
    arch: ModelArchInfo,
    measured_tok_s: Option<u64>,
    memory: MemorySettings,
)
    requires
        is_fit_of(r, hw, v, arch, measured_tok_s) || is_fit_under(
            r,
            hw,
            v,
            arch,
            measured_tok_s,
            memory,
        ),
        r.verdict == FitVerdict::DoesNotFit,
    ensures
        r.score <= 25,
{
}

/// Of two measurements of the same variant the faster never gives the lower score.
pub proof fn law_faster_scores_no_lower(
    slow: FitResult,
    fast: FitResult,
    hw: HardwareProfile,
    v: VariantInput,
    arch: ModelArchInfo,
    slow_tok_s: u64,
    fast_tok_s: u64,
    memory: MemorySettings,
)
    requires
        ({
            ||| is_fit_of(slow, hw, v, arch, Some(slow_tok_s)) && is_fit_of(
                fast,
                hw,
                v,
                arch,
                Some(fast_tok_s),
            )
            ||| is_fit_under(slow, hw, v, arch, Some(slow_tok_s), memory) && is_fit_under(
                fast,
                hw,
                v,
                arch,
                Some(fast_tok_s),
                memory,
            )
        }),
        slow_tok_s <= fast_tok_s,
    ensures
        slow.score <= fast.score,
{
}

/// Where the speed was measured, the score goes by it: the bandwidth of the card, from which a
/// speed would be expected, changes nothing.
pub proof fn law_measured_speed_wins(
    a: FitResult,
    b: FitResult,
    a_hw: HardwareProfile,
    b_hw: HardwareProfile,
    v: VariantInput,
    arch: ModelArchInfo,
    measured: u64,
    memory: MemorySettings,
)
    requires
        ({
            ||| is_fit_of(a, a_hw, v, arch, Some(measured)) && is_fit_of(
                b,
                b_hw,
                v,
                arch,
                Some(measured),
            )
            ||| is_fit_under(a, a_hw, v, arch, Some(measured), memory) && is_fit_under(
                b,
                b_hw,
                v,
                arch,
                Some(measured),
                memory,
            ) && a_hw.ram_usable_mb == b_hw.ram_usable_mb
        }),
        a_hw.vram_total_mb == b_hw.vram_total_mb,
    ensures
        a.score == b.score,
        a.verdict == b.verdict,
        a.measured_tok_s == Some(measured),
{
}

/// Under the settings no context exceeds that of the model or the cap, and what is on the card
/// is a part of the whole.
pub proof fn law_settings_bound_the_context(
    hw: HardwareProfile,
    v: VariantInput,
    arch: ModelArchInfo,
    memory: MemorySettings,
)
    ensures
        ({
            let t = spread_under(hw, v, arch, memory);
            &&& t.vram_context <= t.extended_context <= arch.context
            &&& memory.max_context_cap matches Some(c) ==> (c > 0 ==> t.extended_context <= c)
        }),
{
    let params = variant_params(v, arch);
    estimate::law_tiered_stays_within(
        context_fit::share_of(hw.vram_total_mb, memory.default_gpu_mem_util as int)
            - variant_weight(v, params) - memory.vram_overhead_mb * MIB,
        hw.ram_usable_mb * MIB,
        if context_is_known(v, arch) {
            kv_parts(arch, params)
        } else {
            0
        },
        capped_context(arch.context, memory.max_context_cap),
        memory.offload_weights_allowed,
    );
}

/// Where no RAM may be used, all of the context is on the card and all of the weights are.
pub proof fn law_without_ram_nothing_is_spread(
    r: FitResult,
    hw: HardwareProfile,
    v: VariantInput,
    arch: ModelArchInfo,
    measured_tok_s: Option<u64>,
    memory: MemorySettings,
)
    requires
        is_fit_under(r, hw, v, arch, measured_tok_s, memory),
        hw.ram_usable_mb == 0,
    ensures
        r.spread() == on_card(r.usable_context),
{
}

/// Weights are put in RAM only where that is allowed.
pub proof fn law_weights_stay_unless_allowed(
    r: FitResult,
    hw: HardwareProfile,
    v: VariantInput,
    arch: ModelArchInfo,
    measured_tok_s: Option<u64>,
    memory: MemorySettings,
)
    requires
        is_fit_under(r, hw, v, arch, measured_tok_s, memory),
        !memory.offload_weights_allowed,
    ensures
        r.cpu_offload_gb == 0,
{
}

/// The usable context never exceeds that of the model.
pub proof fn law_usable_context_is_within_native(
    r: FitResult,
    hw: HardwareProfile,
    v: VariantInput,
    arch: ModelArchInfo,
    measured_tok_s: Option<u64>,
    memory: MemorySettings,
)
    requires
        is_fit_of(r, hw, v, arch, measured_tok_s) || is_fit_under(
            r,
            hw,
            v,
            arch,
            measured_tok_s,
            memory,
        ),
    ensures
        r.usable_context <= r.native_context,
{
    law_settings_bound_the_context(hw, v, arch, memory);
}

/// The variant that is taken fits wherever one of the preferred format does.
pub proof fn law_preferred_variant_is_taken(
    results: Seq<(VariantInput, FitResult)>,
    format: Seq<char>,
    k: int,
)
    requires
        0 <= k < results.len(),
        is_preferred(results[k], format),
    ensures
        0 <= best_of(results, Some(format)) <= k,
        is_preferred(results[best_of(results, Some(format))], format),
{
    lemma_preferred_found(results, format, 0, k);
}

proof fn lemma_preferred_found(
    results: Seq<(VariantInput, FitResult)>,
    format: Seq<char>,
    i: int,
    k: int,
)
    requires
        0 <= i <= k < results.len(),
        is_preferred(results[k], format),
    ensures
        preferred_from(results, format, i) matches Some(j) && i <= j <= k && is_preferred(
            results[j],
            format,
        ),
    decreases k - i,
{
    if !is_preferred(results[i], format) {
        lemma_preferred_found(results, format, i + 1, k);
    }
}

/// On one card a variant that needs less memory never gets fewer points for its fit. The
/// points fall evenly from a hundred for no need to ninety at 60 hundredths of the card, and
/// from eighty-five just above that to thirty at 95 hundredths; what needs more gets none.
pub proof fn law_less_need_gets_no_fewer_points(less: int, more: int, card: int)
    requires
        0 <= less <= more,
        0 < card,
    ensures
        fit_points(less, card) >= fit_points(more, card),
        less == 0 ==> fit_points(less, card) == 100_000_000,
        100 * less <= 60 * card ==> 0 <= (fit_points(less, card) - 90_000_000) * (60 * card)
            - 10_000_000 * (60 * card - 100 * less) < 60 * card,
        100 * less == 60 * card ==> fit_points(less, card) == 90_000_000,
        60 * card < 100 * less <= 95 * card ==> 0 <= (fit_points(less, card) - 30_000_000) * (35
            * card) - 55_000_000 * (95 * card - 100 * less) < 35 * card,
        60 * card < 100 * less <= 95 * card ==> 30_000_000 <= fit_points(less, card)
            <= 85_000_000,
        100 * less == 95 * card ==> fit_points(less, card) == 30_000_000,
        95 * card < 100 * less ==> fit_points(less, card) == 0,
{
    lemma_fit_points_fall(less, card);
    lemma_fit_points_fall(more, card);
    if less < more {
        let a = fit_points(less, card);
        let b = fit_points(more, card);
        if 100 * more <= 60 * card {
            let x = 50_000_000 * less;
            let y = 50_000_000 * more;
            assert(x / (3 * card) <= y / (3 * card)) by (nonlinear_arith)
                requires
                    x <= y,
                    card > 0,
            ;
        } else if 60 * card < 100 * less && 100 * more <= 95 * card {
            let x = (100 * less - 60 * card) * 55_000_000;
            let y = (100 * more - 60 * card) * 55_000_000;
            assert(x / (35 * card) <= y / (35 * card)) by (nonlinear_arith)
                requires
                    x <= y,
                    card > 0,
            ;
        }
    }
}

proof fn lemma_fit_points_fall(need: int, card: int)
    requires
        0 <= need,
        0 < card,
    ensures
        need == 0 ==> fit_points(need, card) == 100_000_000,
        100 * need <= 60 * card ==> fit_points(need, card) >= 90_000_000,
        100 * need <= 60 * card ==> 0 <= (fit_points(need, card) - 90_000_000) * (60 * card)
            - 10_000_000 * (60 * card - 100 * need) < 60 * card,
        100 * need == 60 * card ==> fit_points(need, card) == 90_000_000,
        60 * card < 100 * need <= 95 * card ==> 0 <= (fit_points(need, card) - 30_000_000) * (35
            * card) - 55_000_000 * (95 * card - 100 * need) < 35 * card,
        60 * card < 100 * need <= 95 * card ==> 30_000_000 <= fit_points(need, card)
            <= 85_000_000,
        100 * need == 95 * card ==> fit_points(need, card) == 30_000_000,
        95 * card < 100 * need ==> fit_points(need, card) == 0,
{
    if 100 * need <= 60 * card {
        let n = 50_000_000 * need;
        let q = n / (3 * card);
        assert(q * (3 * card) <= n < (q + 1) * (3 * card)) by (nonlinear_arith)
            requires
                q == n / (3 * card),
                card > 0,
        ;
        assert(q * (60 * card) == 20 * (q * (3 * card))) by (nonlinear_arith);
        assert((10_000_000 - q) * (60 * card) == 10_000_000 * (60 * card) - q * (60 * card))
            by (nonlinear_arith);
        assert((q + 1) * (3 * card) == q * (3 * card) + 3 * card) by (nonlinear_arith);
        assert(0 <= q <= 10_000_000) by (nonlinear_arith)
            requires
                q * (3 * card) <= n < (q + 1) * (3 * card),
                0 <= n <= 10_000_000 * (3 * card),
                card > 0,
        ;
        if need == 0 {
            assert(q == 0) by (nonlinear_arith)
                requires
                    q * (3 * card) <= 0,
                    0 <= q,
                    card > 0,
            ;
        }
        if 100 * need == 60 * card {
            assert(q == 10_000_000) by (nonlinear_arith)
                requires
                    q <= 10_000_000,
                    (q + 1) * (3 * card) > 10_000_000 * (3 * card),
                    card > 0,
            ;
        }
    } else if 100 * need <= 95 * card {
        let n = (100 * need - 60 * card) * 55_000_000;
        let d = 35 * card;
        let q = n / d;
        assert(q * d <= n < (q + 1) * d) by (nonlinear_arith)
            requires
                q == n / d,
                d > 0,
        ;
        assert((55_000_000 - q) * d == 55_000_000 * d - q * d) by (nonlinear_arith);
        assert((q + 1) * d == q * d + d) by (nonlinear_arith);
        assert(0 <= q <= 55_000_000) by (nonlinear_arith)
            requires
                q * d <= n < (q + 1) * d,
                0 <= n <= 55_000_000 * d,
                d > 0,
        ;
        if 100 * need == 95 * card {
            assert(q == 55_000_000) by (nonlinear_arith)
                requires
                    q <= 55_000_000,
                    (q + 1) * d > 55_000_000 * d,
                    d > 0,
            ;
        }
    }
}

/// The verdict goes by the share of the card that the weights and 2500 MiB take: comfortable
/// up to 60 hundredths, constrained up to 95, and no fit above. The share that is told is the
/// nearest whole hundredth.
pub proof fn law_verdict_goes_by_the_share(
    r: FitResult,
    hw: HardwareProfile,
    v: VariantInput,
    arch: ModelArchInfo,
    measured_tok_s: Option<u64>,
)
    requires
        is_fit_of(r, hw, v, arch, measured_tok_s),
    ensures
        ({
            let need = r.weight + 2500 * MIB;
            let card = hw.vram_total_mb * MIB;
            let off = 2 * (100 * need - r.vram_pct * card);
            &&& r.verdict == FitVerdict::Comfortable <==> 0 < card && 100 * need <= 60 * card
            &&& r.verdict == FitVerdict::Constrained <==> 60 * card < 100 * need && 100 * need
                <= 95 * card
            &&& r.verdict == FitVerdict::DoesNotFit <==> card == 0 || 100 * need > 95 * card
            &&& r.vram_pct < 255 ==> -card <= off <= card
            &&& v.weight_bytes matches Some(n) ==> r.weight == n * 256
        }),
{
    lemma_weight_not_negative(v, variant_params(v, arch));
    if r.vram_pct < 255 {
        lemma_percent_is_close(
            r.weight + 2500 * MIB,
            hw.vram_total_mb * MIB,
            r.vram_pct as int,
        );
    }
}

proof fn lemma_weight_not_negative(v: VariantInput, params_m: u64)
    ensures
        variant_weight(v, params_m) >= 0,
{
    if v.weight_bytes is None {
        estimate::lemma_weights_not_negative(params_m, v.quant_str@);
    }
}

proof fn lemma_percent_is_close(need: int, card: int, percent: int)
    requires
        0 <= need,
        0 <= card,
        percent == percent_of(need, card),
        percent < 255,
    ensures
        -card <= 2 * (100 * need - percent * card) <= card,
{
    let n = 200 * need + card;
    assert(percent * (2 * card) <= n < (percent + 1) * (2 * card)) by (nonlinear_arith)
        requires
            percent == n / (2 * card),
            card > 0,
    ;
    assert(percent * (2 * card) == 2 * (percent * card)) by (nonlinear_arith);
    assert((percent + 1) * (2 * card) == 2 * (percent * card) + 2 * card) by (nonlinear_arith);
}

/// Of what makes a score the fit counts forty points, the speed thirty and the context thirty:
/// that much lies between none and all of each.
pub proof fn law_parts_of_a_score(verdict: FitVerdict, fit: int, speed: int, context: int)
    requires
        verdict != FitVerdict::DoesNotFit,
    ensures
        score_of(verdict, 100_000_000, speed, context) == score_of(verdict, 0, speed, context)
            + 40,
        score_of(verdict, fit, 100_000_000, context) == score_of(verdict, fit, 0, context) + 30,
        score_of(verdict, fit, speed, 100_000_000) == score_of(verdict, fit, speed, 0) + 30,
        score_of(verdict, 0, 0, 0) == 0,
{
}

/// The score of a variant that fits lies by thirty points higher where it makes eighty tokens
/// per second or more than where it makes none, and no speed above eighty counts more.
pub proof fn law_eighty_tokens_are_full_speed(
    slow: FitResult,
    fast: FitResult,
    hw: HardwareProfile,
    v: VariantInput,
    arch: ModelArchInfo,
    fast_tok_s: u64,
    memory: MemorySettings,
)
    requires
        ({
            ||| is_fit_of(slow, hw, v, arch, Some(0)) && is_fit_of(
                fast,
                hw,
                v,
                arch,
                Some(fast_tok_s),
            )
            ||| is_fit_under(slow, hw, v, arch, Some(0), memory) && is_fit_under(
                fast,
                hw,
                v,
                arch,
                Some(fast_tok_s),
                memory,
            )
        }),
        slow.verdict != FitVerdict::DoesNotFit,
        80_000_000 <= fast_tok_s,
    ensures
        fast.score == slow.score + 30,
{
}

/// Half of eighty tokens per second gives half of the points, and so on: the points for the
/// speed grow with it, an eightieth of the full number for each token per second.
pub proof fn law_speed_points_grow_evenly(tokens: int)
    requires
        0 <= tokens <= 80,
    ensures
        80 * speed_points(Some(1_000_000 * tokens)) == tokens * 100_000_000,
        speed_points(None) == 0,
{
}

/// The points for the context are all where the whole context of the model is usable, none
/// where nothing of it is, and in between the share that is usable; more is never fewer.
pub proof fn law_context_points_are_its_share(less: int, more: int, native: int)
    requires
        0 <= less <= more <= native,
        0 < native,
    ensures
        context_points(native, native) == 100_000_000,
        context_points(0, native) == 0,
        context_points(less, native) <= context_points(more, native),
        context_points(less, native) * native <= less * 100_000_000 < (context_points(
            less,
            native,
        ) + 1) * native,
{
    lemma_context_points(less, native);
    lemma_context_points(more, native);
    lemma_context_points(native, native);
    let a = context_points(less, native);
    let b = context_points(more, native);
    assert(a <= b) by (nonlinear_arith)
        requires
            a * native <= less * 100_000_000,
            more * 100_000_000 < (b + 1) * native,
            less <= more,
            native > 0,
    ;
    let c = context_points(native, native);
    assert(c == 100_000_000) by (nonlinear_arith)
        requires
            c * native <= native * 100_000_000 < (c + 1) * native,
            native > 0,
    ;
}

proof fn lemma_context_points(usable: int, native: int)
    requires
        0 <= usable <= native,
        0 < native,
    ensures
        context_points(usable, native) * native <= usable * 100_000_000 < (context_points(
            usable,
            native,
        ) + 1) * native,
{
    let n = usable * FULL;
    let q = n / native;
    assert(q * native <= n < (q + 1) * native) by (nonlinear_arith)
        requires
            q == n / native,
            native > 0,
    ;
    assert(q <= FULL) by (nonlinear_arith)
        requires
            q * native <= n,
            n <= native * FULL,
            native > 0,
    ;
    if usable == 0 {
        assert(0 * native < (0 + 1) * native) by (nonlinear_arith)
            requires
                native > 0,
        ;
    }
}

/// The speed that is expected of a variant is the one at which its weights are read once for
/// each token with half of the bandwidth of the card. None is expected where the bandwidth or
/// the size of the variant is not known.
pub proof fn law_expected_speed_reads_the_weights(
    r: FitResult,
    hw: HardwareProfile,
    v: VariantInput,
    arch: ModelArchInfo,
    measured_tok_s: Option<u64>,
)
    requires
        is_fit_of(r, hw, v, arch, measured_tok_s),
    ensures
        hw.bandwidth_gbs == 0 ==> r.est_tok_s is None,
        hw.bandwidth_gbs > 0 && r.weight > 0 ==> (r.est_tok_s matches Some(s) && s * (2 * r.weight)
            <= hw.bandwidth_gbs * GIB * 1_000_000 < (s + 1) * (2 * r.weight)),
        r.measured_tok_s == measured_tok_s,
        r.native_context == arch.context,
        r.format_support == FormatSupport::Experimental <==> v.is_gguf,
{
    if hw.bandwidth_gbs > 0 && r.weight > 0 {
        let n = hw.bandwidth_gbs * GIB * 1_000_000;
        let d = 2 * r.weight;
        let q = n / d;
        assert(q * d <= n < (q + 1) * d) by (nonlinear_arith)
            requires
                q == n / d,
                d > 0,
        ;
    }
}

/// The context that a variant leaves room for: its KV cache, the weights and 2500 MiB take no
/// more than 92 hundredths of the card, unless that would be less than 512 tokens; where the
/// whole context of the model is not usable, one token more would take more.
pub proof fn law_usable_context_has_room(
    r: FitResult,
    hw: HardwareProfile,
    v: VariantInput,
    arch: ModelArchInfo,
    measured_tok_s: Option<u64>,
)
    requires
        is_fit_of(r, hw, v, arch, measured_tok_s),
    ensures
        ({
            let kv = kv_parts(arch, variant_params(v, arch));
            let beside = r.weight + 2500 * MIB;
            let card = hw.vram_total_mb * MIB;
            &&& r.usable_context > 512 ==> 10_000 * (beside + r.usable_context * kv) <= 9_200
                * card
            &&& 0 < r.usable_context && r.usable_context < r.native_context && r.usable_context
                < usize::MAX ==> 10_000 * (beside + (r.usable_context + 1) * kv) > 9_200 * card
                || r.usable_context == 512
            &&& 10_000 * beside >= 9_200 * card + 10_000 ==> r.usable_context == 0
            &&& r.vram_context == r.usable_context && r.extended_context == r.usable_context
            &&& r.swap_space_gb == 0 && r.cpu_offload_gb == 0
        }),
{
    let params = variant_params(v, arch);
    let kv = kv_parts(arch, params);
    let share = context_fit::share_of(hw.vram_total_mb, 9_200);
    let room = share - r.weight - 2500 * MIB;
    if kv > 0 && room > 0 {
        context_fit::law_context_is_largest_that_fits(room, kv, r.usable_context as int);
        if r.usable_context < usize::MAX {
            context_fit::law_context_is_largest_that_fits(room, kv, r.usable_context + 1);
        }
    }
}

/// Of two variants of a model that differ only in the size of their files the smaller is never
/// the worse: it scores no lower, leaves room for no shorter a context and is expected to be
/// no slower.
pub proof fn law_smaller_variant_is_no_worse(
    small: FitResult,
    large: FitResult,
    hw: HardwareProfile,
    v: VariantInput,
    w: VariantInput,
    arch: ModelArchInfo,
    measured_tok_s: Option<u64>,
)
    requires
        is_fit_of(small, hw, v, arch, measured_tok_s),
        is_fit_of(large, hw, w, arch, measured_tok_s),
        w == (VariantInput { weight_bytes: w.weight_bytes, ..v }),
        v.weight_bytes is Some,
        w.weight_bytes is Some,
        0 < v.weight_bytes->0 <= w.weight_bytes->0,
    ensures
        small.usable_context >= large.usable_context,
        small.est_tok_s is Some <==> large.est_tok_s is Some,
        small.est_tok_s is Some ==> small.est_tok_s->0 >= large.est_tok_s->0,
        small.vram_pct <= large.vram_pct,
        small.score >= large.score,
{
    let params = variant_params(v, arch);
    let kv = kv_parts(arch, params);
    let share = context_fit::share_of(hw.vram_total_mb, 9_200);
    let a = small.weight + OVERHEAD;
    let b = large.weight + OVERHEAD;
    let card = hw.vram_total_mb * MIB;
    if kv > 0 {
        context_fit::law_context_grows_with_memory(share - b, share - a, kv, kv);
    }
    if hw.bandwidth_gbs > 0 {
        let n = hw.bandwidth_gbs * GIB * 1_000_000;
        let d = 2 * small.weight;
        let e = 2 * large.weight;
        assert(n / e <= n / d) by (nonlinear_arith)
            requires
                n >= 0,
                0 < d <= e,
        ;
    }
    if card > 0 {
        law_less_need_gets_no_fewer_points(a, b, card);
        assert((200 * a + card) / (2 * card) <= (200 * b + card) / (2 * card)) by (nonlinear_arith)
            requires
                a <= b,
                card > 0,
        ;
    }
    if arch.context > 0 {
        law_context_points_are_its_share(
            large.usable_context as int,
            small.usable_context as int,
            arch.context as int,
        );
    }
}

/// After ranking, variants with a higher score come first, and of those with the same score
/// the ones that are no GGUF files.
pub proof fn law_higher_scores_come_first(
    s: Seq<(VariantInput, FitResult)>,
    i: int,
    j: int,
)
    requires
        0 <= i < j < s.len(),
    ensures
        ranked(s)[i].1.score >= ranked(s)[j].1.score,
        ranked(s)[i].1.score == ranked(s)[j].1.score && !ranked(s)[j].0.is_gguf
            ==> !ranked(s)[i].0.is_gguf,
{
    lemma_ranked_length(s);
    law_ranking_orders_the_items(s, i, j);
}

/// The variant that is taken is the first that fits and has the preferred format, whatever the
/// case of its letters; where there is none, or no format is preferred, it is the first of all.
pub proof fn law_taken_variant(
    results: Seq<(VariantInput, FitResult)>,
    format: Seq<char>,
    k: int,
)
    requires
        0 <= k < results.len(),
    ensures
        best_of(results, None) == 0,
        ({
            let best = best_of(results, Some(format));
            let suits = |x: (VariantInput, FitResult)|
                text::same_but_case(x.0.quant_str@, format) && x.1.verdict
                    != FitVerdict::DoesNotFit;
            &&& 0 <= best < results.len()
            &&& suits(results[k]) ==> best <= k && suits(results[best])
            &&& best > 0 ==> suits(results[best])
        }),
{
    lemma_preferred_is_suitable(results, format, 0);
    if is_preferred(results[k], format) {
        lemma_preferred_found(results, format, 0, k);
    }
}

proof fn lemma_preferred_is_suitable(
    results: Seq<(VariantInput, FitResult)>,
    format: Seq<char>,
    i: int,
)
    requires
        0 <= i,
    ensures
        preferred_from(results, format, i) matches Some(j) ==> i <= j < results.len()
            && is_preferred(results[j], format),
    decreases results.len() - i,
{
    if i < results.len() && !is_preferred(results[i], format) {
        lemma_preferred_is_suitable(results, format, i + 1);
    }
}

/// What a token adds to the KV cache: a key and a value of two bytes for each element of each
/// head of each layer, where the dimensions are known; else an estimate that never falls with
/// the size of the model.
pub proof fn law_cache_of_a_token(arch: ModelArchInfo, small: u64, large: u64)
    requires
        small <= large,
    ensures
        ({
            let known = arch.n_layers is Some && arch.n_kv_heads is Some && arch.head_dim is Some;
            let elements = arch.n_layers->0 * arch.n_kv_heads->0 * arch.head_dim->0;
            known && elements <= context_fit::ELEMENT_LIMIT ==> kv_parts(arch, small) == 4
                * elements * 256
        }),
        arch.n_layers is None || arch.n_kv_heads is None || arch.head_dim is None ==> kv_parts(
            arch,
            small,
        ) <= kv_parts(arch, large) && (kv_parts(arch, small) == 0 <==> small == 0),
{
}

/// The reason of a verdict tells the share of the card, and of a model that does not fit how
/// much it needs and how much there is.
pub proof fn law_reasons_tell_the_numbers(
    percent: int,
    context: int,
    weight: int,
    overhead: int,
    vram_total_mb: u64,
)
    ensures
        text::occurs(
            reason_of(
                FitVerdict::Comfortable,
                percent,
                context,
                weight,
                overhead,
                vram_total_mb,
            ),
            "("@ + numeral::decimal(percent as nat) + "% VRAM)"@,
        ),
        text::occurs(
            reason_of(
                FitVerdict::Constrained,
                percent,
                context,
                weight,
                overhead,
                vram_total_mb,
            ),
            "("@ + numeral::decimal(percent as nat) + "% VRAM)"@,
        ),
        text::occurs(
            reason_of(
                FitVerdict::DoesNotFit,
                percent,
                context,
                weight,
                overhead,
                vram_total_mb,
            ),
            one_digit(weight + overhead, GIB as int) + " GB but GPU has "@ + one_digit(
                vram_total_mb as int,
                1024,
            ) + " GB"@,
        ),
{
    let share = "("@ + numeral::decimal(percent as nat) + "% VRAM)"@;
    let a = reason_of(FitVerdict::Comfortable, percent, context, weight, overhead, vram_total_mb);
    let b = reason_of(FitVerdict::Constrained, percent, context, weight, overhead, vram_total_mb);
    let c = reason_of(FitVerdict::DoesNotFit, percent, context, weight, overhead, vram_total_mb);
    reveal_strlit("(");
    reveal_strlit("% VRAM)");
    let (a0, a1) = ("Comfortable fit ("@, "% VRAM). Room for "@);
    reveal_strlit("Comfortable fit (");
    reveal_strlit("% VRAM). Room for ");
    assert(a0 =~= a0.take(16) + "("@);
    assert(a1 =~= "% VRAM)"@ + a1.skip(7));
    let at = (a0.take(16) + share).len() as int;
    assert(a =~= a0.take(16) + share + a.skip(at));
    text::law_parts_occur(a0.take(16), share, a.skip(at));
    let (b0, b1) = ("Constrained fit ("@, "% VRAM). Usable context limited to ~"@);
    reveal_strlit("Constrained fit (");
    reveal_strlit("% VRAM). Usable context limited to ~");
    assert(b0 =~= b0.take(16) + "("@);
    assert(b1 =~= "% VRAM)"@ + b1.skip(7));
    let bt = (b0.take(16) + share).len() as int;
    assert(b =~= b0.take(16) + share + b.skip(bt));
    text::law_parts_occur(b0.take(16), share, b.skip(bt));
    let need = one_digit(weight + overhead, GIB as int) + " GB but GPU has "@ + one_digit(
        vram_total_mb as int,
        1024,
    ) + " GB"@;
    let last = " GB VRAM."@;
    reveal_strlit(" GB VRAM.");
    reveal_strlit(" GB");
    assert(last =~= " GB"@ + last.skip(3));
    let front = c.take(c.len() - need.len() - last.skip(3).len());
    assert(c =~= front + need + last.skip(3));
    text::law_parts_occur(front, need, last.skip(3));
}

/// The parameters of a variant are its own where they are told, else those of the model.
pub proof fn law_parameters_of_a_variant(v: VariantInput, arch: ModelArchInfo)
    ensures
        v.params_m matches Some(n) ==> variant_params(v, arch) == n,
        v.params_m is None && arch.params_m is Some ==> variant_params(v, arch) == arch.params_m->0,
        v.params_m is None && arch.params_m is None ==> variant_params(v, arch) == 0,
{
}

/// Where the dimensions are unknown the cache of a token is taken by the size of the model: from
/// 32 KiB for a small one to 320 KiB, and none for a model without parameters.
pub proof fn law_usual_cache_of_a_token(arch: ModelArchInfo, params_m: u64)
    requires
        arch.n_layers is None || arch.n_kv_heads is None || arch.head_dim is None,
    ensures
        params_m == 0 ==> kv_parts(arch, params_m) == 0,
        0 < params_m <= 3_500 ==> kv_parts(arch, params_m) == 32 * 1024 * 256,
        3_500 < params_m <= 10_000 ==> kv_parts(arch, params_m) == 128 * 1024 * 256,
        10_000 < params_m <= 40_000 ==> kv_parts(arch, params_m) == 256 * 1024 * 256,
        40_000 < params_m ==> kv_parts(arch, params_m) == 320 * 1024 * 256,
{
}

} // verus!
