//! Requests to find out whether a context fits.
use vstd::prelude::*;
use crate::context_fit;
use crate::context_fit::{ContextFitReport, LlamaFitInput, VllmFitInput};
use crate::estimate;
use crate::gguf::GgufMetadata;
use crate::memory::{GpuSnapshot, MemorySettings};
use crate::servers;
use crate::servers::ServerStats;
use crate::state;
use crate::text;

verus! {

/// A request to find out whether a context fits.
#[derive(Debug)]
pub struct ContextFitRequest {
    pub backend: String,
    pub model_id: String,
    pub model_path: Option<String>,
    pub context_tokens: Option<usize>,
    pub quant: Option<String>,
    pub kv_cache_dtype: Option<String>,
    /// In ten-thousandths of the card's memory.
    pub gpu_mem_util: Option<u32>,
    pub cpu_offload_gb: Option<usize>,
    pub kv_offload_gb: Option<usize>,
    pub cache_type_k: Option<String>,
    pub cache_type_v: Option<String>,
    pub flash_attn: Option<bool>,
    pub n_gpu_layers: Option<usize>,
    pub n_cpu_moe: Option<usize>,
    pub fit: Option<bool>,
    pub fit_target: Option<usize>,
    pub no_kv_offload: Option<bool>,
}

/// The quantization of a model: the one that was asked for, else the one that its name tells.
pub open spec fn inferred_quant(model_id: Seq<char>, requested: Option<Seq<char>>) -> Seq<char> {
    let asked = text::ascii_lowercase(text::trim(servers::or_text(requested, "auto"@)));
    let id = text::ascii_lowercase(model_id);
    if asked != "auto"@ && asked.len() > 0 {
        asked
    } else if text::occurs(id, "gptq"@) {
        "gptq"@
    } else if text::occurs(id, "awq"@) {
        "awq"@
    } else if text::occurs(id, "fp8"@) {
        "fp8"@
    } else {
        "fp16"@
    }
}

/// The quantization of a model.
pub fn inferred_vllm_quant(model_id: &str, requested: Option<&str>) -> (r: String)
    ensures
        r@ == inferred_quant(model_id@, text::opt_str(requested)),
{
    let wish: &str = match requested {
        Some(s) => s,
        None => "auto",
    };
    let asked = text::ascii_lowered(text::trimmed(wish));
    if !text::same(&asked, "auto") && asked.as_str().unicode_len() > 0 {
        return asked;
    }
    let id = text::ascii_lowered(model_id);
    if text::contains_text(&id, "gptq") {
        "gptq".to_string()
    } else if text::contains_text(&id, "awq") {
        "awq".to_string()
    } else if text::contains_text(&id, "fp8") {
        "fp8".to_string()
    } else {
        "fp16".to_string()
    }
}

/// The directory of the hub's cache that is looked at for the size of a model.
pub fn weight_hub(hf_home: Option<&str>) -> (r: String)
    ensures
        r@ == (match state::set_text(text::opt_str(hf_home)) {
            Some(h) => text::trim_end_char(h, '/') + "/hub"@,
            None => "~/.cache/huggingface/hub"@,
        }),
{
    match state::set_value(hf_home) {
        Some(h) => {
            let mut out = text::trimmed_end_char(h, '/').to_string();
            out.append("/hub");
            out
        },
        None => "~/.cache/huggingface/hub".to_string(),
    }
}

/// The value, unless it is zero.
pub open spec fn nonzero(n: Option<u64>) -> Option<u64> {
    match n {
        Some(v) => if v > 0 {
            Some(v)
        } else {
            None
        },
        None => None,
    }
}

fn nonzero_mb(n: u64) -> (r: Option<u64>)
    ensures
        r == nonzero(Some(n)),
{
    if n > 0 {
        Some(n)
    } else {
        None
    }
}

/// MiB as bytes; what is too much counts as the most there is.
pub open spec fn mib_bytes(mb: int) -> u64 {
    if mb * 0x10_0000 > u64::MAX {
        u64::MAX
    } else {
        (mb * 0x10_0000) as u64
    }
}

fn bytes_of_mib(mb: u64) -> (r: u64)
    ensures
        r == mib_bytes(mb as int),
{
    if mb > u64::MAX / 0x10_0000 {
        u64::MAX
    } else {
        mb * 0x10_0000
    }
}

/// Parts as whole bytes; what is too much counts as the most there is.
pub open spec fn parts_bytes(parts: int) -> u64 {
    if parts / 256 > u64::MAX {
        u64::MAX
    } else {
        (parts / 256) as u64
    }
}

fn bytes_of_parts(parts: i128) -> (r: u64)
    requires
        parts >= 0,
    ensures
        r == parts_bytes(parts as int),
{
    let n: i128 = parts / 256;
    if n > u64::MAX as i128 {
        u64::MAX
    } else {
        n as u64
    }
}

/// What a request about a server of vLLM is answered from.
#[derive(Debug)]
pub struct VllmFacts {
    pub stats: Option<ServerStats>,
    pub context_estimated: bool,
    /// The size of the model in the hub's cache, where it is there.
    pub cached_bytes: Option<u64>,
    pub gpu: Option<GpuSnapshot>,
    /// The RAM and what is available of it, where it could be told.
    pub ram_mb: Option<(u64, u64)>,
    pub default_kv_cache_dtype: String,
    pub memory: MemorySettings,
}

/// The weights of a model: its size in the cache, else an estimate from its parameters.
pub open spec fn request_weight(
    cached: Option<u64>,
    params_m: Option<u64>,
    quant: Seq<char>,
) -> Option<u64> {
    match cached {
        Some(n) => Some(n),
        None => match params_m {
            Some(p) => Some(parts_bytes(estimate::weights_of(p, quant))),
            None => None,
        },
    }
}

/// What is analyzed for a request about a server of vLLM.
pub open spec fn is_vllm_input(
    v: VllmFitInput,
    input: ContextFitRequest,
    f: VllmFacts,
    s: ServerStats,
) -> bool {
    let model_id = text::trim(input.model_id@);
    let quant = inferred_quant(model_id, text::opt_text(input.quant));
    &&& v.model_id@ == model_id
    &&& v.requested_context == (match state::positive(input.context_tokens) {
        Some(n) => n,
        None => s.context,
    })
    &&& v.native_context == Some(s.context)
    &&& v.context_estimated == f.context_estimated
    &&& v.weight_bytes == request_weight(f.cached_bytes, s.params_m, quant)
    &&& v.weight_source@ == (if f.cached_bytes is Some {
        "local_hf_cache"@
    } else {
        "parameter_estimate"@
    })
    &&& v.n_layers == s.n_layers
    &&& v.n_kv_heads == s.n_kv_heads
    &&& v.head_dim == s.head_dim
    &&& v.kv_cache_dtype@ == text::ascii_lowercase(
        servers::or_text(
            state::set_text(text::opt_text(input.kv_cache_dtype)),
            f.default_kv_cache_dtype@,
        ),
    )
    &&& v.vram_total_mb == (match f.gpu {
        Some(g) => nonzero(Some(g.vram_total_mb)),
        None => None,
    })
    &&& v.vram_free_mb == (match f.gpu {
        Some(g) => nonzero(Some(g.vram_free_mb)),
        None => None,
    })
    &&& v.ram_total_mb == (match f.ram_mb {
        Some((total, _)) => Some(total),
        None => None,
    })
    &&& v.ram_available_mb == (match f.ram_mb {
        Some((_, available)) => Some(available),
        None => None,
    })
    &&& v.gpu_mem_util == context_fit::clamped(
        (match input.gpu_mem_util {
            Some(u) => u,
            None => f.memory.default_gpu_mem_util,
        }) as int,
        1_000,
        9_500,
    )
    &&& v.vram_overhead_bytes == mib_bytes(f.memory.vram_overhead_mb as int)
    &&& v.max_context_cap == f.memory.max_context_cap
    &&& v.ram_overflow_enabled == f.memory.enable_ram_overflow
    &&& v.manual_ram_limit_mb == f.memory.manual_ram_limit_mb
    &&& v.safety_reserve_mb == f.memory.safety_reserve_mb
    &&& v.cpu_offload_gb == (match input.cpu_offload_gb {
        Some(n) => n,
        None => 0,
    })
    &&& v.kv_offload_gb == (match input.kv_offload_gb {
        Some(n) => n,
        None => 0,
    })
}

/// Why a request about a server of vLLM cannot be answered.
pub open spec fn vllm_request_error(input: ContextFitRequest, f: VllmFacts) -> Option<Seq<char>> {
    let model_id = text::trim(input.model_id@);
    if model_id.len() == 0 {
        Some("A vLLM model ID is required."@)
    } else if f.stats is None {
        Some("Could not read model metadata for "@ + model_id)
    } else {
        None
    }
}

/// What is analyzed for a request about a server of vLLM, or why it cannot be answered.
pub fn vllm_request(input: &ContextFitRequest, f: &VllmFacts) -> (r: Result<VllmFitInput, String>)
    ensures
        servers::error_of(r) == vllm_request_error(*input, *f),
        r matches Ok(v) ==> (f.stats matches Some(s) && is_vllm_input(v, *input, *f, s)),
{
    let model_id = text::trimmed(&input.model_id);
    if model_id.unicode_len() == 0 {
        return Err("A vLLM model ID is required.".to_string());
    }
    let s: ServerStats = match f.stats {
        Some(s) => s,
        None => {
            let mut e = "Could not read model metadata for ".to_string();
            e.append(model_id);
            return Err(e);
        },
    };
    let wish: Option<&str> = match &input.quant {
        Some(q) => Some(q.as_str()),
        None => None,
    };
    let quant = inferred_vllm_quant(model_id, wish);
    let requested_context: usize = match input.context_tokens {
        Some(n) => if n > 0 {
            n
        } else {
            s.context
        },
        None => s.context,
    };
    let weight_bytes: Option<u64> = match f.cached_bytes {
        Some(n) => Some(n),
        None => match s.params_m {
            Some(p) => Some(bytes_of_parts(estimate::weight_gb(p, &quant))),
            None => None,
        },
    };
    let weight_source: String = if f.cached_bytes.is_some() {
        "local_hf_cache".to_string()
    } else {
        "parameter_estimate".to_string()
    };
    let asked_dtype: Option<&str> = match &input.kv_cache_dtype {
        Some(d) => Some(d.as_str()),
        None => None,
    };
    let dtype: &str = match state::set_value(asked_dtype) {
        Some(d) => d,
        None => f.default_kv_cache_dtype.as_str(),
    };
    let (vram_total_mb, vram_free_mb): (Option<u64>, Option<u64>) = match &f.gpu {
        Some(g) => (nonzero_mb(g.vram_total_mb), nonzero_mb(g.vram_free_mb)),
        None => (None, None),
    };
    let (ram_total_mb, ram_available_mb): (Option<u64>, Option<u64>) = match f.ram_mb {
        Some((total, available)) => (Some(total), Some(available)),
        None => (None, None),
    };
    let util: u32 = match input.gpu_mem_util {
        Some(u) => u,
        None => f.memory.default_gpu_mem_util,
    };
    let gpu_mem_util: u32 = if util < 1_000 {
        1_000
    } else if util > 9_500 {
        9_500
    } else {
        util
    };
    Ok(
        VllmFitInput {
            model_id: model_id.to_string(),
            requested_context,
            native_context: Some(s.context),
            context_estimated: f.context_estimated,
            weight_bytes,
            weight_source,
            n_layers: s.n_layers,
            n_kv_heads: s.n_kv_heads,
            head_dim: s.head_dim,
            kv_cache_dtype: text::ascii_lowered(dtype),
            vram_total_mb,
            vram_free_mb,
            ram_total_mb,
            ram_available_mb,
            gpu_mem_util,
            vram_overhead_bytes: bytes_of_mib(f.memory.vram_overhead_mb),
            max_context_cap: f.memory.max_context_cap,
            ram_overflow_enabled: f.memory.enable_ram_overflow,
            manual_ram_limit_mb: f.memory.manual_ram_limit_mb,
            safety_reserve_mb: f.memory.safety_reserve_mb,
            cpu_offload_gb: match input.cpu_offload_gb {
                Some(n) => n,
                None => 0,
            },
            kv_offload_gb: match input.kv_offload_gb {
                Some(n) => n,
                None => 0,
            },
        },
    )
}

// ---------------------------------------------------------------------------
// llama.cpp
// ---------------------------------------------------------------------------

/// The path of the model of a request: the one that was given, else the name of the model.
pub open spec fn raw_path_of(input: ContextFitRequest) -> Seq<char> {
    servers::or_text(servers::not_blank(text::opt_text(input.model_path)), input.model_id@)
}

/// The path of the model of a request.
pub fn raw_path<'a>(input: &'a ContextFitRequest) -> (r: &'a str)
    ensures
        r@ == raw_path_of(*input),
{
    if let Some(p) = &input.model_path {
        if text::trimmed(p).unicode_len() > 0 {
            return p.as_str();
        }
    }
    input.model_id.as_str()
}

/// What a request about a server of llama.cpp is answered from.
#[derive(Debug)]
pub struct LlamaFacts {
    /// Where the file lies, where it was found.
    pub path: Option<String>,
    pub is_file: bool,
    /// What the file says of itself, or why that could not be read.
    pub metadata: Result<GgufMetadata, String>,
    pub size_bytes: Option<u64>,
    pub gpu: Option<GpuSnapshot>,
    pub ram_total_mb: u64,
    pub ram_available_mb: u64,
}

/// Why a request about a server of llama.cpp cannot be answered: the first of what stands in
/// the way.
pub open spec fn llama_request_error(input: ContextFitRequest, f: LlamaFacts) -> Option<
    Seq<char>,
> {
    match f.path {
        None => Some("GGUF file not found: "@ + raw_path_of(input)),
        Some(path) => if !f.is_file {
            Some("GGUF file is not accessible from Windows: "@ + path@)
        } else {
            match f.metadata {
                Err(e) => Some("Could not read GGUF metadata: "@ + e@),
                Ok(m) => if state::positive(input.context_tokens) is None && m.context_length is None {
                    Some(
                        "A context length is required because the GGUF has no native context metadata."@,
                    )
                } else {
                    None
                },
            }
        },
    }
}

/// What is analyzed for a request about a server of llama.cpp.
pub open spec fn is_llama_input(
    v: LlamaFitInput,
    input: ContextFitRequest,
    f: LlamaFacts,
    m: GgufMetadata,
) -> bool {
    &&& v.model_id@ == f.path->0@
    &&& v.requested_context == (match state::positive(input.context_tokens) {
        Some(n) => n,
        None => m.context_length->0,
    })
    &&& v.native_context == m.context_length
    &&& v.weight_bytes == f.size_bytes
    &&& v.n_layers == m.block_count
    &&& v.n_kv_heads == (match m.head_count_kv {
        Some(n) => Some(n),
        None => m.head_count,
    })
    &&& v.key_head_dim == m.key_head_dim
    &&& v.value_head_dim == m.value_head_dim
    &&& v.cache_type_k@ == servers::or_text(text::opt_text(input.cache_type_k), "q8_0"@)
    &&& v.cache_type_v@ == servers::or_text(text::opt_text(input.cache_type_v), "q8_0"@)
    &&& v.flash_attn == servers::or_flag(input.flash_attn, true)
    &&& v.n_gpu_layers == input.n_gpu_layers
    &&& v.n_cpu_moe == input.n_cpu_moe
    &&& v.fit == servers::or_flag(input.fit, true)
    &&& v.fit_target_bytes == mib_bytes(
        (match input.fit_target {
            Some(n) => n,
            None => 1_024,
        }) as int,
    )
    &&& v.no_kv_offload == servers::or_flag(input.no_kv_offload, false)
    &&& v.vram_total_mb == (match f.gpu {
        Some(g) => nonzero(Some(g.vram_total_mb)),
        None => None,
    })
    &&& v.vram_free_mb == (match f.gpu {
        Some(g) => nonzero(Some(g.vram_free_mb)),
        None => None,
    })
    &&& v.ram_total_mb == Some(f.ram_total_mb)
    &&& v.ram_available_mb == Some(f.ram_available_mb)
    &&& v.vram_overhead_bytes == mib_bytes(1_024)
}

fn copied_or(o: &Option<String>, d: &str) -> (r: String)
    ensures
        r@ == servers::or_text(text::opt_text(*o), d@),
{
    match o {
        Some(s) => s.clone(),
        None => d.to_string(),
    }
}

/// What is analyzed for a request about a server of llama.cpp, or why it cannot be answered.
pub fn llama_request(input: &ContextFitRequest, f: &LlamaFacts) -> (r: Result<
    LlamaFitInput,
    String,
>)
    ensures
        servers::error_of(r) == llama_request_error(*input, *f),
        r matches Ok(v) ==> (f.metadata matches Ok(m) && f.path is Some && is_llama_input(
            v,
            *input,
            *f,
            m,
        )),
{
    let Some(path) = &f.path else {
        let mut e = "GGUF file not found: ".to_string();
        e.append(raw_path(input));
        return Err(e);
    };
    if !f.is_file {
        let mut e = "GGUF file is not accessible from Windows: ".to_string();
        e.append(path);
        return Err(e);
    }
    let m: GgufMetadata = match &f.metadata {
        Ok(m) => *m,
        Err(why) => {
            let mut e = "Could not read GGUF metadata: ".to_string();
            e.append(why);
            return Err(e);
        },
    };
    let asked: Option<usize> = match input.context_tokens {
        Some(n) => if n > 0 {
            Some(n)
        } else {
            None
        },
        None => None,
    };
    let requested_context: usize = match asked {
        Some(n) => n,
        None => match m.context_length {
            Some(n) => n,
            None => {
                return Err(
                    "A context length is required because the GGUF has no native context metadata.".to_string(),
                );
            },
        },
    };
    let heads: Option<usize> = match m.head_count_kv {
        Some(n) => Some(n),
        None => m.head_count,
    };
    let (vram_total_mb, vram_free_mb): (Option<u64>, Option<u64>) = match &f.gpu {
        Some(g) => (nonzero_mb(g.vram_total_mb), nonzero_mb(g.vram_free_mb)),
        None => (None, None),
    };
    let target: usize = match input.fit_target {
        Some(n) => n,
        None => 1_024,
    };
    Ok(
        LlamaFitInput {
            model_id: path.clone(),
            requested_context,
            native_context: m.context_length,
            weight_bytes: f.size_bytes,
            n_layers: m.block_count,
            n_kv_heads: heads,
            key_head_dim: m.key_head_dim,
            value_head_dim: m.value_head_dim,
            cache_type_k: copied_or(&input.cache_type_k, "q8_0"),
            cache_type_v: copied_or(&input.cache_type_v, "q8_0"),
            flash_attn: match input.flash_attn {
                Some(b) => b,
                None => true,
            },
            n_gpu_layers: input.n_gpu_layers,
            n_cpu_moe: input.n_cpu_moe,
            fit: match input.fit {
                Some(b) => b,
                None => true,
            },
            fit_target_bytes: bytes_of_mib(target as u64),
            no_kv_offload: match input.no_kv_offload {
                Some(b) => b,
                None => false,
            },
            vram_total_mb,
            vram_free_mb,
            ram_total_mb: Some(f.ram_total_mb),
            ram_available_mb: Some(f.ram_available_mb),
            vram_overhead_bytes: bytes_of_mib(1_024),
        },
    )
}

// ---------------------------------------------------------------------------
// Answers
// ---------------------------------------------------------------------------

/// What a request is answered from: that of the backend that it names, or why there is no
/// such backend.
#[derive(Debug)]
pub enum FitFacts {
    Vllm(VllmFacts),
    Llama(LlamaFacts),
    NoBackend(String),
}

/// Why a request cannot be answered.
pub open spec fn request_error(input: ContextFitRequest, f: FitFacts) -> Option<Seq<char>> {
    match f {
        FitFacts::Vllm(f) => vllm_request_error(input, f),
        FitFacts::Llama(f) => llama_request_error(input, f),
        FitFacts::NoBackend(e) => Some(e@),
    }
}

/// The report answers a request about a server of vLLM.
pub open spec fn is_vllm_answer(
    report: ContextFitReport,
    input: ContextFitRequest,
    f: VllmFacts,
) -> bool {
    exists|v: VllmFitInput| #[trigger]
        is_vllm_input(v, input, f, f.stats->0) && report.answers_vllm(v)
}

/// The report answers a request about a server of llama.cpp.
pub open spec fn is_llama_answer(
    report: ContextFitReport,
    input: ContextFitRequest,
    f: LlamaFacts,
) -> bool {
    exists|v: LlamaFitInput| #[trigger]
        is_llama_input(v, input, f, f.metadata->Ok_0) && report.answers_llama(v)
}

/// Whether the context of a request fits, or why that cannot be told.
pub fn analyze_context_fit(input: &ContextFitRequest, f: &FitFacts) -> (r: Result<
    ContextFitReport,
    String,
>)
    ensures
        servers::error_of(r) == request_error(*input, *f),
        r matches Ok(report) ==> match *f {
            FitFacts::Vllm(vf) => is_vllm_answer(report, *input, vf),
            FitFacts::Llama(lf) => is_llama_answer(report, *input, lf),
            FitFacts::NoBackend(_) => false,
        },
{
    match f {
        FitFacts::Vllm(f) => match vllm_request(input, f) {
            Ok(v) => {
                assert(is_vllm_input(v, *input, *f, f.stats->0));
                Ok(context_fit::analyze_vllm_context(&v))
            },
            Err(e) => Err(e),
        },
        FitFacts::Llama(f) => match llama_request(input, f) {
            Ok(v) => {
                assert(is_llama_input(v, *input, *f, f.metadata->Ok_0));
                Ok(context_fit::analyze_llama_context(&v))
            },
            Err(e) => Err(e),
        },
        FitFacts::NoBackend(e) => Err(e.clone()),
    }
}

// ---------------------------------------------------------------------------
// Laws
// ---------------------------------------------------------------------------

/// The quantization is the one that was asked for, whatever its case; without one the name of
/// the model tells it, and a name that tells none is of sixteen bits.
pub proof fn law_quantization_of_a_request(model_id: Seq<char>, asked: Seq<char>)
    ensures
        ({
            let wish = text::ascii_lowercase(text::trim(asked));
            let id = text::ascii_lowercase(model_id);
            &&& wish.len() > 0 && wish != "auto"@ ==> inferred_quant(model_id, Some(asked)) == wish
            &&& wish == "auto"@ || wish.len() == 0 ==> inferred_quant(model_id, Some(asked))
                == inferred_quant(model_id, None)
            &&& text::occurs(id, "gptq"@) ==> inferred_quant(model_id, None) == "gptq"@
            &&& text::occurs(id, "awq"@) && !text::occurs(id, "gptq"@) ==> inferred_quant(
                model_id,
                None,
            ) == "awq"@
            &&& text::occurs(id, "fp8"@) && !text::occurs(id, "gptq"@) && !text::occurs(id, "awq"@)
                ==> inferred_quant(model_id, None) == "fp8"@
            &&& !text::occurs(id, "gptq"@) && !text::occurs(id, "awq"@) && !text::occurs(id, "fp8"@)
                ==> inferred_quant(model_id, None) == "fp16"@
        }),
{
    let auto = "auto"@;
    assert(text::ascii_lowercase(text::trim(auto)) == auto) by {
        reveal_strlit("auto");
        assert(text::trim_start(auto) == auto);
        assert(text::trim_end(auto) == auto);
        assert(text::ascii_lowercase(auto) =~= auto);
    }
}

/// What is analyzed for vLLM is what was asked for: the model, the context unless it is zero or
/// missing, the shares and what is moved to the RAM.
pub proof fn law_vllm_is_asked_what_was_said(
    v: VllmFitInput,
    input: ContextFitRequest,
    f: VllmFacts,
    s: ServerStats,
)
    requires
        is_vllm_input(v, input, f, s),
    ensures
        v.model_id@ == text::trim(input.model_id@),
        input.context_tokens matches Some(n) ==> (n > 0 ==> v.requested_context == n),
        input.context_tokens matches Some(n) ==> (n == 0 ==> v.requested_context == s.context),
        input.context_tokens is None ==> v.requested_context == s.context,
        v.native_context == Some(s.context),
        v.n_layers == s.n_layers && v.n_kv_heads == s.n_kv_heads && v.head_dim == s.head_dim,
        v.context_estimated == f.context_estimated,
        input.cpu_offload_gb matches Some(n) ==> v.cpu_offload_gb == n,
        input.cpu_offload_gb is None ==> v.cpu_offload_gb == 0,
        input.kv_offload_gb matches Some(n) ==> v.kv_offload_gb == n,
        input.kv_offload_gb is None ==> v.kv_offload_gb == 0,
        1_000 <= v.gpu_mem_util <= 9_500,
        input.gpu_mem_util matches Some(u) ==> (1_000 <= u <= 9_500 ==> v.gpu_mem_util == u),
        input.gpu_mem_util matches Some(u) ==> (u > 9_500 ==> v.gpu_mem_util == 9_500),
        input.gpu_mem_util is None && 1_000 <= f.memory.default_gpu_mem_util <= 9_500
            ==> v.gpu_mem_util == f.memory.default_gpu_mem_util,
{
}

/// The weights that are analyzed for vLLM are those in the cache where they lie there, else an
/// estimate from the number of parameters; without either none are known.
pub proof fn law_vllm_weights_come_from_the_cache_first(
    v: VllmFitInput,
    input: ContextFitRequest,
    f: VllmFacts,
    s: ServerStats,
)
    requires
        is_vllm_input(v, input, f, s),
    ensures
        f.cached_bytes is Some ==> v.weight_bytes == f.cached_bytes && v.weight_source@
            == "local_hf_cache"@,
        f.cached_bytes is None ==> v.weight_source@ == "parameter_estimate"@,
        f.cached_bytes is None && s.params_m is None ==> v.weight_bytes is None,
        f.cached_bytes is None && s.params_m is Some ==> v.weight_bytes is Some && {
            let parts = estimate::weights_of(
                s.params_m->0,
                inferred_quant(text::trim(input.model_id@), text::opt_text(input.quant)),
            );
            parts / 256 <= u64::MAX ==> 256 * v.weight_bytes->0 <= parts < 256 * (v.weight_bytes->0
                + 1)
        },
{
    if let Some(p) = s.params_m {
        estimate::lemma_weights_not_negative(
            p,
            inferred_quant(text::trim(input.model_id@), text::opt_text(input.quant)),
        );
    }
}

/// The memory that is analyzed for vLLM is that of the card and of the machine, with the limits
/// of the settings; a card that tells none is taken as unknown.
pub proof fn law_vllm_memory_is_the_machines(
    v: VllmFitInput,
    input: ContextFitRequest,
    f: VllmFacts,
    s: ServerStats,
)
    requires
        is_vllm_input(v, input, f, s),
    ensures
        f.gpu matches Some(g) ==> {
            &&& g.vram_total_mb > 0 ==> v.vram_total_mb == Some(g.vram_total_mb)
            &&& g.vram_total_mb == 0 ==> v.vram_total_mb is None
            &&& g.vram_free_mb > 0 ==> v.vram_free_mb == Some(g.vram_free_mb)
            &&& g.vram_free_mb == 0 ==> v.vram_free_mb is None
        },
        f.gpu is None ==> v.vram_total_mb is None && v.vram_free_mb is None,
        f.ram_mb matches Some((total, available)) ==> v.ram_total_mb == Some(total)
            && v.ram_available_mb == Some(available),
        f.ram_mb is None ==> v.ram_total_mb is None && v.ram_available_mb is None,
        f.memory.vram_overhead_mb <= 0xfff_ffff_ffff ==> v.vram_overhead_bytes
            == f.memory.vram_overhead_mb * 1024 * 1024,
        v.max_context_cap == f.memory.max_context_cap,
        v.ram_overflow_enabled == f.memory.enable_ram_overflow,
        v.manual_ram_limit_mb == f.memory.manual_ram_limit_mb,
        v.safety_reserve_mb == f.memory.safety_reserve_mb,
        input.kv_cache_dtype is None ==> v.kv_cache_dtype@ == text::ascii_lowercase(
            f.default_kv_cache_dtype@,
        ),
        input.kv_cache_dtype matches Some(d) ==> (text::trim(d@).len() > 0 ==> v.kv_cache_dtype@
            == text::ascii_lowercase(text::trim(d@))),
        input.kv_cache_dtype matches Some(d) ==> (text::trim(d@).len() == 0 ==> v.kv_cache_dtype@
            == text::ascii_lowercase(f.default_kv_cache_dtype@)),
{
}

/// What is analyzed for llama.cpp is what was asked for, and what the file says of itself where
/// nothing was.
pub proof fn law_llamacpp_is_asked_what_was_said(
    v: LlamaFitInput,
    input: ContextFitRequest,
    f: LlamaFacts,
    m: GgufMetadata,
)
    requires
        is_llama_input(v, input, f, m),
        f.path is Some,
    ensures
        v.model_id@ == f.path->0@,
        input.context_tokens matches Some(n) ==> (n > 0 ==> v.requested_context == n),
        input.context_tokens is None && m.context_length is Some ==> v.requested_context
            == m.context_length->0,
        v.native_context == m.context_length,
        v.weight_bytes == f.size_bytes,
        v.n_layers == m.block_count,
        m.head_count_kv is Some ==> v.n_kv_heads == m.head_count_kv,
        m.head_count_kv is None ==> v.n_kv_heads == m.head_count,
        v.key_head_dim == m.key_head_dim,
        v.value_head_dim == m.value_head_dim,
        input.cache_type_k matches Some(k) ==> v.cache_type_k@ == k@,
        input.cache_type_k is None ==> v.cache_type_k@ == "q8_0"@,
        input.cache_type_v matches Some(k) ==> v.cache_type_v@ == k@,
        input.cache_type_v is None ==> v.cache_type_v@ == "q8_0"@,
        v.n_gpu_layers == input.n_gpu_layers,
        v.n_cpu_moe == input.n_cpu_moe,
        input.flash_attn matches Some(b) ==> v.flash_attn == b,
        input.flash_attn is None ==> v.flash_attn,
        input.fit matches Some(b) ==> v.fit == b,
        input.fit is None ==> v.fit,
        input.no_kv_offload matches Some(b) ==> v.no_kv_offload == b,
        input.no_kv_offload is None ==> !v.no_kv_offload,
        input.fit_target matches Some(n) ==> (n <= 0xfff_ffff ==> v.fit_target_bytes == n * 1024
            * 1024),
        input.fit_target is None ==> v.fit_target_bytes == 1024 * 1024 * 1024,
        v.vram_overhead_bytes == 1024 * 1024 * 1024,
        f.gpu matches Some(g) ==> {
            &&& g.vram_total_mb > 0 ==> v.vram_total_mb == Some(g.vram_total_mb)
            &&& g.vram_free_mb > 0 ==> v.vram_free_mb == Some(g.vram_free_mb)
        },
        f.gpu is None ==> v.vram_total_mb is None && v.vram_free_mb is None,
        v.ram_total_mb == Some(f.ram_total_mb),
        v.ram_available_mb == Some(f.ram_available_mb),
{
}

/// A request without a model, one whose model is unknown, and one whose file cannot be found or
/// read is refused, and the message names what was asked for.
pub proof fn law_refused_requests(input: ContextFitRequest, v: VllmFacts, l: LlamaFacts)
    ensures
        text::trim(input.model_id@).len() == 0 ==> vllm_request_error(input, v) is Some,
        v.stats is None ==> vllm_request_error(input, v) is Some,
        v.stats is None && text::trim(input.model_id@).len() > 0 ==> text::trim(
            input.model_id@,
        ).is_suffix_of(vllm_request_error(input, v)->0),
        text::trim(input.model_id@).len() > 0 && v.stats is Some ==> vllm_request_error(input, v) is None,
        l.path is None ==> llama_request_error(input, l) is Some && raw_path_of(input).is_suffix_of(
            llama_request_error(input, l)->0,
        ),
        l.path is Some && !l.is_file ==> llama_request_error(input, l) is Some
            && l.path->0@.is_suffix_of(llama_request_error(input, l)->0),
        l.path is Some && l.is_file && l.metadata is Err ==> llama_request_error(input, l) is Some
            && l.metadata->Err_0@.is_suffix_of(llama_request_error(input, l)->0),
        l.path is Some && l.is_file && l.metadata is Ok ==> (llama_request_error(input, l) is None
            <==> l.metadata->Ok_0.context_length is Some || (input.context_tokens is Some
            && input.context_tokens->0 > 0)),
        input.model_path is None ==> raw_path_of(input) == input.model_id@,
        input.model_path is Some && text::trim(input.model_path->0@).len() > 0 ==> raw_path_of(input)
            == input.model_path->0@,
{
    lemma_said_last("Could not read model metadata for "@, text::trim(input.model_id@));
    lemma_said_last("GGUF file not found: "@, raw_path_of(input));
    if let Some(path) = l.path {
        lemma_said_last("GGUF file is not accessible from Windows: "@, path@);
    }
    if let Err(e) = l.metadata {
        lemma_said_last("Could not read GGUF metadata: "@, e@);
    }
}

proof fn lemma_said_last(front: Seq<char>, what: Seq<char>)
    ensures
        what.is_suffix_of(front + what),
{
    let s = front + what;
    assert(s.subrange(s.len() - what.len(), s.len() as int) =~= what);
}

/// A report answers the request that was made: it is about its model, its context and the
/// machine.
pub proof fn law_answers_are_of_the_request(
    report: ContextFitReport,
    input: ContextFitRequest,
    f: VllmFacts,
    l: LlamaFacts,
)
    ensures
        is_vllm_answer(report, input, f) ==> {
            &&& report.backend@ == "vllm"@
            &&& report.model_id@ == text::trim(input.model_id@)
            &&& input.context_tokens matches Some(n) ==> (n > 0 ==> report.requested_context == n)
            &&& f.cached_bytes is Some ==> report.weight_bytes == f.cached_bytes
        },
        is_llama_answer(report, input, l) && l.path is Some ==> {
            &&& report.backend@ == "llamacpp"@
            &&& report.model_id@ == l.path->0@
            &&& input.context_tokens matches Some(n) ==> (n > 0 ==> report.requested_context == n)
            &&& report.weight_bytes == l.size_bytes
            &&& report.ram_total_mb == Some(l.ram_total_mb)
        },
{
}

} // verus!
