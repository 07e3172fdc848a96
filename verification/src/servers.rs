//! Creating and changing servers.
use vstd::prelude::*;
use crate::context_fit;
use crate::estimate;
use crate::numeral;
use crate::state;
use crate::state::{LlamaCppChannel, ServerBackend, ServerDef};
use crate::text;
use crate::text_map;
use crate::text_map::TextMap;

verus! {

// ---------------------------------------------------------------------------
// Input
// ---------------------------------------------------------------------------

/// A field that may be left out or cleared; both leave it without a value.
#[derive(Debug)]
pub struct OptionalField<T>(pub Option<T>);

impl<T> Default for OptionalField<T> {
    fn default() -> (r: Self)
        ensures
            r.0 is None,
    {
        OptionalField(None)
    }
}

impl<T> OptionalField<T> {
    /// The value of the field.
    pub fn into_inner(self) -> (r: Option<T>)
        ensures
            r == self.0,
    {
        self.0
    }
}

/// What is said about a server that is to be created or changed.
#[derive(Debug)]
pub struct ServerInput {
    pub id: Option<String>,
    pub backend: Option<String>,
    pub name: Option<String>,
    pub model_id: Option<String>,
    pub task: Option<String>,
    pub port: Option<u16>,
    /// In ten-thousandths of the memory.
    pub gpu_mem_util: Option<u32>,
    pub max_model_len: OptionalField<usize>,
    pub quant: Option<String>,
    pub served_model_name: OptionalField<String>,
    pub kv_cache_dtype: OptionalField<String>,
    pub enforce_eager: Option<bool>,
    pub swap_space_gb: OptionalField<usize>,
    pub cpu_offload_gb: OptionalField<usize>,
    pub model_path: OptionalField<String>,
    pub mmproj_path: OptionalField<String>,
    pub ctx_size: OptionalField<usize>,
    pub n_gpu_layers: OptionalField<usize>,
    pub n_cpu_moe: OptionalField<usize>,
    pub fit: Option<bool>,
    pub fit_target: OptionalField<usize>,
    pub device: OptionalField<String>,
    pub api_key: OptionalField<String>,
    pub clear_api_key: Option<bool>,
    pub log_verbosity: OptionalField<u8>,
    pub flash_attn: Option<bool>,
    pub cache_type_k: Option<String>,
    pub cache_type_v: Option<String>,
    pub threads: OptionalField<usize>,
    pub batch_size: OptionalField<usize>,
    pub ubatch_size: OptionalField<usize>,
    pub parallel: Option<usize>,
    pub jinja: Option<bool>,
    pub no_kv_offload: Option<bool>,
    pub metrics: Option<bool>,
    pub extra_args: OptionalField<Vec<String>>,
    pub env: OptionalField<TextMap>,
    pub restart: Option<bool>,
    pub llamacpp_channel: Option<LlamaCppChannel>,
}

/// The text, unless it is blank.
pub open spec fn not_blank(o: Option<Seq<char>>) -> Option<Seq<char>> {
    match o {
        Some(s) => if text::trim(s).len() > 0 {
            Some(s)
        } else {
            None
        },
        None => None,
    }
}

fn nonblank(o: Option<String>) -> (r: Option<String>)
    ensures
        text::opt_text(r) == not_blank(text::opt_text(o)),
{
    match o {
        Some(s) => if text::trimmed(&s).unicode_len() > 0 {
            Some(s)
        } else {
            None
        },
        None => None,
    }
}

/// The type of the KV cache that was asked for, in small letters: none where it is left to
/// the server.
pub open spec fn cache_dtype(o: Option<Seq<char>>) -> Option<Seq<char>> {
    match o {
        Some(s) => {
            let t = text::ascii_lowercase(text::trim(s));
            if t.len() > 0 && t != "auto"@ {
                Some(t)
            } else {
                None
            }
        },
        None => None,
    }
}

fn clean_dtype(o: Option<String>) -> (r: Option<String>)
    ensures
        text::opt_text(r) == cache_dtype(text::opt_text(o)),
{
    match o {
        Some(s) => {
            let t = text::ascii_lowered(text::trimmed(&s));
            if t.as_str().unicode_len() > 0 && !text::same(&t, "auto") {
                Some(t)
            } else {
                None
            }
        },
        None => None,
    }
}

/// The value, or `d` where there is none.
pub open spec fn or_flag(o: Option<bool>, d: bool) -> bool {
    match o {
        Some(b) => b,
        None => d,
    }
}

fn flag_or(o: Option<bool>, d: bool) -> (r: bool)
    ensures
        r == or_flag(o, d),
{
    match o {
        Some(b) => b,
        None => d,
    }
}

/// The text, or `d` where there is none.
pub open spec fn or_text(o: Option<Seq<char>>, d: Seq<char>) -> Seq<char> {
    match o {
        Some(s) => s,
        None => d,
    }
}

fn text_or(o: Option<String>, d: &str) -> (r: String)
    ensures
        r@ == or_text(text::opt_text(o), d@),
{
    match o {
        Some(s) => s,
        None => d.to_string(),
    }
}

// ---------------------------------------------------------------------------
// Checks
// ---------------------------------------------------------------------------

/// A server may have the name: one to a hundred and twenty-eight bytes, without control
/// characters.
pub open spec fn good_server_id(id: Seq<char>) -> bool {
    let t = text::trim(id);
    0 < t.len() && vstd::utf8::encode_utf8(t).len() <= 128 && forall|i: int|
        0 <= i < t.len() ==> !text::is_control_char(#[trigger] t[i])
}

/// Refuses a name that a server may not have.
pub fn validate_server_id(id: &str) -> (r: Result<(), String>)
    ensures
        match r {
            Ok(()) => good_server_id(id@),
            Err(e) => !good_server_id(id@) && e@
                == "server id must be 1-128 printable characters"@,
        },
{
    let t = text::trimmed(id);
    let cs = text::chars_of(t);
    let mut good = cs.len() > 0 && t.as_bytes().len() <= 128;
    for i in 0..cs.len()
        invariant
            cs@ == t@,
            good == (t@.len() > 0 && vstd::utf8::encode_utf8(t@).len() <= 128 && forall|j: int|
                0 <= j < i ==> !text::is_control_char(#[trigger] t@[j])),
    {
        if text::is_control(cs[i]) {
            good = false;
        }
    }
    if good {
        Ok(())
    } else {
        Err("server id must be 1-128 printable characters".to_string())
    }
}

pub const UTIL_MESSAGE: &'static str =
    "vLLM GPU memory utilization must be between 0.10 and 0.95";

/// The share of the card's memory is one that vLLM may take.
pub open spec fn good_util(util: u32) -> bool {
    1_000 <= util <= 9_500
}

/// Why the environment of a server is refused at its first bad entry from number `i` on: the
/// name is none (as `errors` tells of each), or the value is still the one that stands for a
/// secret.
pub open spec fn env_error_from(
    pairs: Seq<(Seq<char>, Seq<char>)>,
    errors: Seq<Option<Seq<char>>>,
    placeholder: Seq<char>,
    message: Seq<char>,
    i: int,
) -> Option<Seq<char>>
    decreases pairs.len() - i,
{
    if i < 0 || i >= pairs.len() {
        None
    } else if i < errors.len() && errors[i] is Some {
        errors[i]
    } else if pairs[i].1 == placeholder {
        Some(message)
    } else {
        env_error_from(pairs, errors, placeholder, message, i + 1)
    }
}

/// The errors of a row.
pub open spec fn error_texts(errors: Seq<Option<String>>) -> Seq<Option<Seq<char>>> {
    Seq::new(errors.len(), |i: int| text::opt_text(errors[i]))
}

fn check_env(
    env: &TextMap,
    errors: &Vec<Option<String>>,
    placeholder: &str,
    message: &str,
) -> (r: Option<String>)
    ensures
        text::opt_text(r) == env_error_from(
            env.listing(),
            error_texts(errors@),
            placeholder@,
            message@,
            0,
        ),
{
    let pairs = env.entries();
    let ghost all = env.listing();
    let ghost errs = error_texts(errors@);
    for i in 0..pairs.len()
        invariant
            all == env.listing(),
            all == text_map::pair_texts(pairs@),
            errs == error_texts(errors@),
            env_error_from(all, errs, placeholder@, message@, 0) == env_error_from(
                all,
                errs,
                placeholder@,
                message@,
                i as int,
            ),
    {
        if i < errors.len() {
            assert(errs[i as int] == text::opt_text(errors@[i as int]));
            if let Some(e) = &errors[i] {
                let out = Some(e.clone());
                assert(text::opt_text(out) == errs[i as int]);
                return out;
            }
        }
        if text::same(&pairs[i].1, placeholder) {
            let out = Some(message.to_string());
            assert(text::opt_text(out) == Some(message@));
            return out;
        }
    }
    None
}

// ---------------------------------------------------------------------------
// Creating
// ---------------------------------------------------------------------------

/// What is known of a model when its server is created.
#[derive(Clone, Copy, Debug, PartialEq, Eq, Structural)]
pub struct ServerStats {
    pub context: usize,
    pub n_layers: Option<usize>,
    pub n_kv_heads: Option<usize>,
    pub head_dim: Option<usize>,
    /// Millions of parameters.
    pub params_m: Option<u64>,
    /// Billions of parameters, as the bits of a double-precision number.
    pub params_b: Option<u64>,
}

/// What a server is created against.
#[derive(Debug)]
pub struct CreateContext {
    /// What runs a server of the kind that was asked for, or why there is none.
    pub backend_kind: Result<ServerBackend, String>,
    pub existing_ports: Vec<u16>,
    /// Whether the port that was asked for can be taken.
    pub port_is_free: bool,
    /// A port that can be taken, or why there is none.
    pub free_port: Result<u16, String>,
    pub default_gpu_mem_util: u32,
    pub default_quant: String,
    /// In parts.
    pub vram_overhead: i128,
    pub max_context_cap: Option<usize>,
    /// Whether the name of the model is an absolute path.
    pub path_is_absolute: bool,
    pub stats: Option<ServerStats>,
    pub vram_total_mb: Option<u64>,
    pub now_ms: u128,
    /// For each variable of the environment, why its name is refused.
    pub env_errors: Vec<Option<String>>,
    /// What stands for a secret.
    pub placeholder: String,
}

pub const CREATE_PLACEHOLDER_MESSAGE: &'static str =
    "secret placeholders are only valid when updating an existing server";

pub const UPDATE_PLACEHOLDER_MESSAGE: &'static str =
    "secret placeholders could not be restored for this server";

/// The name of the model is that of a file.
pub open spec fn is_local_model(model_id: Seq<char>, absolute: bool) -> bool {
    "/"@.is_prefix_of(model_id) || "\\"@.is_prefix_of(model_id) || ".gguf"@.is_suffix_of(
        text::ascii_lowercase(model_id),
    ) || absolute
}

/// The hub is asked about the model.
pub open spec fn asks_hub(kind: ServerBackend, model_id: Seq<char>, absolute: bool) -> bool {
    kind == ServerBackend::Vllm && !is_local_model(model_id, absolute)
}

/// Whether the hub is asked about the model of a server.
pub fn wants_stats(kind: ServerBackend, model_id: &str, path_is_absolute: bool) -> (r: bool)
    ensures
        r == asks_hub(kind, model_id@, path_is_absolute),
{
    kind == ServerBackend::Vllm && !(text::starts_with(model_id, "/") || text::starts_with(
        model_id,
        "\\",
    ) || text::ends_with(&text::ascii_lowered(model_id), ".gguf") || path_is_absolute)
}

/// The context that fits on the card, where all that it takes to tell is known.
pub open spec fn fitting_context(
    stats: Option<ServerStats>,
    vram_total_mb: Option<u64>,
    util: u32,
    quant: Seq<char>,
    overhead: i128,
) -> Option<int> {
    match (stats, vram_total_mb) {
        (Some(s), Some(vram)) => match (s.n_layers, s.n_kv_heads, s.head_dim, s.params_m) {
            (Some(l), Some(k), Some(h), Some(params)) => if vram > 0 {
                let kv = estimate::token_bytes(l, k, h) * context_fit::PARTS_PER_BYTE;
                let room = context_fit::share_of(vram, util as int) - estimate::weights_of(
                    params,
                    quant,
                ) - overhead;
                Some(
                    if room <= 0 || kv <= 0 {
                        0
                    } else {
                        context_fit::at_least(context_fit::context_for(room, kv), 512)
                    },
                )
            } else {
                None
            },
            _ => None,
        },
        _ => None,
    }
}

/// The context length of a new server: the one that was asked for; else, for a model of the
/// hub, the one that fits, at most what the model and the settings allow.
pub open spec fn created_context(
    kind: ServerBackend,
    requested: Option<usize>,
    ask: bool,
    fit: Option<int>,
    declared: Option<usize>,
    cap: Option<usize>,
) -> Option<int> {
    if kind == ServerBackend::Llamacpp {
        None
    } else if state::positive(requested) is Some {
        Some(requested->0 as int)
    } else if !ask {
        None
    } else {
        let limit = match declared {
            Some(c) => c,
            None => 4096,
        };
        let limit = match cap {
            Some(c) => context_fit::at_most(c as int, limit as int),
            None => limit as int,
        };
        Some(
            match fit {
                Some(n) => context_fit::at_most(n, limit),
                None => limit,
            },
        )
    }
}

fn fit_context(
    stats: &Option<ServerStats>,
    vram_total_mb: Option<u64>,
    util: u32,
    quant: &str,
    overhead: i128,
) -> (r: Option<usize>)
    requires
        estimate::amount_ok(overhead),
    ensures
        match r {
            Some(n) => fitting_context(*stats, vram_total_mb, util, quant@, overhead) == Some(
                n as int,
            ),
            None => fitting_context(*stats, vram_total_mb, util, quant@, overhead) is None,
        },
{
    let Some(s) = stats else {
        return None;
    };
    let Some(vram) = vram_total_mb else {
        return None;
    };
    match (s.n_layers, s.n_kv_heads, s.head_dim, s.params_m) {
        (Some(l), Some(k), Some(h), Some(params)) => {
            if vram == 0 {
                return None;
            }
            let bytes: u128 = estimate::kv_bytes_per_token(l, k, h);
            let kv: i128 = bytes as i128 * context_fit::PARTS_PER_BYTE;
            Some(estimate::context_fit(vram, util, params, quant, kv, overhead))
        },
        _ => None,
    }
}

/// What a result of creating or changing a server says: an error's text, or nothing.
pub open spec fn error_of<T>(r: Result<T, String>) -> Option<Seq<char>> {
    match r {
        Ok(_) => None,
        Err(e) => Some(e@),
    }
}

/// The port of a new server, or why it has none.
pub open spec fn created_port(asked: Option<u16>, c: CreateContext) -> Result<u16, Seq<char>> {
    match asked {
        Some(p) => if c.existing_ports@.contains(p) {
            Err("port "@ + numeral::decimal(p as nat) + " already used by another server"@)
        } else if !c.port_is_free {
            Err("port "@ + numeral::decimal(p as nat) + " is in use outside the app"@)
        } else {
            Ok(p)
        },
        None => match c.free_port {
            Ok(p) => if c.existing_ports@.contains(p) {
                Err("port "@ + numeral::decimal(p as nat) + " already used by another server"@)
            } else {
                Ok(p)
            },
            Err(e) => Err(e@),
        },
    }
}

/// The ids of the servers, in order.
pub open spec fn all_ids(servers: Seq<ServerDef>) -> Seq<Seq<char>> {
    Seq::new(servers.len(), |i: int| servers[i].id@)
}

/// The ports of the servers, in order.
pub open spec fn all_ports(servers: Seq<ServerDef>) -> Seq<u16> {
    Seq::new(servers.len(), |i: int| servers[i].port)
}

/// The ports of the servers, in order.
pub fn ports_of(servers: &Vec<ServerDef>) -> (r: Vec<u16>)
    ensures
        r@ == all_ports(servers@),
{
    let mut out: Vec<u16> = Vec::new();
    for i in 0..servers.len()
        invariant
            out@ == all_ports(servers@).take(i as int),
    {
        out.push(servers[i].port);
        assert(out@ =~= all_ports(servers@).take(i + 1));
    }
    assert(all_ports(servers@).take(servers@.len() as int) =~= all_ports(servers@));
    out
}

/// The servers that are stored once one was created or could not be: the new one comes behind
/// those that there were, unless one of them has its port. Where there is an error, nothing
/// is stored.
pub open spec fn with_created(
    servers: Seq<ServerDef>,
    made: Result<ServerDef, String>,
) -> Result<Seq<ServerDef>, Seq<char>> {
    match made {
        Err(e) => Err(e@),
        Ok(d) => if all_ports(servers).contains(d.port) {
            Err("port "@ + numeral::decimal(d.port as nat) + " already used by another server"@)
        } else {
            Ok(servers.push(d))
        },
    }
}

/// A list of servers or an error, as what they say.
pub open spec fn told_servers(r: Result<Vec<ServerDef>, String>) -> Result<
    Seq<ServerDef>,
    Seq<char>,
> {
    match r {
        Ok(v) => Ok(v@),
        Err(e) => Err(e@),
    }
}

/// Stores a server that was created, or tells why nothing is stored.
pub fn store_created(servers: Vec<ServerDef>, made: Result<ServerDef, String>) -> (r: Result<
    Vec<ServerDef>,
    String,
>)
    ensures
        told_servers(r) == with_created(servers@, made),
{
    match made {
        Err(e) => Err(e),
        Ok(d) => {
            if has_port(&ports_of(&servers), d.port) {
                return Err(port_message(d.port, " already used by another server"));
            }
            let mut out = servers;
            out.push(d);
            Ok(out)
        },
    }
}

fn has_port(ports: &Vec<u16>, p: u16) -> (r: bool)
    ensures
        r == ports@.contains(p),
{
    for i in 0..ports.len()
        invariant
            forall|j: int| 0 <= j < i ==> ports@[j] != p,
    {
        if ports[i] == p {
            assert(ports@[i as int] == p);
            return true;
        }
    }
    false
}

fn port_message(p: u16, rest: &str) -> (r: String)
    ensures
        r@ == "port "@ + numeral::decimal(p as nat) + rest@,
{
    let mut out = "port ".to_string();
    out.append(&numeral::number_text(p as u64));
    out.append(rest);
    out
}

/// The environment that was asked for.
pub open spec fn asked_env(env: OptionalField<TextMap>) -> Seq<(Seq<char>, Seq<char>)> {
    match env.0 {
        Some(m) => m.listing(),
        None => Seq::empty(),
    }
}

/// Why a server cannot be created: the first of what stands in the way.
pub open spec fn create_error(input: ServerInput, c: CreateContext) -> Option<Seq<char>> {
    if not_blank(text::opt_text(input.name)) is None {
        Some("name is required"@)
    } else if not_blank(text::opt_text(input.model_id)) is None {
        Some("model_id is required"@)
    } else {
        match c.backend_kind {
            Err(e) => Some(e@),
            Ok(kind) => match created_port(input.port, c) {
                Err(e) => Some(e),
                Ok(_) => if kind == ServerBackend::Vllm && !good_util(created_util(input, c)) {
                    Some(UTIL_MESSAGE@)
                } else {
                    env_error_from(
                        asked_env(input.env),
                        error_texts(c.env_errors@),
                        c.placeholder@,
                        CREATE_PLACEHOLDER_MESSAGE@,
                        0,
                    )
                },
            },
        }
    }
}

/// The share of the card's memory of a new server.
pub open spec fn created_util(input: ServerInput, c: CreateContext) -> u32 {
    match input.gpu_mem_util {
        Some(u) => u,
        None => c.default_gpu_mem_util,
    }
}

/// The quantization of a new server.
pub open spec fn created_quant(
    input: ServerInput,
    c: CreateContext,
    kind: ServerBackend,
) -> Seq<char> {
    match kind {
        ServerBackend::Vllm => text::ascii_lowercase(
            or_text(text::opt_text(input.quant), c.default_quant@),
        ),
        ServerBackend::Llamacpp => or_text(text::opt_text(input.quant), "GGUF"@),
    }
}

/// The task of a new server.
pub open spec fn created_task(input: ServerInput, kind: ServerBackend) -> Seq<char> {
    if kind == ServerBackend::Vllm && text::opt_text(input.task) == Some("embed"@) {
        "embed"@
    } else {
        "instruct"@
    }
}

/// The key that is kept: none where only what stands for it was given.
pub open spec fn kept_key(key: Option<Seq<char>>, placeholder: Seq<char>) -> Option<Seq<char>> {
    match not_blank(key) {
        Some(k) => if k == placeholder {
            None
        } else {
            Some(k)
        },
        None => None,
    }
}

/// What tells a new server from others is as it was asked for.
pub open spec fn is_created_identity(
    d: ServerDef,
    input: ServerInput,
    c: CreateContext,
    kind: ServerBackend,
) -> bool {
    let ask = asks_hub(kind, input.model_id->0@, c.path_is_absolute);
    let stats = if ask {
        c.stats
    } else {
        None
    };
    let fit = fitting_context(
        stats,
        c.vram_total_mb,
        created_util(input, c),
        created_quant(input, c, kind),
        c.vram_overhead,
    );
    &&& d.backend@ == or_text(text::opt_text(input.backend), "vllm"@)
    &&& d.id@ == "srv-"@ + numeral::hexadecimal(c.now_ms as nat)
    &&& d.name@ == text::trim(input.name->0@)
    &&& d.model_id@ == input.model_id->0@
    &&& d.task@ == created_task(input, kind)
    &&& created_port(input.port, c) == Ok::<u16, Seq<char>>(d.port)
    &&& d.gpu_mem_util == created_util(input, c)
    &&& d.quant@ == created_quant(input, c, kind)
    &&& match created_context(
        kind,
        input.max_model_len.0,
        ask,
        fit,
        match stats {
            Some(s) => Some(s.context),
            None => None,
        },
        c.max_context_cap,
    ) {
        Some(n) => d.max_model_len matches Some(m) && m == n,
        None => d.max_model_len is None,
    }
    &&& d.params_b == (match stats {
        Some(s) => s.params_b,
        None => None,
    })
    &&& !d.was_running
    &&& text::opt_text(d.api_key) == kept_key(text::opt_text(input.api_key.0), c.placeholder@)
    &&& d.llamacpp_channel == (match input.llamacpp_channel {
        Some(ch) => ch,
        None => LlamaCppChannel::Upstream,
    })
}

/// The options of a new server are those that were asked for; what was left out is switched
/// on or left to the server.
pub open spec fn is_created_options(d: ServerDef, input: ServerInput) -> bool {
    &&& text::opt_text(d.served_model_name) == not_blank(
        text::opt_text(input.served_model_name.0),
    )
    &&& text::opt_text(d.kv_cache_dtype) == cache_dtype(text::opt_text(input.kv_cache_dtype.0))
    &&& d.enforce_eager == or_flag(input.enforce_eager, true)
    &&& d.swap_space_gb == state::positive(input.swap_space_gb.0)
    &&& d.cpu_offload_gb == state::positive(input.cpu_offload_gb.0)
    &&& text::opt_text(d.model_path) == not_blank(text::opt_text(input.model_path.0))
    &&& text::opt_text(d.mmproj_path) == not_blank(text::opt_text(input.mmproj_path.0))
    &&& d.ctx_size == state::positive(input.ctx_size.0)
    &&& d.n_gpu_layers == input.n_gpu_layers.0
    &&& d.n_cpu_moe == state::positive(input.n_cpu_moe.0)
    &&& d.fit == or_flag(input.fit, true)
    &&& d.fit_target == state::positive(input.fit_target.0)
    &&& text::opt_text(d.device) == not_blank(text::opt_text(input.device.0))
    &&& d.log_verbosity == input.log_verbosity.0
    &&& d.flash_attn == or_flag(input.flash_attn, true)
    &&& d.cache_type_k@ == or_text(text::opt_text(input.cache_type_k), "q8_0"@)
    &&& d.cache_type_v@ == or_text(text::opt_text(input.cache_type_v), "q8_0"@)
    &&& d.threads == state::positive(input.threads.0)
    &&& d.batch_size == state::positive(input.batch_size.0)
    &&& d.ubatch_size == state::positive(input.ubatch_size.0)
    &&& d.parallel == (match input.parallel {
        Some(n) => n,
        None => 0,
    })
    &&& d.jinja == or_flag(input.jinja, true)
    &&& d.no_kv_offload == or_flag(input.no_kv_offload, false)
    &&& d.metrics == or_flag(input.metrics, true)
    &&& d.extra_args@ == (match input.extra_args.0 {
        Some(v) => v@,
        None => Seq::empty(),
    })
    &&& d.env.listing() == asked_env(input.env)
}

fn context_of_new(
    kind: ServerBackend,
    requested: Option<usize>,
    ask: bool,
    fit: Option<usize>,
    declared: Option<usize>,
    cap: Option<usize>,
) -> (r: Option<usize>)
    ensures
        match created_context(
            kind,
            requested,
            ask,
            match fit {
                Some(n) => Some(n as int),
                None => None,
            },
            declared,
            cap,
        ) {
            Some(n) => r matches Some(m) && m == n,
            None => r is None,
        },
{
    if kind == ServerBackend::Llamacpp {
        return None;
    }
    if let Some(n) = state::positive_size(requested) {
        return Some(n);
    }
    if !ask {
        return None;
    }
    let declared: usize = match declared {
        Some(c) => c,
        None => 4096,
    };
    let limit: usize = match cap {
        Some(c) => if c < declared {
            c
        } else {
            declared
        },
        None => declared,
    };
    Some(
        match fit {
            Some(n) => if n < limit {
                n
            } else {
                limit
            },
            None => limit,
        },
    )
}

/// Creates a server, or tells why it cannot be.
pub fn servers_create(input: ServerInput, c: CreateContext) -> (r: Result<ServerDef, String>)
    requires
        estimate::amount_ok(c.vram_overhead),
    ensures
        error_of(r) == create_error(input, c),
        r matches Ok(d) ==> (c.backend_kind matches Ok(kind) && is_created_identity(
            d,
            input,
            c,
            kind,
        )) && is_created_options(d, input),
        r matches Ok(d) ==> {
            &&& input.name matches Some(s) && d.name@ == text::trim(s@)
            &&& input.model_id matches Some(s) && d.model_id@ == s@
            &&& input.backend matches Some(s) ==> d.backend@ == s@
            &&& input.port matches Some(p) ==> d.port == p
        },
{
    let ghost asked = input;
    let ghost given = c;
    let Some(name) = nonblank(input.name) else {
        return Err("name is required".to_string());
    };
    let Some(model_id) = nonblank(input.model_id) else {
        return Err("model_id is required".to_string());
    };
    let kind: ServerBackend = match c.backend_kind {
        Ok(k) => k,
        Err(e) => {
            return Err(e);
        },
    };
    let port: u16 = match input.port {
        Some(p) => {
            if has_port(&c.existing_ports, p) {
                return Err(port_message(p, " already used by another server"));
            }
            if !c.port_is_free {
                return Err(port_message(p, " is in use outside the app"));
            }
            p
        },
        None => match c.free_port {
            Ok(p) => {
                if has_port(&c.existing_ports, p) {
                    return Err(port_message(p, " already used by another server"));
                }
                p
            },
            Err(e) => {
                return Err(e);
            },
        },
    };
    let gpu_mem_util: u32 = match input.gpu_mem_util {
        Some(u) => u,
        None => c.default_gpu_mem_util,
    };
    if kind == ServerBackend::Vllm && !(1_000 <= gpu_mem_util && gpu_mem_util <= 9_500) {
        return Err(UTIL_MESSAGE.to_string());
    }
    let env: TextMap = match input.env.0 {
        Some(m) => m,
        None => TextMap::new(),
    };
    if let Some(e) = check_env(&env, &c.env_errors, &c.placeholder, CREATE_PLACEHOLDER_MESSAGE) {
        return Err(e);
    }
    let quant: String = match kind {
        ServerBackend::Vllm => text::ascii_lowered(&text_or(input.quant, &c.default_quant)),
        ServerBackend::Llamacpp => text_or(input.quant, "GGUF"),
    };
    let embeds = match &input.task {
        Some(t) => text::same(t, "embed"),
        None => false,
    };
    let task: String = if kind == ServerBackend::Vllm && embeds {
        "embed".to_string()
    } else {
        "instruct".to_string()
    };
    let ask = wants_stats(kind, &model_id, c.path_is_absolute);
    let stats: Option<ServerStats> = if ask {
        c.stats
    } else {
        None
    };
    let fit = fit_context(&stats, c.vram_total_mb, gpu_mem_util, &quant, c.vram_overhead);
    let declared: Option<usize> = match stats {
        Some(s) => Some(s.context),
        None => None,
    };
    let max_model_len = context_of_new(
        kind,
        input.max_model_len.0,
        ask,
        fit,
        declared,
        c.max_context_cap,
    );
    let params_b: Option<u64> = match stats {
        Some(s) => s.params_b,
        None => None,
    };
    let mut id = "srv-".to_string();
    id.append(&numeral::hex_text(c.now_ms));
    let api_key: Option<String> = match nonblank(input.api_key.0) {
        Some(k) => if text::same(&k, &c.placeholder) {
            None
        } else {
            Some(k)
        },
        None => None,
    };
    let extra_args: Vec<String> = match input.extra_args.0 {
        Some(v) => v,
        None => Vec::new(),
    };
    let d = ServerDef {
        backend: text_or(input.backend, "vllm"),
        id,
        name: text::trimmed(&name).to_string(),
        model_id,
        task,
        port,
        gpu_mem_util,
        max_model_len,
        quant,
        served_model_name: nonblank(input.served_model_name.0),
        kv_cache_dtype: clean_dtype(input.kv_cache_dtype.0),
        llamacpp_channel: match input.llamacpp_channel {
            Some(ch) => ch,
            None => LlamaCppChannel::Upstream,
        },
        enforce_eager: flag_or(input.enforce_eager, true),
        params_b,
        swap_space_gb: state::positive_size(input.swap_space_gb.0),
        cpu_offload_gb: state::positive_size(input.cpu_offload_gb.0),
        was_running: false,
        model_path: nonblank(input.model_path.0),
        mmproj_path: nonblank(input.mmproj_path.0),
        ctx_size: state::positive_size(input.ctx_size.0),
        n_gpu_layers: input.n_gpu_layers.0,
        n_cpu_moe: state::positive_size(input.n_cpu_moe.0),
        fit: flag_or(input.fit, true),
        fit_target: state::positive_size(input.fit_target.0),
        device: nonblank(input.device.0),
        api_key,
        log_verbosity: input.log_verbosity.0,
        flash_attn: flag_or(input.flash_attn, true),
        cache_type_k: text_or(input.cache_type_k, "q8_0"),
        cache_type_v: text_or(input.cache_type_v, "q8_0"),
        threads: state::positive_size(input.threads.0),
        batch_size: state::positive_size(input.batch_size.0),
        ubatch_size: state::positive_size(input.ubatch_size.0),
        parallel: match input.parallel {
            Some(n) => n,
            None => 0,
        },
        jinja: flag_or(input.jinja, true),
        no_kv_offload: flag_or(input.no_kv_offload, false),
        metrics: flag_or(input.metrics, true),
        extra_args,
        env,
    };
    assert(is_created_identity(d, asked, given, kind));
    assert(is_created_options(d, asked));
    Ok(d)
}

// ---------------------------------------------------------------------------
// Changing
// ---------------------------------------------------------------------------

/// The place of the first server from number `i` on with the id.
pub open spec fn place_from(servers: Seq<ServerDef>, id: Seq<char>, i: int) -> Option<int>
    decreases servers.len() - i,
{
    if i < 0 || i >= servers.len() {
        None
    } else if servers[i].id@ == id {
        Some(i)
    } else {
        place_from(servers, id, i + 1)
    }
}

/// The place of a server.
pub fn find_server(servers: &Vec<ServerDef>, id: &str) -> (r: Option<usize>)
    ensures
        match r {
            Some(k) => k < servers@.len() && place_from(servers@, id@, 0) == Some(k as int)
                && servers@[k as int].id@ == id@,
            None => place_from(servers@, id@, 0) is None,
        },
{
    for i in 0..servers.len()
        invariant
            place_from(servers@, id@, 0) == place_from(servers@, id@, i as int),
    {
        if text::same(&servers[i].id, id) {
            return Some(i);
        }
    }
    None
}

/// The place of the server that is to be changed, or why there is none.
pub open spec fn update_target(id: Option<Seq<char>>, servers: Seq<ServerDef>) -> Result<
    int,
    Seq<char>,
> {
    match id {
        None => Err("id is required"@),
        Some(id) => if !good_server_id(id) {
            Err("server id must be 1-128 printable characters"@)
        } else {
            match place_from(servers, id, 0) {
                Some(k) => Ok(k),
                None => Err("Server not found"@),
            }
        },
    }
}

/// The place of the server that is to be changed, or why there is none.
pub fn find_update_target(id: &Option<String>, servers: &Vec<ServerDef>) -> (r: Result<
    usize,
    String,
>)
    ensures
        match r {
            Ok(k) => k < servers@.len() && update_target(text::opt_text(*id), servers@) == Ok::<
                int,
                Seq<char>,
            >(k as int),
            Err(e) => update_target(text::opt_text(*id), servers@) == Err::<int, Seq<char>>(e@),
        },
{
    let Some(id) = id else {
        return Err("id is required".to_string());
    };
    if let Err(e) = validate_server_id(id) {
        return Err(e);
    }
    match find_server(servers, id) {
        Some(k) => Ok(k),
        None => Err("Server not found".to_string()),
    }
}

/// The ports of the servers other than that with the id, in order.
pub open spec fn other_ports_of(servers: Seq<ServerDef>, id: Seq<char>) -> Seq<u16>
    decreases servers.len(),
{
    if servers.len() == 0 {
        Seq::empty()
    } else if servers.last().id@ == id {
        other_ports_of(servers.drop_last(), id)
    } else {
        other_ports_of(servers.drop_last(), id).push(servers.last().port)
    }
}

/// The ports of the servers other than that with the id, in order.
pub fn other_ports(servers: &Vec<ServerDef>, id: &str) -> (r: Vec<u16>)
    ensures
        r@ == other_ports_of(servers@, id@),
{
    let mut out: Vec<u16> = Vec::new();
    assert(servers@.take(0) =~= Seq::empty());
    for i in 0..servers.len()
        invariant
            out@ == other_ports_of(servers@.take(i as int), id@),
    {
        assert(servers@.take(i + 1).drop_last() =~= servers@.take(i as int));
        assert(servers@.take(i + 1).last() == servers@[i as int]);
        if !text::same(&servers[i].id, id) {
            out.push(servers[i].port);
        }
    }
    assert(servers@.take(servers@.len() as int) =~= servers@);
    out
}

/// What a server is changed against.
#[derive(Debug)]
pub struct UpdateContext {
    /// What runs a server of the kind that it is to have, or why there is none.
    pub backend_kind: Result<ServerBackend, String>,
    /// The ports of the other servers.
    pub other_ports: Vec<u16>,
    /// Whether the port that was asked for can be taken.
    pub port_is_free: bool,
    /// For each variable of the environment, why its name is refused.
    pub env_errors: Vec<Option<String>>,
    /// What stands for a secret.
    pub placeholder: String,
}

/// The environment of a server that is changed: the one that was asked for, with the secrets
/// that were not shown put back; else the one that it has.
pub open spec fn updated_env(
    d: ServerDef,
    input: ServerInput,
    placeholder: Seq<char>,
) -> Seq<(Seq<char>, Seq<char>)> {
    match input.env.0 {
        Some(m) => text_map::restored_pairs(m.listing(), d.env@, placeholder),
        None => d.env.listing(),
    }
}

/// The share of the card's memory of a server that is changed.
pub open spec fn updated_util(d: ServerDef, input: ServerInput) -> u32 {
    match input.gpu_mem_util {
        Some(u) => u,
        None => d.gpu_mem_util,
    }
}

/// Why a server cannot be changed: the first of what stands in the way.
pub open spec fn update_error(d: ServerDef, input: ServerInput, c: UpdateContext) -> Option<
    Seq<char>,
> {
    match c.backend_kind {
        Err(e) => Some(e@),
        Ok(kind) => if input.port matches Some(p) && c.other_ports@.contains(p) {
            Some(
                "port "@ + numeral::decimal(input.port->0 as nat)
                    + " already used by another server"@,
            )
        } else if input.port matches Some(p) && p != d.port && !c.port_is_free {
            Some("port "@ + numeral::decimal(input.port->0 as nat) + " is in use"@)
        } else if kind == ServerBackend::Vllm && !good_util(updated_util(d, input)) {
            Some(UTIL_MESSAGE@)
        } else {
            env_error_from(
                updated_env(d, input, c.placeholder@),
                error_texts(c.env_errors@),
                c.placeholder@,
                UPDATE_PLACEHOLDER_MESSAGE@,
                0,
            )
        },
    }
}

/// The key of a server that is changed: it is cleared where that was asked for, kept where
/// none or only what stands for it was given, and else the one that was given.
pub open spec fn updated_key(
    old_key: Option<Seq<char>>,
    clear: Option<bool>,
    given: Option<Seq<char>>,
    placeholder: Seq<char>,
) -> Option<Seq<char>> {
    if or_flag(clear, false) {
        None
    } else {
        match given {
            None => old_key,
            Some(k) => if k == placeholder {
                old_key
            } else if text::trim(k).len() > 0 {
                Some(text::trim(k))
            } else {
                None
            },
        }
    }
}

/// What tells the changed server `n` from others follows from what it was, `d`, and what was
/// asked for.
pub open spec fn is_updated_identity(
    n: ServerDef,
    d: ServerDef,
    input: ServerInput,
    c: UpdateContext,
    kind: ServerBackend,
) -> bool {
    let same_model = n.model_id@ == d.model_id@;
    &&& n.backend@ == or_text(text::opt_text(input.backend), d.backend@)
    &&& n.id@ == d.id@
    &&& n.name@ == or_text(text::opt_text(input.name), d.name@)
    &&& n.model_id@ == or_text(text::opt_text(input.model_id), d.model_id@)
    &&& n.task@ == or_text(text::opt_text(input.task), d.task@)
    &&& n.port == (match input.port {
        Some(p) => p,
        None => d.port,
    })
    &&& n.gpu_mem_util == updated_util(d, input)
    &&& n.quant@ == (match input.quant {
        Some(q) => if kind == ServerBackend::Vllm {
            text::ascii_lowercase(q@)
        } else {
            q@
        },
        None => d.quant@,
    })
    &&& n.max_model_len == (if same_model {
        state::positive(input.max_model_len.0)
    } else {
        None
    })
    &&& n.params_b == (if same_model {
        d.params_b
    } else {
        None
    })
    &&& n.was_running == d.was_running
    &&& text::opt_text(n.api_key) == updated_key(
        text::opt_text(d.api_key),
        input.clear_api_key,
        text::opt_text(input.api_key.0),
        c.placeholder@,
    )
    &&& n.llamacpp_channel == (match input.llamacpp_channel {
        Some(ch) => ch,
        None => d.llamacpp_channel,
    })
}

/// The options of the changed server `n`: switches that were left out stay as they were in
/// `d`, other options are those that were asked for.
pub open spec fn is_updated_options(
    n: ServerDef,
    d: ServerDef,
    input: ServerInput,
    placeholder: Seq<char>,
) -> bool {
    &&& text::opt_text(n.served_model_name) == not_blank(
        text::opt_text(input.served_model_name.0),
    )
    &&& text::opt_text(n.kv_cache_dtype) == cache_dtype(text::opt_text(input.kv_cache_dtype.0))
    &&& n.enforce_eager == or_flag(input.enforce_eager, d.enforce_eager)
    &&& n.swap_space_gb == state::positive(input.swap_space_gb.0)
    &&& n.cpu_offload_gb == state::positive(input.cpu_offload_gb.0)
    &&& text::opt_text(n.model_path) == not_blank(text::opt_text(input.model_path.0))
    &&& text::opt_text(n.mmproj_path) == not_blank(text::opt_text(input.mmproj_path.0))
    &&& n.ctx_size == state::positive(input.ctx_size.0)
    &&& n.n_gpu_layers == input.n_gpu_layers.0
    &&& n.n_cpu_moe == state::positive(input.n_cpu_moe.0)
    &&& n.fit == or_flag(input.fit, d.fit)
    &&& n.fit_target == state::positive(input.fit_target.0)
    &&& text::opt_text(n.device) == not_blank(text::opt_text(input.device.0))
    &&& n.log_verbosity == input.log_verbosity.0
    &&& n.flash_attn == or_flag(input.flash_attn, d.flash_attn)
    &&& n.cache_type_k@ == or_text(text::opt_text(input.cache_type_k), "q8_0"@)
    &&& n.cache_type_v@ == or_text(text::opt_text(input.cache_type_v), "q8_0"@)
    &&& n.threads == state::positive(input.threads.0)
    &&& n.batch_size == state::positive(input.batch_size.0)
    &&& n.ubatch_size == state::positive(input.ubatch_size.0)
    &&& n.parallel == (match input.parallel {
        Some(k) => k,
        None => 0,
    })
    &&& n.jinja == or_flag(input.jinja, d.jinja)
    &&& n.no_kv_offload == or_flag(input.no_kv_offload, d.no_kv_offload)
    &&& n.metrics == or_flag(input.metrics, true)
    &&& n.extra_args@ == (match input.extra_args.0 {
        Some(v) => v@,
        None => Seq::empty(),
    })
    &&& n.env.listing() == updated_env(d, input, placeholder)
}

/// Changes a server, or tells why it cannot be changed.
pub fn servers_update(d: ServerDef, input: ServerInput, c: UpdateContext) -> (r: Result<
    ServerDef,
    String,
>)
    ensures
        error_of(r) == update_error(d, input, c),
        r matches Ok(n) ==> (c.backend_kind matches Ok(kind) && is_updated_identity(
            n,
            d,
            input,
            c,
            kind,
        )) && is_updated_options(n, d, input, c.placeholder@),
        r matches Ok(n) ==> {
            &&& input.name matches Some(s) ==> n.name@ == s@
            &&& input.model_id matches Some(s) ==> n.model_id@ == s@
            &&& input.task matches Some(s) ==> n.task@ == s@
            &&& input.backend matches Some(s) ==> n.backend@ == s@
            &&& input.port matches Some(p) ==> n.port == p
            &&& input.name is None ==> n.name@ == d.name@
            &&& input.model_id is None ==> n.model_id@ == d.model_id@
            &&& input.task is None ==> n.task@ == d.task@
            &&& input.backend is None ==> n.backend@ == d.backend@
            &&& input.port is None ==> n.port == d.port
            &&& n.id@ == d.id@
        },
{
    let ghost asked = input;
    let ghost was = d;
    let ghost given = c;
    let kind: ServerBackend = match c.backend_kind {
        Ok(k) => k,
        Err(e) => {
            return Err(e);
        },
    };
    let port: u16 = match input.port {
        Some(p) => {
            if has_port(&c.other_ports, p) {
                return Err(port_message(p, " already used by another server"));
            }
            if p != d.port && !c.port_is_free {
                return Err(port_message(p, " is in use"));
            }
            p
        },
        None => d.port,
    };
    let gpu_mem_util: u32 = match input.gpu_mem_util {
        Some(u) => u,
        None => d.gpu_mem_util,
    };
    if kind == ServerBackend::Vllm && !(1_000 <= gpu_mem_util && gpu_mem_util <= 9_500) {
        return Err(UTIL_MESSAGE.to_string());
    }
    let env: TextMap = match input.env.0 {
        Some(m) => m.restored(&d.env, &c.placeholder),
        None => d.env,
    };
    if let Some(e) = check_env(&env, &c.env_errors, &c.placeholder, UPDATE_PLACEHOLDER_MESSAGE) {
        return Err(e);
    }
    let quant: String = match input.quant {
        Some(q) => if kind == ServerBackend::Vllm {
            text::ascii_lowered(&q)
        } else {
            q
        },
        None => d.quant,
    };
    let api_key: Option<String> = if flag_or(input.clear_api_key, false) {
        None
    } else {
        match input.api_key.0 {
            None => d.api_key,
            Some(k) => if text::same(&k, &c.placeholder) {
                d.api_key
            } else {
                let t = text::trimmed(&k);
                if t.unicode_len() > 0 {
                    Some(t.to_string())
                } else {
                    None
                }
            },
        }
    };
    let model_id: String = text_or(input.model_id, &d.model_id);
    let same_model = text::same(&model_id, &d.model_id);
    let max_model_len: Option<usize> = if same_model {
        state::positive_size(input.max_model_len.0)
    } else {
        None
    };
    let params_b: Option<u64> = if same_model {
        d.params_b
    } else {
        None
    };
    let extra_args: Vec<String> = match input.extra_args.0 {
        Some(v) => v,
        None => Vec::new(),
    };
    let n = ServerDef {
        backend: text_or(input.backend, &d.backend),
        id: d.id,
        name: text_or(input.name, &d.name),
        model_id,
        task: text_or(input.task, &d.task),
        port,
        gpu_mem_util,
        max_model_len,
        quant,
        served_model_name: nonblank(input.served_model_name.0),
        kv_cache_dtype: clean_dtype(input.kv_cache_dtype.0),
        llamacpp_channel: match input.llamacpp_channel {
            Some(ch) => ch,
            None => d.llamacpp_channel,
        },
        enforce_eager: flag_or(input.enforce_eager, d.enforce_eager),
        params_b,
        swap_space_gb: state::positive_size(input.swap_space_gb.0),
        cpu_offload_gb: state::positive_size(input.cpu_offload_gb.0),
        was_running: d.was_running,
        model_path: nonblank(input.model_path.0),
        mmproj_path: nonblank(input.mmproj_path.0),
        ctx_size: state::positive_size(input.ctx_size.0),
        n_gpu_layers: input.n_gpu_layers.0,
        n_cpu_moe: state::positive_size(input.n_cpu_moe.0),
        fit: flag_or(input.fit, d.fit),
        fit_target: state::positive_size(input.fit_target.0),
        device: nonblank(input.device.0),
        api_key,
        log_verbosity: input.log_verbosity.0,
        flash_attn: flag_or(input.flash_attn, d.flash_attn),
        cache_type_k: text_or(input.cache_type_k, "q8_0"),
        cache_type_v: text_or(input.cache_type_v, "q8_0"),
        threads: state::positive_size(input.threads.0),
        batch_size: state::positive_size(input.batch_size.0),
        ubatch_size: state::positive_size(input.ubatch_size.0),
        parallel: match input.parallel {
            Some(k) => k,
            None => 0,
        },
        jinja: flag_or(input.jinja, d.jinja),
        no_kv_offload: flag_or(input.no_kv_offload, d.no_kv_offload),
        metrics: flag_or(input.metrics, true),
        extra_args,
        env,
    };
    assert(is_updated_identity(n, was, asked, given, kind));
    assert(is_updated_options(n, was, asked, given.placeholder@));
    Ok(n)
}

/// Stores a server that was changed in the place of what it was: the others stay as they are,
/// and the ids keep their order.
pub fn store_updated(servers: Vec<ServerDef>, at: usize, d: ServerDef) -> (r: Vec<ServerDef>)
    requires
        at < servers@.len(),
        servers@[at as int].id@ == d.id@,
    ensures
        r@ == servers@.update(at as int, d),
        all_ids(r@) == all_ids(servers@),
{
    let ghost before = servers@;
    let mut out = servers;
    out.set(at, d);
    assert(all_ids(out@) =~= all_ids(before));
    out
}

/// Whether a server is restarted when it was changed: where that was asked for, or where it
/// is active and the change made a difference.
pub fn restarts_after_update(restart: Option<bool>, live_active: bool, changed: bool) -> (r: bool)
    ensures
        r == (or_flag(restart, false) || (live_active && changed)),
{
    flag_or(restart, false) || (live_active && changed)
}

/// A new environment for a server.
#[derive(Debug)]
pub struct ServerEnvInput {
    pub id: String,
    pub env: TextMap,
    pub restart: Option<bool>,
}

/// Changes the environment of a server, or tells why it cannot be changed; all else is as it
/// was.
pub fn servers_update_env(
    d: ServerDef,
    env: TextMap,
    env_errors: &Vec<Option<String>>,
    placeholder: &str,
) -> (r: Result<ServerDef, String>)
    ensures
        ({
            let pairs = text_map::restored_pairs(env.listing(), d.env@, placeholder@);
            &&& error_of(r) == env_error_from(
                pairs,
                error_texts(env_errors@),
                placeholder@,
                UPDATE_PLACEHOLDER_MESSAGE@,
                0,
            )
            &&& r matches Ok(n) ==> n.env.listing() == pairs && n == (ServerDef { env: n.env, ..d })
        }),
{
    let merged = env.restored(&d.env, placeholder);
    if let Some(e) = check_env(&merged, env_errors, placeholder, UPDATE_PLACEHOLDER_MESSAGE) {
        return Err(e);
    }
    let mut n = d;
    n.env = merged;
    Ok(n)
}

/// The servers other than those with the id, in order.
pub open spec fn servers_without(servers: Seq<ServerDef>, id: Seq<char>) -> Seq<ServerDef>
    decreases servers.len(),
{
    if servers.len() == 0 {
        servers
    } else if servers.last().id@ == id {
        servers_without(servers.drop_last(), id)
    } else {
        servers_without(servers.drop_last(), id).push(servers.last())
    }
}

/// Takes a server out.
pub fn servers_delete(servers: Vec<ServerDef>, id: &str) -> (r: Vec<ServerDef>)
    ensures
        r@ == servers_without(servers@, id@),
{
    let ghost all = servers@;
    let mut rest = servers;
    let mut out: Vec<ServerDef> = Vec::new();
    let ghost mut n: int = 0;
    assert(all.take(0) =~= Seq::empty());
    assert(all.skip(0) =~= all);
    while rest.len() > 0
        invariant
            0 <= n <= all.len(),
            rest@ == all.skip(n),
            out@ == servers_without(all.take(n), id@),
        decreases rest@.len(),
    {
        let s = rest.remove(0);
        proof {
            assert(all.skip(n)[0] == all[n]);
            assert(all.skip(n).remove(0) =~= all.skip(n + 1));
            assert(all.take(n + 1).drop_last() =~= all.take(n));
            assert(all.take(n + 1).last() == all[n]);
            n = n + 1;
        }
        if !text::same(&s.id, id) {
            out.push(s);
        }
    }
    assert(all.take(n) =~= all);
    out
}

// ---------------------------------------------------------------------------
// Showing servers
// ---------------------------------------------------------------------------

/// A server as it is shown, with its figures.
#[derive(Debug)]
pub struct ServerListRow<M> {
    pub def: ServerDef,
    pub status: String,
    pub error: Option<String>,
    pub metrics: Option<M>,
}

/// The row shows the server.
pub open spec fn is_row<M>(
    row: ServerListRow<M>,
    server: (ServerDef, String, Option<String>, Option<M>),
) -> bool {
    row.def == server.0 && row.status == server.1 && row.error == server.2 && row.metrics
        == server.3
}

/// The servers as they are shown: each is given with the label of its status, its error and
/// its figures.
pub fn servers_list<M>(servers: Vec<(ServerDef, String, Option<String>, Option<M>)>) -> (r: Vec<
    ServerListRow<M>,
>)
    ensures
        r@.len() == servers@.len(),
        forall|i: int| 0 <= i < r@.len() ==> is_row(#[trigger] r@[i], servers@[i]),
{
    let ghost all = servers@;
    let mut rest = servers;
    let mut out: Vec<ServerListRow<M>> = Vec::new();
    let ghost mut n: int = 0;
    assert(all.skip(0) =~= all);
    while rest.len() > 0
        invariant
            0 <= n <= all.len(),
            rest@ == all.skip(n),
            out@.len() == n,
            forall|i: int| 0 <= i < n ==> is_row(#[trigger] out@[i], all[i]),
        decreases rest@.len(),
    {
        let (def, status, error, metrics) = rest.remove(0);
        proof {
            assert(all.skip(n)[0] == all[n]);
            assert(all.skip(n).remove(0) =~= all.skip(n + 1));
            n = n + 1;
        }
        out.push(ServerListRow { def, status, error, metrics });
    }
    out
}

// ---------------------------------------------------------------------------
// Laws
// ---------------------------------------------------------------------------

/// No secret is lost when a server is saved as it was shown: where what stands for a secret
/// comes back for a variable or for the key, the one that was there stays.
pub proof fn law_hidden_secrets_are_kept(
    n: ServerDef,
    d: ServerDef,
    input: ServerInput,
    c: UpdateContext,
    kind: ServerBackend,
    i: int,
)
    requires
        is_updated_identity(n, d, input, c, kind),
        is_updated_options(n, d, input, c.placeholder@),
        !or_flag(input.clear_api_key, false),
        input.api_key.0 matches Some(k) && k@ == c.placeholder@,
        input.env.0 matches Some(m) && 0 <= i < m.listing().len() && m.listing()[i].1
            == c.placeholder@ && d.env@.contains_key(m.listing()[i].0),
    ensures
        text::opt_text(n.api_key) == text::opt_text(d.api_key),
        n.env.listing()[i] == (
            input.env.0->0.listing()[i].0,
            d.env@[input.env.0->0.listing()[i].0],
        ),
{
}

/// A server that was created or changed never has what stands for a secret among the values
/// of its environment.
pub proof fn law_no_placeholder_is_stored(
    pairs: Seq<(Seq<char>, Seq<char>)>,
    errors: Seq<Option<Seq<char>>>,
    placeholder: Seq<char>,
    message: Seq<char>,
    i: int,
    k: int,
)
    requires
        0 <= i <= k < pairs.len(),
        env_error_from(pairs, errors, placeholder, message, i) is None,
    ensures
        pairs[k].1 != placeholder,
    decreases k - i,
{
    if i < k {
        law_no_placeholder_is_stored(pairs, errors, placeholder, message, i + 1, k);
    }
}

/// No two servers have the same port.
pub open spec fn ports_differ(servers: Seq<ServerDef>) -> bool {
    forall|i: int, j: int|
        0 <= i < j < servers.len() ==> (#[trigger] servers[i]).port != (#[trigger] servers[j]).port
}

/// A server that was created is the last of those that are stored, the others stay as they
/// are, and no two have the same port where no two had.
pub proof fn law_created_server_is_added(servers: Seq<ServerDef>, made: Result<ServerDef, String>)
    requires
        ports_differ(servers),
    ensures
        with_created(servers, made) matches Ok(n) ==> made matches Ok(d) && n == servers.push(d)
            && ports_differ(n),
        made is Err ==> with_created(servers, made) is Err,
        made matches Ok(d) && !all_ports(servers).contains(d.port) ==> with_created(
            servers,
            made,
        ) is Ok,
{
    if let Ok(d) = made {
        if !all_ports(servers).contains(d.port) {
            let n = servers.push(d);
            assert forall|i: int, j: int| 0 <= i < j < n.len() implies (#[trigger] n[i]).port != (
            #[trigger] n[j]).port by {
                assert(all_ports(servers)[i] == servers[i].port);
            }
        }
    }
}

/// A new server gets a port that none of the others has.
pub proof fn law_new_port_is_free(asked: Option<u16>, c: CreateContext, servers: Seq<ServerDef>)
    requires
        c.existing_ports@ == all_ports(servers),
    ensures
        created_port(asked, c) matches Ok(p) ==> forall|i: int|
            0 <= i < servers.len() ==> (#[trigger] servers[i]).port != p,
{
    if let Ok(p) = created_port(asked, c) {
        assert forall|i: int| 0 <= i < servers.len() implies (#[trigger] servers[i]).port != p by {
            assert(all_ports(servers)[i] == servers[i].port);
        }
    }
}

proof fn lemma_place(servers: Seq<ServerDef>, id: Seq<char>, i: int)
    requires
        0 <= i,
    ensures
        place_from(servers, id, i) matches Some(k) ==> i <= k < servers.len() && servers[k].id@
            == id,
    decreases servers.len() - i,
{
    if i < servers.len() && servers[i].id@ != id {
        lemma_place(servers, id, i + 1);
    }
}

proof fn lemma_other_port(servers: Seq<ServerDef>, id: Seq<char>, i: int)
    requires
        0 <= i < servers.len(),
        servers[i].id@ != id,
    ensures
        other_ports_of(servers, id).contains(servers[i].port),
    decreases servers.len(),
{
    let front = other_ports_of(servers.drop_last(), id);
    let last = servers.last();
    if i == servers.len() - 1 {
        assert(front.push(last.port)[front.len() as int] == last.port);
    } else {
        lemma_other_port(servers.drop_last(), id, i);
        let k = choose|k: int| 0 <= k < front.len() && front[k] == servers[i].port;
        assert(front.push(last.port)[k] == servers[i].port);
    }
}

/// A server that was changed is stored in its own place: the ids keep their order, every
/// server with another id stays as it is, and the port that was asked for is none of theirs.
pub proof fn law_changing_keeps_the_others(
    servers: Seq<ServerDef>,
    id: Seq<char>,
    k: int,
    input: ServerInput,
    c: UpdateContext,
    n: ServerDef,
)
    requires
        update_target(Some(id), servers) == Ok::<int, Seq<char>>(k),
        c.other_ports@ == other_ports_of(servers, id),
        update_error(servers[k], input, c) is None,
        n.id@ == servers[k].id@,
    ensures
        0 <= k < servers.len(),
        servers[k].id@ == id,
        all_ids(servers.update(k, n)) == all_ids(servers),
        forall|i: int|
            0 <= i < servers.len() && (#[trigger] servers[i]).id@ != id ==> servers.update(k, n)[i]
                == servers[i] && input.port != Some(servers[i].port),
{
    lemma_place(servers, id, 0);
    assert(all_ids(servers.update(k, n)) =~= all_ids(servers));
    assert forall|i: int|
        0 <= i < servers.len() && (#[trigger] servers[i]).id@ != id implies servers.update(k, n)[i]
        == servers[i] && input.port != Some(servers[i].port) by {
        lemma_other_port(servers, id, i);
    }
}

/// A server that was deleted is gone, and no other is.
pub proof fn law_deleting_takes_out_one_id(servers: Seq<ServerDef>, id: Seq<char>, s: ServerDef)
    ensures
        servers_without(servers, id).contains(s) <==> servers.contains(s) && s.id@ != id,
    decreases servers.len(),
{
    if servers.len() > 0 {
        let f = servers.drop_last();
        let x = servers.last();
        law_deleting_takes_out_one_id(f, id, s);
        let r = servers_without(f, id);
        assert(servers =~= f.push(x));
        assert(f.push(x).contains(s) <==> f.contains(s) || s == x) by {
            if f.contains(s) {
                let k = choose|k: int| 0 <= k < f.len() && f[k] == s;
                assert(f.push(x)[k] == s);
            }
            assert(f.push(x)[f.len() as int] == x);
        }
        assert(r.push(x).contains(s) <==> r.contains(s) || s == x) by {
            if r.contains(s) {
                let k = choose|k: int| 0 <= k < r.len() && r[k] == s;
                assert(r.push(x)[k] == s);
            }
            assert(r.push(x)[r.len() as int] == x);
        }
    }
}

/// What is said of a server that is changed is what it has afterwards: each of its name, its
/// model, its task, its backend, its port, its share of the memory, its quantization and its
/// channel is the one that was said, or stays where nothing was. It keeps its id.
pub proof fn law_changed_server_has_what_was_said(
    n: ServerDef,
    d: ServerDef,
    input: ServerInput,
    c: UpdateContext,
    kind: ServerBackend,
)
    requires
        is_updated_identity(n, d, input, c, kind),
    ensures
        input.name matches Some(s) ==> n.name@ == s@,
        input.name is None ==> n.name@ == d.name@,
        input.model_id matches Some(s) ==> n.model_id@ == s@,
        input.model_id is None ==> n.model_id@ == d.model_id@,
        input.task matches Some(s) ==> n.task@ == s@,
        input.task is None ==> n.task@ == d.task@,
        input.backend matches Some(s) ==> n.backend@ == s@,
        input.backend is None ==> n.backend@ == d.backend@,
        input.port matches Some(p) ==> n.port == p,
        input.port is None ==> n.port == d.port,
        input.gpu_mem_util matches Some(u) ==> n.gpu_mem_util == u,
        input.gpu_mem_util is None ==> n.gpu_mem_util == d.gpu_mem_util,
        input.quant matches Some(q) ==> n.quant@ == (if kind == ServerBackend::Vllm {
            text::ascii_lowercase(q@)
        } else {
            q@
        }),
        input.quant is None ==> n.quant@ == d.quant@,
        input.llamacpp_channel matches Some(ch) ==> n.llamacpp_channel == ch,
        input.llamacpp_channel is None ==> n.llamacpp_channel == d.llamacpp_channel,
        n.id@ == d.id@,
        n.was_running == d.was_running,
{
}

/// A server that gets another model forgets what it knew of the one that it had: the number of
/// parameters and the length of the context. One that keeps its model keeps the number, and has
/// the length that was asked for.
pub proof fn law_another_model_is_another_start(
    n: ServerDef,
    d: ServerDef,
    input: ServerInput,
    c: UpdateContext,
    kind: ServerBackend,
)
    requires
        is_updated_identity(n, d, input, c, kind),
    ensures
        input.model_id matches Some(m) ==> (m@ != d.model_id@ ==> n.params_b is None
            && n.max_model_len is None),
        input.model_id is None || input.model_id->0@ == d.model_id@ ==> n.params_b == d.params_b && (
        input.max_model_len.0 matches Some(k) ==> (k > 0 ==> n.max_model_len == Some(k))) && (
        input.max_model_len.0 is None ==> n.max_model_len is None),
{
}

/// The options of a server that is changed are those that were said; a switch of which nothing
/// was said stays, and any other option of which nothing was said is left to the server.
pub proof fn law_changed_options_are_what_was_said(
    n: ServerDef,
    d: ServerDef,
    input: ServerInput,
    placeholder: Seq<char>,
)
    requires
        is_updated_options(n, d, input, placeholder),
    ensures
        input.served_model_name.0 matches Some(s) ==> (text::trim(s@).len() > 0 ==> (n.served_model_name matches Some(t)
            && t@ == s@)) && (text::trim(s@).len() == 0 ==> n.served_model_name is None),
        input.served_model_name.0 is None ==> n.served_model_name is None,
        input.model_path.0 matches Some(s) ==> (text::trim(s@).len() > 0 ==> (n.model_path matches Some(t)
            && t@ == s@)) && (text::trim(s@).len() == 0 ==> n.model_path is None),
        input.model_path.0 is None ==> n.model_path is None,
        input.mmproj_path.0 matches Some(s) ==> (text::trim(s@).len() > 0 ==> (n.mmproj_path matches Some(t)
            && t@ == s@)) && (text::trim(s@).len() == 0 ==> n.mmproj_path is None),
        input.mmproj_path.0 is None ==> n.mmproj_path is None,
        input.device.0 matches Some(s) ==> (text::trim(s@).len() > 0 ==> (n.device matches Some(t)
            && t@ == s@)) && (text::trim(s@).len() == 0 ==> n.device is None),
        input.device.0 is None ==> n.device is None,
        input.swap_space_gb.0 matches Some(k) ==> n.swap_space_gb == (if k > 0 {
            Some(k)
        } else {
            None
        }),
        input.swap_space_gb.0 is None ==> n.swap_space_gb is None,
        input.cpu_offload_gb.0 matches Some(k) ==> n.cpu_offload_gb == (if k > 0 {
            Some(k)
        } else {
            None
        }),
        input.cpu_offload_gb.0 is None ==> n.cpu_offload_gb is None,
        input.ctx_size.0 matches Some(k) ==> n.ctx_size == (if k > 0 {
            Some(k)
        } else {
            None
        }),
        input.ctx_size.0 is None ==> n.ctx_size is None,
        input.n_cpu_moe.0 matches Some(k) ==> n.n_cpu_moe == (if k > 0 {
            Some(k)
        } else {
            None
        }),
        input.n_cpu_moe.0 is None ==> n.n_cpu_moe is None,
        input.fit_target.0 matches Some(k) ==> n.fit_target == (if k > 0 {
            Some(k)
        } else {
            None
        }),
        input.fit_target.0 is None ==> n.fit_target is None,
        input.threads.0 matches Some(k) ==> n.threads == (if k > 0 {
            Some(k)
        } else {
            None
        }),
        input.threads.0 is None ==> n.threads is None,
        input.batch_size.0 matches Some(k) ==> n.batch_size == (if k > 0 {
            Some(k)
        } else {
            None
        }),
        input.batch_size.0 is None ==> n.batch_size is None,
        input.ubatch_size.0 matches Some(k) ==> n.ubatch_size == (if k > 0 {
            Some(k)
        } else {
            None
        }),
        input.ubatch_size.0 is None ==> n.ubatch_size is None,
        n.n_gpu_layers == input.n_gpu_layers.0,
        n.log_verbosity == input.log_verbosity.0,
        input.kv_cache_dtype.0 matches Some(s) ==> (n.kv_cache_dtype matches Some(t) ==> t@
            == text::ascii_lowercase(text::trim(s@)) && t@ != "auto"@ && t@.len() > 0) && (
        n.kv_cache_dtype is None ==> text::trim(s@).len() == 0 || text::ascii_lowercase(
            text::trim(s@),
        ) == "auto"@),
        input.kv_cache_dtype.0 is None ==> n.kv_cache_dtype is None,
        input.cache_type_k matches Some(s) ==> n.cache_type_k@ == s@,
        input.cache_type_k is None ==> n.cache_type_k@ == "q8_0"@,
        input.cache_type_v matches Some(s) ==> n.cache_type_v@ == s@,
        input.cache_type_v is None ==> n.cache_type_v@ == "q8_0"@,
        input.parallel matches Some(k) ==> n.parallel == k,
        input.parallel is None ==> n.parallel == 0,
        input.extra_args.0 matches Some(v) ==> n.extra_args@ == v@,
        input.extra_args.0 is None ==> n.extra_args@.len() == 0,
        input.enforce_eager matches Some(b) ==> n.enforce_eager == b,
        input.enforce_eager is None ==> n.enforce_eager == d.enforce_eager,
        input.fit matches Some(b) ==> n.fit == b,
        input.fit is None ==> n.fit == d.fit,
        input.flash_attn matches Some(b) ==> n.flash_attn == b,
        input.flash_attn is None ==> n.flash_attn == d.flash_attn,
        input.jinja matches Some(b) ==> n.jinja == b,
        input.jinja is None ==> n.jinja == d.jinja,
        input.no_kv_offload matches Some(b) ==> n.no_kv_offload == b,
        input.no_kv_offload is None ==> n.no_kv_offload == d.no_kv_offload,
        input.metrics matches Some(b) ==> n.metrics == b,
        input.metrics is None ==> n.metrics,
        input.env.0 is None ==> n.env.listing() == d.env.listing(),
{
}

/// The options of a new server are those that were said, and any option of which nothing was
/// said is left to the server; of its switches all are on but the one that keeps the KV cache
/// off the card.
pub proof fn law_new_options_are_what_was_said(n: ServerDef, input: ServerInput)
    requires
        is_created_options(n, input),
    ensures
        input.served_model_name.0 matches Some(s) ==> (text::trim(s@).len() > 0 ==> (n.served_model_name matches Some(t)
            && t@ == s@)) && (text::trim(s@).len() == 0 ==> n.served_model_name is None),
        input.served_model_name.0 is None ==> n.served_model_name is None,
        input.model_path.0 matches Some(s) ==> (text::trim(s@).len() > 0 ==> (n.model_path matches Some(t)
            && t@ == s@)) && (text::trim(s@).len() == 0 ==> n.model_path is None),
        input.model_path.0 is None ==> n.model_path is None,
        input.mmproj_path.0 matches Some(s) ==> (text::trim(s@).len() > 0 ==> (n.mmproj_path matches Some(t)
            && t@ == s@)) && (text::trim(s@).len() == 0 ==> n.mmproj_path is None),
        input.mmproj_path.0 is None ==> n.mmproj_path is None,
        input.device.0 matches Some(s) ==> (text::trim(s@).len() > 0 ==> (n.device matches Some(t)
            && t@ == s@)) && (text::trim(s@).len() == 0 ==> n.device is None),
        input.device.0 is None ==> n.device is None,
        input.swap_space_gb.0 matches Some(k) ==> n.swap_space_gb == (if k > 0 {
            Some(k)
        } else {
            None
        }),
        input.swap_space_gb.0 is None ==> n.swap_space_gb is None,
        input.cpu_offload_gb.0 matches Some(k) ==> n.cpu_offload_gb == (if k > 0 {
            Some(k)
        } else {
            None
        }),
        input.cpu_offload_gb.0 is None ==> n.cpu_offload_gb is None,
        input.ctx_size.0 matches Some(k) ==> n.ctx_size == (if k > 0 {
            Some(k)
        } else {
            None
        }),
        input.ctx_size.0 is None ==> n.ctx_size is None,
        input.n_cpu_moe.0 matches Some(k) ==> n.n_cpu_moe == (if k > 0 {
            Some(k)
        } else {
            None
        }),
        input.n_cpu_moe.0 is None ==> n.n_cpu_moe is None,
        input.fit_target.0 matches Some(k) ==> n.fit_target == (if k > 0 {
            Some(k)
        } else {
            None
        }),
        input.fit_target.0 is None ==> n.fit_target is None,
        input.threads.0 matches Some(k) ==> n.threads == (if k > 0 {
            Some(k)
        } else {
            None
        }),
        input.threads.0 is None ==> n.threads is None,
        input.batch_size.0 matches Some(k) ==> n.batch_size == (if k > 0 {
            Some(k)
        } else {
            None
        }),
        input.batch_size.0 is None ==> n.batch_size is None,
        input.ubatch_size.0 matches Some(k) ==> n.ubatch_size == (if k > 0 {
            Some(k)
        } else {
            None
        }),
        input.ubatch_size.0 is None ==> n.ubatch_size is None,
        n.n_gpu_layers == input.n_gpu_layers.0,
        n.log_verbosity == input.log_verbosity.0,
        input.kv_cache_dtype.0 matches Some(s) ==> (n.kv_cache_dtype matches Some(t) ==> t@
            == text::ascii_lowercase(text::trim(s@)) && t@ != "auto"@ && t@.len() > 0) && (
        n.kv_cache_dtype is None ==> text::trim(s@).len() == 0 || text::ascii_lowercase(
            text::trim(s@),
        ) == "auto"@),
        input.kv_cache_dtype.0 is None ==> n.kv_cache_dtype is None,
        input.cache_type_k matches Some(s) ==> n.cache_type_k@ == s@,
        input.cache_type_k is None ==> n.cache_type_k@ == "q8_0"@,
        input.cache_type_v matches Some(s) ==> n.cache_type_v@ == s@,
        input.cache_type_v is None ==> n.cache_type_v@ == "q8_0"@,
        input.parallel matches Some(k) ==> n.parallel == k,
        input.parallel is None ==> n.parallel == 0,
        input.extra_args.0 matches Some(v) ==> n.extra_args@ == v@,
        input.extra_args.0 is None ==> n.extra_args@.len() == 0,
        input.enforce_eager matches Some(b) ==> n.enforce_eager == b,
        input.enforce_eager is None ==> n.enforce_eager == true,
        input.fit matches Some(b) ==> n.fit == b,
        input.fit is None ==> n.fit == true,
        input.flash_attn matches Some(b) ==> n.flash_attn == b,
        input.flash_attn is None ==> n.flash_attn == true,
        input.jinja matches Some(b) ==> n.jinja == b,
        input.jinja is None ==> n.jinja == true,
        input.no_kv_offload matches Some(b) ==> n.no_kv_offload == b,
        input.no_kv_offload is None ==> n.no_kv_offload == false,
        input.metrics matches Some(b) ==> n.metrics == b,
        input.metrics is None ==> n.metrics,
        input.env.0 matches Some(m) ==> n.env.listing() == m.listing(),
        input.env.0 is None ==> n.env.listing().len() == 0,
{
}

/// A new server has the name, the model, the port and the share of the memory that were said.
/// It runs vLLM where no backend was said, makes embeddings only where that was said of a
/// server of vLLM, counts as not running, and what stands for a secret is never its key.
pub proof fn law_new_server_has_what_was_said(
    n: ServerDef,
    input: ServerInput,
    c: CreateContext,
    kind: ServerBackend,
)
    requires
        is_created_identity(n, input, c, kind),
    ensures
        input.name matches Some(s) ==> n.name@ == text::trim(s@),
        input.model_id matches Some(s) ==> n.model_id@ == s@,
        input.backend matches Some(s) ==> n.backend@ == s@,
        input.backend is None ==> n.backend@ == "vllm"@,
        input.port matches Some(p) ==> n.port == p,
        input.port is None ==> (c.free_port matches Ok(p) && n.port == p),
        !c.existing_ports@.contains(n.port),
        input.gpu_mem_util matches Some(u) ==> n.gpu_mem_util == u,
        input.gpu_mem_util is None ==> n.gpu_mem_util == c.default_gpu_mem_util,
        n.task@ == "embed"@ || n.task@ == "instruct"@,
        n.task@ == "embed"@ <==> kind == ServerBackend::Vllm && (input.task matches Some(t) && t@
            == "embed"@),
        kind == ServerBackend::Vllm ==> (input.quant matches Some(q) ==> n.quant@
            == text::ascii_lowercase(q@)) && (input.quant is None ==> n.quant@
            == text::ascii_lowercase(c.default_quant@)),
        kind == ServerBackend::Llamacpp ==> (input.quant matches Some(q) ==> n.quant@ == q@) && (
        input.quant is None ==> n.quant@ == "GGUF"@),
        n.id@ == "srv-"@ + numeral::hexadecimal(c.now_ms as nat),
        !n.was_running,
        n.api_key matches Some(k) ==> k@ != c.placeholder@ && (input.api_key.0 matches Some(g) && g@
            == k@),
        input.api_key.0 matches Some(g) ==> (g@ != c.placeholder@ && text::trim(g@).len() > 0
            ==> n.api_key is Some),
{
    reveal_strlit("embed");
    reveal_strlit("instruct");
    assert("embed"@.len() != "instruct"@.len());
}

/// The context of a new server of vLLM is the one that was asked for; else, for a model of the
/// hub, the longest that fits on the card, that the model knows and that the settings allow;
/// else it is left to the server. For a server of llama.cpp it is not set here.
pub proof fn law_new_context_is_within_bounds(
    requested: Option<usize>,
    ask: bool,
    fit: Option<int>,
    declared: Option<usize>,
    cap: Option<usize>,
)
    ensures
        created_context(ServerBackend::Llamacpp, requested, ask, fit, declared, cap) is None,
        ({
            let made = created_context(ServerBackend::Vllm, requested, ask, fit, declared, cap);
            let by_hand = requested matches Some(n) && n > 0;
            &&& by_hand ==> made == Some(requested->0 as int)
            &&& !by_hand && !ask ==> made is None
            &&& !by_hand && ask ==> made is Some && {
                &&& fit matches Some(n) ==> made->0 <= n
                &&& cap matches Some(n) ==> made->0 <= n
                &&& declared matches Some(n) ==> made->0 <= n
                &&& declared is None ==> made->0 <= 4096
                &&& fit == Some(made->0) || (cap is Some && made->0 == cap->0) || (declared is Some
                    && made->0 == declared->0) || (declared is None && made->0 == 4096)
            }
        }),
{
}

/// The hub is asked about a model only for a server of vLLM, and never about a file.
pub proof fn law_files_are_not_looked_up(kind: ServerBackend, model_id: Seq<char>, absolute: bool)
    ensures
        asks_hub(kind, model_id, absolute) ==> kind == ServerBackend::Vllm && !absolute
            && !"/"@.is_prefix_of(model_id) && !".gguf"@.is_suffix_of(
            text::ascii_lowercase(model_id),
        ),
        kind == ServerBackend::Vllm && !absolute && !"/"@.is_prefix_of(model_id)
            && !"\\"@.is_prefix_of(model_id) && !".gguf"@.is_suffix_of(
            text::ascii_lowercase(model_id),
        ) ==> asks_hub(kind, model_id, absolute),
{
}

/// A server is not created without a name and a model, on a port that is taken, or with a
/// share of the memory that vLLM may not take; with none of these in the way only its
/// environment can be refused.
pub proof fn law_new_servers_are_checked(input: ServerInput, c: CreateContext)
    ensures
        create_error(input, c) is None ==> {
            &&& input.name matches Some(s) && text::trim(s@).len() > 0
            &&& input.model_id matches Some(s) && text::trim(s@).len() > 0
            &&& c.backend_kind is Ok
            &&& input.port matches Some(p) ==> c.port_is_free && !c.existing_ports@.contains(p)
            &&& c.backend_kind == Ok::<ServerBackend, String>(ServerBackend::Vllm) ==> 1_000
                <= created_util(input, c) <= 9_500
        },
        input.name is None || text::trim(input.name->0@).len() == 0 ==> create_error(input, c)
            == Some("name is required"@),
        input.name is Some && text::trim(input.name->0@).len() > 0 && (input.model_id is None
            || text::trim(input.model_id->0@).len() == 0) ==> create_error(input, c) == Some(
            "model_id is required"@,
        ),
        input.port matches Some(p) ==> (c.existing_ports@.contains(p) ==> create_error(
            input,
            c,
        ) is Some) && (!c.port_is_free ==> create_error(input, c) is Some),
        c.backend_kind == Ok::<ServerBackend, String>(ServerBackend::Vllm) && (created_util(
            input,
            c,
        ) < 1_000 || created_util(input, c) > 9_500) ==> create_error(input, c) is Some,
        c.backend_kind matches Err(_) ==> create_error(input, c) is Some,
        input.name is Some && text::trim(input.name->0@).len() > 0 && input.model_id is Some
            && text::trim(input.model_id->0@).len() > 0 && c.backend_kind is Ok && (
        input.port matches Some(p) && c.port_is_free && !c.existing_ports@.contains(p)) && (
        created_util(input, c) >= 1_000 && created_util(input, c) <= 9_500) && input.env.0 is None
            ==> create_error(input, c) is None,
{
}

/// A server is not changed to a port that another one has or that is taken, nor to a share of
/// the memory that vLLM may not take; the port that it has it may keep.
pub proof fn law_changes_are_checked(d: ServerDef, input: ServerInput, c: UpdateContext)
    ensures
        input.port matches Some(p) ==> (c.other_ports@.contains(p) ==> update_error(
            d,
            input,
            c,
        ) is Some) && (p != d.port && !c.port_is_free ==> update_error(d, input, c) is Some),
        c.backend_kind == Ok::<ServerBackend, String>(ServerBackend::Vllm) && (input.gpu_mem_util
            matches Some(u) && (u < 1_000 || u > 9_500)) ==> update_error(d, input, c) is Some,
        c.backend_kind matches Err(e) ==> update_error(d, input, c) == Some(e@),
        update_error(d, input, c) is None ==> c.backend_kind is Ok,
        c.backend_kind is Ok && (input.port is None || (input.port == Some(d.port)
            && !c.other_ports@.contains(d.port))) && (input.gpu_mem_util matches Some(u) && 1_000 <= u
            && u <= 9_500) && updated_env(d, input, c.placeholder@).len() == 0 ==> update_error(
            d,
            input,
            c,
        ) is None,
{
}

/// The key of a server that is changed: it is gone where that was asked for, and stays where
/// nothing was said or only what stands for it came back; else it is the one that was said,
/// without white space around it.
pub proof fn law_key_follows_what_was_said(
    old_key: Option<Seq<char>>,
    given: Seq<char>,
    placeholder: Seq<char>,
)
    ensures
        updated_key(old_key, Some(true), Some(given), placeholder) is None,
        updated_key(old_key, None, None, placeholder) == old_key,
        updated_key(old_key, Some(false), None, placeholder) == old_key,
        updated_key(old_key, None, Some(placeholder), placeholder) == old_key,
        given != placeholder ==> updated_key(old_key, None, Some(given), placeholder) == (
        if text::trim(given).len() > 0 {
            Some(text::trim(given))
        } else {
            None
        }),
{
}

/// A server is found by its id: it is the first that has it, and where none has it that is
/// said.
pub proof fn law_servers_are_found_by_id(servers: Seq<ServerDef>, id: Seq<char>, k: int)
    requires
        good_server_id(id),
    ensures
        0 <= k < servers.len() && servers[k].id@ == id ==> (update_target(Some(id), servers)
            matches Ok(j) && 0 <= j <= k && servers[j].id@ == id),
        update_target(Some(id), servers) matches Ok(j) ==> 0 <= j < servers.len()
            && servers[j].id@ == id,
        update_target(None, servers) is Err,
{
    lemma_place(servers, id, 0);
    if 0 <= k < servers.len() && servers[k].id@ == id {
        lemma_place_is_first(servers, id, 0, k);
    }
}

proof fn lemma_place_is_first(servers: Seq<ServerDef>, id: Seq<char>, i: int, k: int)
    requires
        0 <= i <= k < servers.len(),
        servers[k].id@ == id,
    ensures
        place_from(servers, id, i) matches Some(j) && i <= j <= k,
    decreases k - i,
{
    if servers[i].id@ != id {
        lemma_place_is_first(servers, id, i + 1, k);
    }
}

/// The id of a server has something in it but white space, at most 128 bytes and no control
/// characters.
pub proof fn law_ids_are_printable(id: Seq<char>)
    ensures
        good_server_id(id) ==> text::trim(id).len() > 0 && vstd::utf8::encode_utf8(
            text::trim(id),
        ).len() <= 128,
        text::trim(id).len() == 0 ==> !good_server_id(id),
        vstd::utf8::encode_utf8(text::trim(id)).len() > 128 ==> !good_server_id(id),
        (exists|i: int|
            0 <= i < text::trim(id).len() && text::is_control_char(#[trigger] text::trim(id)[i]))
            ==> !good_server_id(id),
{
}

/// The row of a server tells the server, its state, its error and what was measured of it; the
/// ports of the others are those of all servers with another id.
pub proof fn law_rows_and_other_ports<M>(
    row: ServerListRow<M>,
    server: (ServerDef, String, Option<String>, Option<M>),
    servers: Seq<ServerDef>,
    s: ServerDef,
    id: Seq<char>,
)
    ensures
        is_row(row, server) ==> row.def == server.0 && row.status@ == server.1@ && row.error
            == server.2 && row.metrics == server.3,
        s.id@ != id ==> other_ports_of(servers.push(s), id) == other_ports_of(servers, id).push(
            s.port,
        ),
        s.id@ == id ==> other_ports_of(servers.push(s), id) == other_ports_of(servers, id),
        other_ports_of(Seq::empty(), id).len() == 0,
{
    assert(servers.push(s).drop_last() =~= servers);
}

} // verus!
