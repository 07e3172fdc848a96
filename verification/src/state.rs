//! The records that the panel keeps.
use vstd::prelude::*;
use crate::text;
use crate::text_map::TextMap;

verus! {

/// What runs a server.
#[derive(Clone, Copy, Debug, PartialEq, Eq, Structural)]
pub enum ServerBackend {
    Vllm,
    Llamacpp,
}

/// Where the llama.cpp builds come from.
#[derive(Clone, Debug, PartialEq)]
pub enum LlamaCppChannel {
    Upstream,
    Other(String),
}

impl LlamaCppChannel {
    /// The name of a channel other than the upstream one.
    pub open spec fn label(self) -> Option<Seq<char>> {
        match self {
            LlamaCppChannel::Upstream => None,
            LlamaCppChannel::Other(name) => Some(name@),
        }
    }

    /// Whether two channels are the same.
    pub fn same(&self, other: &LlamaCppChannel) -> (r: bool)
        ensures
            r == (self.label() == other.label()),
    {
        match (self, other) {
            (LlamaCppChannel::Upstream, LlamaCppChannel::Upstream) => true,
            (LlamaCppChannel::Other(a), LlamaCppChannel::Other(b)) => text::same(a, b),
            _ => false,
        }
    }
}

/// The state of a server.
#[derive(Clone, Copy, Debug, PartialEq, Eq, Structural)]
pub enum ServerStatus {
    Stopped,
    Starting,
    Running,
}

/// How a server is started.
#[derive(Clone, Debug, PartialEq)]
pub struct ServerDef {
    pub backend: String,
    pub id: String,
    pub name: String,
    pub model_id: String,
    pub task: String,
    pub port: u16,
    /// In ten-thousandths of the memory.
    pub gpu_mem_util: u32,
    pub max_model_len: Option<usize>,
    pub quant: String,
    pub served_model_name: Option<String>,
    pub kv_cache_dtype: Option<String>,
    pub llamacpp_channel: LlamaCppChannel,
    pub enforce_eager: bool,
    /// Billions of parameters, as the bits of a double-precision number.
    pub params_b: Option<u64>,
    pub swap_space_gb: Option<usize>,
    pub cpu_offload_gb: Option<usize>,
    pub was_running: bool,
    pub model_path: Option<String>,
    pub mmproj_path: Option<String>,
    pub ctx_size: Option<usize>,
    pub n_gpu_layers: Option<usize>,
    pub n_cpu_moe: Option<usize>,
    pub fit: bool,
    pub fit_target: Option<usize>,
    pub device: Option<String>,
    pub api_key: Option<String>,
    pub log_verbosity: Option<u8>,
    pub flash_attn: bool,
    pub cache_type_k: String,
    pub cache_type_v: String,
    pub threads: Option<usize>,
    pub batch_size: Option<usize>,
    pub ubatch_size: Option<usize>,
    pub parallel: usize,
    pub jinja: bool,
    pub no_kv_offload: bool,
    pub metrics: bool,
    pub extra_args: Vec<String>,
    pub env: TextMap,
}

impl ServerDef {
    /// The name under which the server serves its model.
    pub open spec fn served_name(self) -> Seq<char> {
        match self.served_model_name {
            Some(s) => s@,
            None => self.model_id@,
        }
    }

    /// The name under which the server serves its model.
    pub fn effective_model_name(&self) -> (r: &str)
        ensures
            r@ == self.served_name(),
    {
        match &self.served_model_name {
            Some(s) => s.as_str(),
            None => self.model_id.as_str(),
        }
    }
}

/// A server and its state.
#[derive(Clone, Debug)]
pub struct LiveServer {
    pub def: ServerDef,
    pub status: ServerStatus,
}

impl LiveServer {
    /// The server runs or is about to.
    pub open spec fn is_active(self) -> bool {
        self.status == ServerStatus::Running || self.status == ServerStatus::Starting
    }

    /// Whether the server runs or is about to.
    pub fn active(&self) -> (r: bool)
        ensures
            r == self.is_active(),
    {
        self.status == ServerStatus::Running || self.status == ServerStatus::Starting
    }
}

/// The text of an optional value, without the white space at its ends, where that leaves
/// anything.
pub open spec fn set_text(o: Option<Seq<char>>) -> Option<Seq<char>> {
    match o {
        Some(s) => if text::trim(s).len() > 0 {
            Some(text::trim(s))
        } else {
            None
        },
        None => None,
    }
}

/// The text of an optional value, without the white space at its ends, where that leaves
/// anything.
pub fn set_value(o: Option<&str>) -> (r: Option<&str>)
    ensures
        text::opt_str(r) == set_text(text::opt_str(o)),
{
    match o {
        Some(s) => {
            let t = text::trimmed(s);
            if t.unicode_len() > 0 {
                Some(t)
            } else {
                None
            }
        },
        None => None,
    }
}

/// The size, unless it is zero.
pub open spec fn positive(n: Option<usize>) -> Option<usize> {
    match n {
        Some(v) => if v > 0 {
            Some(v)
        } else {
            None
        },
        None => None,
    }
}

/// The size, unless it is zero.
pub fn positive_size(n: Option<usize>) -> (r: Option<usize>)
    ensures
        r == positive(n),
{
    match n {
        Some(v) => if v > 0 {
            Some(v)
        } else {
            None
        },
        None => None,
    }
}

/// A text that is only white space is none, and any other is there without the white space at
/// its ends.
pub proof fn law_blank_texts_are_none(s: Seq<char>)
    ensures
        (forall|i: int| 0 <= i < s.len() ==> text::is_white_space(#[trigger] s[i])) <==> set_text(
            Some(s),
        ) is None,
        set_text(Some(s)) matches Some(t) ==> t.len() > 0 && !text::is_white_space(t[0])
            && !text::is_white_space(t.last()) && text::occurs(s, t),
        set_text(None) is None,
{
    text::law_trimming(s);
    let t = text::trim(s);
    let (i, j) = choose|i: int, j: int|
        #![trigger s.subrange(i, j)]
        0 <= i <= j <= s.len() && text::trim(s) == s.subrange(i, j) && (forall|k: int|
            0 <= k < i || j <= k < s.len() ==> text::is_white_space(#[trigger] s[k]));
    if t.len() > 0 {
        assert(t[0] == s[i]);
        assert(text::occurs_at(s, t, i));
    }
}

/// A server serves its model under the name that was chosen for it, else under the model's own;
/// sizes of zero are none.
pub proof fn law_served_names(d: ServerDef, n: usize)
    ensures
        d.served_model_name matches Some(s) ==> d.served_name() == s@,
        d.served_model_name is None ==> d.served_name() == d.model_id@,
        n > 0 ==> positive(Some(n)) == Some(n),
        positive(Some(0usize)) is None,
        positive(None) is None,
{
}

/// A server that runs or starts is active, and one that stopped is not.
pub proof fn law_active_servers(s: LiveServer)
    ensures
        s.is_active() <==> s.status != ServerStatus::Stopped,
{
}

} // verus!
