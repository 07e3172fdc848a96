//! The list of models that the gateway shows.
use vstd::prelude::*;
use crate::gateway::servers;
use crate::json;
use crate::json::{Json, JsonNumber, JsonTree};
use crate::numeral;
use crate::state;
use crate::state::{LiveServer, ServerDef};
use crate::text;

verus! {

/// Where the context length of a model is known from.
#[derive(Clone, Copy, Debug, PartialEq, Eq, Structural)]
pub enum ContextOrigin {
    Configured,
    Runtime,
    Unknown,
}

/// The name of the place that a context length is known from.
pub open spec fn origin_name(origin: ContextOrigin) -> Seq<char> {
    match origin {
        ContextOrigin::Configured => "configured"@,
        ContextOrigin::Runtime => "runtime"@,
        ContextOrigin::Unknown => "unknown"@,
    }
}

fn origin_text(origin: ContextOrigin) -> (r: &'static str)
    ensures
        r@ == origin_name(origin),
{
    match origin {
        ContextOrigin::Configured => "configured",
        ContextOrigin::Runtime => "runtime",
        ContextOrigin::Unknown => "unknown",
    }
}

/// The context length that a server is started with.
pub open spec fn configured_context(def: ServerDef) -> Option<usize> {
    if def.backend@ == "vllm"@ {
        state::positive(def.max_model_len)
    } else if def.backend@ == "llamacpp"@ {
        state::positive(def.ctx_size)
    } else {
        None
    }
}

/// The context length that a server is started with.
pub fn configured_context_tokens(def: &ServerDef) -> (r: Option<usize>)
    ensures
        r == configured_context(*def),
{
    if text::same(&def.backend, "vllm") {
        state::positive_size(def.max_model_len)
    } else if text::same(&def.backend, "llamacpp") {
        state::positive_size(def.ctx_size)
    } else {
        None
    }
}

/// The bits of infinity: above those of every other positive number, below those of what is
/// no number.
pub const INFINITY_BITS: u64 = 0x7ff0_0000_0000_0000;

/// The member that tells the number of parameters, where it is a positive number.
pub open spec fn params_member(params_b: Option<u64>) -> Seq<(Seq<char>, JsonTree)> {
    match params_b {
        Some(bits) => if 0 < bits <= INFINITY_BITS {
            seq![
                (
                    "parameters_billions"@,
                    if bits == INFINITY_BITS {
                        JsonTree::Null
                    } else {
                        JsonTree::Number(JsonNumber::Float(bits))
                    },
                ),
            ]
        } else {
            Seq::empty()
        },
        None => Seq::empty(),
    }
}

/// What a model's row in the list says.
pub open spec fn row_tree(
    def: ServerDef,
    context: Option<usize>,
    origin: ContextOrigin,
) -> JsonTree {
    let length = json::size_tree(state::positive(context));
    let chat = JsonTree::Bool(def.task@ == "instruct"@);
    JsonTree::Object(
        seq![
            ("id"@, JsonTree::Text(def.served_name())),
            ("object"@, JsonTree::Text("model"@)),
            ("created"@, JsonTree::Number(JsonNumber::Unsigned(0))),
            ("owned_by"@, JsonTree::Text("local-llm-panel"@)),
            ("root"@, JsonTree::Text(def.model_id@)),
            ("parent"@, JsonTree::Null),
            ("max_model_len"@, length),
            ("context_length"@, length),
            ("max_context_length"@, length),
            ("context_window"@, length),
            ("n_ctx"@, length),
            ("context_source"@, JsonTree::Text(origin_name(origin))),
            ("backend"@, JsonTree::Text(def.backend@)),
            ("quantization"@, JsonTree::Text(def.quant@)),
            ("task"@, JsonTree::Text(def.task@)),
            (
                "capabilities"@,
                JsonTree::Object(
                    seq![
                        ("chat_completions"@, chat),
                        ("completions"@, chat),
                        ("embeddings"@, JsonTree::Bool(def.task@ == "embed"@)),
                        ("streaming"@, chat),
                    ],
                ),
            ),
            ("port"@, JsonTree::Number(JsonNumber::Unsigned(def.port as u64))),
        ] + params_member(def.params_b),
    )
}

fn capabilities(def: &ServerDef) -> (r: Json)
    ensures
        r.tree() == JsonTree::Object(
            seq![
                ("chat_completions"@, JsonTree::Bool(def.task@ == "instruct"@)),
                ("completions"@, JsonTree::Bool(def.task@ == "instruct"@)),
                ("embeddings"@, JsonTree::Bool(def.task@ == "embed"@)),
                ("streaming"@, JsonTree::Bool(def.task@ == "instruct"@)),
            ],
        ),
{
    let chat = text::same(&def.task, "instruct");
    let mut m: Vec<(String, Json)> = Vec::new();
    json::put(&mut m, "chat_completions", Json::Bool(chat));
    json::put(&mut m, "completions", Json::Bool(chat));
    json::put(&mut m, "embeddings", Json::Bool(text::same(&def.task, "embed")));
    json::put(&mut m, "streaming", Json::Bool(chat));
    assert(json::members_tree(m@) =~= seq![
        ("chat_completions"@, JsonTree::Bool(def.task@ == "instruct"@)),
        ("completions"@, JsonTree::Bool(def.task@ == "instruct"@)),
        ("embeddings"@, JsonTree::Bool(def.task@ == "embed"@)),
        ("streaming"@, JsonTree::Bool(def.task@ == "instruct"@)),
    ]);
    json::object(m)
}

/// A model's row in the list. The context length stands under every name that clients look
/// for.
pub fn model_row(def: &ServerDef, context: Option<usize>, origin: ContextOrigin) -> (r: Json)
    ensures
        r.tree() == row_tree(*def, context, origin),
{
    let length = state::positive_size(context);
    let mut m: Vec<(String, Json)> = Vec::new();
    json::put(&mut m, "id", json::string(def.effective_model_name()));
    json::put(&mut m, "object", json::string("model"));
    json::put(&mut m, "created", Json::Number(JsonNumber::Unsigned(0)));
    json::put(&mut m, "owned_by", json::string("local-llm-panel"));
    json::put(&mut m, "root", json::string(&def.model_id));
    json::put(&mut m, "parent", Json::Null);
    json::put(&mut m, "max_model_len", json::size(length));
    json::put(&mut m, "context_length", json::size(length));
    json::put(&mut m, "max_context_length", json::size(length));
    json::put(&mut m, "context_window", json::size(length));
    json::put(&mut m, "n_ctx", json::size(length));
    json::put(&mut m, "context_source", json::string(origin_text(origin)));
    json::put(&mut m, "backend", json::string(&def.backend));
    json::put(&mut m, "quantization", json::string(&def.quant));
    json::put(&mut m, "task", json::string(&def.task));
    json::put(&mut m, "capabilities", capabilities(def));
    json::put(&mut m, "port", Json::Number(JsonNumber::Unsigned(def.port as u64)));
    if let Some(bits) = def.params_b {
        if 0 < bits && bits <= INFINITY_BITS {
            let value = if bits == INFINITY_BITS {
                Json::Null
            } else {
                Json::Number(JsonNumber::Float(bits))
            };
            json::put(&mut m, "parameters_billions", value);
        }
    }
    assert(json::members_tree(m@) =~= row_tree(*def, context, origin)->Object_0);
    json::object(m)
}

/// The context length of a server and where it is known from: the one that it was started
/// with, else the one that it reports.
pub open spec fn context_of(def: ServerDef, reported: Option<usize>) -> (
    Option<usize>,
    ContextOrigin,
) {
    match configured_context(def) {
        Some(n) => (Some(n), ContextOrigin::Configured),
        None => match reported {
            Some(n) => (Some(n), ContextOrigin::Runtime),
            None => (None, ContextOrigin::Unknown),
        },
    }
}

/// The rows of the list of models: one for each running server for instructions, in order,
/// with the context lengths that the servers report.
pub open spec fn rows_tree(servers: Seq<LiveServer>, reported: Seq<Option<usize>>) -> Seq<JsonTree>
    decreases servers.len(),
{
    if servers.len() == 0 {
        Seq::empty()
    } else {
        let i = servers.len() - 1;
        let front = rows_tree(servers.drop_last(), reported);
        if servers::serves(servers[i], "instruct"@) {
            let (context, origin) = context_of(
                servers[i].def,
                if i < reported.len() {
                    reported[i]
                } else {
                    None
                },
            );
            front.push(row_tree(servers[i].def, context, origin))
        } else {
            front
        }
    }
}

/// The rows of the list of models. `reported` holds for each server what it reports as its
/// context length; what is missing counts as not reported.
pub fn model_rows_reported(servers: &Vec<LiveServer>, reported: &Vec<Option<usize>>) -> (r: Vec<
    Json,
>)
    ensures
        json::trees(r@) == rows_tree(servers@, reported@),
{
    let mut out: Vec<Json> = Vec::new();
    assert(servers@.take(0) =~= Seq::empty());
    for i in 0..servers.len()
        invariant
            json::trees(out@) == rows_tree(servers@.take(i as int), reported@),
    {
        let ghost before = json::trees(out@);
        assert(servers@.take(i + 1).drop_last() =~= servers@.take(i as int));
        assert(servers@.take(i + 1).last() == servers@[i as int]);
        if servers::runs_task(&servers[i], "instruct") {
            let def = &servers[i].def;
            let told: Option<usize> = if i < reported.len() {
                reported[i]
            } else {
                None
            };
            let row = match configured_context_tokens(def) {
                Some(n) => model_row(def, Some(n), ContextOrigin::Configured),
                None => match told {
                    Some(n) => model_row(def, Some(n), ContextOrigin::Runtime),
                    None => model_row(def, None, ContextOrigin::Unknown),
                },
            };
            out.push(row);
            assert(json::trees(out@) =~= before.push(row.tree()));
        }
    }
    assert(servers@.take(servers@.len() as int) =~= servers@);
    out
}

/// The rows of the list of models as far as the configuration tells.
pub fn model_rows(servers: &Vec<LiveServer>) -> (r: Vec<Json>)
    ensures
        json::trees(r@) == rows_tree(servers@, Seq::empty()),
{
    let none: Vec<Option<usize>> = Vec::new();
    assert(none@ =~= Seq::empty());
    model_rows_reported(servers, &none)
}

/// The whole answer to a request for the list of models.
pub fn model_list(rows: Vec<Json>) -> (r: Json)
    ensures
        r.tree() == JsonTree::Object(
            seq![
                ("object"@, JsonTree::Text("list"@)),
                ("data"@, JsonTree::Array(json::trees(rows@))),
            ],
        ),
{
    let ghost all = json::trees(rows@);
    let mut m: Vec<(String, Json)> = Vec::new();
    json::put(&mut m, "object", json::string("list"));
    json::put(&mut m, "data", json::array(rows));
    assert(json::members_tree(m@) =~= seq![
        ("object"@, JsonTree::Text("list"@)),
        ("data"@, JsonTree::Array(all)),
    ]);
    json::object(m)
}

/// A server's report is asked for only where its configuration does not tell the context
/// length: the addresses to ask, in order.
pub fn report_paths(def: &ServerDef) -> (r: Vec<&'static str>)
    ensures
        r@ == (if def.backend@ == "llamacpp"@ {
            seq!["/props", "/v1/models"]
        } else {
            seq!["/v1/models"]
        }),
{
    if text::same(&def.backend, "llamacpp") {
        vec!["/props", "/v1/models"]
    } else {
        vec!["/v1/models"]
    }
}

/// A configured context length is what the list shows, whatever a server reports.
pub proof fn law_configured_context_is_shown(def: ServerDef, reported: Option<usize>)
    requires
        configured_context(def) is Some,
    ensures
        context_of(def, reported) == (configured_context(def), ContextOrigin::Configured),
{
}

// ---------------------------------------------------------------------------
// The context length in a server's report
// ---------------------------------------------------------------------------

/// A positive size, written as a number or as a string.
pub open spec fn size_in(t: JsonTree) -> Option<usize> {
    let n = match t.as_unsigned() {
        Some(n) => if n <= usize::MAX {
            Some(n as nat)
        } else {
            None
        },
        None => match t.as_text() {
            Some(s) => numeral::whole_number(text::trim(s), usize::MAX as nat),
            None => None,
        },
    };
    match n {
        Some(v) => if v > 0 {
            Some(v as usize)
        } else {
            None
        },
        None => None,
    }
}

/// A positive size, written as a number or as a string.
pub fn json_usize(value: &Json) -> (r: Option<usize>)
    ensures
        r == size_in(value.tree()),
{
    let n: Option<u64> = match value.as_u64() {
        Some(n) => if n <= usize::MAX as u64 {
            Some(n)
        } else {
            None
        },
        None => match value.as_str() {
            Some(s) => numeral::read_whole(text::trimmed(s), usize::MAX as u64),
            None => None,
        },
    };
    match n {
        Some(v) => if v > 0 {
            Some(v as usize)
        } else {
            None
        },
        None => None,
    }
}

/// The names under which servers report a context length, in the order in which they are
/// looked for.
pub open spec fn context_keys() -> Seq<&'static str> {
    seq!["max_model_len", "max_context_length", "context_length", "context_window", "n_ctx"]
}

/// The members that may hold the report.
pub open spec fn nested_keys() -> Seq<&'static str> {
    seq!["data", "models", "default_generation_settings", "model_info"]
}

/// The size under the first of the keys from number `i` on that holds one.
pub open spec fn size_under(t: JsonTree, keys: Seq<&'static str>, i: int) -> Option<usize>
    decreases keys.len() - i,
{
    if i < 0 || i >= keys.len() {
        None
    } else {
        match t.member(keys[i]@) {
            Some(v) => match size_in(v) {
                Some(n) => Some(n),
                None => size_under(t, keys, i + 1),
            },
            None => size_under(t, keys, i + 1),
        }
    }
}

/// The context length in a report: in an object the first under one of its names, else the
/// first in one of the members that may hold the report; in an array the first in any
/// element.
pub open spec fn reported_context(t: JsonTree) -> Option<usize>
    decreases t, nested_keys().len() + 1,
{
    match t {
        JsonTree::Object(_) => match size_under(t, context_keys(), 0) {
            Some(n) => Some(n),
            None => nested_context(t, 0),
        },
        JsonTree::Array(items) => item_context(items, 0),
        _ => None,
    }
}

/// The first context length in one of the members that may hold the report, from number `i`
/// of their names on.
pub open spec fn nested_context(t: JsonTree, i: int) -> Option<usize>
    decreases t, nested_keys().len() - i,
{
    if i < 0 || i >= nested_keys().len() {
        None
    } else {
        match t.member(nested_keys()[i]@) {
            Some(v) => {
                proof {
                    json::lemma_member_smaller(t, nested_keys()[i]@);
                }
                match reported_context(v) {
                    Some(n) => Some(n),
                    None => nested_context(t, i + 1),
                }
            },
            None => nested_context(t, i + 1),
        }
    }
}

/// The first context length in one of the elements from number `i` on.
pub open spec fn item_context(items: Seq<JsonTree>, i: int) -> Option<usize>
    decreases items, items.len() - i,
{
    if i < 0 || i >= items.len() {
        None
    } else {
        match reported_context(items[i]) {
            Some(n) => Some(n),
            None => item_context(items, i + 1),
        }
    }
}

/// The context length in a server's report.
pub fn extract_runtime_context(value: &Json) -> (r: Option<usize>)
    ensures
        r == reported_context(value.tree()),
    decreases *value,
{
    match value {
        Json::Object(_) => {
            let keys: [&'static str; 5] = [
                "max_model_len",
                "max_context_length",
                "context_length",
                "context_window",
                "n_ctx",
            ];
            assert(keys@ == context_keys());
            for i in 0..5
                invariant
                    keys@ == context_keys(),
                    size_under(value.tree(), context_keys(), 0) == size_under(
                        value.tree(),
                        context_keys(),
                        i as int,
                    ),
                    value.tree() is Object,
            {
                if let Some(v) = value.get(keys[i]) {
                    if let Some(n) = json_usize(v) {
                        return Some(n);
                    }
                }
            }
            let nested: [&'static str; 4] = [
                "data",
                "models",
                "default_generation_settings",
                "model_info",
            ];
            assert(nested@ == nested_keys());
            for i in 0..4
                invariant
                    nested@ == nested_keys(),
                    nested_context(value.tree(), 0) == nested_context(value.tree(), i as int),
                    size_under(value.tree(), context_keys(), 0) is None,
                    value.tree() is Object,
            {
                if let Some(v) = value.get(nested[i]) {
                    if let Some(n) = extract_runtime_context(v) {
                        return Some(n);
                    }
                }
            }
            None
        },
        Json::Array(items) => {
            let ghost list = value.tree()->Array_0;
            for i in 0..items.len()
                invariant
                    *value == Json::Array(*items),
                    list == value.tree()->Array_0,
                    value.tree() is Array,
                    item_context(list, 0) == item_context(list, i as int),
            {
                assert(list[i as int] == items@[i as int].tree());
                assert(decreases_to!(*value => items@[i as int]));
                if let Some(n) = extract_runtime_context(&items[i]) {
                    return Some(n);
                }
            }
            None
        },
        _ => None,
    }
}

// ---------------------------------------------------------------------------
// Laws of the list
// ---------------------------------------------------------------------------

/// What the row of a model says: the name that it is served by, the name of the model itself,
/// its context length under every name that clients look for, its backend, task and port, and
/// what it can do, which goes by its task.
pub proof fn law_rows_tell_the_server(def: ServerDef, context: Option<usize>, origin: ContextOrigin)
    ensures
        ({
            let row = row_tree(def, context, origin);
            let length = match context {
                Some(n) => if n > 0 {
                    JsonTree::Number(JsonNumber::Unsigned(n as u64))
                } else {
                    JsonTree::Null
                },
                None => JsonTree::Null,
            };
            &&& row.text_member("id"@) == Some(
                match def.served_model_name {
                    Some(name) => name@,
                    None => def.model_id@,
                },
            )
            &&& row.text_member("root"@) == Some(def.model_id@)
            &&& row.member("max_model_len"@) == Some(length)
            &&& row.member("context_length"@) == Some(length)
            &&& row.member("max_context_length"@) == Some(length)
            &&& row.member("context_window"@) == Some(length)
            &&& row.member("n_ctx"@) == Some(length)
            &&& row.text_member("backend"@) == Some(def.backend@)
            &&& row.text_member("quantization"@) == Some(def.quant@)
            &&& row.text_member("task"@) == Some(def.task@)
            &&& row.member("port"@) == Some(
                JsonTree::Number(JsonNumber::Unsigned(def.port as u64)),
            )
            &&& row.member("capabilities"@) matches Some(can) && {
                &&& can.member("chat_completions"@) == Some(
                    JsonTree::Bool(def.task@ == "instruct"@),
                )
                &&& can.member("completions"@) == Some(JsonTree::Bool(def.task@ == "instruct"@))
                &&& can.member("embeddings"@) == Some(JsonTree::Bool(def.task@ == "embed"@))
            }
        }),
{
    reveal_strlit("id");
    reveal_strlit("object");
    reveal_strlit("created");
    reveal_strlit("owned_by");
    reveal_strlit("root");
    reveal_strlit("parent");
    reveal_strlit("max_model_len");
    reveal_strlit("context_length");
    reveal_strlit("max_context_length");
    reveal_strlit("context_window");
    reveal_strlit("n_ctx");
    reveal_strlit("context_source");
    reveal_strlit("backend");
    reveal_strlit("quantization");
    reveal_strlit("task");
    reveal_strlit("capabilities");
    reveal_strlit("port");
    reveal_strlit("chat_completions");
    reveal_strlit("completions");
    reveal_strlit("embeddings");
    reveal_with_fuel(json::member_from, 18);
    assert("id"@.len() == 2 && "object"@.len() == 6 && "created"@.len() == 7 && "owned_by"@.len()
        == 8 && "root"@.len() == 4 && "parent"@.len() == 6 && "max_model_len"@.len() == 13
        && "context_length"@.len() == 14 && "max_context_length"@.len() == 18
        && "context_window"@.len() == 14 && "n_ctx"@.len() == 5 && "context_source"@.len() == 14
        && "backend"@.len() == 7 && "quantization"@.len() == 12 && "task"@.len() == 4
        && "capabilities"@.len() == 12 && "port"@.len() == 4 && "chat_completions"@.len() == 16
        && "completions"@.len() == 11 && "embeddings"@.len() == 10);
    assert("context_length"@[8] == 'l' && "context_window"@[8] == 'w' && "context_source"@[8]
        == 's');
    assert("created"@[0] == 'c' && "backend"@[0] == 'b' && "root"@[0] == 'r' && "task"@[0] == 't'
        && "port"@[0] == 'p' && "quantization"@[0] == 'q' && "capabilities"@[0] == 'c');
}

/// The list has a row for each running server for instructions, in the order of the servers,
/// and none for any other.
pub proof fn law_running_servers_are_listed(
    servers: Seq<LiveServer>,
    s: LiveServer,
    reported: Seq<Option<usize>>,
)
    ensures
        ({
            let before = rows_tree(servers, reported);
            let after = rows_tree(servers.push(s), reported);
            let told = if servers.len() < reported.len() {
                reported[servers.len() as int]
            } else {
                None
            };
            let (context, origin) = context_of(s.def, told);
            &&& s.status == state::ServerStatus::Running && s.def.task@ == "instruct"@ ==> after
                == before.push(row_tree(s.def, context, origin))
            &&& s.status != state::ServerStatus::Running || s.def.task@ != "instruct"@ ==> after
                == before
        }),
{
    assert(servers.push(s).drop_last() =~= servers);
    assert(servers.push(s)[servers.len() as int] == s);
}

/// The context length that a server is started with is the one of its own backend, and zero
/// counts as none. Where it has none the one that it reports is shown, and where it reports
/// none either nothing is.
pub proof fn law_context_comes_from_the_backend(def: ServerDef, reported: Option<usize>)
    ensures
        ({
            let shown = context_of(def, reported);
            &&& def.backend@ == "vllm"@ ==> (def.max_model_len matches Some(n) ==> (n > 0 ==> shown
                == (Some(n), ContextOrigin::Configured)))
            &&& def.backend@ == "llamacpp"@ ==> (def.ctx_size matches Some(n) ==> (n > 0 ==> shown
                == (Some(n), ContextOrigin::Configured)))
            &&& def.backend@ == "vllm"@ && (def.max_model_len is None || def.max_model_len == Some(
                0usize,
            )) ==> shown == (reported, if reported is Some {
                ContextOrigin::Runtime
            } else {
                ContextOrigin::Unknown
            })
            &&& def.backend@ == "llamacpp"@ && (def.ctx_size is None || def.ctx_size == Some(
                0usize,
            )) ==> shown == (reported, if reported is Some {
                ContextOrigin::Runtime
            } else {
                ContextOrigin::Unknown
            })
        }),
{
    reveal_strlit("vllm");
    reveal_strlit("llamacpp");
    assert("vllm"@.len() != "llamacpp"@.len());
}

/// A report tells its context length under the first of these names that holds one, itself
/// before any report within it, and it is never zero.
pub proof fn law_report_names(t: JsonTree)
    requires
        t is Object,
    ensures
        ({
            let at = |key: Seq<char>|
                match t.member(key) {
                    Some(v) => size_in(v),
                    None => None,
                };
            let found = if at("max_model_len"@) is Some {
                at("max_model_len"@)
            } else if at("max_context_length"@) is Some {
                at("max_context_length"@)
            } else if at("context_length"@) is Some {
                at("context_length"@)
            } else if at("context_window"@) is Some {
                at("context_window"@)
            } else {
                at("n_ctx"@)
            };
            found is Some ==> reported_context(t) == found
        }),
{
    reveal_with_fuel(size_under, 6);
}

/// A size is a positive whole number, or a text that is the numeral of one.
pub proof fn law_sizes_are_positive(t: JsonTree, n: u64)
    ensures
        size_in(t) matches Some(k) ==> k > 0,
        0 < n && n <= usize::MAX ==> size_in(JsonTree::Number(JsonNumber::Unsigned(n))) == Some(
            n as usize,
        ),
        size_in(JsonTree::Number(JsonNumber::Unsigned(0))) is None,
        size_in(JsonTree::Null) is None,
{
}

} // verus!
