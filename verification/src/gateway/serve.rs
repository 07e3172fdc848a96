//! Deciding what is done with a request, and when the gateway listens.
use vstd::prelude::*;
use crate::gateway::reply;
use crate::gateway::request;
use crate::gateway::request::{HeadTexts, RequestHead};
use crate::gateway::servers;
use crate::json::{Json, JsonTree};
use crate::numeral;
use crate::outside;
use crate::state;
use crate::state::LiveServer;
use crate::text;

verus! {

pub const DEFAULT_GATEWAY_PORT: u16 = 11434;

pub const NO_MODEL_MESSAGE: &'static str = "request body must be JSON with a model field";

// ---------------------------------------------------------------------------
// Routing
// ---------------------------------------------------------------------------

/// What is done with a request.
#[derive(Debug)]
pub enum RouteAction {
    /// It is answered with a plain text; the second text is its type.
    Plain(u16, &'static str, &'static str),
    /// It is answered with a document.
    Document(u16, Json),
    /// It is answered with the list of models.
    ListModels,
    /// It is sent to the server at a port, under the given path.
    Forward(u16, &'static str),
    /// It cannot be served, for the given reason.
    Fail(&'static str),
}

/// What a decision says.
pub enum RoutePlan {
    Plain(u16, Seq<char>, Seq<char>),
    Document(u16, JsonTree),
    ListModels,
    Forward(u16, Seq<char>),
    Fail(Seq<char>),
}

impl View for RouteAction {
    type V = RoutePlan;

    open spec fn view(&self) -> RoutePlan {
        match *self {
            RouteAction::Plain(status, kind, body) => RoutePlan::Plain(status, kind@, body@),
            RouteAction::Document(status, body) => RoutePlan::Document(status, body.tree()),
            RouteAction::ListModels => RoutePlan::ListModels,
            RouteAction::Forward(port, path) => RoutePlan::Forward(port, path@),
            RouteAction::Fail(message) => RoutePlan::Fail(message@),
        }
    }
}

/// What is done with a request that asks a model: it goes to the server that serves it.
pub open spec fn model_plan(
    servers: Seq<LiveServer>,
    model: Option<Seq<char>>,
    task: Seq<char>,
    kind: Seq<char>,
    path: Seq<char>,
) -> RoutePlan {
    match model {
        None => RoutePlan::Fail(NO_MODEL_MESSAGE@),
        Some(m) => match servers::port_for(servers, m, task) {
            Some(port) => RoutePlan::Forward(port, path),
            None => RoutePlan::Document(
                404,
                reply::not_found_tree(m, kind, servers::names_serving(servers, task)),
            ),
        },
    }
}

/// What is done with a request that may pass.
pub open spec fn open_plan(
    head: HeadTexts,
    model: Option<Seq<char>>,
    servers: Seq<LiveServer>,
) -> RoutePlan {
    let path = text::before_first(head.target, seq!['?']);
    let get = head.method == "GET"@;
    let post = head.method == "POST"@;
    if get && path == "/v1/models"@ {
        RoutePlan::ListModels
    } else if get && path == "/health"@ {
        RoutePlan::Plain(200, "application/json"@, "{\"status\":\"ok\"}"@)
    } else if post && path == "/v1/chat/completions"@ {
        model_plan(servers, model, "instruct"@, "instruction"@, "/v1/chat/completions"@)
    } else if post && path == "/v1/completions"@ {
        model_plan(servers, model, "instruct"@, "instruction"@, "/v1/completions"@)
    } else if post && path == "/v1/embeddings"@ {
        model_plan(servers, model, "embed"@, "embedding"@, "/v1/embeddings"@)
    } else if path == "/v1/models"@ {
        RoutePlan::Plain(405, "text/plain"@, "method not allowed"@)
    } else {
        RoutePlan::Plain(404, "text/plain"@, "not found"@)
    }
}

/// The request needs the key.
pub open spec fn needs_key(head: HeadTexts) -> bool {
    "/v1/"@.is_prefix_of(head.target)
}

/// What is done with a request, where `model` is the model that its body asks for and `key`
/// the key of the gateway.
pub open spec fn plan(
    head: HeadTexts,
    model: Option<Seq<char>>,
    key: Option<Seq<char>>,
    servers: Seq<LiveServer>,
) -> RoutePlan {
    if head.method == "OPTIONS"@ {
        if head.headers.contains_key("origin"@) && !reply::trusted_origin(
            head.headers["origin"@],
        ) {
            RoutePlan::Plain(403, "text/plain"@, "origin not allowed"@)
        } else {
            RoutePlan::Plain(204, "text/plain"@, ""@)
        }
    } else if needs_key(head) {
        match request::auth_result(head.headers, key) {
            Err(why) => RoutePlan::Document(
                why.code(),
                reply::error_tree(why.words(), "authentication_error"@),
            ),
            Ok(()) => open_plan(head, model, servers),
        }
    } else {
        open_plan(head, model, servers)
    }
}

fn route_to_model(
    servers: &Vec<LiveServer>,
    model: &Option<String>,
    task: &str,
    kind: &str,
    path: &'static str,
) -> (r: RouteAction)
    ensures
        r@ == model_plan(servers@, text::opt_text(*model), task@, kind@, path@),
{
    match model {
        None => RouteAction::Fail(NO_MODEL_MESSAGE),
        Some(m) => match servers::find_server_port_for(servers, m, task) {
            Some(port) => RouteAction::Forward(port, path),
            None => RouteAction::Document(
                404,
                reply::not_found_payload_with_hint(
                    m,
                    kind,
                    &servers::running_model_names(servers, task),
                ),
            ),
        },
    }
}

fn route_open(head: &RequestHead, model: &Option<String>, servers: &Vec<LiveServer>) -> (r:
    RouteAction)
    ensures
        r@ == open_plan(head@, text::opt_text(*model), servers@),
{
    let mark = ['?'];
    assert(mark@ == seq!['?']);
    let path = text::head_before(&head.target, &mark);
    let get = text::same(&head.method, "GET");
    let post = text::same(&head.method, "POST");
    if get && text::same(path, "/v1/models") {
        RouteAction::ListModels
    } else if get && text::same(path, "/health") {
        RouteAction::Plain(200, "application/json", "{\"status\":\"ok\"}")
    } else if post && text::same(path, "/v1/chat/completions") {
        route_to_model(servers, model, "instruct", "instruction", "/v1/chat/completions")
    } else if post && text::same(path, "/v1/completions") {
        route_to_model(servers, model, "instruct", "instruction", "/v1/completions")
    } else if post && text::same(path, "/v1/embeddings") {
        route_to_model(servers, model, "embed", "embedding", "/v1/embeddings")
    } else if text::same(path, "/v1/models") {
        RouteAction::Plain(405, "text/plain", "method not allowed")
    } else {
        RouteAction::Plain(404, "text/plain", "not found")
    }
}

/// What is done with a request, given the model that its body asks for.
pub fn route_for_model(
    head: &RequestHead,
    model: &Option<String>,
    key: Option<&str>,
    servers: &Vec<LiveServer>,
) -> (r: RouteAction)
    ensures
        r@ == plan(head@, text::opt_text(*model), text::opt_str(key), servers@),
{
    if text::same(&head.method, "OPTIONS") {
        if let Some(origin) = head.headers.get("origin") {
            if !reply::is_allowed_origin(origin) {
                return RouteAction::Plain(403, "text/plain", "origin not allowed");
            }
        }
        return RouteAction::Plain(204, "text/plain", "");
    }
    if text::starts_with(&head.target, "/v1/") {
        if let Err(why) = request::gateway_auth(&head.headers, key) {
            return RouteAction::Document(
                why.status(),
                reply::error_payload(why.message(), "authentication_error"),
            );
        }
    }
    route_open(head, model, servers)
}

/// What is done with a request.
pub fn route(head: &RequestHead, body: &[u8], key: Option<&str>, servers: &Vec<LiveServer>) -> (r:
    RouteAction)
    ensures
        r@ == plan(
            head@,
            request::model_in(outside::json_parsed(body@)),
            text::opt_str(key),
            servers@,
        ),
{
    let model = request::model_from_body(body);
    route_for_model(head, &model, key, servers)
}

/// A request for a model or for the list of models that does not bring the key is answered
/// with 401, or with 503 where the gateway has no key, and reaches no server.
pub proof fn law_requests_without_the_key_are_refused(
    head: HeadTexts,
    model: Option<Seq<char>>,
    key: Option<Seq<char>>,
    servers: Seq<LiveServer>,
)
    requires
        head.method != "OPTIONS"@,
        needs_key(head),
        request::auth_result(head.headers, key) is Err,
    ensures
        plan(head, model, key, servers) matches RoutePlan::Document(status, _) && (status == 401
            || status == 503),
{
}

/// A request that is sent on asks for a path below `/v1/`, brings the key and goes to a
/// server that runs.
pub proof fn law_forwarded_requests_bring_the_key(
    head: HeadTexts,
    model: Option<Seq<char>>,
    key: Option<Seq<char>>,
    servers: Seq<LiveServer>,
)
    requires
        plan(head, model, key, servers) is Forward,
    ensures
        request::auth_result(head.headers, key) is Ok,
        plan(head, model, key, servers) matches RoutePlan::Forward(port, _) && exists|k: int|
            0 <= k < servers.len() && (#[trigger] servers[k]).status
                == state::ServerStatus::Running && servers[k].def.port == port,
{
    let path = text::before_first(head.target, seq!['?']);
    reveal_strlit("/v1/");
    reveal_strlit("/v1/chat/completions");
    reveal_strlit("/v1/completions");
    reveal_strlit("/v1/embeddings");
    lemma_before_first_is_prefix(head.target, seq!['?']);
    assert("/v1/"@ =~= path.take(4));
    assert(head.target.take(4) =~= path.take(4));
    assert("/v1/"@.is_prefix_of(head.target));
    let m = model->0;
    if path == "/v1/embeddings"@ {
        servers::law_routed_server_runs_the_task(servers, m, "embed"@);
    } else {
        servers::law_routed_server_runs_the_task(servers, m, "instruct"@);
    }
}

proof fn lemma_find_any_in_range(s: Seq<char>, set: Seq<char>, i: int)
    requires
        0 <= i,
    ensures
        text::find_any_from(s, set, i) matches Some(j) ==> i <= j < s.len(),
    decreases s.len() - i,
{
    if i < s.len() {
        lemma_find_any_in_range(s, set, i + 1);
    }
}

proof fn lemma_before_first_is_prefix(s: Seq<char>, set: Seq<char>)
    ensures
        text::before_first(s, set).is_prefix_of(s),
{
    lemma_find_any_in_range(s, set, 0);
}

/// The address of a part of the interface of the server on a port.
pub fn upstream_url(port: u16, path: &str) -> (r: String)
    ensures
        r@ == "http://127.0.0.1:"@ + numeral::decimal(port as nat) + path@,
{
    let mut out = "http://127.0.0.1:".to_string();
    out.append(&numeral::number_text(port as u64));
    out.append(path);
    out
}

/// The first of the servers from number `i` on that is on the port.
pub open spec fn on_port_from(servers: Seq<LiveServer>, port: u16, i: int) -> Option<int>
    decreases servers.len() - i,
{
    if i < 0 || i >= servers.len() {
        None
    } else if servers[i].def.port == port {
        Some(i)
    } else {
        on_port_from(servers, port, i + 1)
    }
}

/// The server on a port, whose key goes with what is sent on to it.
pub fn server_on_port(servers: &Vec<LiveServer>, port: u16) -> (r: Option<usize>)
    ensures
        match r {
            Some(i) => on_port_from(servers@, port, 0) == Some(i as int),
            None => on_port_from(servers@, port, 0) is None,
        },
{
    for i in 0..servers.len()
        invariant
            on_port_from(servers@, port, 0) == on_port_from(servers@, port, i as int),
    {
        if servers[i].def.port == port {
            return Some(i);
        }
    }
    None
}

// ---------------------------------------------------------------------------
// Listening
// ---------------------------------------------------------------------------

/// The port to listen on: none unless the gateway is switched on and has a key.
pub open spec fn wanted_port_of(enabled: bool, key: Option<Seq<char>>, port: u16) -> Option<u16> {
    if enabled && state::set_text(key) is Some {
        Some(port)
    } else {
        None
    }
}

/// The port to listen on.
pub fn wanted_port(enabled: bool, key: Option<&str>, port: u16) -> (r: Option<u16>)
    ensures
        r == wanted_port_of(enabled, text::opt_str(key), port),
{
    if enabled && state::set_value(key).is_some() {
        Some(port)
    } else {
        None
    }
}

/// A listener that was started: its port, and whether it has come to an end by itself.
#[derive(Clone, Copy, Debug, PartialEq, Eq, Structural)]
pub struct Listener {
    pub port: u16,
    pub finished: bool,
}

/// What is done about the listener.
#[derive(Clone, Copy, Debug, PartialEq, Eq, Structural)]
pub struct Supervision {
    /// The one that was started is stopped.
    pub stop: bool,
    /// One is started on this port.
    pub start: Option<u16>,
}

/// What is done about the listener: one that listens elsewhere, or that has ended, or that is
/// no longer wanted is stopped; one is started where it is wanted and none is left.
pub open spec fn supervision(running: Option<Listener>, wanted: Option<u16>) -> Supervision {
    match (running, wanted) {
        (None, None) => Supervision { stop: false, start: None },
        (Some(_), None) => Supervision { stop: true, start: None },
        (None, Some(port)) => Supervision { stop: false, start: Some(port) },
        (Some(l), Some(port)) => if l.port != port || l.finished {
            Supervision { stop: true, start: Some(port) }
        } else {
            Supervision { stop: false, start: None }
        },
    }
}

/// What is done about the listener.
pub fn supervise(running: Option<Listener>, wanted: Option<u16>) -> (r: Supervision)
    ensures
        r == supervision(running, wanted),
{
    match (running, wanted) {
        (None, None) => Supervision { stop: false, start: None },
        (Some(_), None) => Supervision { stop: true, start: None },
        (None, Some(port)) => Supervision { stop: false, start: Some(port) },
        (Some(l), Some(port)) => if l.port != port || l.finished {
            Supervision { stop: true, start: Some(port) }
        } else {
            Supervision { stop: false, start: None }
        },
    }
}

/// The listener that there is afterwards.
pub open spec fn after_supervision(running: Option<Listener>, s: Supervision) -> Option<Listener> {
    match s.start {
        Some(port) => Some(Listener { port, finished: false }),
        None => if s.stop {
            None
        } else {
            running
        },
    }
}

/// The gateway listens exactly where it is wanted: on the port that was asked for, and on
/// none where none was.
pub proof fn law_listens_where_wanted(running: Option<Listener>, wanted: Option<u16>)
    ensures
        match after_supervision(running, supervision(running, wanted)) {
            Some(l) => wanted == Some(l.port) && !l.finished,
            None => wanted is None,
        },
{
}

/// A gateway without a key does not listen.
pub proof fn law_no_key_no_listener(
    running: Option<Listener>,
    enabled: bool,
    key: Option<Seq<char>>,
    port: u16,
)
    requires
        state::set_text(key) is None,
    ensures
        after_supervision(running, supervision(running, wanted_port_of(enabled, key, port))) is None,
{
}

/// What the panel shows of the gateway.
#[derive(Clone, Copy, Debug, PartialEq, Eq, Structural)]
pub struct GatewayStatus {
    pub enabled: bool,
    pub port: u16,
    pub running: bool,
    pub auth_configured: bool,
}

/// Whether the gateway's port is to be tried: only where it is meant to listen.
pub fn probes_gateway(enabled: bool, key: Option<&str>) -> (r: bool)
    ensures
        r == (enabled && state::set_text(text::opt_str(key)) is Some),
{
    enabled && state::set_value(key).is_some()
}

/// What the panel shows of the gateway, where `answered` tells whether its port took a
/// connection.
pub fn gateway_status(enabled: bool, key: Option<&str>, port: u16, answered: bool) -> (r:
    GatewayStatus)
    ensures
        r.enabled == enabled,
        r.port == port,
        r.auth_configured == (state::set_text(text::opt_str(key)) is Some),
        r.running == (enabled && r.auth_configured && answered),
{
    let auth_configured = state::set_value(key).is_some();
    GatewayStatus {
        enabled,
        port,
        running: enabled && auth_configured && answered,
        auth_configured,
    }
}

// ---------------------------------------------------------------------------
// Laws of routing
// ---------------------------------------------------------------------------

/// A request that is sent on goes to the path that it asked for: all of its target before the
/// first question mark. It is sent on only where it posts to one of the three paths that
/// models answer on, and only to a running server that does what the path is for.
pub proof fn law_requests_go_to_the_path_they_ask_for(
    head: HeadTexts,
    model: Option<Seq<char>>,
    key: Option<Seq<char>>,
    servers: Seq<LiveServer>,
)
    requires
        plan(head, model, key, servers) is Forward,
    ensures
        plan(head, model, key, servers) matches RoutePlan::Forward(port, path) && {
            &&& path.len() <= head.target.len()
            &&& path == head.target.take(path.len() as int)
            &&& !path.contains('?')
            &&& path.len() < head.target.len() ==> head.target[path.len() as int] == '?'
            &&& head.method == "POST"@
            &&& path == "/v1/chat/completions"@ || path == "/v1/completions"@ || path
                == "/v1/embeddings"@
            &&& model matches Some(m) && exists|k: int|
                0 <= k < servers.len() && (#[trigger] servers[k]).status
                    == state::ServerStatus::Running && servers[k].def.port == port
                    && servers[k].def.task@ == (if path == "/v1/embeddings"@ {
                    "embed"@
                } else {
                    "instruct"@
                })
        },
{
    let path = text::before_first(head.target, seq!['?']);
    lemma_before_first_ends(head.target);
    reveal_strlit("/v1/chat/completions");
    reveal_strlit("/v1/completions");
    reveal_strlit("/v1/embeddings");
    assert("/v1/chat/completions"@.len() != "/v1/embeddings"@.len());
    assert("/v1/completions"@.len() != "/v1/embeddings"@.len());
    let m = model->0;
    if path == "/v1/embeddings"@ {
        servers::law_routed_server_runs_the_task(servers, m, "embed"@);
    } else {
        servers::law_routed_server_runs_the_task(servers, m, "instruct"@);
    }
}

proof fn lemma_find_mark(s: Seq<char>, i: int)
    requires
        0 <= i <= s.len(),
    ensures
        match text::find_any_from(s, seq!['?'], i) {
            Some(j) => i <= j < s.len() && s[j] == '?' && forall|k: int|
                i <= k < j ==> #[trigger] s[k] != '?',
            None => forall|k: int| i <= k < s.len() ==> #[trigger] s[k] != '?',
        },
    decreases s.len() - i,
{
    if i < s.len() {
        assert(seq!['?'].contains(s[i]) <==> s[i] == '?') by {
            if s[i] == '?' {
                assert(seq!['?'][0] == s[i]);
            }
        }
        if s[i] != '?' {
            lemma_find_mark(s, i + 1);
        }
    }
}

proof fn lemma_before_first_ends(s: Seq<char>)
    ensures
        ({
            let t = text::before_first(s, seq!['?']);
            &&& t.len() <= s.len()
            &&& t == s.take(t.len() as int)
            &&& !t.contains('?')
            &&& t.len() < s.len() ==> s[t.len() as int] == '?'
        }),
{
    lemma_find_mark(s, 0);
    let t = text::before_first(s, seq!['?']);
    assert(t =~= s.take(t.len() as int));
    assert forall|k: int| 0 <= k < t.len() implies #[trigger] t[k] != '?' by {
        assert(s[k] != '?');
    }
}

/// A request that brings the key and posts to a path for models reaches the server on which
/// the model runs, or one before it that runs it too; where none does, it is answered with 404
/// and reaches no server.
pub proof fn law_requests_reach_their_model(
    head: HeadTexts,
    model: Seq<char>,
    key: Option<Seq<char>>,
    servers: Seq<LiveServer>,
    k: int,
)
    requires
        request::auth_result(head.headers, key) is Ok,
        head.method == "POST"@,
        ({
            ||| text::before_first(head.target, seq!['?']) == "/v1/chat/completions"@
            ||| text::before_first(head.target, seq!['?']) == "/v1/completions"@
            ||| text::before_first(head.target, seq!['?']) == "/v1/embeddings"@
        }),
    ensures
        ({
            let path = text::before_first(head.target, seq!['?']);
            let task = if path == "/v1/embeddings"@ {
                "embed"@
            } else {
                "instruct"@
            };
            let p = plan(head, Some(model), key, servers);
            &&& p is Forward || (p matches RoutePlan::Document(status, _) && status == 404)
            &&& 0 <= k < servers.len() && servers[k].status == state::ServerStatus::Running
                && servers[k].def.task@ == task && servers[k].def.model_id@ == text::trim(model)
                && text::trim(model).len() > 0 ==> exists|j: int|
                0 <= j <= k && (#[trigger] servers[j]).def.task@ == task && p
                    == RoutePlan::Forward(servers[j].def.port, path)
        }),
{
    reveal_strlit("GET");
    reveal_strlit("POST");
    reveal_strlit("OPTIONS");
    assert("GET"@.len() == 3 && "POST"@.len() == 4 && "OPTIONS"@.len() == 7);
    reveal_strlit("/v1/chat/completions");
    reveal_strlit("/v1/completions");
    reveal_strlit("/v1/embeddings");
    assert("/v1/chat/completions"@.len() == 20 && "/v1/completions"@.len() == 15
        && "/v1/embeddings"@.len() == 14);
    let path = text::before_first(head.target, seq!['?']);
    let task = if path == "/v1/embeddings"@ {
        "embed"@
    } else {
        "instruct"@
    };
    if 0 <= k < servers.len() && servers[k].status == state::ServerStatus::Running
        && servers[k].def.task@ == task && servers[k].def.model_id@ == text::trim(model)
        && text::trim(model).len() > 0 {
        servers::law_first_exact_server_is_taken(servers, model, task, k);
    }
}

/// A request that posts to a path for models and tells no model cannot be served.
pub proof fn law_requests_without_a_model_fail(
    head: HeadTexts,
    key: Option<Seq<char>>,
    servers: Seq<LiveServer>,
)
    requires
        request::auth_result(head.headers, key) is Ok,
        head.method == "POST"@,
        ({
            ||| text::before_first(head.target, seq!['?']) == "/v1/chat/completions"@
            ||| text::before_first(head.target, seq!['?']) == "/v1/completions"@
            ||| text::before_first(head.target, seq!['?']) == "/v1/embeddings"@
        }),
    ensures
        plan(head, None, key, servers) is Fail,
{
    reveal_strlit("GET");
    reveal_strlit("POST");
    reveal_strlit("OPTIONS");
    assert("GET"@.len() == 3 && "POST"@.len() == 4 && "OPTIONS"@.len() == 7);
}

/// What is not for models is answered by the gateway itself: its health to anyone who asks for
/// it, the list of models to who brings the key and asks for it, 405 where it is asked for in
/// another way, and 404 for any other path.
pub proof fn law_other_paths(
    head: HeadTexts,
    model: Option<Seq<char>>,
    key: Option<Seq<char>>,
    servers: Seq<LiveServer>,
)
    requires
        head.method != "OPTIONS"@,
    ensures
        ({
            let path = text::before_first(head.target, seq!['?']);
            let p = plan(head, model, key, servers);
            let passes = request::auth_result(head.headers, key) is Ok;
            &&& path == "/health"@ && head.method == "GET"@ ==> (p matches RoutePlan::Plain(
                status,
                _,
                _,
            ) && status == 200)
            &&& path == "/v1/models"@ && passes && head.method == "GET"@ ==> p is ListModels
            &&& path == "/v1/models"@ && passes && head.method != "GET"@ ==> (
            p matches RoutePlan::Plain(status, _, _) && status == 405)
            &&& p is ListModels ==> path == "/v1/models"@ && passes && head.method == "GET"@
            &&& path != "/health"@ && path != "/v1/models"@ && path != "/v1/chat/completions"@
                && path != "/v1/completions"@ && path != "/v1/embeddings"@ && passes ==> (
            p matches RoutePlan::Plain(status, _, _) && status == 404)
        }),
{
    reveal_strlit("/v1/");
    reveal_strlit("/health");
    reveal_strlit("/v1/models");
    reveal_strlit("/v1/chat/completions");
    reveal_strlit("/v1/completions");
    reveal_strlit("/v1/embeddings");
    lemma_before_first_ends(head.target);
    let path = text::before_first(head.target, seq!['?']);
    if path == "/health"@ {
        assert(path[1] == 'h');
        assert(head.target.take(7)[1] == head.target[1]);
        if "/v1/"@.is_prefix_of(head.target) {
            assert(head.target.take(4)[1] == 'v');
        }
    }
    if path == "/v1/models"@ {
        assert(head.target.take(4) =~= "/v1/"@);
        assert("/v1/"@.is_prefix_of(head.target));
    }
    assert("/v1/models"@.len() == 10 && "/health"@.len() == 7 && "/v1/chat/completions"@.len()
        == 20 && "/v1/completions"@.len() == 15 && "/v1/embeddings"@.len() == 14);
}

/// A browser that asks what it may do is told so without a key, unless its origin is not
/// trusted; nothing is sent on for it.
pub proof fn law_preflight_needs_no_key(
    head: HeadTexts,
    model: Option<Seq<char>>,
    key: Option<Seq<char>>,
    servers: Seq<LiveServer>,
)
    requires
        head.method == "OPTIONS"@,
    ensures
        plan(head, model, key, servers) matches RoutePlan::Plain(status, _, _) && status == (if
        head.headers.contains_key("origin"@) && !reply::trusted_origin(
            head.headers["origin"@],
        ) {
            403u16
        } else {
            204u16
        }),
{
}

/// A listener that listens where it is wanted is left alone.
pub proof fn law_good_listener_is_kept(port: u16)
    ensures
        supervision(Some(Listener { port, finished: false }), Some(port)) == (Supervision {
            stop: false,
            start: None,
        }),
        supervision(None, None) == (Supervision { stop: false, start: None }),
{
}

/// A gateway that is switched on and has a key listens on its own port, and one that is
/// switched off on none.
pub proof fn law_gateway_listens_on_its_port(key: Seq<char>, port: u16)
    ensures
        text::trim(key).len() > 0 ==> wanted_port_of(true, Some(key), port) == Some(port),
        wanted_port_of(false, Some(key), port) is None,
        wanted_port_of(true, None, port) is None,
{
}

/// The server on a port is the first that has it.
pub proof fn law_server_on_port_has_it(servers: Seq<LiveServer>, port: u16, k: int)
    requires
        0 <= k < servers.len(),
    ensures
        servers[k].def.port == port ==> (on_port_from(servers, port, 0) matches Some(i) && i <= k),
        on_port_from(servers, port, 0) matches Some(i) ==> 0 <= i < servers.len()
            && servers[i].def.port == port,
{
    lemma_on_port(servers, port, 0, k);
}

proof fn lemma_on_port(servers: Seq<LiveServer>, port: u16, i: int, k: int)
    requires
        0 <= i <= servers.len(),
    ensures
        i <= k < servers.len() && servers[k].def.port == port ==> (on_port_from(
            servers,
            port,
            i,
        ) matches Some(j) && j <= k),
        on_port_from(servers, port, i) matches Some(j) ==> i <= j < servers.len()
            && servers[j].def.port == port,
    decreases servers.len() - i,
{
    if i < servers.len() && servers[i].def.port != port {
        lemma_on_port(servers, port, i + 1, k);
    }
}

} // verus!
