//! Answering a request.
use vstd::prelude::*;
use crate::json;
use crate::json::{Json, JsonTree};
use crate::numeral;
use crate::text;

verus! {

// ---------------------------------------------------------------------------
// Trusted origins
// ---------------------------------------------------------------------------

pub const CORS_HEADERS: &'static str =
    "Access-Control-Allow-Methods: GET, POST, OPTIONS\r\nAccess-Control-Allow-Headers: Content-Type, Authorization\r\n";

/// `port` is the numeral of a port.
pub open spec fn is_port(port: Seq<char>) -> bool {
    port.len() > 0 && numeral::all_digits(port) && 0 < numeral::digits_value(port) <= 0xffff
}

/// The origin is the address of a port on this machine, with the given front.
pub open spec fn is_local_origin(origin: Seq<char>, front: Seq<char>) -> bool {
    match text::without_prefix(origin, front) {
        Some(port) => is_port(port),
        None => false,
    }
}

/// The origins that browsers may use the gateway from: the panel itself and the ports of this
/// machine.
pub open spec fn trusted_origin(origin: Seq<char>) -> bool {
    origin == "tauri://localhost"@ || origin == "https://tauri.localhost"@ || is_local_origin(
        origin,
        "http://127.0.0.1:"@,
    ) || is_local_origin(origin, "http://localhost:"@)
}

fn port_is_good(port: &str) -> (r: bool)
    ensures
        r == is_port(port@),
{
    let cs = text::chars_of(port);
    if cs.len() == 0 {
        return false;
    }
    for i in 0..cs.len()
        invariant
            cs@ == port@,
            forall|j: int| 0 <= j < i ==> text::is_digit(#[trigger] port@[j]),
    {
        if cs[i] < '0' || cs[i] > '9' {
            assert(!text::is_digit(port@[i as int]));
            return false;
        }
    }
    assert(text::is_digit(port@[0]));
    match numeral::read_whole(port, 0xffff) {
        Some(n) => n > 0,
        None => false,
    }
}

fn origin_is_local(origin: &str, front: &str) -> (r: bool)
    ensures
        r == is_local_origin(origin@, front@),
{
    match text::strip_prefix(origin, front) {
        Some(port) => port_is_good(port),
        None => false,
    }
}

/// Whether browsers may use the gateway from an origin.
pub fn is_allowed_origin(origin: &str) -> (r: bool)
    ensures
        r == trusted_origin(origin@),
{
    text::same(origin, "tauri://localhost") || text::same(origin, "https://tauri.localhost")
        || origin_is_local(origin, "http://127.0.0.1:") || origin_is_local(
        origin,
        "http://localhost:",
    )
}

/// The header lines that let a browser use the answer: none unless its origin is trusted.
pub open spec fn cors_text(origin: Option<Seq<char>>) -> Seq<char> {
    match origin {
        Some(o) => if trusted_origin(o) {
            "Access-Control-Allow-Origin: "@ + o + "\r\nVary: Origin\r\n"@ + CORS_HEADERS@
        } else {
            Seq::empty()
        },
        None => Seq::empty(),
    }
}

/// The header lines that let a browser use the answer.
pub fn cors_headers(origin: Option<&str>) -> (r: String)
    ensures
        r@ == cors_text(text::opt_str(origin)),
{
    let mut out = String::new();
    if let Some(o) = origin {
        if is_allowed_origin(o) {
            out.append("Access-Control-Allow-Origin: ");
            out.append(o);
            out.append("\r\nVary: Origin\r\n");
            out.append(CORS_HEADERS);
            assert(out@ =~= cors_text(text::opt_str(origin)));
        }
    }
    out
}

/// An origin that is not trusted is told nothing.
pub proof fn law_untrusted_origins_are_not_echoed(origin: Seq<char>)
    requires
        !trusted_origin(origin),
    ensures
        cors_text(Some(origin)) == Seq::<char>::empty(),
{
}

// ---------------------------------------------------------------------------
// Heads
// ---------------------------------------------------------------------------

/// The words that go with a status.
pub open spec fn reason(status: u16) -> Seq<char> {
    if status == 204 {
        "No Content"@
    } else if status == 400 {
        "Bad Request"@
    } else if status == 401 {
        "Unauthorized"@
    } else if status == 403 {
        "Forbidden"@
    } else if status == 404 {
        "Not Found"@
    } else if status == 405 {
        "Method Not Allowed"@
    } else if status == 500 {
        "Internal Server Error"@
    } else if status == 503 {
        "Service Unavailable"@
    } else {
        "OK"@
    }
}

/// The words that go with a status.
pub fn status_reason(status: u16) -> (r: &'static str)
    ensures
        r@ == reason(status),
{
    if status == 204 {
        "No Content"
    } else if status == 400 {
        "Bad Request"
    } else if status == 401 {
        "Unauthorized"
    } else if status == 403 {
        "Forbidden"
    } else if status == 404 {
        "Not Found"
    } else if status == 405 {
        "Method Not Allowed"
    } else if status == 500 {
        "Internal Server Error"
    } else if status == 503 {
        "Service Unavailable"
    } else {
        "OK"
    }
}

/// The head of an answer whose body has the given length.
pub open spec fn head_text(
    status: u16,
    content_type: Seq<char>,
    length: nat,
    origin: Option<Seq<char>>,
) -> Seq<char> {
    "HTTP/1.1 "@ + numeral::decimal(status as nat) + " "@ + reason(status) + "\r\nContent-Type: "@
        + content_type + "\r\nContent-Length: "@ + numeral::decimal(length) + "\r\n"@ + cors_text(
        origin,
    ) + "Connection: close\r\n\r\n"@
}

/// The head of an answer whose body has the given length.
pub fn response_head(status: u16, content_type: &str, length: usize, origin: Option<&str>) -> (r:
    String)
    ensures
        r@ == head_text(status, content_type@, length as nat, text::opt_str(origin)),
{
    let mut out = "HTTP/1.1 ".to_string();
    out.append(&numeral::number_text(status as u64));
    out.append(" ");
    out.append(status_reason(status));
    out.append("\r\nContent-Type: ");
    out.append(content_type);
    out.append("\r\nContent-Length: ");
    out.append(&numeral::number_text(length as u64));
    out.append("\r\n");
    out.append(&cors_headers(origin));
    out.append("Connection: close\r\n\r\n");
    out
}

/// The head of an answer that is sent on as it arrives, with the status and the words of the
/// server that gives it.
pub open spec fn stream_head_text(
    status: u16,
    words: Seq<char>,
    origin: Option<Seq<char>>,
) -> Seq<char> {
    "HTTP/1.1 "@ + numeral::decimal(status as nat) + " "@ + words
        + "\r\nContent-Type: text/event-stream\r\nCache-Control: no-cache\r\nTransfer-Encoding: chunked\r\n"@
        + cors_text(origin) + "Connection: close\r\n\r\n"@
}

/// The head of an answer that is sent on as it arrives.
pub fn stream_head(status: u16, words: &str, origin: Option<&str>) -> (r: String)
    ensures
        r@ == stream_head_text(status, words@, text::opt_str(origin)),
{
    let mut out = "HTTP/1.1 ".to_string();
    out.append(&numeral::number_text(status as u64));
    out.append(" ");
    out.append(words);
    out.append(
        "\r\nContent-Type: text/event-stream\r\nCache-Control: no-cache\r\nTransfer-Encoding: chunked\r\n",
    );
    out.append(&cors_headers(origin));
    out.append("Connection: close\r\n\r\n");
    out
}

/// What stands before a piece of a streamed answer: its length in hexadecimal digits and a
/// line end. A line end stands behind it too, and the last piece is empty.
pub fn chunk_head(length: usize) -> (r: String)
    ensures
        r@ == numeral::hexadecimal(length as nat) + "\r\n"@,
{
    let mut out = numeral::hex_text(length as u128);
    out.append("\r\n");
    out
}

pub const CHUNK_END: &'static str = "\r\n";

pub const STREAM_END: &'static str = "0\r\n\r\n";

// ---------------------------------------------------------------------------
// Bodies
// ---------------------------------------------------------------------------

/// An error with its kind.
pub open spec fn error_tree(message: Seq<char>, kind: Seq<char>) -> JsonTree {
    JsonTree::Object(
        seq![
            (
                "error"@,
                JsonTree::Object(
                    seq![("message"@, JsonTree::Text(message)), ("type"@, JsonTree::Text(kind))],
                ),
            ),
        ],
    )
}

fn error_part(message: &str, kind: &str) -> (r: Json)
    ensures
        r.tree() == JsonTree::Object(
            seq![("message"@, JsonTree::Text(message@)), ("type"@, JsonTree::Text(kind@))],
        ),
{
    let mut m: Vec<(String, Json)> = Vec::new();
    json::put(&mut m, "message", json::string(message));
    json::put(&mut m, "type", json::string(kind));
    assert(json::members_tree(m@) =~= seq![
        ("message"@, JsonTree::Text(message@)),
        ("type"@, JsonTree::Text(kind@)),
    ]);
    json::object(m)
}

/// The body that tells of an error.
pub fn error_payload(message: &str, kind: &str) -> (r: Json)
    ensures
        r.tree() == error_tree(message@, kind@),
{
    let mut m: Vec<(String, Json)> = Vec::new();
    json::put(&mut m, "error", error_part(message, kind));
    assert(json::members_tree(m@) =~= error_tree(message@, kind@)->Object_0);
    json::object(m)
}

/// A row of strings.
pub open spec fn text_trees(names: Seq<Seq<char>>) -> Seq<JsonTree> {
    Seq::new(names.len(), |i: int| JsonTree::Text(names[i]))
}

/// The message that no server serves a model, with the models that are served.
pub open spec fn not_found_message(
    model: Seq<char>,
    kind: Seq<char>,
    running: Seq<Seq<char>>,
) -> Seq<char> {
    "no running "@ + kind + " server for model '"@ + model + "'. Running: ["@ + text::join(
        running,
        ", "@,
    ) + "]"@
}

/// The body that tells that no server serves a model.
pub open spec fn not_found_tree(
    model: Seq<char>,
    kind: Seq<char>,
    running: Seq<Seq<char>>,
) -> JsonTree {
    JsonTree::Object(
        seq![
            (
                "error"@,
                JsonTree::Object(
                    seq![
                        ("message"@, JsonTree::Text(not_found_message(model, kind, running))),
                        ("type"@, JsonTree::Text("invalid_request_error"@)),
                    ],
                ),
            ),
            ("running"@, JsonTree::Array(text_trees(running))),
        ],
    )
}

/// The body that tells that no server serves a model, with those that are served.
pub fn not_found_payload_with_hint(model: &str, kind: &str, running: &Vec<String>) -> (r: Json)
    ensures
        r.tree() == not_found_tree(model@, kind@, text::texts(running@)),
{
    let mut message = "no running ".to_string();
    message.append(kind);
    message.append(" server for model '");
    message.append(model);
    message.append("'. Running: [");
    message.append(&text::join_texts(running, ", "));
    message.append("]");
    let mut names: Vec<Json> = Vec::new();
    for i in 0..running.len()
        invariant
            json::trees(names@) == text_trees(text::texts(running@)).take(i as int),
    {
        let ghost before = json::trees(names@);
        names.push(json::string(&running[i]));
        assert(json::trees(names@) =~= before.push(JsonTree::Text(running@[i as int]@)));
        assert(text_trees(text::texts(running@)).take(i + 1) =~= before.push(
            JsonTree::Text(running@[i as int]@),
        ));
    }
    assert(text_trees(text::texts(running@)).take(running@.len() as int) =~= text_trees(
        text::texts(running@),
    ));
    let mut m: Vec<(String, Json)> = Vec::new();
    json::put(&mut m, "error", error_part(&message, "invalid_request_error"));
    json::put(&mut m, "running", json::array(names));
    assert(json::members_tree(m@) =~= not_found_tree(
        model@,
        kind@,
        text::texts(running@),
    )->Object_0);
    json::object(m)
}

/// What the client is told when a request cannot be served.
pub fn failure_text(message: &str) -> (r: String)
    ensures
        r@ == "gateway error: "@ + message@,
{
    let mut out = "gateway error: ".to_string();
    out.append(message);
    out
}

/// Browsers may use the gateway from the panel and from the ports of this machine, and from
/// nowhere else: a trusted origin is one of the panel's own or an address of this machine with
/// the numeral of a port behind it.
pub proof fn law_trusted_origins_are_local(origin: Seq<char>, port: Seq<char>)
    ensures
        trusted_origin("tauri://localhost"@),
        trusted_origin("https://tauri.localhost"@),
        port.len() > 0 && numeral::all_digits(port) && 1 <= numeral::digits_value(port) <= 65535
            ==> trusted_origin("http://127.0.0.1:"@ + port) && trusted_origin(
            "http://localhost:"@ + port,
        ),
        trusted_origin(origin) ==> {
            ||| origin == "tauri://localhost"@
            ||| origin == "https://tauri.localhost"@
            ||| "http://127.0.0.1:"@.is_prefix_of(origin) && origin.len() > 17
                && numeral::all_digits(origin.skip(17)) && 1 <= numeral::digits_value(
                origin.skip(17),
            ) <= 65535
            ||| "http://localhost:"@.is_prefix_of(origin) && origin.len() > 17
                && numeral::all_digits(origin.skip(17)) && 1 <= numeral::digits_value(
                origin.skip(17),
            ) <= 65535
        },
{
    reveal_strlit("http://127.0.0.1:");
    reveal_strlit("http://localhost:");
    let a = "http://127.0.0.1:"@ + port;
    let b = "http://localhost:"@ + port;
    assert("http://127.0.0.1:"@ =~= a.subrange(0, 17));
    assert("http://localhost:"@ =~= b.subrange(0, 17));
    assert(a.skip(17) =~= port);
    assert(b.skip(17) =~= port);
}

/// A trusted origin is told that it, and no other, may use the answer.
pub proof fn law_trusted_origins_are_echoed(origin: Seq<char>)
    requires
        trusted_origin(origin),
    ensures
        ("Access-Control-Allow-Origin: "@ + origin + "\r\n"@).is_prefix_of(
            cors_text(Some(origin)),
        ),
        cors_text(None) == Seq::<char>::empty(),
{
    reveal_strlit("\r\n");
    reveal_strlit("\r\nVary: Origin\r\n");
    let front = "Access-Control-Allow-Origin: "@ + origin + "\r\n"@;
    let all = cors_text(Some(origin));
    assert(front =~= all.subrange(0, front.len() as int));
}

/// The head of an answer tells its status and the length of its body, and ends with an empty
/// line.
pub proof fn law_head_tells_status_and_length(
    status: u16,
    content_type: Seq<char>,
    length: nat,
    origin: Option<Seq<char>>,
)
    ensures
        ({
            let h = head_text(status, content_type, length, origin);
            &&& ("HTTP/1.1 "@ + numeral::decimal(status as nat) + " "@).is_prefix_of(h)
            &&& text::occurs(
                h,
                "\r\nContent-Type: "@ + content_type + "\r\nContent-Length: "@ + numeral::decimal(
                    length,
                ) + "\r\n"@,
            )
            &&& "\r\n\r\n"@.is_suffix_of(h)
        }),
{
    let h = head_text(status, content_type, length, origin);
    let front = "HTTP/1.1 "@ + numeral::decimal(status as nat) + " "@;
    assert(front =~= h.subrange(0, front.len() as int));
    let before = front + reason(status);
    let middle = "\r\nContent-Type: "@ + content_type + "\r\nContent-Length: "@ + numeral::decimal(
        length,
    ) + "\r\n"@;
    let i = before.len() as int;
    assert(h.subrange(i, i + middle.len()) =~= middle);
    assert(text::occurs_at(h, middle, i));
    reveal_strlit("\r\n\r\n");
    reveal_strlit("Connection: close\r\n\r\n");
    assert("\r\n\r\n"@ =~= h.subrange(h.len() - 4, h.len() as int));
}

/// The words of a status are those that go with it.
pub proof fn law_status_words(status: u16)
    ensures
        status == 200 ==> reason(status) == "OK"@,
        status == 204 ==> reason(status) == "No Content"@,
        status == 400 ==> reason(status) == "Bad Request"@,
        status == 401 ==> reason(status) == "Unauthorized"@,
        status == 403 ==> reason(status) == "Forbidden"@,
        status == 404 ==> reason(status) == "Not Found"@,
        status == 405 ==> reason(status) == "Method Not Allowed"@,
        status == 500 ==> reason(status) == "Internal Server Error"@,
        status == 503 ==> reason(status) == "Service Unavailable"@,
{
}

/// An error is told under the names that clients look for: its message and its kind.
pub proof fn law_errors_are_told(message: Seq<char>, kind: Seq<char>)
    ensures
        error_tree(message, kind).member("error"@) matches Some(e) && e.text_member("message"@)
            == Some(message) && e.text_member("type"@) == Some(kind),
{
    reveal_strlit("message");
    reveal_strlit("type");
    assert("message"@.len() != "type"@.len());
    reveal_with_fuel(json::member_from, 3);
}

/// Who asks for a model that no server has is told which models there are, by name and in the
/// message.
pub proof fn law_running_models_are_told(
    model: Seq<char>,
    kind: Seq<char>,
    running: Seq<Seq<char>>,
    i: int,
)
    requires
        0 <= i < running.len(),
    ensures
        not_found_tree(model, kind, running).member("running"@) matches Some(JsonTree::Array(names))
            && names.len() == running.len() && names[i] == JsonTree::Text(running[i]),
        not_found_tree(model, kind, running).member("error"@) matches Some(e) && (e.text_member(
            "message"@,
        ) matches Some(m) && text::occurs(m, model) && text::occurs(m, text::join(running, ", "@))),
{
    reveal_strlit("message");
    reveal_strlit("type");
    reveal_strlit("error");
    reveal_strlit("running");
    assert("message"@.len() != "type"@.len());
    assert("error"@.len() != "running"@.len());
    reveal_with_fuel(json::member_from, 3);
    let m = not_found_message(model, kind, running);
    let a = ("no running "@ + kind + " server for model '"@).len() as int;
    assert(m.subrange(a, a + model.len()) =~= model);
    assert(text::occurs_at(m, model, a));
    let names = text::join(running, ", "@);
    let b = ("no running "@ + kind + " server for model '"@ + model + "'. Running: ["@).len() as int;
    assert(m.subrange(b, b + names.len()) =~= names);
    assert(text::occurs_at(m, names, b));
}

} // verus!
