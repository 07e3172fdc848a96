//! Reading a request: its head, its key, the model that it asks for.
use vstd::prelude::*;
use vstd::utf8;
use crate::json;
use crate::json::JsonTree;
use crate::numeral;
use crate::outside;
use crate::state;
use crate::text;
use crate::text_map::TextMap;

verus! {

// ---------------------------------------------------------------------------
// The head
// ---------------------------------------------------------------------------

/// The first lines of a request.
#[derive(Debug)]
pub struct RequestHead {
    pub method: String,
    pub target: String,
    /// The header fields by their names in small letters.
    pub headers: TextMap,
    pub content_length: usize,
}

/// The blank line that ends a head stands at place `i`.
pub open spec fn head_ends_at(buf: Seq<u8>, i: int) -> bool {
    0 <= i && i + 4 <= buf.len() && buf[i] == 13 && buf[i + 1] == 10 && buf[i + 2] == 13 && buf[i
        + 3] == 10
}

/// The place of the first blank line at or after place `i` that ends a head.
pub open spec fn head_end(buf: Seq<u8>, i: int) -> Option<int>
    decreases buf.len() - i,
{
    if i < 0 || i + 4 > buf.len() {
        None
    } else if head_ends_at(buf, i) {
        Some(i)
    } else {
        head_end(buf, i + 1)
    }
}

/// The place of the first blank line that ends a head.
pub fn is_head_terminated(buf: &[u8]) -> (r: Option<usize>)
    ensures
        match r {
            Some(i) => head_end(buf@, 0) == Some(i as int) && i + 4 <= buf@.len(),
            None => head_end(buf@, 0) is None,
        },
{
    if buf.len() < 4 {
        return None;
    }
    let last: usize = buf.len() - 4;
    let mut i: usize = 0;
    while i <= last
        invariant
            last + 4 == buf@.len(),
            i <= last + 1,
            head_end(buf@, 0) == head_end(buf@, i as int),
        decreases last + 1 - i,
    {
        if buf[i] == 13 && buf[i + 1] == 10 && buf[i + 2] == 13 && buf[i + 3] == 10 {
            return Some(i);
        }
        i += 1;
    }
    None
}

/// The line at the front of `s`, with what comes after its end.
pub open spec fn front_line(s: Seq<char>) -> (Seq<char>, Option<Seq<char>>) {
    match text::find(s, "\r\n"@) {
        Some(i) => (s.take(i), Some(s.skip(i + 2))),
        None => (s, None),
    }
}

/// The name of a header field: what stands before the first colon, without the white space
/// at its ends, in small letters.
pub open spec fn field_name(line: Seq<char>) -> Seq<char> {
    text::ascii_lowercase(text::trim(text::before_first(line, seq![':'])))
}

/// The value of a header field: what stands behind the first colon, without the white space
/// at its ends.
pub open spec fn field_value(line: Seq<char>) -> Seq<char> {
    match text::after_first(line, seq![':']) {
        Some(v) => text::trim(v),
        None => text::trim(""@),
    }
}

/// The header fields up to the first empty line, and the length of the body that they tell.
/// Of two fields with the same name the later one counts.
pub open spec fn fields_of(
    rest: Option<Seq<char>>,
    headers: Map<Seq<char>, Seq<char>>,
    length: usize,
) -> (Map<Seq<char>, Seq<char>>, usize)
    decreases
            (match rest {
                Some(s) => s.len() + 1,
                None => 0,
            }),
{
    match rest {
        None => (headers, length),
        Some(s) => {
            let (line, after) = front_line(s);
            if line.len() == 0 {
                (headers, length)
            } else {
                proof {
                    lemma_rest_is_shorter(s);
                }
                let name = field_name(line);
                let value = field_value(line);
                fields_of(
                    after,
                    headers.insert(name, value),
                    if name == "content-length"@ {
                        match numeral::whole_number(value, usize::MAX as nat) {
                            Some(n) => n as usize,
                            None => 0,
                        }
                    } else {
                        length
                    },
                )
            }
        },
    }
}

/// The method and the target of a request line: its first two words.
pub open spec fn request_words(line: Seq<char>) -> Option<(Seq<char>, Seq<char>)> {
    match text::first_word(line) {
        None => None,
        Some((method, rest)) => match text::first_word(rest) {
            None => None,
            Some((target, _)) => Some((method, target)),
        },
    }
}

/// What the head of a request says.
#[verifier::ext_equal]
pub struct HeadTexts {
    pub method: Seq<char>,
    pub target: Seq<char>,
    pub headers: Map<Seq<char>, Seq<char>>,
    pub content_length: usize,
}

impl View for RequestHead {
    type V = HeadTexts;

    open spec fn view(&self) -> HeadTexts {
        HeadTexts {
            method: self.method@,
            target: self.target@,
            headers: self.headers@,
            content_length: self.content_length,
        }
    }
}

/// What an optional head says.
pub open spec fn opt_head(r: Option<RequestHead>) -> Option<HeadTexts> {
    match r {
        Some(h) => Some(h@),
        None => None,
    }
}

/// The head that the bytes hold: there is none where they are not UTF-8 or where the first
/// line does not have two words.
pub open spec fn head_of(bytes: Seq<u8>) -> Option<HeadTexts> {
    if !utf8::valid_utf8(bytes) {
        None
    } else {
        let (line, after) = front_line(utf8::decode_utf8(bytes));
        match request_words(line) {
            None => None,
            Some((method, target)) => {
                let (headers, content_length) = fields_of(after, Map::empty(), 0);
                Some(HeadTexts { method, target, headers, content_length })
            },
        }
    }
}

/// What comes after a line is shorter than what the line stood in.
pub proof fn lemma_rest_is_shorter(s: Seq<char>)
    ensures
        front_line(s).1 matches Some(a) ==> a.len() + 2 <= s.len(),
{
    reveal_strlit("\r\n");
    text::lemma_find_in_range(s, "\r\n"@, 0);
}

fn take_line<'a>(s: &'a str) -> (r: (&'a str, Option<&'a str>))
    ensures
        front_line(s@) == (r.0@, text::opt_str(r.1)),
        r.1 matches Some(a) ==> a@.len() + 2 <= s@.len(),
{
    proof {
        reveal_strlit("\r\n");
        text::lemma_find_in_range(s@, "\r\n"@, 0);
        lemma_rest_is_shorter(s@);
    }
    match text::find_text(s, "\r\n") {
        Some(i) => {
            let n: usize = s.unicode_len();
            let line = s.substring_char(0, i);
            let after = s.substring_char(i + 2, n);
            assert(line@ =~= s@.take(i as int));
            assert(after@ =~= s@.skip(i + 2));
            (line, Some(after))
        },
        None => (s, None),
    }
}

/// Reads the head of a request.
pub fn parse_head(bytes: &[u8]) -> (r: Option<RequestHead>)
    ensures
        opt_head(r) == head_of(bytes@),
{
    let Some(all) = outside::utf8_text(bytes) else {
        return None;
    };
    let (line, after): (&str, Option<&str>) = take_line(&all);
    let Some((method, behind)) = text::next_word(line) else {
        return None;
    };
    let Some((target, _)) = text::next_word(behind) else {
        return None;
    };
    let mut headers = TextMap::new();
    let mut content_length: usize = 0;
    let mut rest: Option<&str> = after;
    let colon = [':'];
    assert(colon@ == seq![':']);
    loop
        invariant
            colon@ == seq![':'],
            fields_of(text::opt_str(after), Map::empty(), 0) == fields_of(
                text::opt_str(rest),
                headers@,
                content_length,
            ),
        ensures
            fields_of(text::opt_str(after), Map::empty(), 0) == (headers@, content_length),
        decreases
                (match text::opt_str(rest) {
                    Some(s) => s.len() + 1,
                    None => 0,
                }),
    {
        let Some(s) = rest else {
            break;
        };
        let (field, behind): (&str, Option<&str>) = take_line(s);
        if field.unicode_len() == 0 {
            break;
        }
        let name = text::ascii_lowered(text::trimmed(text::head_before(field, &colon)));
        let value: &str = match text::rest_after(field, &colon) {
            Some(v) => text::trimmed(v),
            None => text::trimmed(""),
        };
        if text::same(&name, "content-length") {
            content_length = match numeral::read_whole(value, usize::MAX as u64) {
                Some(n) => n as usize,
                None => 0,
            };
        }
        headers.insert(name, value.to_string());
        rest = behind;
    }
    Some(
        RequestHead {
            method: method.to_string(),
            target: target.to_string(),
            headers,
            content_length,
        },
    )
}

// ---------------------------------------------------------------------------
// The key
// ---------------------------------------------------------------------------

/// Whether two texts are the same, in a time that does not depend on where they differ.
pub fn constant_time_eq(left: &str, right: &str) -> (r: bool)
    ensures
        r == (left@ == right@),
{
    broadcast use utf8::encode_utf8_decode_utf8;

    let a = left.as_bytes();
    let b = right.as_bytes();
    assert(left@ == right@ <==> a@ == b@) by {
        assert(utf8::decode_utf8(utf8::encode_utf8(left@)) == left@);
        assert(utf8::decode_utf8(utf8::encode_utf8(right@)) == right@);
    }
    if a.len() != b.len() {
        return false;
    }
    let mut diff: u8 = 0;
    assert(a@.take(0) =~= b@.take(0));
    for i in 0..a.len()
        invariant
            a@.len() == b@.len(),
            diff == 0 <==> a@.take(i as int) == b@.take(i as int),
    {
        let x: u8 = a[i];
        let y: u8 = b[i];
        assert((diff | (x ^ y)) == 0 <==> (diff == 0 && x == y)) by (bit_vector);
        proof {
            let ta = a@.take(i + 1);
            let tb = b@.take(i + 1);
            assert(ta =~= a@.take(i as int).push(x));
            assert(tb =~= b@.take(i as int).push(y));
            if ta == tb {
                assert(ta.drop_last() =~= a@.take(i as int));
                assert(tb.drop_last() =~= b@.take(i as int));
                assert(ta.last() == x && tb.last() == y);
            }
        }
        diff = diff | (x ^ y);
    }
    assert(a@.take(a@.len() as int) =~= a@);
    assert(b@.take(b@.len() as int) =~= b@);
    diff == 0
}

pub const NO_KEY_MESSAGE: &'static str =
    "Gateway API key is not configured; set one in Settings before using /v1 routes";

/// Why a request is turned away.
#[derive(Clone, Copy, Debug, PartialEq, Eq, Structural)]
pub enum AuthFailure {
    /// There is no key to hold requests against.
    NotConfigured,
    InvalidKey,
    WrongScheme,
    MissingHeader,
}

impl AuthFailure {
    /// The status that the request is answered with.
    pub open spec fn code(self) -> u16 {
        match self {
            AuthFailure::NotConfigured => 503,
            _ => 401,
        }
    }

    /// The message that the request is answered with.
    pub open spec fn words(self) -> Seq<char> {
        match self {
            AuthFailure::NotConfigured => NO_KEY_MESSAGE@,
            AuthFailure::InvalidKey => "Invalid API key"@,
            AuthFailure::WrongScheme => "Authorization header must use Bearer scheme"@,
            AuthFailure::MissingHeader => "Missing Authorization header"@,
        }
    }

    /// The status that the request is answered with.
    pub fn status(self) -> (r: u16)
        ensures
            r == self.code(),
    {
        match self {
            AuthFailure::NotConfigured => 503,
            _ => 401,
        }
    }

    /// The message that the request is answered with.
    pub fn message(self) -> (r: &'static str)
        ensures
            r@ == self.words(),
    {
        match self {
            AuthFailure::NotConfigured => NO_KEY_MESSAGE,
            AuthFailure::InvalidKey => "Invalid API key",
            AuthFailure::WrongScheme => "Authorization header must use Bearer scheme",
            AuthFailure::MissingHeader => "Missing Authorization header",
        }
    }
}

/// The credentials that a request brings.
pub open spec fn auth_header(headers: Map<Seq<char>, Seq<char>>) -> Option<Seq<char>> {
    if headers.contains_key("authorization"@) {
        Some(headers["authorization"@])
    } else if headers.contains_key("Authorization"@) {
        Some(headers["Authorization"@])
    } else {
        None
    }
}

/// Whether a request may pass, and if not, why. Without a key of its own the gateway turns
/// every request away.
pub open spec fn auth_result(headers: Map<Seq<char>, Seq<char>>, key: Option<Seq<char>>) -> Result<
    (),
    AuthFailure,
> {
    match state::set_text(key) {
        None => Err(AuthFailure::NotConfigured),
        Some(expected) => match auth_header(headers) {
            None => Err(AuthFailure::MissingHeader),
            Some(h) => match text::without_prefix(h, "Bearer "@) {
                None => Err(AuthFailure::WrongScheme),
                Some(given) => if text::trim(given).len() > 0 && text::trim(given) == expected {
                    Ok(())
                } else {
                    Err(AuthFailure::InvalidKey)
                },
            },
        },
    }
}

/// Whether a request may pass, and if not, the reason.
pub fn gateway_auth(headers: &TextMap, global_key: Option<&str>) -> (r: Result<(), AuthFailure>)
    ensures
        r == auth_result(headers@, text::opt_str(global_key)),
{
    let Some(expected) = state::set_value(global_key) else {
        return Err(AuthFailure::NotConfigured);
    };
    let given: Option<&String> = match headers.get("authorization") {
        Some(h) => Some(h),
        None => headers.get("Authorization"),
    };
    let Some(h) = given else {
        return Err(AuthFailure::MissingHeader);
    };
    match text::strip_prefix(h, "Bearer ") {
        None => Err(AuthFailure::WrongScheme),
        Some(rest) => {
            let provided = text::trimmed(rest);
            if provided.unicode_len() > 0 && constant_time_eq(provided, expected) {
                Ok(())
            } else {
                Err(AuthFailure::InvalidKey)
            }
        },
    }
}

/// Whether a request may pass, and if not, the status and the message that it is answered
/// with.
pub fn check_gateway_auth(headers: &TextMap, global_key: Option<&str>) -> (r: Result<
    (),
    (u16, String),
>)
    ensures
        match auth_result(headers@, text::opt_str(global_key)) {
            Ok(()) => r is Ok,
            Err(why) => r matches Err((status, message)) && status == why.code() && message@
                == why.words(),
        },
{
    match gateway_auth(headers, global_key) {
        Ok(()) => Ok(()),
        Err(why) => Err((why.status(), why.message().to_string())),
    }
}

/// A request passes only with the very key of the gateway.
pub proof fn law_only_the_key_passes(headers: Map<Seq<char>, Seq<char>>, key: Option<Seq<char>>)
    requires
        auth_result(headers, key) is Ok,
    ensures
        key matches Some(k) && text::trim(k).len() > 0 && (auth_header(headers) matches Some(h)
            && (text::without_prefix(h, "Bearer "@) matches Some(given) && text::trim(given)
            == text::trim(k))),
{
}

/// A gateway without a key lets no request pass.
pub proof fn law_no_key_closes_the_gateway(
    headers: Map<Seq<char>, Seq<char>>,
    key: Option<Seq<char>>,
)
    requires
        key matches Some(k) ==> text::trim(k).len() == 0,
    ensures
        auth_result(headers, key) == Err::<(), AuthFailure>(AuthFailure::NotConfigured),
{
}

// ---------------------------------------------------------------------------
// The target
// ---------------------------------------------------------------------------

/// The number that a hexadecimal digit stands for.
pub open spec fn hex_value(b: u8) -> Option<u8> {
    if 0x30 <= b <= 0x39 {
        Some((b - 0x30) as u8)
    } else if 0x61 <= b <= 0x66 {
        Some((b - 0x57) as u8)
    } else if 0x41 <= b <= 0x46 {
        Some((b - 0x37) as u8)
    } else {
        None
    }
}

/// The bytes that a part of a path stands for from place `i` on: `%` and two hexadecimal
/// digits stand for one byte, any other byte for itself.
pub open spec fn decoded_from(bytes: Seq<u8>, i: int) -> Option<Seq<u8>>
    decreases bytes.len() - i,
{
    if i < 0 || i >= bytes.len() {
        Some(Seq::empty())
    } else if bytes[i] != 0x25 {
        match decoded_from(bytes, i + 1) {
            Some(rest) => Some(seq![bytes[i]] + rest),
            None => None,
        }
    } else if i + 2 >= bytes.len() {
        None
    } else {
        match (hex_value(bytes[i + 1]), hex_value(bytes[i + 2])) {
            (Some(high), Some(low)) => match decoded_from(bytes, i + 3) {
                Some(rest) => Some(seq![(16 * high + low) as u8] + rest),
                None => None,
            },
            _ => None,
        }
    }
}

/// The text that a part of a path stands for.
pub open spec fn path_text(s: Seq<char>) -> Option<Seq<char>> {
    match decoded_from(utf8::encode_utf8(s), 0) {
        Some(bytes) => if utf8::valid_utf8(bytes) {
            Some(utf8::decode_utf8(bytes))
        } else {
            None
        },
        None => None,
    }
}

fn digit_value(b: u8) -> (r: Option<u8>)
    ensures
        r == hex_value(b),
        r matches Some(v) ==> v < 16,
{
    if 0x30 <= b && b <= 0x39 {
        Some(b - 0x30)
    } else if 0x61 <= b && b <= 0x66 {
        Some(b - 0x57)
    } else if 0x41 <= b && b <= 0x46 {
        Some(b - 0x37)
    } else {
        None
    }
}

/// `front` and what the rest decodes to.
pub open spec fn joined(front: Seq<u8>, rest: Option<Seq<u8>>) -> Option<Seq<u8>> {
    match rest {
        Some(r) => Some(front + r),
        None => None,
    }
}

proof fn lemma_joined(front: Seq<u8>, b: u8, rest: Option<Seq<u8>>)
    ensures
        joined(front, joined(seq![b], rest)) == joined(front.push(b), rest),
{
    if let Some(r) = rest {
        assert(front + (seq![b] + r) =~= front.push(b) + r);
    }
}

/// The text that a part of a path stands for.
pub fn decode_path_component(value: &str) -> (r: Option<String>)
    ensures
        text::opt_text(r) == path_text(value@),
{
    let bytes = value.as_bytes();
    let mut decoded: Vec<u8> = Vec::new();
    let mut i: usize = 0;
    proof {
        if let Some(all) = decoded_from(bytes@, 0) {
            assert(decoded@ + all =~= all);
        }
    }
    while i < bytes.len()
        invariant
            i <= bytes@.len(),
            bytes@ == utf8::encode_utf8(value@),
            decoded_from(bytes@, 0) == joined(decoded@, decoded_from(bytes@, i as int)),
        decreases bytes@.len() - i,
    {
        let ghost front = decoded@;
        if bytes[i] != 0x25 {
            proof {
                lemma_joined(front, bytes@[i as int], decoded_from(bytes@, i + 1));
            }
            decoded.push(bytes[i]);
            i += 1;
        } else {
            if bytes.len() - i < 3 {
                return None;
            }
            let Some(high) = digit_value(bytes[i + 1]) else {
                return None;
            };
            let Some(low) = digit_value(bytes[i + 2]) else {
                return None;
            };
            let b: u8 = 16 * high + low;
            proof {
                lemma_joined(front, b, decoded_from(bytes@, i + 3));
            }
            decoded.push(b);
            i += 3;
        }
    }
    assert(decoded@ + Seq::<u8>::empty() =~= decoded@);
    outside::utf8_text(&decoded)
}

/// The name of a model in the path of a request.
pub open spec fn model_in_path(path: Seq<char>) -> Option<Seq<char>> {
    match text::without_prefix(text::before_first(path, seq!['?']), "/v1/models/"@) {
        Some(raw) => if raw.len() > 0 {
            path_text(raw)
        } else {
            None
        },
        None => None,
    }
}

/// The name of a model in the path of a request.
pub fn model_id_from_path(path: &str) -> (r: Option<String>)
    ensures
        text::opt_text(r) == model_in_path(path@),
{
    let mark = ['?'];
    assert(mark@ == seq!['?']);
    match text::strip_prefix(text::head_before(path, &mark), "/v1/models/") {
        Some(raw) => if raw.unicode_len() > 0 {
            decode_path_component(raw)
        } else {
            None
        },
        None => None,
    }
}

// ---------------------------------------------------------------------------
// The body
// ---------------------------------------------------------------------------

/// The model that a body asks for.
pub open spec fn model_in(body: Option<JsonTree>) -> Option<Seq<char>> {
    match body {
        Some(t) => t.text_member("model"@),
        None => None,
    }
}

/// Whether a body asks for the answer as a stream.
pub open spec fn stream_in(body: Option<JsonTree>) -> bool {
    match body {
        Some(t) => match t.member("stream"@) {
            Some(v) => v.as_bool() == Some(true),
            None => false,
        },
        None => false,
    }
}

/// The model that a document asks for.
pub fn model_of(body: &Option<json::Json>) -> (r: Option<String>)
    ensures
        text::opt_text(r) == model_in(json::own_tree(*body)),
{
    match body {
        Some(j) => match j.get_str("model") {
            Some(s) => Some(s.to_string()),
            None => None,
        },
        None => None,
    }
}

/// Whether a document asks for the answer as a stream.
pub fn stream_of(body: &Option<json::Json>) -> (r: bool)
    ensures
        r == stream_in(json::own_tree(*body)),
{
    match body {
        Some(j) => match j.get("stream") {
            Some(v) => match v.as_bool() {
                Some(b) => b,
                None => false,
            },
            None => false,
        },
        None => false,
    }
}

/// The model that the body of a request asks for.
pub fn model_from_body(body: &[u8]) -> (r: Option<String>)
    ensures
        text::opt_text(r) == model_in(outside::json_parsed(body@)),
{
    model_of(&json::parse(body))
}

/// Whether the body of a request asks for the answer as a stream.
pub fn wants_stream(body: &[u8]) -> (r: bool)
    ensures
        r == stream_in(outside::json_parsed(body@)),
{
    stream_of(&json::parse(body))
}

// ---------------------------------------------------------------------------
// Reading from a connection
// ---------------------------------------------------------------------------

pub const MAX_HEAD_BYTES: usize = 32_768;

pub const MAX_BODY_BYTES: usize = 33_554_432;

/// Why a request cannot be read.
#[derive(Clone, Copy, Debug, PartialEq, Eq, Structural)]
pub enum ReadFailure {
    HeadTooLarge,
    MalformedHead,
    BodyTooLarge,
    ClosedInHead,
    ClosedInBody,
}

impl ReadFailure {
    /// The failure in words.
    pub open spec fn words(self) -> Seq<char> {
        match self {
            ReadFailure::HeadTooLarge => "request head too large"@,
            ReadFailure::MalformedHead => "malformed request head"@,
            ReadFailure::BodyTooLarge => "request body too large"@,
            ReadFailure::ClosedInHead => "connection closed before request completed"@,
            ReadFailure::ClosedInBody => "connection closed during body"@,
        }
    }

    /// The failure in words.
    pub fn message(self) -> (r: &'static str)
        ensures
            r@ == self.words(),
    {
        match self {
            ReadFailure::HeadTooLarge => "request head too large",
            ReadFailure::MalformedHead => "malformed request head",
            ReadFailure::BodyTooLarge => "request body too large",
            ReadFailure::ClosedInHead => "connection closed before request completed",
            ReadFailure::ClosedInBody => "connection closed during body",
        }
    }
}

/// What is to be done after some bytes of a request have arrived.
#[derive(Debug)]
pub enum ReadStep {
    /// The request is not complete: read on.
    More,
    Fail(ReadFailure),
    Ready(RequestHead, Vec<u8>),
}

/// What a step says.
pub enum ReadPlan {
    More,
    Fail(ReadFailure),
    Ready(HeadTexts, Seq<u8>),
}

impl View for ReadStep {
    type V = ReadPlan;

    open spec fn view(&self) -> ReadPlan {
        match *self {
            ReadStep::More => ReadPlan::More,
            ReadStep::Fail(f) => ReadPlan::Fail(f),
            ReadStep::Ready(head, body) => ReadPlan::Ready(head@, body@),
        }
    }
}

/// What is to be done when the bytes in `buf` have arrived, and no more will where the
/// connection is closed.
pub open spec fn read_plan(buf: Seq<u8>, closed: bool) -> ReadPlan {
    match head_end(buf, 0) {
        None => if buf.len() > MAX_HEAD_BYTES {
            ReadPlan::Fail(ReadFailure::HeadTooLarge)
        } else if closed {
            ReadPlan::Fail(ReadFailure::ClosedInHead)
        } else {
            ReadPlan::More
        },
        Some(sep) => match head_of(buf.take(sep)) {
            None => ReadPlan::Fail(ReadFailure::MalformedHead),
            Some(head) => if head.content_length > MAX_BODY_BYTES {
                ReadPlan::Fail(ReadFailure::BodyTooLarge)
            } else if buf.len() < sep + 4 + head.content_length {
                if closed {
                    ReadPlan::Fail(ReadFailure::ClosedInBody)
                } else {
                    ReadPlan::More
                }
            } else {
                ReadPlan::Ready(head, buf.subrange(sep + 4, sep + 4 + head.content_length))
            },
        },
    }
}

/// What is to be done when the bytes in `buf` have arrived.
pub fn read_step(buf: &[u8], closed: bool) -> (r: ReadStep)
    ensures
        r@ == read_plan(buf@, closed),
{
    let n: usize = buf.len();
    let Some(sep) = is_head_terminated(buf) else {
        if n > MAX_HEAD_BYTES {
            return ReadStep::Fail(ReadFailure::HeadTooLarge);
        }
        if closed {
            return ReadStep::Fail(ReadFailure::ClosedInHead);
        }
        return ReadStep::More;
    };
    let front = vstd::slice::slice_subrange(buf, 0, sep);
    assert(front@ =~= buf@.take(sep as int));
    let Some(head) = parse_head(front) else {
        return ReadStep::Fail(ReadFailure::MalformedHead);
    };
    if head.content_length > MAX_BODY_BYTES {
        return ReadStep::Fail(ReadFailure::BodyTooLarge);
    }
    let total: usize = sep + 4;
    if n - total < head.content_length {
        if closed {
            return ReadStep::Fail(ReadFailure::ClosedInBody);
        }
        return ReadStep::More;
    }
    let body = vstd::slice::slice_subrange(buf, total, total + head.content_length);
    ReadStep::Ready(head, vstd::slice::slice_to_vec(body))
}

proof fn lemma_head_end_longer(buf: Seq<u8>, more: Seq<u8>, i: int)
    requires
        0 <= i,
        head_end(buf, i) is Some,
    ensures
        head_end(buf + more, i) == head_end(buf, i),
        i <= head_end(buf, i)->0,
        head_end(buf, i)->0 + 4 <= buf.len(),
    decreases buf.len() - i,
{
    if !head_ends_at(buf, i) {
        lemma_head_end_longer(buf, more, i + 1);
    }
}

/// A request that has been read is not changed by the bytes that come after it.
pub proof fn law_request_is_read_once(buf: Seq<u8>, more: Seq<u8>, closed: bool)
    requires
        read_plan(buf, closed) is Ready,
    ensures
        read_plan(buf + more, closed) == read_plan(buf, closed),
{
    lemma_head_end_longer(buf, more, 0);
    let sep = head_end(buf, 0)->0;
    assert((buf + more).take(sep) =~= buf.take(sep));
    let n = head_of(buf.take(sep))->0.content_length;
    assert((buf + more).subrange(sep + 4, sep + 4 + n) =~= buf.subrange(sep + 4, sep + 4 + n));
}

/// Reading a request comes to an end: more bytes are asked for only while the head, or after
/// it the body, is shorter than it may be.
pub proof fn law_reading_is_bounded(buf: Seq<u8>)
    requires
        read_plan(buf, false) is More,
    ensures
        match head_end(buf, 0) {
            None => buf.len() <= MAX_HEAD_BYTES,
            Some(sep) => buf.len() < sep + 4 + MAX_BODY_BYTES,
        },
{
}

// ---------------------------------------------------------------------------
// Laws of reading
// ---------------------------------------------------------------------------

/// A request is complete when its head has ended with an empty line and as many bytes have
/// come after it as the head tells: those bytes are its body, and the head is what stands
/// before the first empty line.
pub proof fn law_body_is_what_the_head_tells(buf: Seq<u8>, closed: bool)
    requires
        read_plan(buf, closed) is Ready,
    ensures
        read_plan(buf, closed) matches ReadPlan::Ready(head, body) && {
            &&& body.len() == head.content_length
            &&& body.len() <= 33_554_432
            &&& exists|sep: int|
                0 <= sep && sep + 4 + body.len() <= buf.len() && head_of(#[trigger] buf.take(sep))
                    == Some(head) && buf.subrange(sep + 4, sep + 4 + body.len()) == body && buf[sep]
                    == 13 && buf[sep + 1] == 10 && buf[sep + 2] == 13 && buf[sep + 3] == 10
        },
{
    lemma_head_end_is_there(buf, 0);
    let sep = head_end(buf, 0)->0;
    assert(head_of(buf.take(sep)) is Some);
}

proof fn lemma_head_end_is_there(buf: Seq<u8>, i: int)
    requires
        0 <= i,
    ensures
        match head_end(buf, i) {
            Some(k) => i <= k && head_ends_at(buf, k) && forall|j: int|
                i <= j < k ==> !#[trigger] head_ends_at(buf, j),
            None => forall|j: int| i <= j ==> !#[trigger] head_ends_at(buf, j),
        },
    decreases buf.len() - i,
{
    if i + 4 <= buf.len() && !head_ends_at(buf, i) {
        lemma_head_end_is_there(buf, i + 1);
    }
}

/// A connection that is closed early, a head of more than 32768 bytes and a body of more than
/// 32 MiB are failures, each of its own kind; a connection that stays open is waited for.
pub proof fn law_reading_failures(buf: Seq<u8>)
    ensures
        read_plan(buf, true) !is More,
        read_plan(buf, false) is More <==> (read_plan(buf, true) == ReadPlan::Fail(
            ReadFailure::ClosedInHead,
        ) || read_plan(buf, true) == ReadPlan::Fail(ReadFailure::ClosedInBody)),
        head_end(buf, 0) is None && buf.len() > 32_768 ==> read_plan(buf, false) == ReadPlan::Fail(
            ReadFailure::HeadTooLarge,
        ),
        head_end(buf, 0) is None && buf.len() <= 32_768 ==> read_plan(buf, true) == ReadPlan::Fail(
            ReadFailure::ClosedInHead,
        ),
        head_end(buf, 0) matches Some(sep) ==> {
            &&& head_of(buf.take(sep)) is None ==> read_plan(buf, false) == ReadPlan::Fail(
                ReadFailure::MalformedHead,
            )
            &&& head_of(buf.take(sep)) matches Some(h) ==> (h.content_length > 33_554_432
                ==> read_plan(buf, false) == ReadPlan::Fail(ReadFailure::BodyTooLarge))
        },
{
}

/// A request is turned away for the first reason that holds: the gateway has no key, the
/// request brings no credentials, they are of another kind, or they are not the key. It passes
/// with the key.
pub proof fn law_reasons_for_refusal(headers: Map<Seq<char>, Seq<char>>, key: Seq<char>)
    requires
        text::trim(key).len() > 0,
    ensures
        ({
            let small = "authorization"@;
            let large = "Authorization"@;
            let r = auth_result(headers, Some(key));
            &&& !headers.contains_key(small) && !headers.contains_key(large) ==> r == Err::<
                (),
                AuthFailure,
            >(AuthFailure::MissingHeader)
            &&& headers.contains_key(small) && !"Bearer "@.is_prefix_of(headers[small]) ==> r
                == Err::<(), AuthFailure>(AuthFailure::WrongScheme)
            &&& headers.contains_key(small) && headers[small] == "Bearer "@ + text::trim(key)
                && text::trim(text::trim(key)) == text::trim(key) ==> r is Ok
            &&& headers.contains_key(small) && "Bearer "@.is_prefix_of(headers[small]) && text::trim(
                headers[small].skip(7),
            ) != text::trim(key) ==> r == Err::<(), AuthFailure>(AuthFailure::InvalidKey)
        }),
        AuthFailure::NotConfigured.code() == 503,
        AuthFailure::MissingHeader.code() == 401,
        AuthFailure::WrongScheme.code() == 401,
        AuthFailure::InvalidKey.code() == 401,
{
    reveal_strlit("Bearer ");
    let k = text::trim(key);
    let h = "Bearer "@ + k;
    assert("Bearer "@ =~= h.subrange(0, 7));
    assert(h.skip(7) =~= k);
}

/// The names of header fields are told in small letters and without white space around them,
/// the values without white space around them; of two fields of the same name the later counts.
pub proof fn law_later_fields_count(
    name: Seq<char>,
    value: Seq<char>,
    headers: Map<Seq<char>, Seq<char>>,
    length: usize,
)
    requires
        text::find(name + ":"@ + value, "\r\n"@) is None,
        !name.contains(':'),
    ensures
        fields_of(None, headers, length) == (headers, length),
        ({
            let line = name + ":"@ + value;
            fields_of(Some(line), headers, length).0 == headers.insert(
                text::ascii_lowercase(text::trim(name)),
                text::trim(value),
            )
        }),
{
    reveal_strlit(":");
    reveal_with_fuel(fields_of, 2);
    let line = name + ":"@ + value;
    lemma_colon_is_found(line, name.len() as int, 0);
    assert(line.take(name.len() as int) =~= name);
    assert(line.skip(name.len() as int + 1) =~= value);
}

proof fn lemma_colon_is_found(line: Seq<char>, at: int, i: int)
    requires
        0 <= i <= at < line.len(),
        line[at] == ':',
        forall|k: int| i <= k < at ==> #[trigger] line[k] != ':',
    ensures
        text::find_any_from(line, seq![':'], i) == Some(at),
    decreases at - i,
{
    assert(seq![':'][0] == ':');
    if i < at {
        assert(!seq![':'].contains(line[i]));
        lemma_colon_is_found(line, at, i + 1);
    } else {
        assert(seq![':'].contains(line[i]));
    }
}

/// A field that is named for it tells the length of the body, where its value is a whole
/// number.
pub proof fn law_length_is_told(value: Seq<char>, headers: Map<Seq<char>, Seq<char>>, n: usize)
    requires
        text::find("content-length:"@ + value, "\r\n"@) is None,
        numeral::whole_number(text::trim(value), usize::MAX as nat) == Some(n as nat),
        text::trim("content-length"@) == "content-length"@,
    ensures
        fields_of(Some("content-length:"@ + value), headers, 0).1 == n,
{
    reveal_strlit("content-length");
    reveal_strlit("content-length:");
    reveal_with_fuel(fields_of, 2);
    let line = "content-length:"@ + value;
    assert forall|k: int| 0 <= k < 14 implies #[trigger] line[k] != ':' by {
        assert(line[k] == "content-length"@[k]);
    }
    lemma_colon_is_found(line, 14, 0);
    assert(line.take(14) =~= "content-length"@);
    assert(line.skip(15) =~= value);
    assert(text::ascii_lowercase("content-length"@) =~= "content-length"@);
}

/// Bytes that hold no percent sign stand for themselves, and a percent sign with the two
/// hexadecimal digits of a byte stands for that byte.
pub proof fn law_escaped_bytes_are_read(bytes: Seq<u8>, i: int, high: u8, low: u8)
    requires
        0 <= i < bytes.len(),
    ensures
        bytes[i] != 0x25 ==> decoded_from(bytes, i) == joined(
            seq![bytes[i]],
            decoded_from(bytes, i + 1),
        ),
        bytes[i] == 0x25 && i + 2 >= bytes.len() ==> decoded_from(bytes, i) is None,
        bytes[i] == 0x25 && i + 2 < bytes.len() && hex_value(bytes[i + 1]) == Some(high)
            && hex_value(bytes[i + 2]) == Some(low) ==> decoded_from(bytes, i) == joined(
            seq![(16 * high + low) as u8],
            decoded_from(bytes, i + 3),
        ),
        bytes[i] == 0x25 && i + 2 < bytes.len() && (hex_value(bytes[i + 1]) is None || hex_value(
            bytes[i + 2],
        ) is None) ==> decoded_from(bytes, i) is None,
        forall|d: u8| d < 10 ==> #[trigger] hex_value((0x30 + d) as u8) == Some(d),
        forall|d: u8| d < 6 ==> #[trigger] hex_value((0x61 + d) as u8) == Some((10 + d) as u8),
        forall|d: u8| d < 6 ==> #[trigger] hex_value((0x41 + d) as u8) == Some((10 + d) as u8),
{
}

/// The model and whether a stream is wanted are told by the members of those names.
pub proof fn law_body_tells_the_model(t: JsonTree, model: Seq<char>)
    ensures
        t.member("model"@) == Some(JsonTree::Text(model)) ==> model_in(Some(t)) == Some(model),
        t.member("model"@) is None ==> model_in(Some(t)) is None,
        model_in(None) is None,
        stream_in(Some(t)) <==> t.member("stream"@) == Some(JsonTree::Bool(true)),
        !stream_in(None),
{
}

/// The head of a request ends at its first empty line.
pub proof fn law_head_ends_at_the_empty_line(a: Seq<u8>, b: Seq<u8>)
    ensures
        head_end(a + seq![13u8, 10, 13, 10] + b, 0) is Some,
        head_end(a + seq![13u8, 10, 13, 10] + b, 0)->0 <= a.len(),
        (forall|k: int| 0 <= k < a.len() ==> #[trigger] a[k] != 13) ==> head_end(
            a + seq![13u8, 10, 13, 10] + b,
            0,
        ) == Some(a.len() as int),
        (forall|k: int| 0 <= k < b.len() ==> #[trigger] b[k] != 13) ==> head_end(b, 0) is None,
{
    let mark = seq![13u8, 10, 13, 10];
    let s = a + mark + b;
    let n = a.len() as int;
    assert(s[n] == mark[0] && s[n + 1] == mark[1] && s[n + 2] == mark[2] && s[n + 3] == mark[3]);
    assert(head_ends_at(s, n));
    lemma_end_found(s, 0, n);
    if forall|k: int| 0 <= k < a.len() ==> #[trigger] a[k] != 13 {
        let e = head_end(s, 0)->0;
        if e < n {
            assert(s[e] == a[e]);
        }
    }
    if forall|k: int| 0 <= k < b.len() ==> #[trigger] b[k] != 13 {
        lemma_no_end(b, 0);
    }
}

proof fn lemma_end_found(s: Seq<u8>, i: int, n: int)
    requires
        0 <= i <= n,
        head_ends_at(s, n),
    ensures
        head_end(s, i) matches Some(e) && i <= e <= n && head_ends_at(s, e),
    decreases n - i,
{
    if i < n && !head_ends_at(s, i) {
        lemma_end_found(s, i + 1, n);
    }
}

proof fn lemma_no_end(s: Seq<u8>, i: int)
    requires
        0 <= i,
        forall|k: int| 0 <= k < s.len() ==> #[trigger] s[k] != 13,
    ensures
        head_end(s, i) is None,
    decreases s.len() - i,
{
    if i + 4 <= s.len() {
        assert(s[i] != 13);
        lemma_no_end(s, i + 1);
    }
}

/// The model of a path stands behind the list of models, before a question mark.
pub proof fn law_paths_name_the_model(raw: Seq<char>, rest: Seq<char>)
    requires
        raw.len() > 0,
        !raw.contains('?'),
    ensures
        model_in_path("/v1/models/"@ + raw) == path_text(raw),
        model_in_path("/v1/models/"@ + raw + seq!['?'] + rest) == path_text(raw),
        model_in_path("/v1/models/"@) is None,
        model_in_path("/v1/models"@) is None,
{
    reveal_strlit("/v1/models/");
    reveal_strlit("/v1/models");
    let p = "/v1/models/"@;
    let s = p + raw;
    let t = p + raw + seq!['?'] + rest;
    assert forall|k: int| 0 <= k < s.len() implies #[trigger] s[k] != '?' by {
        if k >= p.len() {
            assert(raw.contains(raw[k - p.len()]));
            assert(s[k] == raw[k - p.len()]);
        }
    }
    assert(!s.contains('?') && !p.contains('?') && !"/v1/models"@.contains('?'));
    text::law_cutting(s, '?');
    text::law_cutting(p, '?');
    text::law_cutting("/v1/models"@, '?');
    assert(s.subrange(0, p.len() as int) =~= p);
    assert(s.skip(p.len() as int) =~= raw);
    assert(p.subrange(0, p.len() as int) =~= p);
    assert(p.skip(p.len() as int).len() == 0);
    text::law_cutting(t, '?');
    let head = text::before_first(t, seq!['?']);
    let tail = text::after_first(t, seq!['?'])->0;
    assert(t[s.len() as int] == '?');
    assert(t.contains('?'));
    let glued = head + seq!['?'] + tail;
    assert(glued[head.len() as int] == t[head.len() as int]);
    if head.len() < s.len() {
        assert(s[head.len() as int] == t[head.len() as int]);
    }
    if head.len() > s.len() {
        assert(head[s.len() as int] == glued[s.len() as int]);
        assert(head.contains('?'));
    }
    assert forall|k: int| 0 <= k < s.len() implies #[trigger] head[k] == s[k] by {
        assert(glued[k] == t[k]);
    }
    assert(head =~= s);
}

} // verus!
