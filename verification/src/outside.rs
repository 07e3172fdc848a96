//! Functions of the standard library and of other crates that the panel calls.
//!
//! Each item states, without proof, what the function that it names does.
use vstd::prelude::*;
use vstd::utf8;
use crate::json::{Json, JsonNumber, JsonTree};
use crate::text;
use serde_json::Value;

verus! {

/// `String::push` appends the character.
pub assume_specification[ String::push ](s: &mut String, c: char)
    ensures
        final(s)@ == old(s)@.push(c),
;

/// `std::str::from_utf8`: the text that the bytes encode; there is none where they are not
/// well-formed UTF-8.
#[verifier::external_body]
pub(crate) fn utf8_text(bytes: &[u8]) -> (r: Option<String>)
    ensures
        match r {
            Some(s) => utf8::valid_utf8(bytes@) && s@ == utf8::decode_utf8(bytes@),
            None => !utf8::valid_utf8(bytes@),
        },
{
    std::str::from_utf8(bytes).ok().map(|s| s.to_string())
}

/// What `str::to_lowercase` makes of a text that holds a character beyond ASCII.
pub uninterp spec fn unicode_lowercase(s: Seq<char>) -> Seq<char>;

/// The lower-case form of a text.
pub open spec fn lowercase(s: Seq<char>) -> Seq<char> {
    if text::is_ascii_text(s) {
        text::ascii_lowercase(s)
    } else {
        unicode_lowercase(s)
    }
}

/// `str::to_lowercase`: the lower-case form of `s`. In a text of ASCII characters only,
/// `A` to `Z` become `a` to `z` and nothing else changes; for any other text the result
/// goes by Unicode and is only named here.
#[verifier::external_body]
pub(crate) fn to_lowercase(s: &str) -> (r: String)
    ensures
        text::is_ascii_text(s@) ==> r@ == text::ascii_lowercase(s@),
        !text::is_ascii_text(s@) ==> r@ == unicode_lowercase(s@),
{
    s.to_lowercase()
}

/// What `str::to_uppercase` makes of a text that holds a character beyond ASCII.
pub uninterp spec fn unicode_uppercase(s: Seq<char>) -> Seq<char>;

/// The upper-case form of a text.
pub open spec fn uppercase(s: Seq<char>) -> Seq<char> {
    if text::is_ascii_text(s) {
        text::ascii_uppercase(s)
    } else {
        unicode_uppercase(s)
    }
}

/// `str::to_uppercase`: the upper-case form of `s`. In a text of ASCII characters only, `a`
/// to `z` become `A` to `Z` and nothing else changes; for any other text the result goes by
/// Unicode and is only named here.
#[verifier::external_body]
pub(crate) fn to_uppercase(s: &str) -> (r: String)
    ensures
        text::is_ascii_text(s@) ==> r@ == text::ascii_uppercase(s@),
        !text::is_ascii_text(s@) ==> r@ == unicode_uppercase(s@),
{
    s.to_uppercase()
}

/// What `regex::Regex::find` finds in `text` for `pattern`: the text before the leftmost
/// match and the match itself. There is none for a pattern that does not compile.
pub uninterp spec fn regex_found(pattern: Seq<char>, text: Seq<char>) -> Option<
    (Seq<char>, Seq<char>),
>;

/// `regex::Regex::find` with a pattern compiled by `regex::Regex::new`: the text before the
/// leftmost match and the match. What matches is only named here; that the two texts
/// together begin `text` is stated.
#[verifier::external_body]
pub(crate) fn regex_find(pattern: &str, text: &str) -> (r: Option<(String, String)>)
    ensures
        match r {
            Some((before, hit)) => regex_found(pattern@, text@) == Some((before@, hit@))
                && (before@ + hit@).is_prefix_of(text@),
            None => regex_found(pattern@, text@) is None,
        },
{
    let re = regex::Regex::new(pattern).ok()?;
    let m = re.find(text)?;
    Some((text[..m.start()].to_string(), m.as_str().to_string()))
}

/// What `regex_lite::Regex::captures` finds in `text` for `pattern`: the texts of the whole
/// match and of each capture group, a group that takes no part in the match having none.
/// There is nothing for a pattern that does not compile.
pub uninterp spec fn lite_groups(pattern: Seq<char>, text: Seq<char>) -> Option<
    Seq<Option<Seq<char>>>,
>;

/// The texts of a row of capture groups.
pub open spec fn group_texts(groups: Seq<Option<String>>) -> Seq<Option<Seq<char>>> {
    Seq::new(groups.len(), |i: int| text::opt_text(groups[i]))
}

/// `regex_lite::Regex::captures` with a pattern compiled by `regex_lite::Regex::new`: the
/// texts of the groups of the leftmost match, the whole match first. What matches is only
/// named here.
#[verifier::external_body]
pub(crate) fn lite_captures(pattern: &str, text: &str) -> (r: Option<Vec<Option<String>>>)
    ensures
        match r {
            Some(groups) => lite_groups(pattern@, text@) == Some(group_texts(groups@)),
            None => lite_groups(pattern@, text@) is None,
        },
{
    let re = regex_lite::Regex::new(pattern).ok()?;
    let caps = re.captures(text)?;
    Some(caps.iter().map(|m| m.map(|x| x.as_str().to_string())).collect())
}

/// What `regex_lite::Regex::replace` makes of `text` when the leftmost match of `pattern` is
/// replaced by `with`. A pattern that does not compile leaves the text as it is.
pub uninterp spec fn lite_replaced(pattern: Seq<char>, text: Seq<char>, with: Seq<char>) -> Seq<
    char,
>;

/// `regex_lite::Regex::replace` with a pattern compiled by `regex_lite::Regex::new`: `text`
/// with the leftmost match replaced. What matches is only named here.
#[verifier::external_body]
pub(crate) fn lite_replace(pattern: &str, text: &str, with: &str) -> (r: String)
    ensures
        r@ == lite_replaced(pattern@, text@, with@),
{
    match regex_lite::Regex::new(pattern) {
        Ok(re) => re.replace(text, with).to_string(),
        Err(_) => text.to_string(),
    }
}

/// A JSON document as `serde_json` holds it.
#[verifier::external_type_specification]
#[verifier::external_body]
pub struct ExJsonValue(serde_json::Value);

/// What a document that `serde_json` holds says.
pub uninterp spec fn value_tree(v: serde_json::Value) -> JsonTree;

/// What `serde_json::from_slice` reads from the bytes; there is nothing where they are not a
/// JSON document.
pub uninterp spec fn json_parsed(bytes: Seq<u8>) -> Option<JsonTree>;

/// `serde_json::from_slice` into a `serde_json::Value`: the document that the bytes are. What
/// it says is only named here.
#[verifier::external_body]
pub(crate) fn json_value(bytes: &[u8]) -> (r: Option<serde_json::Value>)
    ensures
        match r {
            Some(v) => json_parsed(bytes@) == Some(value_tree(v)),
            None => json_parsed(bytes@) is None,
        },
{
    serde_json::from_slice(bytes).ok()
}

/// The variants of `serde_json::Value` one by one: the same document in the panel's own form.
#[verifier::external_body]
pub(crate) fn json_of(v: Value) -> (r: Json)
    ensures
        r.tree() == value_tree(v),
{
    match v {
        Value::Null => Json::Null,
        Value::Bool(b) => Json::Bool(b),
        Value::Number(n) => Json::Number(match (n.as_u64(), n.as_i64()) {
            (Some(u), _) => JsonNumber::Unsigned(u),
            (_, Some(i)) => JsonNumber::Negative(i),
            _ => JsonNumber::Float(n.as_f64().map_or(0, |f| f.to_bits())),
        }),
        Value::String(s) => Json::Text(s),
        Value::Array(a) => Json::Array(a.into_iter().map(json_of).collect()),
        Value::Object(o) => Json::Object(o.into_iter().map(|(k, x)| (k, json_of(x))).collect()),
    }
}

/// The words that `shlex::split` makes of a text; there are none where its quotes do not
/// end.
pub uninterp spec fn shlex_words(s: Seq<char>) -> Option<Seq<Seq<char>>>;

/// `shlex::split`: the words of a command line. What they are is only named here.
#[verifier::external_body]
pub(crate) fn shlex_split(s: &str) -> (r: Option<Vec<String>>)
    ensures
        match r {
            Some(words) => shlex_words(s@) == Some(text::texts(words@)),
            None => shlex_words(s@) is None,
        },
{
    shlex::split(s)
}

} // verus!
