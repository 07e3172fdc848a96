//! Whether a model calls tools.
use vstd::prelude::*;
use vstd::utf8;
use crate::json;
use crate::json::{Json, JsonTree};
use crate::outside;
use crate::text;

verus! {

/// The member of a document, or `null` where there is none.
pub open spec fn at_key(t: JsonTree, key: Seq<char>) -> JsonTree {
    match t.member(key) {
        Some(v) => v,
        None => JsonTree::Null,
    }
}

/// The first element of a document, or `null` where there is none.
pub open spec fn at_front(t: JsonTree) -> JsonTree {
    match t {
        JsonTree::Array(items) => if items.len() > 0 {
            items[0]
        } else {
            JsonTree::Null
        },
        _ => JsonTree::Null,
    }
}

/// The first choice of an answer.
pub open spec fn choice_of(body: JsonTree) -> JsonTree {
    at_front(at_key(body, "choices"@))
}

/// A call of a tool: it has a name, and arguments as a text or as an object.
pub open spec fn is_call(t: JsonTree) -> bool {
    let function = at_key(t, "function"@);
    let arguments = at_key(function, "arguments"@);
    function.text_member("name"@) is Some && (arguments is Text || arguments is Object)
}

/// The first call among some documents from number `i` on.
pub open spec fn call_from(items: Seq<JsonTree>, i: int) -> Option<JsonTree>
    decreases items.len() - i,
{
    if i < 0 || i >= items.len() {
        None
    } else if is_call(items[i]) {
        Some(items[i])
    } else {
        call_from(items, i + 1)
    }
}

/// The first call in an answer.
pub open spec fn call_in(body: JsonTree) -> Option<JsonTree> {
    match at_key(at_key(choice_of(body), "message"@), "tool_calls"@) {
        JsonTree::Array(items) => call_from(items, 0),
        _ => None,
    }
}

/// The document has a member that a call has.
pub open spec fn names_call(t: Option<JsonTree>) -> bool {
    match t {
        Some(v) => v.member("name"@) is Some || v.member("arguments"@) is Some || v.member(
            "tool_call"@,
        ) is Some || v.member("tool_calls"@) is Some,
        None => false,
    }
}

/// The text holds a call: between marks, or as a document.
pub open spec fn text_names_call(content: Seq<char>) -> bool {
    let t = text::trim(content);
    text::occurs(t, "<tool_call>"@) || text::occurs(t, "</tool_call>"@) || names_call(
        outside::json_parsed(utf8::encode_utf8(t)),
    )
}

/// What an answer says about a model that was told to call a tool.
#[derive(Clone, Copy, Debug, PartialEq, Eq, Structural)]
pub enum ToolVerdict {
    /// It called the tool.
    Passed,
    /// The answer was cut off.
    CutOff,
    /// It wrote the call as text.
    CallAsText,
    /// There is no call.
    NoCall,
}

/// What an answer says.
pub open spec fn verdict_of(body: JsonTree) -> ToolVerdict {
    let message = at_key(choice_of(body), "message"@);
    if call_in(body) is Some {
        ToolVerdict::Passed
    } else if choice_of(body).text_member("finish_reason"@) == Some("length"@) {
        ToolVerdict::CutOff
    } else if text_names_call(
        match message.text_member("content"@) {
            Some(s) => s,
            None => ""@,
        },
    ) {
        ToolVerdict::CallAsText
    } else {
        ToolVerdict::NoCall
    }
}

/// What an answer says, with the call and the reasoning in it.
#[derive(Debug)]
pub struct ToolCallClassification<'a> {
    pub verdict: ToolVerdict,
    pub tool_call: Option<&'a Json>,
    pub reasoning_content: Option<String>,
}

fn key_of<'a>(v: Option<&'a Json>, key: &str) -> (r: Option<&'a Json>)
    ensures
        (match r {
            Some(j) => j.tree(),
            None => JsonTree::Null,
        }) == at_key(
            match v {
                Some(j) => j.tree(),
                None => JsonTree::Null,
            },
            key@,
        ),
{
    match v {
        Some(j) => j.get(key),
        None => None,
    }
}

fn front_of<'a>(v: Option<&'a Json>) -> (r: Option<&'a Json>)
    ensures
        (match r {
            Some(j) => j.tree(),
            None => JsonTree::Null,
        }) == at_front(
            match v {
                Some(j) => j.tree(),
                None => JsonTree::Null,
            },
        ),
{
    match v {
        Some(j) => match j {
            Json::Array(items) => {
                assert(j.tree()->Array_0 =~= json::trees(items@));
                if items.len() > 0 {
                    Some(&items[0])
                } else {
                    None
                }
            },
            _ => None,
        },
        None => None,
    }
}

fn text_of<'a>(v: Option<&'a Json>, key: &str) -> (r: Option<&'a str>)
    ensures
        text::opt_str(r) == (match v {
            Some(j) => j.tree().text_member(key@),
            None => None,
        }),
{
    match v {
        Some(j) => j.get_str(key),
        None => None,
    }
}

fn calls(v: &Json) -> (r: bool)
    ensures
        r == is_call(v.tree()),
{
    let function = key_of(Some(v), "function");
    let named = text_of(function, "name").is_some();
    let good = match key_of(function, "arguments") {
        Some(Json::Text(_)) => true,
        Some(Json::Object(_)) => true,
        _ => false,
    };
    named && good
}

/// Whether a document has a member that a call has.
pub fn document_names_call(v: &Option<Json>) -> (r: bool)
    ensures
        r == names_call(json::own_tree(*v)),
{
    match v {
        Some(j) => j.get("name").is_some() || j.get("arguments").is_some() || j.get(
            "tool_call",
        ).is_some() || j.get("tool_calls").is_some(),
        None => false,
    }
}

/// Whether a text holds a call.
pub fn looks_like_text_tool_call(content: &str) -> (r: bool)
    ensures
        r == text_names_call(content@),
{
    let t = text::trimmed(content);
    if text::contains_text(t, "<tool_call>") || text::contains_text(t, "</tool_call>") {
        return true;
    }
    document_names_call(&json::parse(t.as_bytes()))
}

/// What the answer of a model that was told to call a tool says.
pub fn classify_tool_call_response<'a>(body: &'a Json) -> (r: ToolCallClassification<'a>)
    ensures
        r.verdict == verdict_of(body.tree()),
        json::opt_tree(r.tool_call) == call_in(body.tree()),
        text::opt_text(r.reasoning_content) == at_key(
            choice_of(body.tree()),
            "message"@,
        ).text_member("reasoning_content"@),
{
    let choice = front_of(body.get("choices"));
    let message = key_of(choice, "message");
    let reasoning_content: Option<String> = match text_of(message, "reasoning_content") {
        Some(s) => Some(s.to_string()),
        None => None,
    };
    if let Some(list) = key_of(message, "tool_calls") {
        if let Json::Array(items) = list {
            let ghost all = list.tree()->Array_0;
            assert(all =~= json::trees(items@));
            for i in 0..items.len()
                invariant
                    all == json::trees(items@),
                    call_in(body.tree()) == call_from(all, i as int),
                    text::opt_text(reasoning_content) == at_key(
                        choice_of(body.tree()),
                        "message"@,
                    ).text_member("reasoning_content"@),
            {
                assert(all[i as int] == items@[i as int].tree());
                if calls(&items[i]) {
                    return ToolCallClassification {
                        verdict: ToolVerdict::Passed,
                        tool_call: Some(&items[i]),
                        reasoning_content,
                    };
                }
            }
        }
    }
    assert(call_in(body.tree()) is None);
    let cut = match text_of(choice, "finish_reason") {
        Some(s) => text::same(s, "length"),
        None => false,
    };
    if cut {
        return ToolCallClassification {
            verdict: ToolVerdict::CutOff,
            tool_call: None,
            reasoning_content,
        };
    }
    let content: &str = match text_of(message, "content") {
        Some(s) => s,
        None => "",
    };
    let verdict = if looks_like_text_tool_call(content) {
        ToolVerdict::CallAsText
    } else {
        ToolVerdict::NoCall
    };
    ToolCallClassification { verdict, tool_call: None, reasoning_content }
}

/// What the user is told.
pub open spec fn hint_of(verdict: ToolVerdict, raw: Seq<char>) -> Seq<char> {
    match verdict {
        ToolVerdict::Passed => Seq::empty(),
        ToolVerdict::CutOff =>
            "Output was cut off at max_tokens (model may still be thinking); raise max tokens or disable thinking."@,
        ToolVerdict::CallAsText =>
            "Tool call was emitted as text; check that --jinja is on and the chat template supports tools."@,
        ToolVerdict::NoCall => "No tool call was returned. Raw response: "@ + raw,
    }
}

/// What the user is told; `raw` is the answer as it came.
pub fn tool_hint(verdict: ToolVerdict, raw: &str) -> (r: String)
    ensures
        r@ == hint_of(verdict, raw@),
{
    match verdict {
        ToolVerdict::Passed => String::new(),
        ToolVerdict::CutOff =>
            "Output was cut off at max_tokens (model may still be thinking); raise max tokens or disable thinking.".to_string(),
        ToolVerdict::CallAsText =>
            "Tool call was emitted as text; check that --jinja is on and the chat template supports tools.".to_string(),
        ToolVerdict::NoCall => {
            let mut out = "No tool call was returned. Raw response: ".to_string();
            out.append(raw);
            out
        },
    }
}

/// The most tokens that a model may answer with when it is told to call a tool.
pub const USUAL_TOOL_TOKENS: u32 = 2048;

/// How a model is told to call a tool: the most tokens that it may answer with, at least one,
/// and whether it is kept from thinking first.
pub fn tool_call_limits(max_tokens: Option<u32>, disable_thinking: Option<bool>) -> (r: (
    u32,
    bool,
))
    ensures
        r.0 == (match max_tokens {
            Some(n) => if n < 1 {
                1
            } else {
                n
            },
            None => USUAL_TOOL_TOKENS,
        }),
        r.1 == (match disable_thinking {
            Some(b) => b,
            None => true,
        }),
{
    let tokens: u32 = match max_tokens {
        Some(n) => if n < 1 {
            1
        } else {
            n
        },
        None => USUAL_TOOL_TOKENS,
    };
    let quiet = match disable_thinking {
        Some(b) => b,
        None => true,
    };
    (tokens, quiet)
}

/// An answer passes exactly where it holds a call.
pub proof fn law_only_calls_pass(body: JsonTree)
    ensures
        verdict_of(body) == ToolVerdict::Passed <==> call_in(body) is Some,
{
}

/// A call of a tool is one that names its function and tells the arguments as a text or as an
/// object.
pub proof fn law_calls_have_a_name_and_arguments(t: JsonTree)
    ensures
        is_call(t) ==> t.member("function"@) is Some && t.member("function"@)->0.text_member(
            "name"@,
        ) is Some && t.member("function"@)->0.member("arguments"@) is Some,
        t.member("function"@) is None ==> !is_call(t),
        t.member("function"@) matches Some(f) ==> {
            &&& f.text_member("name"@) is None ==> !is_call(t)
            &&& f.member("arguments"@) is None ==> !is_call(t)
            &&& f.text_member("name"@) is Some && f.text_member("arguments"@) is Some ==> is_call(t)
            &&& f.text_member("name"@) is Some && f.member("arguments"@) is Some && f.member(
                "arguments"@,
            )->0 is Object ==> is_call(t)
            &&& f.member("arguments"@) is Some && !(f.member("arguments"@)->0 is Object)
                && f.text_member("arguments"@) is None ==> !is_call(t)
        },
{
}

/// The call that is taken is the first one of the list, and one is found wherever the list
/// holds one.
pub proof fn law_first_call_is_taken(items: Seq<JsonTree>)
    ensures
        match call_from(items, 0) {
            Some(c) => exists|i: int|
                0 <= i < items.len() && #[trigger] items[i] == c && is_call(c) && forall|j: int|
                    0 <= j < i ==> !is_call(#[trigger] items[j]),
            None => forall|i: int| 0 <= i < items.len() ==> !is_call(#[trigger] items[i]),
        },
{
    lemma_first_call(items, 0);
}

proof fn lemma_first_call(items: Seq<JsonTree>, i: int)
    requires
        0 <= i,
    ensures
        match call_from(items, i) {
            Some(c) => exists|k: int|
                i <= k < items.len() && #[trigger] items[k] == c && is_call(c) && forall|j: int|
                    i <= j < k ==> !is_call(#[trigger] items[j]),
            None => forall|k: int| i <= k < items.len() ==> !is_call(#[trigger] items[k]),
        },
    decreases items.len() - i,
{
    if i < items.len() {
        if is_call(items[i]) {
            assert(items[i] == call_from(items, i)->0);
        } else {
            lemma_first_call(items, i + 1);
            if let Some(c) = call_from(items, i + 1) {
                let k = choose|k: int|
                    i + 1 <= k < items.len() && #[trigger] items[k] == c && is_call(c)
                        && forall|j: int| i + 1 <= j < k ==> !is_call(#[trigger] items[j]);
                assert(items[k] == c);
            }
        }
    }
}

/// An answer is judged by its first choice. A call in the list of its message passes, whatever
/// else it says. Without one an answer that ended at its length was cut off, whatever its
/// text; else a text with the mark of a call has the call as text.
pub proof fn law_answers_are_judged(
    body: JsonTree,
    choices: Seq<JsonTree>,
    message: JsonTree,
    calls: Seq<JsonTree>,
    i: int,
)
    requires
        body.member("choices"@) == Some(JsonTree::Array(choices)),
        choices.len() > 0,
        choices[0].member("message"@) == Some(message),
        message.member("tool_calls"@) == Some(JsonTree::Array(calls)),
    ensures
        0 <= i < calls.len() && is_call(calls[i]) ==> verdict_of(body) == ToolVerdict::Passed,
        (forall|k: int| 0 <= k < calls.len() ==> !is_call(#[trigger] calls[k])) ==> {
            let cut = choices[0].text_member("finish_reason"@) == Some("length"@);
            &&& cut ==> verdict_of(body) == ToolVerdict::CutOff
            &&& !cut && message.text_member("content"@) is Some && text::occurs(
                text::trim(message.text_member("content"@)->0),
                "<tool_call>"@,
            ) ==> verdict_of(body) == ToolVerdict::CallAsText
            &&& !cut ==> verdict_of(body) == ToolVerdict::CallAsText || verdict_of(body)
                == ToolVerdict::NoCall
        },
{
    law_first_call_is_taken(calls);
}

/// A text holds a call where it has one of the marks around it, and a document where it has one
/// of the members that a call has.
pub proof fn law_calls_in_texts(content: Seq<char>, v: JsonTree)
    ensures
        text::occurs(text::trim(content), "<tool_call>"@) ==> text_names_call(content),
        text::occurs(text::trim(content), "</tool_call>"@) ==> text_names_call(content),
        v.member("name"@) is Some ==> names_call(Some(v)),
        v.member("arguments"@) is Some ==> names_call(Some(v)),
        v.member("tool_call"@) is Some ==> names_call(Some(v)),
        v.member("tool_calls"@) is Some ==> names_call(Some(v)),
        !(v is Object) ==> !names_call(Some(v)),
        !names_call(None),
{
}

/// Only an answer without a call is shown to the user as it came, and one that passed needs no
/// words.
pub proof fn law_hints(verdict: ToolVerdict, a: Seq<char>, b: Seq<char>)
    ensures
        hint_of(verdict, a).len() == 0 <==> verdict == ToolVerdict::Passed,
        verdict == ToolVerdict::NoCall ==> a.is_suffix_of(hint_of(verdict, a)),
        verdict != ToolVerdict::NoCall ==> hint_of(verdict, a) == hint_of(verdict, b),
        text::occurs(hint_of(ToolVerdict::CutOff, a), "max_tokens"@),
        text::occurs(hint_of(ToolVerdict::CallAsText, a), "--jinja"@),
{
    reveal_strlit(
        "Output was cut off at max_tokens (model may still be thinking); raise max tokens or disable thinking.",
    );
    reveal_strlit(
        "Tool call was emitted as text; check that --jinja is on and the chat template supports tools.",
    );
    reveal_strlit("No tool call was returned. Raw response: ");
    reveal_strlit("max_tokens");
    reveal_strlit("--jinja");
    assert(text::occurs_at(hint_of(ToolVerdict::CutOff, a), "max_tokens"@, 22)) by {
        assert(hint_of(ToolVerdict::CutOff, a).subrange(22, 32) =~= "max_tokens"@);
    }
    assert(text::occurs_at(hint_of(ToolVerdict::CallAsText, a), "--jinja"@, 42)) by {
        assert(hint_of(ToolVerdict::CallAsText, a).subrange(42, 49) =~= "--jinja"@);
    }
    let said = "No tool call was returned. Raw response: "@;
    assert((said + a).skip((said + a).len() - a.len()) =~= a);
}

} // verus!
