//! What the runtimes answer, read from the bytes that came back.
use vstd::prelude::*;
use vstd::utf8;
use crate::json;
use crate::json::{Json, JsonTree};
use crate::names::NameSet;
use crate::outside;
use crate::providers::ollama::{OllamaModel, OllamaModelDetails, OllamaModelView};
use crate::providers::ollama;
use crate::providers::openai;
use crate::providers::openai::{OpenAiModel, OpenAiModelList, OpenAiModelView};
use crate::text;

verus! {

/// An answer to a request that did not fail.
#[derive(Debug)]
pub struct HttpAnswer {
    /// The `Server` header, where it is there and is text.
    pub server: Option<String>,
    pub body: Vec<u8>,
}

/// What an answer holds.
#[verifier::ext_equal]
pub struct HttpAnswerView {
    pub server: Option<Seq<char>>,
    pub body: Seq<u8>,
}

impl View for HttpAnswer {
    type V = HttpAnswerView;

    open spec fn view(&self) -> HttpAnswerView {
        HttpAnswerView { server: text::opt_text(self.server), body: self.body@ }
    }
}

/// What an answer holds, where there is one.
pub open spec fn opt_answer(a: Option<HttpAnswer>) -> Option<HttpAnswerView> {
    match a {
        Some(x) => Some(x@),
        None => None,
    }
}

// ---------------------------------------------------------------------------
// The model list of servers with OpenAI's interface
// ---------------------------------------------------------------------------

/// A member that may be missing or `null` and is else a string; `None` where it is
/// something else.
pub open spec fn optional_text(t: JsonTree, key: Seq<char>) -> Option<Option<Seq<char>>> {
    match t.member(key) {
        None => Some(None),
        Some(JsonTree::Null) => Some(None),
        Some(JsonTree::Text(s)) => Some(Some(s)),
        Some(_) => None,
    }
}

fn read_optional_text(v: &Json, key: &str) -> (r: Option<Option<String>>)
    ensures
        match r {
            Some(o) => optional_text(v.tree(), key@) == Some(text::opt_text(o)),
            None => optional_text(v.tree(), key@) is None,
        },
{
    match v.get(key) {
        None => Some(None),
        Some(x) => {
            if x.is_null() {
                return Some(None);
            }
            match x.as_str() {
                Some(s) => Some(Some(s.to_string())),
                None => None,
            }
        },
    }
}

/// The model that an entry of a list tells of: it has an id, and an owner where one is told.
pub open spec fn listed_model(t: JsonTree) -> Option<OpenAiModelView> {
    match (t.text_member("id"@), optional_text(t, "owned_by"@)) {
        (Some(id), Some(owned_by)) => Some(OpenAiModelView { id, owned_by }),
        _ => None,
    }
}

fn read_listed_model(v: &Json) -> (r: Option<OpenAiModel>)
    ensures
        match r {
            Some(m) => listed_model(v.tree()) == Some(m@),
            None => listed_model(v.tree()) is None,
        },
{
    match (v.get_str("id"), read_optional_text(v, "owned_by")) {
        (Some(id), Some(owned_by)) => Some(OpenAiModel { id: id.to_string(), owned_by }),
        _ => None,
    }
}

/// The models that the entries tell of; there are none where one of the entries is no model.
pub open spec fn listed_models(entries: Seq<JsonTree>) -> Option<Seq<OpenAiModelView>>
    decreases entries.len(),
{
    if entries.len() == 0 {
        Some(Seq::empty())
    } else {
        match (listed_models(entries.drop_last()), listed_model(entries.last())) {
            (Some(before), Some(m)) => Some(before.push(m)),
            _ => None,
        }
    }
}

/// The model list that a document is.
pub open spec fn model_list_in(t: JsonTree) -> Option<Seq<OpenAiModelView>> {
    match t.member("data"@) {
        Some(JsonTree::Array(entries)) => listed_models(entries),
        _ => None,
    }
}

/// The model list that the bytes are.
pub open spec fn model_list_of(body: Seq<u8>) -> Option<Seq<OpenAiModelView>> {
    match outside::json_parsed(body) {
        Some(t) => model_list_in(t),
        None => None,
    }
}

proof fn lemma_listed_prefix(entries: Seq<JsonTree>, n: int)
    requires
        0 <= n <= entries.len(),
        listed_models(entries) is Some,
    ensures
        listed_models(entries.take(n)) is Some,
    decreases entries.len(),
{
    if n < entries.len() {
        lemma_listed_prefix(entries.drop_last(), n);
        assert(entries.drop_last().take(n) =~= entries.take(n));
    } else {
        assert(entries.take(n) =~= entries);
    }
}

/// The model list that a document is.
pub fn model_list_from(v: &Json) -> (r: Option<OpenAiModelList>)
    ensures
        match r {
            Some(list) => model_list_in(v.tree()) == Some(list@),
            None => model_list_in(v.tree()) is None,
        },
{
    let Some(d) = v.get("data") else {
        return None;
    };
    match d {
        Json::Array(items) => {
            let ghost ts = d.tree()->Array_0;
            let mut list = OpenAiModelList { data: Vec::new() };
            assert(list@ =~= Seq::empty());
            assert(ts.take(0) =~= Seq::empty());
            for i in 0..items.len()
                invariant
                    *d == Json::Array(*items),
                    ts == d.tree()->Array_0,
                    model_list_in(v.tree()) == listed_models(ts),
                    listed_models(ts.take(i as int)) == Some(list@),
            {
                assert(ts.take(i + 1).drop_last() =~= ts.take(i as int));
                assert(ts.take(i + 1).last() == items@[i as int].tree());
                match read_listed_model(&items[i]) {
                    Some(m) => {
                        let ghost before = list@;
                        let ghost mv = m@;
                        list.data.push(m);
                        assert(list@ =~= before.push(mv));
                    },
                    None => {
                        proof {
                            if listed_models(ts) is Some {
                                lemma_listed_prefix(ts, i + 1);
                            }
                        }
                        return None;
                    },
                }
            }
            assert(ts.take(items@.len() as int) =~= ts);
            Some(list)
        },
        _ => None,
    }
}

/// The model list that the bytes are.
pub fn read_model_list(body: &[u8]) -> (r: Option<OpenAiModelList>)
    ensures
        match r {
            Some(list) => model_list_of(body@) == Some(list@),
            None => model_list_of(body@) is None,
        },
{
    match json::parse(body) {
        Some(v) => model_list_from(&v),
        None => None,
    }
}

// ---------------------------------------------------------------------------
// Ollama's list
// ---------------------------------------------------------------------------

/// The size of a model on disk: zero where it is not told.
pub open spec fn told_size(t: JsonTree) -> Option<u64> {
    match t.member("size"@) {
        None => Some(0u64),
        Some(v) => v.as_unsigned(),
    }
}

/// The parameter count: empty where it is not told.
pub open spec fn told_parameter_size(t: JsonTree) -> Option<Seq<char>> {
    match t.member("details"@) {
        None => Some(Seq::empty()),
        Some(JsonTree::Object(members)) => match json::member_from(
            members,
            "parameter_size"@,
            0,
        ) {
            None => Some(Seq::empty()),
            Some(v) => v.as_text(),
        },
        Some(_) => None,
    }
}

/// The model that an entry of Ollama's list tells of.
pub open spec fn tagged_model(t: JsonTree) -> Option<OllamaModelView> {
    match (t.text_member("name"@), told_size(t), told_parameter_size(t)) {
        (Some(name), Some(size), Some(parameter_size)) => Some(
            OllamaModelView { name, size, parameter_size },
        ),
        _ => None,
    }
}

fn read_parameter_size(v: &Json) -> (r: Option<String>)
    ensures
        match r {
            Some(s) => told_parameter_size(v.tree()) == Some(s@),
            None => told_parameter_size(v.tree()) is None,
        },
{
    match v.get("details") {
        None => {
            let s = String::new();
            assert(s@ =~= Seq::empty());
            Some(s)
        },
        Some(d) => match d {
            Json::Object(_) => match d.get("parameter_size") {
                None => {
                    let s = String::new();
                    assert(s@ =~= Seq::empty());
                    Some(s)
                },
                Some(p) => match p.as_str() {
                    Some(s) => Some(s.to_string()),
                    None => None,
                },
            },
            _ => None,
        },
    }
}

fn read_tagged_model(v: &Json) -> (r: Option<OllamaModel>)
    ensures
        match r {
            Some(m) => tagged_model(v.tree()) == Some(m@),
            None => tagged_model(v.tree()) is None,
        },
{
    let size: Option<u64> = match v.get("size") {
        None => Some(0),
        Some(x) => x.as_u64(),
    };
    match (v.get_str("name"), size, read_parameter_size(v)) {
        (Some(name), Some(n), Some(parameter_size)) => Some(
            OllamaModel {
                name: name.to_string(),
                size: n,
                details: OllamaModelDetails { parameter_size },
            },
        ),
        _ => None,
    }
}

/// The models that the entries tell of; there are none where one of the entries is no model.
pub open spec fn tagged_models(entries: Seq<JsonTree>) -> Option<Seq<OllamaModelView>>
    decreases entries.len(),
{
    if entries.len() == 0 {
        Some(Seq::empty())
    } else {
        match (tagged_models(entries.drop_last()), tagged_model(entries.last())) {
            (Some(before), Some(m)) => Some(before.push(m)),
            _ => None,
        }
    }
}

/// The list of Ollama that the bytes are.
pub open spec fn tags_of(body: Seq<u8>) -> Option<Seq<OllamaModelView>> {
    match outside::json_parsed(body) {
        Some(t) => match t.member("models"@) {
            Some(JsonTree::Array(entries)) => tagged_models(entries),
            _ => None,
        },
        None => None,
    }
}

proof fn lemma_tagged_prefix(entries: Seq<JsonTree>, n: int)
    requires
        0 <= n <= entries.len(),
        tagged_models(entries) is Some,
    ensures
        tagged_models(entries.take(n)) is Some,
    decreases entries.len(),
{
    if n < entries.len() {
        lemma_tagged_prefix(entries.drop_last(), n);
        assert(entries.drop_last().take(n) =~= entries.take(n));
    } else {
        assert(entries.take(n) =~= entries);
    }
}

/// The list of Ollama that the bytes are.
pub fn read_tags(body: &[u8]) -> (r: Option<Vec<OllamaModel>>)
    ensures
        match r {
            Some(models) => tags_of(body@) == Some(ollama::ollama_views(models@)),
            None => tags_of(body@) is None,
        },
{
    let Some(v) = json::parse(body) else {
        return None;
    };
    let Some(d) = v.get("models") else {
        return None;
    };
    match d {
        Json::Array(items) => {
            let ghost ts = d.tree()->Array_0;
            let mut models: Vec<OllamaModel> = Vec::new();
            assert(ollama::ollama_views(models@) =~= Seq::empty());
            assert(ts.take(0) =~= Seq::empty());
            for i in 0..items.len()
                invariant
                    *d == Json::Array(*items),
                    ts == d.tree()->Array_0,
                    tags_of(body@) == tagged_models(ts),
                    tagged_models(ts.take(i as int)) == Some(ollama::ollama_views(models@)),
            {
                assert(ts.take(i + 1).drop_last() =~= ts.take(i as int));
                assert(ts.take(i + 1).last() == items@[i as int].tree());
                match read_tagged_model(&items[i]) {
                    Some(m) => {
                        let ghost before = ollama::ollama_views(models@);
                        let ghost mv = m@;
                        models.push(m);
                        assert(ollama::ollama_views(models@) =~= before.push(mv));
                    },
                    None => {
                        proof {
                            if tagged_models(ts) is Some {
                                lemma_tagged_prefix(ts, i + 1);
                            }
                        }
                        return None;
                    },
                }
            }
            assert(ts.take(items@.len() as int) =~= ts);
            Some(models)
        },
        _ => None,
    }
}

// ---------------------------------------------------------------------------
// What tells a runtime
// ---------------------------------------------------------------------------

/// The document is what oMLX tells of its state.
pub open spec fn omlx_status(t: JsonTree) -> bool {
    &&& t.text_member("status"@) == Some("ok"@)
    &&& t.text_member("version"@) is Some
    &&& t.member("models_discovered"@) is Some || t.member("model_memory_max"@) is Some || t.member(
        "cache_efficiency"@,
    ) is Some
}

/// Whether the document is what oMLX tells of its state.
pub fn is_omlx_status_payload(v: &Json) -> (r: bool)
    ensures
        r == omlx_status(v.tree()),
{
    let ok = match v.get_str("status") {
        Some(s) => text::same(s, "ok"),
        None => false,
    };
    ok && v.get_str("version").is_some() && (v.get("models_discovered").is_some() || v.get(
        "model_memory_max",
    ).is_some() || v.get("cache_efficiency").is_some())
}

/// The answer of a status page comes from oMLX.
pub open spec fn from_omlx(answer: Option<HttpAnswerView>) -> bool {
    answer matches Some(a) && (outside::json_parsed(a.body) matches Some(t) && omlx_status(t))
}

/// Whether the answer of a status page comes from oMLX.
pub fn endpoint_has_omlx_status(answer: &Option<HttpAnswer>) -> (r: bool)
    ensures
        r == from_omlx(opt_answer(*answer)),
{
    match answer {
        Some(a) => match json::parse(&a.body) {
            Some(v) => is_omlx_status_payload(&v),
            None => false,
        },
        None => false,
    }
}

/// An entry of LM Studio's own list: its two marks are strings where they are told.
pub open spec fn native_entry(t: JsonTree) -> bool {
    t is Object && optional_text(t, "compatibility_type"@) is Some && optional_text(
        t,
        "state"@,
    ) is Some
}

/// The entry has one of the marks that only LM Studio gives.
pub open spec fn marked_entry(t: JsonTree) -> bool {
    optional_text(t, "compatibility_type"@) matches Some(Some(_)) || optional_text(
        t,
        "state"@,
    ) matches Some(Some(_))
}

/// The list is one of LM Studio's own: every element is an entry, and one has a mark.
pub open spec fn native_list(entries: Seq<JsonTree>) -> bool {
    (forall|i: int| 0 <= i < entries.len() ==> native_entry(#[trigger] entries[i])) && (exists|
        i: int,
    |
        0 <= i < entries.len() && marked_entry(#[trigger] entries[i]))
}

/// The answer of LM Studio's own list comes from LM Studio. An empty list does not tell.
pub open spec fn from_lmstudio(answer: Option<HttpAnswerView>) -> bool {
    answer matches Some(a) && (outside::json_parsed(a.body) matches Some(t) && (t.member(
        "data"@,
    ) matches Some(JsonTree::Array(entries)) && native_list(entries)))
}

/// Whether the answer of LM Studio's own list comes from LM Studio.
pub fn endpoint_is_lmstudio(answer: &Option<HttpAnswer>) -> (r: bool)
    ensures
        r == from_lmstudio(opt_answer(*answer)),
{
    let Some(a) = answer else {
        return false;
    };
    let Some(v) = json::parse(&a.body) else {
        return false;
    };
    let Some(d) = v.get("data") else {
        return false;
    };
    match d {
        Json::Array(items) => {
            let ghost ts = d.tree()->Array_0;
            let mut marked = false;
            for i in 0..items.len()
                invariant
                    *d == Json::Array(*items),
                    ts == d.tree()->Array_0,
                    from_lmstudio(opt_answer(*answer)) == native_list(ts),
                    forall|j: int| 0 <= j < i ==> native_entry(#[trigger] ts[j]),
                    marked == exists|j: int| 0 <= j < i && marked_entry(#[trigger] ts[j]),
            {
                assert(ts[i as int] == items@[i as int].tree());
                let is_object = match &items[i] {
                    Json::Object(_) => true,
                    _ => false,
                };
                let kind = read_optional_text(&items[i], "compatibility_type");
                let state = read_optional_text(&items[i], "state");
                if !is_object || kind.is_none() || state.is_none() {
                    assert(!native_entry(ts[i as int]));
                    return false;
                }
                let has_kind = match kind {
                    Some(Some(_)) => true,
                    _ => false,
                };
                let has_state = match state {
                    Some(Some(_)) => true,
                    _ => false,
                };
                if has_kind || has_state {
                    marked = true;
                    assert(marked_entry(ts[i as int]));
                }
            }
            marked
        },
        _ => false,
    }
}

/// The text at the root of Docker Model Runner.
pub const DOCKER_BANNER: &'static str = "Docker Model Runner is running";

/// The answer at the root comes from Docker Model Runner.
pub open spec fn from_docker_root(answer: Option<HttpAnswerView>) -> bool {
    answer matches Some(a) && utf8::valid_utf8(a.body) && text::trim(utf8::decode_utf8(a.body))
        == DOCKER_BANNER@
}

/// Whether the answer at the root comes from Docker Model Runner.
pub fn endpoint_is_docker_model_runner_root(answer: &Option<HttpAnswer>) -> (r: bool)
    ensures
        r == from_docker_root(opt_answer(*answer)),
{
    match answer {
        Some(a) => match outside::utf8_text(&a.body) {
            Some(s) => text::same(text::trimmed(&s), DOCKER_BANNER),
            None => false,
        },
        None => false,
    }
}

// ---------------------------------------------------------------------------
// RamaLama's store
// ---------------------------------------------------------------------------

/// The ids that a row of RamaLama's store tells: its name, and its short name where it has
/// one.
pub open spec fn store_row(t: JsonTree) -> Option<Seq<Seq<char>>> {
    let short = match t.member("shortname"@) {
        None => Some(Seq::empty()),
        Some(v) => v.as_text(),
    };
    match (t.text_member("name"@), short) {
        (Some(name), Some(s)) => Some(
            if s.len() == 0 {
                seq![name]
            } else {
                seq![name, s]
            },
        ),
        _ => None,
    }
}

/// The ids that the rows of RamaLama's store tell; there are none where one of the rows is
/// no model.
pub open spec fn store_ids(rows: Seq<JsonTree>) -> Option<Seq<Seq<char>>>
    decreases rows.len(),
{
    if rows.len() == 0 {
        Some(Seq::empty())
    } else {
        match (store_ids(rows.drop_last()), store_row(rows.last())) {
            (Some(before), Some(ids)) => Some(before + ids),
            _ => None,
        }
    }
}

/// The names and the number of models that RamaLama's store tells.
pub open spec fn store_of(output: Seq<u8>) -> Option<(Set<Seq<char>>, nat)> {
    match outside::json_parsed(output) {
        Some(JsonTree::Array(rows)) => match store_ids(rows) {
            Some(ids) => Some((openai::all_id_names(ids), rows.len())),
            None => None,
        },
        _ => None,
    }
}

proof fn lemma_store_prefix(rows: Seq<JsonTree>, n: int)
    requires
        0 <= n <= rows.len(),
        store_ids(rows) is Some,
    ensures
        store_ids(rows.take(n)) is Some,
    decreases rows.len(),
{
    if n < rows.len() {
        lemma_store_prefix(rows.drop_last(), n);
        assert(rows.drop_last().take(n) =~= rows.take(n));
    } else {
        assert(rows.take(n) =~= rows);
    }
}

fn read_store_row(v: &Json) -> (r: Option<(String, Option<String>)>)
    ensures
        match r {
            Some((name, Some(s))) => store_row(v.tree()) == Some(seq![name@, s@]),
            Some((name, None)) => store_row(v.tree()) == Some(seq![name@]),
            None => store_row(v.tree()) is None,
        },
{
    let short: Option<String> = match v.get("shortname") {
        None => {
            let s = String::new();
            assert(s@ =~= Seq::empty());
            Some(s)
        },
        Some(x) => match x.as_str() {
            Some(s) => Some(s.to_string()),
            None => None,
        },
    };
    match (v.get_str("name"), short) {
        (Some(name), Some(s)) => if s.as_str().unicode_len() == 0 {
            Some((name.to_string(), None))
        } else {
            Some((name.to_string(), Some(s)))
        },
        _ => None,
    }
}

/// Reads what `ramalama ls --json` printed: the names that the models of the store stand
/// for, and their number.
pub fn parse_ramalama_store(output: &[u8]) -> (r: Option<(NameSet, usize)>)
    ensures
        match r {
            Some((set, count)) => store_of(output@) == Some((set@, count as nat)),
            None => store_of(output@) is None,
        },
{
    let Some(v) = json::parse(output) else {
        return None;
    };
    match &v {
        Json::Array(items) => {
            let ghost ts = v.tree()->Array_0;
            let mut set = NameSet::new();
            let ghost mut ids: Seq<Seq<char>> = Seq::empty();
            assert(ts.take(0) =~= Seq::empty());
            for i in 0..items.len()
                invariant
                    v == Json::Array(*items),
                    ts == v.tree()->Array_0,
                    outside::json_parsed(output@) == Some(v.tree()),
                    store_ids(ts.take(i as int)) == Some(ids),
                    set@ == openai::all_id_names(ids),
            {
                assert(ts.take(i + 1).drop_last() =~= ts.take(i as int));
                assert(ts.take(i + 1).last() == items@[i as int].tree());
                match read_store_row(&items[i]) {
                    Some((name, short)) => {
                        openai::insert_id_names(&mut set, &name);
                        assert(ids.push(name@).drop_last() =~= ids);
                        assert(set@ == openai::all_id_names(ids.push(name@)));
                        match short {
                            Some(s) => {
                                openai::insert_id_names(&mut set, &s);
                                proof {
                                    let more = ids.push(name@);
                                    assert(more.push(s@).drop_last() =~= more);
                                    assert(set@ == openai::all_id_names(more.push(s@)));
                                    assert(ids + seq![name@, s@] =~= more.push(s@));
                                    ids = more.push(s@);
                                }
                            },
                            None => {
                                proof {
                                    assert(ids + seq![name@] =~= ids.push(name@));
                                    ids = ids.push(name@);
                                }
                            },
                        }
                    },
                    None => {
                        proof {
                            if store_ids(ts) is Some {
                                lemma_store_prefix(ts, i + 1);
                            }
                        }
                        return None;
                    },
                }
            }
            assert(ts.take(items@.len() as int) =~= ts);
            Some((set, items.len()))
        },
        _ => None,
    }
}

// ---------------------------------------------------------------------------
// Laws
// ---------------------------------------------------------------------------

/// A list is read in full, in its order and with the ids and owners that it tells, or not at
/// all: one entry without an id is enough.
pub proof fn law_lists_are_read_in_full(entries: Seq<JsonTree>, i: int)
    requires
        0 <= i < entries.len(),
    ensures
        listed_models(entries) matches Some(list) ==> {
            &&& list.len() == entries.len()
            &&& entries[i].text_member("id"@) == Some(list[i].id)
            &&& list[i].owned_by is Some ==> entries[i].text_member("owned_by"@) == list[i].owned_by
            &&& list[i].owned_by is None ==> entries[i].text_member("owned_by"@) is None
        },
        entries[i].text_member("id"@) is None ==> listed_models(entries) is None,
    decreases entries.len(),
{
    let front = entries.drop_last();
    if i < entries.len() - 1 {
        law_lists_are_read_in_full(front, i);
        assert(front[i] == entries[i]);
        lemma_listed_length(front);
    } else {
        lemma_listed_length(front);
    }
}

proof fn lemma_listed_length(entries: Seq<JsonTree>)
    ensures
        listed_models(entries) matches Some(list) ==> list.len() == entries.len(),
    decreases entries.len(),
{
    if entries.len() > 0 {
        lemma_listed_length(entries.drop_last());
    }
}

/// A list of models stands under `data`; a document without it is none, and an empty one is
/// read as such.
pub proof fn law_model_lists_stand_under_data(t: JsonTree, id: Seq<char>, entry: JsonTree)
    requires
        entry.text_member("id"@) == Some(id),
        entry.member("owned_by"@) is None,
    ensures
        t.member("data"@) is None ==> model_list_in(t) is None,
        t.member("data"@) == Some(JsonTree::Array(seq![])) ==> model_list_in(t) is Some
            && model_list_in(t)->0.len() == 0,
        t.member("data"@) == Some(JsonTree::Array(seq![entry])) ==> model_list_in(t) == Some(
            seq![OpenAiModelView { id, owned_by: None }],
        ),
{
    reveal_with_fuel(listed_models, 2);
    assert(seq![entry].drop_last() =~= seq![]);
    assert(seq![entry].last() == entry);
    let m = OpenAiModelView { id, owned_by: None };
    assert(Seq::<OpenAiModelView>::empty().push(m) =~= seq![m]);
}

/// Ollama's list is read in full, in its order, with the name, the size and the parameter count
/// that it tells of each model, or not at all.
pub proof fn law_tags_are_read_in_full(entries: Seq<JsonTree>, i: int)
    requires
        0 <= i < entries.len(),
    ensures
        tagged_models(entries) matches Some(list) ==> {
            &&& list.len() == entries.len()
            &&& entries[i].text_member("name"@) == Some(list[i].name)
            &&& entries[i].member("size"@) is None ==> list[i].size == 0
            &&& entries[i].member("size"@) matches Some(v) ==> v.as_unsigned() == Some(list[i].size)
            &&& entries[i].member("details"@) is None ==> list[i].parameter_size.len() == 0
            &&& entries[i].member("details"@) matches Some(d) ==> (d.member("parameter_size"@) is Some
                ==> d.text_member("parameter_size"@) == Some(list[i].parameter_size))
        },
        entries[i].text_member("name"@) is None ==> tagged_models(entries) is None,
    decreases entries.len(),
{
    let front = entries.drop_last();
    lemma_tagged_length(front);
    if i < entries.len() - 1 {
        law_tags_are_read_in_full(front, i);
        assert(front[i] == entries[i]);
    }
}

proof fn lemma_tagged_length(entries: Seq<JsonTree>)
    ensures
        tagged_models(entries) matches Some(list) ==> list.len() == entries.len(),
    decreases entries.len(),
{
    if entries.len() > 0 {
        lemma_tagged_length(entries.drop_last());
    }
}

/// The state of oMLX is told by its status, its version and one of three members; without its
/// status or its version it is not.
pub proof fn law_omlx_tells_its_state(t: JsonTree)
    ensures
        omlx_status(t) ==> t.text_member("status"@) == Some("ok"@) && t.text_member("version"@) is Some,
        t.text_member("status"@) == Some("ok"@) && t.text_member("version"@) is Some ==> {
            &&& t.member("models_discovered"@) is Some ==> omlx_status(t)
            &&& t.member("model_memory_max"@) is Some ==> omlx_status(t)
            &&& t.member("cache_efficiency"@) is Some ==> omlx_status(t)
            &&& t.member("models_discovered"@) is None && t.member("model_memory_max"@) is None
                && t.member("cache_efficiency"@) is None ==> !omlx_status(t)
        },
        !from_omlx(None),
{
}

/// LM Studio is told by an entry with its type or its state; a list in which no entry has
/// either, an empty list and a list with anything but objects do not tell it.
pub proof fn law_lmstudio_is_told_by_its_marks(entries: Seq<JsonTree>, i: int)
    ensures
        entries.len() == 0 ==> !native_list(entries),
        0 <= i < entries.len() && !(entries[i] is Object) ==> !native_list(entries),
        (forall|k: int|
            0 <= k < entries.len() ==> (#[trigger] entries[k]).member("compatibility_type"@) is None
                && entries[k].member("state"@) is None) ==> !native_list(entries),
        0 <= i < entries.len() && entries[i].text_member("state"@) is Some && (forall|k: int|
            0 <= k < entries.len() ==> native_entry(#[trigger] entries[k])) ==> native_list(entries),
        0 <= i < entries.len() && entries[i].text_member("compatibility_type"@) is Some && (forall|
            k: int,
        |
            0 <= k < entries.len() ==> native_entry(#[trigger] entries[k])) ==> native_list(entries),
{
    if 0 <= i < entries.len() && (entries[i].text_member("state"@) is Some
        || entries[i].text_member("compatibility_type"@) is Some) {
        assert(marked_entry(entries[i]));
    }
    if 0 <= i < entries.len() && !(entries[i] is Object) {
        assert(!native_entry(entries[i]));
    }
    if native_list(entries) {
        let k = choose|k: int| 0 <= k < entries.len() && marked_entry(#[trigger] entries[k]);
        assert(entries[k].member("compatibility_type"@) is Some || entries[k].member("state"@)
            is Some);
    }
}

/// Docker Model Runner is told by its banner, whatever white space stands around it.
pub proof fn law_docker_is_told_by_its_banner(server: Option<Seq<char>>, s: Seq<char>)
    ensures
        from_docker_root(Some(HttpAnswerView { server, body: utf8::encode_utf8(s) }))
            <==> text::trim(s) == "Docker Model Runner is running"@,
        !from_docker_root(None),
{
    utf8::encode_utf8_valid_utf8(s);
    utf8::encode_utf8_decode_utf8(s);
}

/// Each row of RamaLama's store tells its name, and its short name where it has one; a row
/// without a name makes the whole unreadable.
pub proof fn law_store_rows_tell_their_names(rows: Seq<JsonTree>, i: int)
    requires
        0 <= i < rows.len(),
    ensures
        store_ids(rows) matches Some(ids) ==> {
            &&& rows[i].text_member("name"@) is Some
            &&& ids.contains(rows[i].text_member("name"@)->0)
            &&& rows[i].text_member("shortname"@) matches Some(s) ==> (s.len() > 0 ==> ids.contains(s))
            &&& ids.len() >= rows.len()
        },
        rows[i].text_member("name"@) is None ==> store_ids(rows) is None,
    decreases rows.len(),
{
    let front = rows.drop_last();
    if i < rows.len() - 1 {
        law_store_rows_tell_their_names(front, i);
        assert(front[i] == rows[i]);
    }
    if let Some(ids) = store_ids(rows) {
        let before = store_ids(front)->0;
        let last = store_row(rows.last())->0;
        if front.len() > 0 {
            law_store_rows_tell_their_names(front, 0);
        }
        assert forall|x: Seq<char>| #[trigger] before.contains(x) implies ids.contains(x) by {
            let k = choose|k: int| 0 <= k < before.len() && before[k] == x;
            assert(ids[k] == x);
        }
        assert forall|x: Seq<char>| #[trigger] last.contains(x) implies ids.contains(x) by {
            let k = choose|k: int| 0 <= k < last.len() && last[k] == x;
            assert(ids[before.len() + k] == x);
        }
        if i == rows.len() - 1 {
            assert(last[0] == rows[i].text_member("name"@)->0);
            assert(last.contains(last[0]));
            if let Some(s) = rows[i].text_member("shortname"@) {
                if s.len() > 0 {
                    assert(last[1] == s);
                    assert(last.contains(s));
                }
            }
        }
    }
}

/// The number of models of RamaLama's store is the number of its rows.
pub proof fn law_store_counts_its_rows(output: Seq<u8>, rows: Seq<JsonTree>)
    requires
        outside::json_parsed(output) == Some(JsonTree::Array(rows)),
        store_ids(rows) is Some,
    ensures
        store_of(output) is Some,
        (store_of(output)->0).1 == rows.len(),
        (store_of(output)->0).0 == openai::all_id_names(store_ids(rows)->0),
{
}

} // verus!
