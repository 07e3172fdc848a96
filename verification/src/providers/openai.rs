//! Servers with OpenAI's interface: what their model list tells about them.
use vstd::prelude::*;
use crate::names::NameSet;
use crate::outside;
use crate::text;

verus! {

/// A model in the list of a server with OpenAI's interface.
#[derive(Debug)]
pub struct OpenAiModel {
    /// Such as `meta-llama/Llama-3.1-8B-Instruct`.
    pub id: String,
    /// Whom the server names as the owner of the model.
    pub owned_by: Option<String>,
}

/// The model list of a server with OpenAI's interface.
#[derive(Debug)]
pub struct OpenAiModelList {
    pub data: Vec<OpenAiModel>,
}

/// What the list of a server with OpenAI's interface tells of a model.
#[verifier::ext_equal]
pub struct OpenAiModelView {
    pub id: Seq<char>,
    pub owned_by: Option<Seq<char>>,
}

impl View for OpenAiModel {
    type V = OpenAiModelView;

    open spec fn view(&self) -> OpenAiModelView {
        OpenAiModelView { id: self.id@, owned_by: text::opt_text(self.owned_by) }
    }
}

impl View for OpenAiModelList {
    type V = Seq<OpenAiModelView>;

    open spec fn view(&self) -> Seq<OpenAiModelView> {
        Seq::new(self.data@.len(), |i: int| self.data@[i]@)
    }
}

/// The server behind an endpoint with OpenAI's interface, as its answer tells it.
#[derive(Clone, Copy, Debug, PartialEq, Eq, Structural)]
pub enum OpenAiEndpointIdentity {
    /// llama.cpp itself.
    LlamaCpp,
    /// A llama-swap proxy in front of llama.cpp.
    LlamaSwap,
    Vllm,
    Ferrum,
    DockerModelRunner,
    /// None of these.
    Unrecognized,
}

/// The model names `owner` as its owner, whatever the case of its letters.
pub open spec fn has_owner(model: OpenAiModelView, owner: Seq<char>) -> bool {
    model.owned_by matches Some(o) && text::same_but_case(o, owner)
}

/// One of the models of the list is owned by `owner`.
pub open spec fn owned_by(list: Seq<OpenAiModelView>, owner: Seq<char>) -> bool {
    exists|i: int| 0 <= i < list.len() && #[trigger] has_owner(list[i], owner)
}

/// Whether one of the models of the list is owned by `owner`.
pub fn list_owned_by(list: &OpenAiModelList, owner: &str) -> (r: bool)
    ensures
        r == owned_by(list@, owner@),
{
    for i in 0..list.data.len()
        invariant
            forall|j: int| 0 <= j < i ==> !#[trigger] has_owner(list@[j], owner@),
    {
        assert(list@[i as int] == list.data@[i as int]@);
        if let Some(o) = &list.data[i].owned_by {
            if text::same_ignoring_case(o, owner) {
                assert(has_owner(list@[i as int], owner@));
                return true;
            }
        }
    }
    false
}

/// The server that an answer comes from. The owner that the models name decides; a server
/// header of llama.cpp counts as its owner does.
pub open spec fn endpoint_identity(
    server_header: Option<Seq<char>>,
    list: Seq<OpenAiModelView>,
) -> OpenAiEndpointIdentity {
    if owned_by(list, "vllm"@) {
        OpenAiEndpointIdentity::Vllm
    } else if owned_by(list, "ferrum"@) {
        OpenAiEndpointIdentity::Ferrum
    } else if owned_by(list, "docker"@) {
        OpenAiEndpointIdentity::DockerModelRunner
    } else if owned_by(list, "llama-swap"@) {
        OpenAiEndpointIdentity::LlamaSwap
    } else if owned_by(list, "llamacpp"@) || (server_header matches Some(h) && text::same_but_case(
        h,
        "llama.cpp"@,
    )) {
        OpenAiEndpointIdentity::LlamaCpp
    } else {
        OpenAiEndpointIdentity::Unrecognized
    }
}

/// The server that an answer comes from.
pub fn classify_openai_endpoint(server_header: Option<&str>, list: &OpenAiModelList) -> (r:
    OpenAiEndpointIdentity)
    ensures
        r == endpoint_identity(text::opt_str(server_header), list@),
{
    if list_owned_by(list, "vllm") {
        return OpenAiEndpointIdentity::Vllm;
    }
    if list_owned_by(list, "ferrum") {
        return OpenAiEndpointIdentity::Ferrum;
    }
    if list_owned_by(list, "docker") {
        return OpenAiEndpointIdentity::DockerModelRunner;
    }
    if list_owned_by(list, "llama-swap") {
        return OpenAiEndpointIdentity::LlamaSwap;
    }
    let header_says_so = match server_header {
        Some(h) => text::same_ignoring_case(h, "llama.cpp"),
        None => false,
    };
    if list_owned_by(list, "llamacpp") || header_says_so {
        return OpenAiEndpointIdentity::LlamaCpp;
    }
    OpenAiEndpointIdentity::Unrecognized
}

/// Whether the list comes from oMLX.
pub fn openai_model_list_is_omlx(list: &OpenAiModelList) -> (r: bool)
    ensures
        r == owned_by(list@, "omlx"@),
{
    list_owned_by(list, "omlx")
}

/// The ids of the models of a list.
pub open spec fn model_ids(list: Seq<OpenAiModelView>) -> Seq<Seq<char>> {
    Seq::new(list.len(), |i: int| list[i].id)
}

/// The ids of the models of a list.
pub fn openai_model_ids(list: &OpenAiModelList) -> (r: Vec<String>)
    ensures
        text::texts(r@) == model_ids(list@),
{
    let mut out: Vec<String> = Vec::new();
    for i in 0..list.data.len()
        invariant
            text::texts(out@) == model_ids(list@).take(i as int),
    {
        let ghost before = text::texts(out@);
        out.push(list.data[i].id.clone());
        assert(text::texts(out@) =~= before.push(model_ids(list@)[i as int]));
    }
    assert(model_ids(list@).take(list.data@.len() as int) =~= model_ids(list@));
    out
}

/// The names that an id stands for: the id in lower case and what stands behind its last
/// slash.
pub open spec fn id_names(id: Seq<char>) -> Set<Seq<char>> {
    let lower = outside::lowercase(id);
    set![lower, text::after_last(lower, seq!['/'])]
}

/// The names that a row of ids stands for.
pub open spec fn all_id_names(ids: Seq<Seq<char>>) -> Set<Seq<char>>
    decreases ids.len(),
{
    if ids.len() == 0 {
        Set::empty()
    } else {
        all_id_names(ids.drop_last()).union(id_names(ids.last()))
    }
}

/// Adds the names that an id stands for.
pub fn insert_id_names(set: &mut NameSet, id: &str)
    ensures
        final(set)@ == old(set)@.union(id_names(id@)),
{
    let ghost start = set@;
    let lower = outside::to_lowercase(id);
    let slash = ['/'];
    assert(slash@ == seq!['/']);
    let tail = text::tail_after(&lower, &slash).to_string();
    set.insert(tail);
    set.insert(lower);
    assert(set@ =~= start.union(id_names(id@)));
}

/// The names that the models of a list stand for.
pub fn model_names(list: &OpenAiModelList) -> (r: NameSet)
    ensures
        r@ == all_id_names(model_ids(list@)),
{
    let mut set = NameSet::new();
    for i in 0..list.data.len()
        invariant
            set@ == all_id_names(model_ids(list@).take(i as int)),
    {
        insert_id_names(&mut set, &list.data[i].id);
        proof {
            let t = model_ids(list@).take(i + 1);
            assert(t.drop_last() =~= model_ids(list@).take(i as int));
            assert(t.last() == list.data@[i as int].id@);
        }
    }
    assert(model_ids(list@).take(list.data@.len() as int) =~= model_ids(list@));
    set
}

/// A server is told by the owner of its models, whatever the case of its letters; a model that
/// vLLM owns is decisive whatever the others say.
pub proof fn law_owners_tell_the_server(
    header: Option<Seq<char>>,
    list: Seq<OpenAiModelView>,
    i: int,
    owner: Seq<char>,
)
    requires
        0 <= i < list.len(),
        list[i].owned_by == Some(owner),
    ensures
        text::same_but_case(owner, "vllm"@) ==> endpoint_identity(header, list)
            == OpenAiEndpointIdentity::Vllm,
        list.len() == 1 && text::same_but_case(owner, "ferrum"@) ==> endpoint_identity(header, list)
            == OpenAiEndpointIdentity::Ferrum,
        list.len() == 1 && text::same_but_case(owner, "docker"@) ==> endpoint_identity(header, list)
            == OpenAiEndpointIdentity::DockerModelRunner,
        list.len() == 1 && text::same_but_case(owner, "llama-swap"@) ==> endpoint_identity(
            header,
            list,
        ) == OpenAiEndpointIdentity::LlamaSwap,
        list.len() == 1 && text::same_but_case(owner, "llamacpp"@) ==> endpoint_identity(
            header,
            list,
        ) == OpenAiEndpointIdentity::LlamaCpp,
        text::same_but_case(owner, "omlx"@) ==> owned_by(list, "omlx"@),
{
    reveal_strlit("vllm");
    reveal_strlit("ferrum");
    reveal_strlit("docker");
    reveal_strlit("llama-swap");
    reveal_strlit("llamacpp");
    let low = text::ascii_lowercase(owner);
    let v = text::ascii_lowercase("vllm"@);
    let f = text::ascii_lowercase("ferrum"@);
    let d = text::ascii_lowercase("docker"@);
    let s = text::ascii_lowercase("llama-swap"@);
    let c = text::ascii_lowercase("llamacpp"@);
    assert(v.len() == 4 && f.len() == 6 && d.len() == 6 && s.len() == 10 && c.len() == 8);
    assert(f[0] == 'f' && d[0] == 'd');
    if text::same_but_case(owner, "vllm"@) {
        assert(has_owner(list[i], "vllm"@));
    }
    if text::same_but_case(owner, "ferrum"@) {
        assert(has_owner(list[i], "ferrum"@));
    }
    if text::same_but_case(owner, "docker"@) {
        assert(has_owner(list[i], "docker"@));
    }
    if text::same_but_case(owner, "llama-swap"@) {
        assert(has_owner(list[i], "llama-swap"@));
    }
    if text::same_but_case(owner, "llamacpp"@) {
        assert(has_owner(list[i], "llamacpp"@));
    }
    if text::same_but_case(owner, "omlx"@) {
        assert(has_owner(list[i], "omlx"@));
    }
}

/// Where no model names an owner only the server header tells, and only llama.cpp.
pub proof fn law_headers_tell_llamacpp(header: Option<Seq<char>>, list: Seq<OpenAiModelView>)
    requires
        forall|i: int| 0 <= i < list.len() ==> (#[trigger] list[i]).owned_by is None,
    ensures
        header matches Some(h) && text::same_but_case(h, "llama.cpp"@) ==> endpoint_identity(
            header,
            list,
        ) == OpenAiEndpointIdentity::LlamaCpp,
        header is None ==> endpoint_identity(header, list) == OpenAiEndpointIdentity::Unrecognized,
        header matches Some(h) && !text::same_but_case(h, "llama.cpp"@) ==> endpoint_identity(
            header,
            list,
        ) == OpenAiEndpointIdentity::Unrecognized,
        !owned_by(list, "omlx"@),
{
}

/// Each id of a list stands for itself in lower case and for what stands behind its last slash,
/// and the names of a list are those of its ids.
pub proof fn law_ids_stand_for_names(ids: Seq<Seq<char>>, i: int, name: Seq<char>)
    ensures
        0 <= i < ids.len() ==> all_id_names(ids).contains(outside::lowercase(ids[i]))
            && all_id_names(ids).contains(
            text::after_last(outside::lowercase(ids[i]), seq!['/']),
        ),
        all_id_names(ids).contains(name) ==> exists|k: int|
            0 <= k < ids.len() && (name == outside::lowercase(#[trigger] ids[k]) || name
                == text::after_last(outside::lowercase(ids[k]), seq!['/'])),
    decreases ids.len(),
{
    if ids.len() > 0 {
        let front = ids.drop_last();
        let last = ids.len() - 1;
        law_ids_stand_for_names(front, i, name);
        if 0 <= i < last {
            assert(front[i] == ids[i]);
        }
        if all_id_names(ids).contains(name) {
            if all_id_names(front).contains(name) {
                let k = choose|k: int|
                    0 <= k < front.len() && (name == outside::lowercase(#[trigger] front[k]) || name
                        == text::after_last(outside::lowercase(front[k]), seq!['/']));
                assert(ids[k] == front[k]);
            } else {
                assert(ids[last] == ids.last());
            }
        }
    }
}

/// The ids of a list are told one by one.
pub proof fn law_ids_are_told(list: Seq<OpenAiModelView>, i: int)
    ensures
        model_ids(list).len() == list.len(),
        0 <= i < list.len() ==> model_ids(list)[i] == list[i].id,
{
}

} // verus!
