//! The runtimes: where each is asked, and what its answers say of it and of its models.
use vstd::prelude::*;
use crate::json;
use crate::json::{Json, JsonTree};
use crate::names::NameSet;
use crate::outside;
use crate::providers::answers;
use crate::providers::answers::{HttpAnswer, HttpAnswerView};
use crate::providers::disk;
use crate::providers::disk::{DirEntry, GgufFile};
use crate::providers::hosts;
use crate::providers::ollama;
use crate::providers::openai;
use crate::providers::openai::{OpenAiEndpointIdentity, OpenAiModelList, OpenAiModelView};
use crate::text;

verus! {

/// A runtime that serves models on this machine. What it answered to the requests that are
/// made of it is handed in.
pub trait ModelProvider {
    /// What the runtime answered.
    type Answers;

    /// The runtime can be used.
    spec fn available(&self, answers: Self::Answers) -> bool;

    /// The names of the models that are installed.
    spec fn installed(&self, answers: Self::Answers) -> Set<Seq<char>>;

    /// Whether the runtime can be used.
    fn is_available(&self, answers: &Self::Answers) -> (r: bool)
        ensures
            r == self.available(*answers),
    ;

    /// The names of the models that are installed, in lower case.
    fn installed_models(&self, answers: &Self::Answers) -> (r: NameSet)
        ensures
            r@ == self.installed(*answers),
    ;
}

/// What is told of a runtime: whether it is there, the names of its models and their number.
pub struct Detected {
    pub available: bool,
    pub names: Set<Seq<char>>,
    pub count: nat,
}

/// A runtime that is not there.
pub open spec fn absent() -> Detected {
    Detected { available: false, names: Set::empty(), count: 0 }
}

/// A runtime that is there and tells nothing of its models.
pub open spec fn silent() -> Detected {
    Detected { available: true, names: Set::empty(), count: 0 }
}

/// The parts of `r` are what is told.
pub open spec fn tells(r: (bool, NameSet, usize), d: Detected) -> bool {
    r.0 == d.available && r.1@ == d.names && r.2 == d.count
}

/// The base address that a setting stands for, else the usual one.
pub open spec fn address_or(setting: Option<Seq<char>>, usual: Seq<char>) -> Seq<char> {
    match setting {
        Some(raw) => match hosts::host_address(raw) {
            Some(address) => address,
            None => usual,
        },
        None => usual,
    }
}

// ---------------------------------------------------------------------------
// Ollama
// ---------------------------------------------------------------------------

/// Ollama.
#[derive(Debug)]
pub struct OllamaProvider {
    pub base_url: String,
    /// The address to try where nothing answers at the first.
    pub fallback_url: Option<String>,
}

/// What is behind the address of Ollama.
#[derive(Debug)]
pub struct OllamaAnswers {
    /// The answer of the list of models.
    pub tags: Option<HttpAnswer>,
}

/// How a request to delete a model went.
#[derive(Debug)]
pub enum DeleteAnswer {
    /// The request could not be made.
    NotBuilt(String),
    /// Nothing answered.
    Failed(String),
    /// The status of the answer, with its text.
    Status(u16, String),
}

/// The error that a request to delete a model ends in.
pub open spec fn delete_error(answer: DeleteAnswer) -> Option<Seq<char>> {
    match answer {
        DeleteAnswer::NotBuilt(e) => Some("Failed to build request: "@ + e@),
        DeleteAnswer::Failed(e) => Some("Ollama delete request failed: "@ + e@),
        DeleteAnswer::Status(code, shown) => if code == 200 {
            None
        } else {
            Some("Ollama returned status "@ + shown@)
        },
    }
}

/// What the list of Ollama tells.
pub open spec fn ollama_told(answer: Option<HttpAnswerView>) -> (Set<Seq<char>>, nat) {
    match answer {
        Some(a) => match answers::tags_of(a.body) {
            Some(models) => (ollama::installed_names(models), ollama::local_count(models)),
            None => (Set::empty(), 0),
        },
        None => (Set::empty(), 0),
    }
}

/// The address that `OLLAMA_HOST` names, unless it is one that nothing can connect to.
pub open spec fn explicit_ollama(setting: Option<Seq<char>>) -> Option<Seq<char>> {
    match setting {
        Some(raw) => match hosts::host_address(raw) {
            Some(address) => if hosts::wildcard_address(address) {
                None
            } else {
                Some(address)
            },
            None => None,
        },
        None => None,
    }
}

fn read_ollama(answer: &Option<HttpAnswer>) -> (r: (NameSet, usize))
    ensures
        (r.0@, r.1 as nat) == ollama_told(answers::opt_answer(*answer)),
{
    match answer {
        Some(a) => match answers::read_tags(&a.body) {
            Some(models) => ollama::build_installed_set(models),
            None => (NameSet::new(), 0),
        },
        None => (NameSet::new(), 0),
    }
}

impl OllamaProvider {
    /// Ollama at the address that the setting `OLLAMA_HOST` names. Where it names none that
    /// can be connected to, Ollama is at `localhost`, and where nothing answers there, at
    /// `127.0.0.1`.
    pub fn new(setting: Option<&str>) -> (r: OllamaProvider)
        ensures
            match explicit_ollama(text::opt_str(setting)) {
                Some(address) => r.base_url@ == address && r.fallback_url is None,
                None => r.base_url@ == "http://localhost:11434"@ && text::opt_text(r.fallback_url)
                    == Some("http://127.0.0.1:11434"@),
            },
    {
        if let Some(raw) = setting {
            if let Some(address) = hosts::normalize_ollama_host(raw) {
                if !hosts::is_wildcard_bind_address(&address) {
                    return OllamaProvider { base_url: address, fallback_url: None };
                }
            }
        }
        OllamaProvider {
            base_url: "http://localhost:11434".to_string(),
            fallback_url: Some("http://127.0.0.1:11434".to_string()),
        }
    }

    /// The address of a part of Ollama's interface.
    pub fn api_url(&self, path: &str) -> (r: String)
        ensures
            r@ == hosts::address_at(self.base_url@, "/api/"@ + path@),
    {
        let mut part = "/api/".to_string();
        part.append(path);
        hosts::url_at(&self.base_url, &part)
    }

    /// The address at which the list of models is asked for where nothing answers at the
    /// first address.
    pub fn fallback_tags_url(&self) -> (r: Option<String>)
        ensures
            match (r, self.fallback_url) {
                (Some(url), Some(f)) => url@ == hosts::address_at(f@, "/api/tags"@),
                (None, None) => true,
                _ => false,
            },
    {
        match &self.fallback_url {
            Some(f) => Some(hosts::url_at(f, "/api/tags")),
            None => None,
        }
    }

    /// Tells whether Ollama is there, the names of its models and their number. Where nothing
    /// answered at the first address and something did at the other, that one is used from
    /// now on.
    pub fn detect_with_installed(
        &mut self,
        primary: &Option<HttpAnswer>,
        fallback: &Option<HttpAnswer>,
    ) -> (r: (bool, NameSet, usize))
        ensures
            ({
                let adopted = *primary is None && old(self).fallback_url is Some && *fallback
                    is Some;
                let answer = if *primary is Some {
                    *primary
                } else if adopted {
                    *fallback
                } else {
                    None
                };
                let (names, count) = ollama_told(answers::opt_answer(answer));
                &&& tells(r, Detected { available: answer is Some, names, count })
                &&& if adopted {
                    final(self).base_url@ == old(self).fallback_url->0@
                        && final(self).fallback_url is None
                } else {
                    *final(self) == *old(self)
                }
            }),
    {
        if primary.is_some() {
            let (names, count) = read_ollama(primary);
            return (true, names, count);
        }
        if fallback.is_none() {
            return (false, NameSet::new(), 0);
        }
        let url: String = match &self.fallback_url {
            Some(f) => f.clone(),
            None => {
                return (false, NameSet::new(), 0);
            },
        };
        self.base_url = url;
        self.fallback_url = None;
        let (names, count) = read_ollama(fallback);
        (true, names, count)
    }

    /// The names of the models that are installed, and their number.
    pub fn installed_models_counted(&self, answers: &OllamaAnswers) -> (r: (NameSet, usize))
        ensures
            (r.0@, r.1 as nat) == ollama_told(answers::opt_answer(answers.tags)),
    {
        read_ollama(&answers.tags)
    }

    /// What is sent to delete a model.
    pub fn delete_body(&self, model_tag: &str) -> (r: Json)
        ensures
            r.tree() == JsonTree::Object(seq![("name"@, JsonTree::Text(model_tag@))]),
    {
        let mut members: Vec<(String, Json)> = Vec::new();
        json::put(&mut members, "name", json::string(model_tag));
        assert(json::members_tree(members@) =~= seq![("name"@, JsonTree::Text(model_tag@))]);
        json::object(members)
    }

    /// How the request to delete a model ended.
    pub fn delete_model(&self, answer: DeleteAnswer) -> (r: Result<(), String>)
        ensures
            match r {
                Ok(()) => delete_error(answer) is None,
                Err(e) => delete_error(answer) == Some(e@),
            },
    {
        match answer {
            DeleteAnswer::NotBuilt(e) => {
                let mut out = "Failed to build request: ".to_string();
                out.append(&e);
                Err(out)
            },
            DeleteAnswer::Failed(e) => {
                let mut out = "Ollama delete request failed: ".to_string();
                out.append(&e);
                Err(out)
            },
            DeleteAnswer::Status(code, shown) => {
                if code == 200 {
                    return Ok(());
                }
                let mut out = "Ollama returned status ".to_string();
                out.append(&shown);
                Err(out)
            },
        }
    }

    /// What is sent to ask for a tag.
    pub fn show_body(&self, model_tag: &str) -> (r: Json)
        ensures
            r.tree() == JsonTree::Object(seq![("model"@, JsonTree::Text(model_tag@))]),
    {
        let mut members: Vec<(String, Json)> = Vec::new();
        json::put(&mut members, "model", json::string(model_tag));
        assert(json::members_tree(members@) =~= seq![("model"@, JsonTree::Text(model_tag@))]);
        json::object(members)
    }

    /// Whether Ollama knows a tag: it does where the question for it did not fail.
    pub fn has_remote_tag(&self, answer: &Option<HttpAnswer>) -> (r: bool)
        ensures
            r == (*answer is Some),
    {
        answer.is_some()
    }
}

impl ModelProvider for OllamaProvider {
    type Answers = OllamaAnswers;

    open spec fn available(&self, answers: OllamaAnswers) -> bool {
        answers.tags is Some
    }

    open spec fn installed(&self, answers: OllamaAnswers) -> Set<Seq<char>> {
        ollama_told(answers::opt_answer(answers.tags)).0
    }

    fn is_available(&self, answers: &OllamaAnswers) -> (r: bool) {
        answers.tags.is_some()
    }

    fn installed_models(&self, answers: &OllamaAnswers) -> (r: NameSet) {
        self.installed_models_counted(answers).0
    }
}

// ---------------------------------------------------------------------------
// MLX
// ---------------------------------------------------------------------------

/// The usual address of a server for MLX.
pub const MLX_DEFAULT_SERVER_URL: &'static str = "http://localhost:8080";

/// The usual address of oMLX.
pub const OMLX_DEFAULT_SERVER_URL: &'static str = "http://127.0.0.1:8000";

/// The runtimes for MLX.
#[derive(Debug)]
pub struct MlxProvider {
    pub server_url: String,
    /// The address was set.
    pub server_url_explicit: bool,
}

/// A server that may run MLX.
#[derive(Debug)]
pub struct MlxServerCandidate {
    pub base_url: String,
    /// It only counts where it is oMLX.
    pub require_omlx_identity: bool,
}

/// What a server that may run MLX answered.
#[derive(Debug)]
pub struct MlxServerAnswers {
    /// The answer of oMLX's status page, where it was asked for.
    pub status: Option<HttpAnswer>,
    /// The answer of the list of models.
    pub models: Option<HttpAnswer>,
}

/// What is known of the runtimes for MLX.
#[derive(Debug)]
pub struct MlxAnswers {
    /// This is a Mac.
    pub macos: bool,
    /// The names of the directories in the caches of the hub.
    pub cached: Vec<String>,
    /// What the servers answered, in the order of the candidates.
    pub servers: Vec<MlxServerAnswers>,
    /// The package for MLX is installed in Python.
    pub python: bool,
}

/// The server of `MLX_LM_HOST` is used as it is named, where it names `http` or `https`.
pub open spec fn explicit_mlx(setting: Option<Seq<char>>) -> Option<Seq<char>> {
    match setting {
        Some(url) => if "http://"@.is_prefix_of(url) || "https://"@.is_prefix_of(url) {
            Some(url)
        } else {
            None
        },
        None => None,
    }
}

/// oMLX is asked too: no address was set, and the usual one is another.
pub open spec fn asks_omlx(p: MlxProvider) -> bool {
    !p.server_url_explicit && p.server_url@ != OMLX_DEFAULT_SERVER_URL@
}

/// The list of a server that may run MLX, where it does: another kind of server does not, and
/// where only oMLX counts, its status or the owner of its models has to tell it.
pub open spec fn mlx_list(
    require_omlx: bool,
    status: Option<HttpAnswerView>,
    models: Option<HttpAnswerView>,
) -> Option<Seq<OpenAiModelView>> {
    match models {
        Some(a) => match answers::model_list_of(a.body) {
            Some(list) => if openai::endpoint_identity(a.server, list)
                != OpenAiEndpointIdentity::Unrecognized {
                None
            } else if require_omlx && !answers::from_omlx(status) && !openai::owned_by(
                list,
                "omlx"@,
            ) {
                None
            } else {
                Some(list)
            },
            None => None,
        },
        None => None,
    }
}

/// The list of the server number `i`.
pub open spec fn mlx_list_at(servers: Seq<MlxServerAnswers>, i: int) -> Option<
    Seq<OpenAiModelView>,
> {
    if 0 <= i < servers.len() {
        mlx_list(
            i > 0,
            answers::opt_answer(servers[i].status),
            answers::opt_answer(servers[i].models),
        )
    } else {
        None
    }
}

/// The list of the first server that runs MLX.
pub open spec fn mlx_served(p: MlxProvider, servers: Seq<MlxServerAnswers>) -> Option<
    Seq<OpenAiModelView>,
> {
    match mlx_list_at(servers, 0) {
        Some(list) => Some(list),
        None => if asks_omlx(p) {
            mlx_list_at(servers, 1)
        } else {
            None
        },
    }
}

/// The ids in lower case.
pub open spec fn lower_ids(ids: Seq<Seq<char>>) -> Set<Seq<char>>
    decreases ids.len(),
{
    if ids.len() == 0 {
        Set::empty()
    } else {
        lower_ids(ids.drop_last()).insert(outside::lowercase(ids.last()))
    }
}

/// The names of the models for MLX: those in the caches, and on a Mac those of the first
/// server that runs MLX.
pub open spec fn mlx_names(p: MlxProvider, a: MlxAnswers) -> Set<Seq<char>> {
    let cached = disk::cached_mlx(text::texts(a.cached@));
    match mlx_served(p, a.servers@) {
        Some(list) => if a.macos {
            cached.union(lower_ids(openai::model_ids(list)))
        } else {
            cached
        },
        None => cached,
    }
}

/// MLX can be used: on a Mac, where a server runs it or Python has the package.
pub open spec fn mlx_available(p: MlxProvider, a: MlxAnswers) -> bool {
    a.macos && (mlx_served(p, a.servers@) is Some || a.python)
}

/// The list of a server that may run MLX, where it does.
pub fn candidate_models(require_omlx: bool, answers: &MlxServerAnswers) -> (r: Option<
    OpenAiModelList,
>)
    ensures
        match r {
            Some(list) => mlx_list(
                require_omlx,
                answers::opt_answer(answers.status),
                answers::opt_answer(answers.models),
            ) == Some(list@),
            None => mlx_list(
                require_omlx,
                answers::opt_answer(answers.status),
                answers::opt_answer(answers.models),
            ) is None,
        },
{
    let Some(a) = &answers.models else {
        return None;
    };
    let Some(list) = answers::read_model_list(&a.body) else {
        return None;
    };
    if identity_of(a, &list) != OpenAiEndpointIdentity::Unrecognized {
        return None;
    }
    if require_omlx && !answers::endpoint_has_omlx_status(&answers.status)
        && !openai::openai_model_list_is_omlx(&list) {
        return None;
    }
    Some(list)
}

fn identity_of(a: &HttpAnswer, list: &OpenAiModelList) -> (r: OpenAiEndpointIdentity)
    ensures
        r == openai::endpoint_identity(a@.server, list@),
{
    match &a.server {
        Some(s) => openai::classify_openai_endpoint(Some(s.as_str()), list),
        None => openai::classify_openai_endpoint(None, list),
    }
}

fn insert_lower_ids(set: &mut NameSet, list: &OpenAiModelList)
    ensures
        final(set)@ == old(set)@.union(lower_ids(openai::model_ids(list@))),
{
    let ghost start = set@;
    let ghost ids = openai::model_ids(list@);
    assert(ids.take(0) =~= Seq::empty());
    assert(start.union(Set::empty()) =~= start);
    for i in 0..list.data.len()
        invariant
            ids == openai::model_ids(list@),
            set@ == start.union(lower_ids(ids.take(i as int))),
    {
        assert(ids.take(i + 1).drop_last() =~= ids.take(i as int));
        assert(ids.take(i + 1).last() == list.data@[i as int].id@);
        let ghost before = set@;
        set.insert(outside::to_lowercase(&list.data[i].id));
        assert(set@ =~= start.union(lower_ids(ids.take(i + 1))));
    }
    assert(ids.take(list.data@.len() as int) =~= ids);
}

impl MlxProvider {
    /// The server that the setting `MLX_LM_HOST` names, else the usual one.
    pub fn new(setting: Option<&str>) -> (r: MlxProvider)
        ensures
            match explicit_mlx(text::opt_str(setting)) {
                Some(url) => r.server_url@ == url && r.server_url_explicit,
                None => r.server_url@ == MLX_DEFAULT_SERVER_URL@ && !r.server_url_explicit,
            },
    {
        if let Some(url) = setting {
            if text::starts_with(url, "http://") || text::starts_with(url, "https://") {
                return MlxProvider { server_url: url.to_string(), server_url_explicit: true };
            }
        }
        MlxProvider { server_url: MLX_DEFAULT_SERVER_URL.to_string(), server_url_explicit: false }
    }

    /// The servers that may run MLX, in the order in which they are asked.
    pub fn server_candidates(&self) -> (r: Vec<MlxServerCandidate>)
        ensures
            r@.len() == (if asks_omlx(*self) {
                2int
            } else {
                1
            }),
            r@[0].base_url@ == self.server_url@ && !r@[0].require_omlx_identity,
            asks_omlx(*self) ==> r@[1].base_url@ == OMLX_DEFAULT_SERVER_URL@
                && r@[1].require_omlx_identity,
    {
        let mut out: Vec<MlxServerCandidate> = Vec::new();
        out.push(
            MlxServerCandidate { base_url: self.server_url.clone(), require_omlx_identity: false },
        );
        if !self.server_url_explicit && !text::same(&self.server_url, OMLX_DEFAULT_SERVER_URL) {
            out.push(
                MlxServerCandidate {
                    base_url: OMLX_DEFAULT_SERVER_URL.to_string(),
                    require_omlx_identity: true,
                },
            );
        }
        out
    }

    /// The list of the first server that runs MLX.
    fn served(&self, servers: &Vec<MlxServerAnswers>) -> (r: Option<OpenAiModelList>)
        ensures
            match r {
                Some(list) => mlx_served(*self, servers@) == Some(list@),
                None => mlx_served(*self, servers@) is None,
            },
    {
        if servers.len() > 0 {
            if let Some(list) = candidate_models(false, &servers[0]) {
                return Some(list);
            }
        }
        if !self.server_url_explicit && !text::same(&self.server_url, OMLX_DEFAULT_SERVER_URL)
            && servers.len() > 1 {
            return candidate_models(true, &servers[1]);
        }
        None
    }

    /// Tells whether MLX can be used, and the names of the models for it.
    pub fn detect_with_installed(&self, answers: &MlxAnswers) -> (r: (bool, NameSet))
        ensures
            r.0 == mlx_available(*self, *answers),
            r.1@ == mlx_names(*self, *answers),
    {
        let mut set = disk::scan_hf_cache_for_mlx(&answers.cached);
        if !answers.macos {
            return (false, set);
        }
        match self.served(&answers.servers) {
            Some(list) => {
                insert_lower_ids(&mut set, &list);
                (true, set)
            },
            None => (answers.python, set),
        }
    }
}

impl ModelProvider for MlxProvider {
    type Answers = MlxAnswers;

    open spec fn available(&self, answers: MlxAnswers) -> bool {
        mlx_available(*self, answers)
    }

    open spec fn installed(&self, answers: MlxAnswers) -> Set<Seq<char>> {
        mlx_names(*self, answers)
    }

    fn is_available(&self, answers: &MlxAnswers) -> (r: bool) {
        answers.macos && (self.served(&answers.servers).is_some() || answers.python)
    }

    fn installed_models(&self, answers: &MlxAnswers) -> (r: NameSet) {
        self.detect_with_installed(answers).1
    }
}

// ---------------------------------------------------------------------------
// llama.cpp
// ---------------------------------------------------------------------------

/// llama.cpp: its programs, and GGUF files that they run.
#[derive(Debug)]
pub struct LlamaCppProvider {
    pub models_dir: String,
    pub llama_cli: Option<String>,
    pub llama_server: Option<String>,
    /// A server answered.
    pub server_running: bool,
}

/// What is known of the models for llama.cpp.
#[derive(Debug)]
pub struct LlamaCppAnswers {
    /// What is in the directory of the models, where it can be read.
    pub tree: Option<Vec<DirEntry>>,
    /// The names of the directories in the caches of the hub.
    pub cached: Vec<String>,
}

/// The names of the models for llama.cpp, and their number.
pub open spec fn llama_told(a: LlamaCppAnswers) -> (Set<Seq<char>>, nat) {
    let files = disk::file_names(
        disk::found_models(disk::opt_entries(a.tree), disk::GGUF_SCAN_MAX_DEPTH as nat),
    );
    let cached = disk::cached_gguf(text::texts(a.cached@));
    (files.0.union(cached.0), files.1 + cached.1)
}

/// The first of the files from number `i` on whose stem is `tag`, whatever the case of the
/// letters.
pub open spec fn file_of_tag(files: Seq<disk::GgufFileView>, tag: Seq<char>, i: int) -> Option<
    Seq<char>,
>
    decreases files.len() - i,
{
    if i < 0 || i >= files.len() {
        None
    } else if files[i].stem matches Some(s) && outside::lowercase(s) == outside::lowercase(tag) {
        Some(files[i].path)
    } else {
        file_of_tag(files, tag, i + 1)
    }
}

/// A server is looked for only where neither program is found.
pub fn probes_llama_server(llama_cli: &Option<String>, llama_server: &Option<String>) -> (r: bool)
    ensures
        r == (*llama_cli is None && *llama_server is None),
{
    llama_cli.is_none() && llama_server.is_none()
}

/// The address at which a server of llama.cpp tells that it is well.
pub fn llama_health_url(port: Option<&str>) -> (r: String)
    ensures
        r@ == hosts::address_at(
            "http://localhost:"@ + (match port {
                Some(p) => p@,
                None => "8080"@,
            }),
            "/health"@,
        ),
{
    let mut base = "http://localhost:".to_string();
    match port {
        Some(p) => base.append(p),
        None => base.append("8080"),
    }
    hosts::url_at(&base, "/health")
}

impl LlamaCppProvider {
    /// llama.cpp with the programs that were found. That a server answers counts only where
    /// neither program was found.
    pub fn new(
        models_dir: String,
        llama_cli: Option<String>,
        llama_server: Option<String>,
        server_answers: bool,
    ) -> (r: LlamaCppProvider)
        ensures
            r.models_dir == models_dir,
            r.llama_cli == llama_cli,
            r.llama_server == llama_server,
            r.server_running == (llama_cli is None && llama_server is None && server_answers),
    {
        let server_running = probes_llama_server(&llama_cli, &llama_server) && server_answers;
        LlamaCppProvider { models_dir, llama_cli, llama_server, server_running }
    }

    /// The names of the models, and the number of the files and repositories. A number that
    /// is too large for the machine is its largest.
    pub fn installed_models_counted(&self, answers: &LlamaCppAnswers) -> (r: (NameSet, usize))
        ensures
            r.0@ == llama_told(*answers).0,
            r.1 == (if llama_told(*answers).1 <= usize::MAX {
                llama_told(*answers).1 as int
            } else {
                usize::MAX as int
            }),
    {
        let files = self.list_gguf_files(&answers.tree);
        let (mut set, count) = disk::gguf_file_names(&files);
        let (cached, cached_count) = disk::scan_hf_cache_for_gguf(&answers.cached);
        set.extend(&cached);
        let total: usize = count.saturating_add(cached_count);
        (set, total)
    }

    /// The directory of the models.
    pub fn models_dir(&self) -> (r: &str)
        ensures
            r@ == self.models_dir@,
    {
        self.models_dir.as_str()
    }

    /// Uses another directory of models.
    pub fn set_models_dir(&mut self, dir: String)
        ensures
            *final(self) == (LlamaCppProvider { models_dir: dir, ..*old(self) }),
    {
        self.models_dir = dir;
    }

    /// The file to delete for a model.
    pub fn delete_model(&self, model_tag: &str, tree: &Option<Vec<DirEntry>>) -> (r: Result<
        String,
        String,
    >)
        ensures
            ({
                let found = file_of_tag(
                    disk::found_models(
                        disk::opt_entries(*tree),
                        disk::GGUF_SCAN_MAX_DEPTH as nat,
                    ),
                    model_tag@,
                    0,
                );
                match r {
                    Ok(path) => found == Some(path@),
                    Err(e) => found is None && e@ == "Model file not found for '"@ + model_tag@
                        + "'"@,
                }
            }),
    {
        let files = self.list_gguf_files(tree);
        let ghost views = disk::gguf_views(files@);
        let tag = outside::to_lowercase(model_tag);
        for i in 0..files.len()
            invariant
                views == disk::gguf_views(files@),
                views == disk::found_models(
                    disk::opt_entries(*tree),
                    disk::GGUF_SCAN_MAX_DEPTH as nat,
                ),
                tag@ == outside::lowercase(model_tag@),
                file_of_tag(views, model_tag@, 0) == file_of_tag(views, model_tag@, i as int),
        {
            assert(views[i as int] == files@[i as int]@);
            if let Some(stem) = &files[i].stem {
                if text::same(&outside::to_lowercase(stem), &tag) {
                    return Ok(files[i].path.clone());
                }
            }
        }
        let mut out = "Model file not found for '".to_string();
        out.append(model_tag);
        out.append("'");
        Err(out)
    }

    /// The error where a file could not be deleted.
    pub fn delete_failure(&self, path: &str, error: &str) -> (r: String)
        ensures
            r@ == "Failed to delete "@ + path@ + ": "@ + error@,
    {
        let mut out = "Failed to delete ".to_string();
        out.append(path);
        out.append(": ");
        out.append(error);
        out
    }

    /// The program `llama-cli`, where it was found.
    pub fn llama_cli_path(&self) -> (r: Option<&str>)
        ensures
            text::opt_str(r) == text::opt_text(self.llama_cli),
    {
        match &self.llama_cli {
            Some(p) => Some(p.as_str()),
            None => None,
        }
    }

    /// The program `llama-server`, where it was found.
    pub fn llama_server_path(&self) -> (r: Option<&str>)
        ensures
            text::opt_str(r) == text::opt_text(self.llama_server),
    {
        match &self.llama_server {
            Some(p) => Some(p.as_str()),
            None => None,
        }
    }

    /// Whether a server answered.
    pub fn server_running(&self) -> (r: bool)
        ensures
            r == self.server_running,
    {
        self.server_running
    }

    /// How llama.cpp was found, in a few words.
    pub fn detection_hint(&self) -> (r: &'static str)
        ensures
            r@ == (if self.llama_cli is Some || self.llama_server is Some {
                ""@
            } else if self.server_running {
                "server detected"@
            } else {
                "not in PATH, set LLAMA_CPP_PATH"@
            }),
    {
        if self.llama_cli.is_some() || self.llama_server.is_some() {
            ""
        } else if self.server_running {
            "server detected"
        } else {
            "not in PATH, set LLAMA_CPP_PATH"
        }
    }

    /// The model files in what was read of the directory of the models.
    pub fn list_gguf_files(&self, tree: &Option<Vec<DirEntry>>) -> (r: Vec<GgufFile>)
        ensures
            disk::gguf_views(r@) == disk::found_models(
                disk::opt_entries(*tree),
                disk::GGUF_SCAN_MAX_DEPTH as nat,
            ),
    {
        disk::collect_gguf_files(tree, disk::GGUF_SCAN_MAX_DEPTH)
    }
}

impl ModelProvider for LlamaCppProvider {
    type Answers = LlamaCppAnswers;

    open spec fn available(&self, answers: LlamaCppAnswers) -> bool {
        self.llama_cli is Some || self.llama_server is Some || self.server_running
    }

    open spec fn installed(&self, answers: LlamaCppAnswers) -> Set<Seq<char>> {
        llama_told(answers).0
    }

    fn is_available(&self, answers: &LlamaCppAnswers) -> (r: bool) {
        self.llama_cli.is_some() || self.llama_server.is_some() || self.server_running
    }

    fn installed_models(&self, answers: &LlamaCppAnswers) -> (r: NameSet) {
        self.installed_models_counted(answers).0
    }
}

// ---------------------------------------------------------------------------
// Docker Model Runner
// ---------------------------------------------------------------------------

/// Docker Model Runner.
#[derive(Debug)]
pub struct DockerModelRunnerProvider {
    pub base_url: String,
}

/// What is behind the address of Docker Model Runner.
#[derive(Debug)]
pub struct DockerAnswers {
    /// Docker Desktop cannot be running, so that nothing is asked.
    pub ruled_out: bool,
    /// The answer of the list of models.
    pub models: Option<HttpAnswer>,
    /// The answer at the root, where it was asked for.
    pub root: Option<HttpAnswer>,
}

/// Docker Desktop is taken to run: one of its sockets is there, or a host is set.
pub open spec fn desktop_runs(
    system_socket: bool,
    home_socket: bool,
    setting: Option<Seq<char>>,
) -> bool {
    system_socket || home_socket || hosts::setting_given(setting)
}

/// Whether Docker Desktop is taken to run.
pub fn is_docker_desktop_running(
    system_socket: bool,
    home_socket: bool,
    setting: Option<&str>,
) -> (r: bool)
    ensures
        r == desktop_runs(system_socket, home_socket, text::opt_str(setting)),
{
    system_socket || home_socket || hosts::host_is_set(setting)
}

/// The list comes from Docker Model Runner. An empty list does not tell; where nothing else
/// does either, the root tells.
pub open spec fn from_docker(
    server: Option<Seq<char>>,
    list: Seq<OpenAiModelView>,
    root: Option<HttpAnswerView>,
) -> bool {
    let identity = openai::endpoint_identity(server, list);
    identity == OpenAiEndpointIdentity::DockerModelRunner || (list.len() == 0 && identity
        == OpenAiEndpointIdentity::Unrecognized && answers::from_docker_root(root))
}

/// The names that an id of Docker Model Runner stands for: the id in lower case, what stands
/// behind its last slash, and what stands before its first colon.
pub open spec fn docker_id_names(id: Seq<char>) -> Set<Seq<char>> {
    let lower = outside::lowercase(id);
    openai::id_names(id).insert(text::before_first(lower, seq![':']))
}

/// The names that a row of ids stands for.
pub open spec fn docker_names(ids: Seq<Seq<char>>) -> Set<Seq<char>>
    decreases ids.len(),
{
    if ids.len() == 0 {
        Set::empty()
    } else {
        docker_names(ids.drop_last()).union(docker_id_names(ids.last()))
    }
}

/// What is told of Docker Model Runner.
pub open spec fn docker_told(a: DockerAnswers) -> Detected {
    match answers::opt_answer(a.models) {
        Some(m) => if a.ruled_out {
            absent()
        } else {
            match answers::model_list_of(m.body) {
                Some(list) => if from_docker(m.server, list, answers::opt_answer(a.root)) {
                    Detected {
                        available: true,
                        names: docker_names(openai::model_ids(list)),
                        count: list.len(),
                    }
                } else {
                    absent()
                },
                None => silent(),
            }
        },
        None => absent(),
    }
}

/// Docker Model Runner answers.
pub open spec fn docker_available(a: DockerAnswers) -> bool {
    match answers::opt_answer(a.models) {
        Some(m) => match answers::model_list_of(m.body) {
            Some(list) => from_docker(m.server, list, answers::opt_answer(a.root)),
            None => false,
        },
        None => false,
    }
}

fn list_is_docker(a: &HttpAnswer, list: &OpenAiModelList, root: &Option<HttpAnswer>) -> (r: bool)
    ensures
        r == from_docker(a@.server, list@, answers::opt_answer(*root)),
{
    let identity = identity_of(a, list);
    identity == OpenAiEndpointIdentity::DockerModelRunner || (list.data.len() == 0 && identity
        == OpenAiEndpointIdentity::Unrecognized && answers::endpoint_is_docker_model_runner_root(
        root,
    ))
}

fn docker_name_set(list: &OpenAiModelList) -> (r: NameSet)
    ensures
        r@ == docker_names(openai::model_ids(list@)),
{
    let ghost ids = openai::model_ids(list@);
    let colon = [':'];
    assert(colon@ == seq![':']);
    let mut set = NameSet::new();
    assert(ids.take(0) =~= Seq::empty());
    for i in 0..list.data.len()
        invariant
            colon@ == seq![':'],
            ids == openai::model_ids(list@),
            set@ == docker_names(ids.take(i as int)),
    {
        assert(ids.take(i + 1).drop_last() =~= ids.take(i as int));
        assert(ids.take(i + 1).last() == list.data@[i as int].id@);
        let ghost before = set@;
        openai::insert_id_names(&mut set, &list.data[i].id);
        let lower = outside::to_lowercase(&list.data[i].id);
        set.insert(text::head_before(&lower, &colon).to_string());
        assert(set@ =~= before.union(docker_id_names(list.data@[i as int].id@)));
    }
    assert(ids.take(list.data@.len() as int) =~= ids);
    set
}

impl DockerModelRunnerProvider {
    /// Docker Model Runner at the address that the setting `DOCKER_MODEL_RUNNER_HOST` stands
    /// for, else at the usual one.
    pub fn new(setting: Option<&str>) -> (r: DockerModelRunnerProvider)
        ensures
            r.base_url@ == address_or(text::opt_str(setting), "http://localhost:12434"@),
    {
        if let Some(raw) = setting {
            if let Some(base_url) = hosts::normalize_docker_mr_host(raw) {
                return DockerModelRunnerProvider { base_url };
            }
        }
        DockerModelRunnerProvider { base_url: "http://localhost:12434".to_string() }
    }

    /// The address of the list of models.
    pub fn models_url(&self) -> (r: String)
        ensures
            r@ == hosts::address_at(self.base_url@, "/v1/models"@),
    {
        hosts::openai_models_url(&self.base_url)
    }

    /// Whether the root has to be asked too: the list is empty and nothing tells whose it is.
    pub fn needs_root(&self, models: &Option<HttpAnswer>) -> (r: bool)
        ensures
            r == match answers::opt_answer(*models) {
                Some(m) => match answers::model_list_of(m.body) {
                    Some(list) => list.len() == 0 && openai::endpoint_identity(m.server, list)
                        == OpenAiEndpointIdentity::Unrecognized,
                    None => false,
                },
                None => false,
            },
    {
        match models {
            Some(a) => match answers::read_model_list(&a.body) {
                Some(list) => list.data.len() == 0 && identity_of(a, &list)
                    == OpenAiEndpointIdentity::Unrecognized,
                None => false,
            },
            None => false,
        }
    }

    /// Tells whether Docker Model Runner is there, the names of its models and their number.
    pub fn detect_with_installed(&self, answers: &DockerAnswers) -> (r: (bool, NameSet, usize))
        ensures
            tells(r, docker_told(*answers)),
    {
        if answers.ruled_out {
            return (false, NameSet::new(), 0);
        }
        let Some(a) = &answers.models else {
            return (false, NameSet::new(), 0);
        };
        let Some(list) = answers::read_model_list(&a.body) else {
            return (true, NameSet::new(), 0);
        };
        if !list_is_docker(a, &list, &answers.root) {
            return (false, NameSet::new(), 0);
        }
        let count: usize = list.data.len();
        (true, docker_name_set(&list), count)
    }

    /// The names of the models, and their number.
    pub fn installed_models_counted(&self, answers: &DockerAnswers) -> (r: (NameSet, usize))
        ensures
            r.0@ == docker_told(*answers).names,
            r.1 == docker_told(*answers).count,
    {
        let (_, set, count) = self.detect_with_installed(answers);
        (set, count)
    }
}

impl ModelProvider for DockerModelRunnerProvider {
    type Answers = DockerAnswers;

    open spec fn available(&self, answers: DockerAnswers) -> bool {
        docker_available(answers)
    }

    open spec fn installed(&self, answers: DockerAnswers) -> Set<Seq<char>> {
        docker_told(answers).names
    }

    fn is_available(&self, answers: &DockerAnswers) -> (r: bool) {
        match &answers.models {
            Some(a) => match answers::read_model_list(&a.body) {
                Some(list) => list_is_docker(a, &list, &answers.root),
                None => false,
            },
            None => false,
        }
    }

    fn installed_models(&self, answers: &DockerAnswers) -> (r: NameSet) {
        self.installed_models_counted(answers).0
    }
}

// ---------------------------------------------------------------------------
// LM Studio
// ---------------------------------------------------------------------------

/// LM Studio.
#[derive(Debug)]
pub struct LmStudioProvider {
    pub base_url: String,
    /// The key that is sent with each request.
    pub api_key: Option<String>,
}

/// What is behind the address of LM Studio.
#[derive(Debug)]
pub struct LmStudioAnswers {
    /// The answer of the list of models.
    pub models: Option<HttpAnswer>,
    /// The answer of LM Studio's own list.
    pub native: Option<HttpAnswer>,
}

/// What is told of a server whose list counts where it is known to be the right one.
pub open spec fn list_told(list: Seq<OpenAiModelView>, right: bool) -> Detected {
    if right {
        Detected {
            available: true,
            names: openai::all_id_names(openai::model_ids(list)),
            count: list.len(),
        }
    } else {
        absent()
    }
}

/// What is told of LM Studio.
pub open spec fn lmstudio_told(a: LmStudioAnswers) -> Detected {
    match answers::opt_answer(a.models) {
        Some(m) => match answers::model_list_of(m.body) {
            Some(list) => list_told(list, answers::from_lmstudio(answers::opt_answer(a.native))),
            None => silent(),
        },
        None => absent(),
    }
}

impl LmStudioProvider {
    /// LM Studio at the address that the setting `LMSTUDIO_HOST` stands for, else at the
    /// usual one, with the key of the setting `LMSTUDIO_API_KEY` where it is not empty.
    pub fn new(setting: Option<&str>, api_key: Option<&str>) -> (r: LmStudioProvider)
        ensures
            r.base_url@ == address_or(text::opt_str(setting), "http://127.0.0.1:1234"@),
            text::opt_text(r.api_key) == (match api_key {
                Some(k) => if k@.len() == 0 {
                    None
                } else {
                    Some(k@)
                },
                None => None,
            }),
    {
        let key: Option<String> = match api_key {
            Some(k) => if k.unicode_len() == 0 {
                None
            } else {
                Some(k.to_string())
            },
            None => None,
        };
        if let Some(raw) = setting {
            if let Some(base_url) = hosts::normalize_lmstudio_host(raw) {
                return LmStudioProvider { base_url, api_key: key };
            }
        }
        LmStudioProvider { base_url: "http://127.0.0.1:1234".to_string(), api_key: key }
    }

    /// The address of the list of models.
    pub fn models_url(&self) -> (r: String)
        ensures
            r@ == hosts::address_at(self.base_url@, "/v1/models"@),
    {
        hosts::openai_models_url(&self.base_url)
    }

    /// The address of LM Studio's own list.
    pub fn native_url(&self) -> (r: String)
        ensures
            r@ == hosts::address_at(self.base_url@, "/api/v0/models"@),
    {
        hosts::url_at(&self.base_url, "/api/v0/models")
    }

    /// The header that tells the key.
    pub fn authorization(&self) -> (r: Option<String>)
        ensures
            match (r, self.api_key) {
                (Some(h), Some(k)) => h@ == "Bearer "@ + k@,
                (None, None) => true,
                _ => false,
            },
    {
        match &self.api_key {
            Some(k) => {
                let mut out = "Bearer ".to_string();
                out.append(k);
                Some(out)
            },
            None => None,
        }
    }

    /// Tells whether LM Studio is there, the names of its models and their number.
    pub fn detect_with_installed(&self, answers: &LmStudioAnswers) -> (r: (bool, NameSet, usize))
        ensures
            tells(r, lmstudio_told(*answers)),
    {
        let Some(a) = &answers.models else {
            return (false, NameSet::new(), 0);
        };
        let Some(list) = answers::read_model_list(&a.body) else {
            return (true, NameSet::new(), 0);
        };
        if !answers::endpoint_is_lmstudio(&answers.native) {
            return (false, NameSet::new(), 0);
        }
        let count: usize = list.data.len();
        (true, openai::model_names(&list), count)
    }

    /// The names of the models, and their number.
    pub fn installed_models_counted(&self, answers: &LmStudioAnswers) -> (r: (NameSet, usize))
        ensures
            r.0@ == lmstudio_told(*answers).names,
            r.1 == lmstudio_told(*answers).count,
    {
        let (_, set, count) = self.detect_with_installed(answers);
        (set, count)
    }
}

impl ModelProvider for LmStudioProvider {
    type Answers = LmStudioAnswers;

    open spec fn available(&self, answers: LmStudioAnswers) -> bool {
        answers::from_lmstudio(answers::opt_answer(answers.native))
    }

    open spec fn installed(&self, answers: LmStudioAnswers) -> Set<Seq<char>> {
        lmstudio_told(answers).names
    }

    fn is_available(&self, answers: &LmStudioAnswers) -> (r: bool) {
        answers::endpoint_is_lmstudio(&answers.native)
    }

    fn installed_models(&self, answers: &LmStudioAnswers) -> (r: NameSet) {
        self.installed_models_counted(answers).0
    }
}

// ---------------------------------------------------------------------------
// vLLM
// ---------------------------------------------------------------------------

/// vLLM.
#[derive(Debug)]
pub struct VllmProvider {
    pub base_url: String,
}

/// What is behind the address of vLLM.
#[derive(Debug)]
pub struct VllmAnswers {
    /// The answer of the list of models.
    pub models: Option<HttpAnswer>,
    /// The answer of oMLX's status page, where it was asked for.
    pub status: Option<HttpAnswer>,
}

/// What is told of vLLM. oMLX listens at the same address; where its list cannot be read or
/// is empty, its status page tells it.
pub open spec fn vllm_told(a: VllmAnswers) -> Detected {
    let omlx = answers::from_omlx(answers::opt_answer(a.status));
    match answers::opt_answer(a.models) {
        Some(m) => match answers::model_list_of(m.body) {
            Some(list) => list_told(
                list,
                !openai::owned_by(list, "omlx"@) && !(list.len() == 0 && omlx)
                    && openai::endpoint_identity(m.server, list) == OpenAiEndpointIdentity::Vllm,
            ),
            None => if omlx {
                absent()
            } else {
                silent()
            },
        },
        None => absent(),
    }
}

/// vLLM answers.
pub open spec fn vllm_available(a: VllmAnswers) -> bool {
    match answers::opt_answer(a.models) {
        Some(m) => match answers::model_list_of(m.body) {
            Some(list) => openai::endpoint_identity(m.server, list) == OpenAiEndpointIdentity::Vllm,
            None => false,
        },
        None => false,
    }
}

/// The status page of oMLX has to be asked for: the list cannot be read, or it is empty.
pub open spec fn asks_status(models: Option<HttpAnswerView>) -> bool {
    models matches Some(m) && (match answers::model_list_of(m.body) {
        Some(list) => list.len() == 0,
        None => true,
    })
}

impl VllmProvider {
    /// vLLM at the address that the setting `VLLM_HOST` stands for, else at the usual one.
    pub fn new(setting: Option<&str>) -> (r: VllmProvider)
        ensures
            r.base_url@ == address_or(text::opt_str(setting), "http://localhost:8000"@),
    {
        if let Some(raw) = setting {
            if let Some(base_url) = hosts::normalize_vllm_host(raw) {
                return VllmProvider { base_url };
            }
        }
        VllmProvider { base_url: "http://localhost:8000".to_string() }
    }

    /// The address of the list of models.
    pub fn models_url(&self) -> (r: String)
        ensures
            r@ == hosts::address_at(self.base_url@, "/v1/models"@),
    {
        hosts::openai_models_url(&self.base_url)
    }

    /// Whether the status page of oMLX has to be asked for.
    pub fn needs_status(&self, models: &Option<HttpAnswer>) -> (r: bool)
        ensures
            r == asks_status(answers::opt_answer(*models)),
    {
        match models {
            Some(a) => match answers::read_model_list(&a.body) {
                Some(list) => list.data.len() == 0,
                None => true,
            },
            None => false,
        }
    }

    /// Tells whether vLLM is there, the names of its models and their number.
    pub fn detect_with_installed(&self, answers: &VllmAnswers) -> (r: (bool, NameSet, usize))
        ensures
            tells(r, vllm_told(*answers)),
    {
        let Some(a) = &answers.models else {
            return (false, NameSet::new(), 0);
        };
        let Some(list) = answers::read_model_list(&a.body) else {
            let omlx = answers::endpoint_has_omlx_status(&answers.status);
            return (!omlx, NameSet::new(), 0);
        };
        if openai::openai_model_list_is_omlx(&list) || (list.data.len() == 0
            && answers::endpoint_has_omlx_status(&answers.status)) {
            return (false, NameSet::new(), 0);
        }
        if identity_of(a, &list) != OpenAiEndpointIdentity::Vllm {
            return (false, NameSet::new(), 0);
        }
        let count: usize = list.data.len();
        (true, openai::model_names(&list), count)
    }

    /// The names of the models, and their number.
    pub fn installed_models_counted(&self, answers: &VllmAnswers) -> (r: (NameSet, usize))
        ensures
            r.0@ == vllm_told(*answers).names,
            r.1 == vllm_told(*answers).count,
    {
        let (_, set, count) = self.detect_with_installed(answers);
        (set, count)
    }
}

impl ModelProvider for VllmProvider {
    type Answers = VllmAnswers;

    open spec fn available(&self, answers: VllmAnswers) -> bool {
        vllm_available(answers)
    }

    open spec fn installed(&self, answers: VllmAnswers) -> Set<Seq<char>> {
        vllm_told(answers).names
    }

    fn is_available(&self, answers: &VllmAnswers) -> (r: bool) {
        match &answers.models {
            Some(a) => match answers::read_model_list(&a.body) {
                Some(list) => identity_of(a, &list) == OpenAiEndpointIdentity::Vllm,
                None => false,
            },
            None => false,
        }
    }

    fn installed_models(&self, answers: &VllmAnswers) -> (r: NameSet) {
        self.installed_models_counted(answers).0
    }
}

// ---------------------------------------------------------------------------
// RamaLama
// ---------------------------------------------------------------------------

/// RamaLama.
#[derive(Debug)]
pub struct RamaLamaProvider {
    pub base_url: String,
}

/// What is known of RamaLama.
#[derive(Debug)]
pub struct RamaLamaAnswers {
    /// The answer of the list of models.
    pub models: Option<HttpAnswer>,
    /// What `ramalama ls --json` printed, where it was run and ended well.
    pub store: Option<Vec<u8>>,
}

/// The list does not count for RamaLama: there is none, or it comes from a llama-swap proxy.
/// The store counts in its place.
pub open spec fn asks_store(models: Option<HttpAnswerView>) -> bool {
    match models {
        Some(m) => answers::model_list_of(m.body) matches Some(list)
            && openai::endpoint_identity(m.server, list) == OpenAiEndpointIdentity::LlamaSwap,
        None => true,
    }
}

/// What RamaLama's store tells.
pub open spec fn store_told(store: Option<Seq<u8>>) -> Detected {
    match store {
        Some(output) => match answers::store_of(output) {
            Some((names, count)) => Detected { available: true, names, count },
            None => absent(),
        },
        None => absent(),
    }
}

/// The bytes, where there are some.
pub open spec fn opt_bytes(o: Option<Vec<u8>>) -> Option<Seq<u8>> {
    match o {
        Some(v) => Some(v@),
        None => None,
    }
}

/// What is told of RamaLama.
pub open spec fn ramalama_told(a: RamaLamaAnswers) -> Detected {
    let models = answers::opt_answer(a.models);
    if asks_store(models) {
        store_told(opt_bytes(a.store))
    } else {
        match answers::model_list_of(models->0.body) {
            Some(list) => list_told(list, true),
            None => silent(),
        }
    }
}

impl RamaLamaProvider {
    /// RamaLama at the address that the setting `RAMALAMA_HOST` stands for, else at the usual
    /// one.
    pub fn new(setting: Option<&str>) -> (r: RamaLamaProvider)
        ensures
            r.base_url@ == address_or(text::opt_str(setting), "http://localhost:8080"@),
    {
        if let Some(raw) = setting {
            if let Some(base_url) = hosts::normalize_ramalama_host(raw) {
                return RamaLamaProvider { base_url };
            }
        }
        RamaLamaProvider { base_url: "http://localhost:8080".to_string() }
    }

    /// The address of the list of models.
    pub fn models_url(&self) -> (r: String)
        ensures
            r@ == hosts::address_at(self.base_url@, "/v1/models"@),
    {
        hosts::openai_models_url(&self.base_url)
    }

    /// Whether the store has to be asked.
    pub fn needs_store(&self, models: &Option<HttpAnswer>) -> (r: bool)
        ensures
            r == asks_store(answers::opt_answer(*models)),
    {
        match models {
            Some(a) => match answers::read_model_list(&a.body) {
                Some(list) => identity_of(a, &list) == OpenAiEndpointIdentity::LlamaSwap,
                None => false,
            },
            None => true,
        }
    }

    fn from_store(&self, store: &Option<Vec<u8>>) -> (r: (bool, NameSet, usize))
        ensures
            tells(r, store_told(opt_bytes(*store))),
    {
        match store {
            Some(output) => match answers::parse_ramalama_store(output) {
                Some((set, count)) => (true, set, count),
                None => (false, NameSet::new(), 0),
            },
            None => (false, NameSet::new(), 0),
        }
    }

    /// Tells whether RamaLama is there, the names of its models and their number: as its
    /// server lists them, else as they are in its store.
    pub fn detect_with_installed(&self, answers: &RamaLamaAnswers) -> (r: (bool, NameSet, usize))
        ensures
            tells(r, ramalama_told(*answers)),
    {
        if self.needs_store(&answers.models) {
            return self.from_store(&answers.store);
        }
        let Some(a) = &answers.models else {
            return (false, NameSet::new(), 0);
        };
        let Some(list) = answers::read_model_list(&a.body) else {
            return (true, NameSet::new(), 0);
        };
        let count: usize = list.data.len();
        (true, openai::model_names(&list), count)
    }

    /// The names of the models, and their number.
    pub fn installed_models_counted(&self, answers: &RamaLamaAnswers) -> (r: (NameSet, usize))
        ensures
            r.0@ == ramalama_told(*answers).names,
            r.1 == ramalama_told(*answers).count,
    {
        let (_, set, count) = self.detect_with_installed(answers);
        (set, count)
    }
}

impl ModelProvider for RamaLamaProvider {
    type Answers = RamaLamaAnswers;

    open spec fn available(&self, answers: RamaLamaAnswers) -> bool {
        answers.models is Some
    }

    open spec fn installed(&self, answers: RamaLamaAnswers) -> Set<Seq<char>> {
        ramalama_told(answers).names
    }

    fn is_available(&self, answers: &RamaLamaAnswers) -> (r: bool) {
        answers.models.is_some()
    }

    fn installed_models(&self, answers: &RamaLamaAnswers) -> (r: NameSet) {
        self.installed_models_counted(answers).0
    }
}

// ---------------------------------------------------------------------------
// Laws
// ---------------------------------------------------------------------------

/// Where the list of models tells one kind of server, no other runtime takes its models:
/// vLLM and Docker Model Runner only take lists of their own, MLX takes no list that tells
/// another server, and RamaLama none of a llama-swap proxy.
pub proof fn law_foreign_lists_are_not_taken(
    server: Option<Seq<char>>,
    list: Seq<OpenAiModelView>,
    vllm: VllmAnswers,
    docker: DockerAnswers,
    ramalama: RamaLamaAnswers,
    body: Seq<u8>,
    require_omlx: bool,
    status: Option<HttpAnswerView>,
)
    requires
        answers::model_list_of(body) == Some(list),
        answers::opt_answer(vllm.models) == Some(HttpAnswerView { server, body }),
        answers::opt_answer(docker.models) == Some(HttpAnswerView { server, body }),
        answers::opt_answer(ramalama.models) == Some(HttpAnswerView { server, body }),
    ensures
        openai::endpoint_identity(server, list) != OpenAiEndpointIdentity::Vllm ==> vllm_told(vllm)
            == absent() && !vllm_available(vllm),
        openai::endpoint_identity(server, list) != OpenAiEndpointIdentity::DockerModelRunner
            && list.len() > 0 ==> docker_told(docker) == absent() && !docker_available(docker),
        openai::endpoint_identity(server, list) != OpenAiEndpointIdentity::Unrecognized
            ==> mlx_list(require_omlx, status, Some(HttpAnswerView { server, body })) is None,
        openai::endpoint_identity(server, list) == OpenAiEndpointIdentity::LlamaSwap
            ==> ramalama_told(ramalama) == store_told(opt_bytes(ramalama.store)),
{
}

/// LM Studio's models are taken only where its own list tells that it is LM Studio.
pub proof fn law_lmstudio_has_to_tell(a: LmStudioAnswers)
    requires
        !answers::from_lmstudio(answers::opt_answer(a.native)),
    ensures
        lmstudio_told(a).names == Set::<Seq<char>>::empty(),
        lmstudio_told(a).count == 0,
{
}

/// Of two runtimes that both read a list as their own there is at most one: a list that is
/// taken by vLLM is not taken by Docker Model Runner or for MLX.
pub proof fn law_one_runtime_takes_a_list(
    vllm: VllmAnswers,
    docker: DockerAnswers,
    m: HttpAnswerView,
    require_omlx: bool,
    status: Option<HttpAnswerView>,
)
    requires
        answers::opt_answer(vllm.models) == Some(m),
        answers::opt_answer(docker.models) == Some(m),
        vllm_available(vllm),
    ensures
        !docker_available(docker),
        mlx_list(require_omlx, status, Some(m)) is None,
{
}

/// A runtime is asked at the address that was set where that is one, else where it usually is.
pub proof fn law_settings_tell_the_address(raw: Seq<char>, usual: Seq<char>)
    ensures
        hosts::host_address(raw) matches Some(address) ==> address_or(Some(raw), usual) == address,
        hosts::host_address(raw) is None ==> address_or(Some(raw), usual) == usual,
        address_or(None, usual) == usual,
        explicit_ollama(Some(raw)) matches Some(address) ==> hosts::host_address(raw) == Some(address)
            && !hosts::wildcard_address(address),
        hosts::host_address(raw) matches Some(address) ==> (!hosts::wildcard_address(address)
            ==> explicit_ollama(Some(raw)) == Some(address)),
        explicit_ollama(None) is None,
        explicit_mlx(Some("http://"@ + raw)) == Some("http://"@ + raw),
        explicit_mlx(Some("https://"@ + raw)) == Some("https://"@ + raw),
        explicit_mlx(Some(raw)) is Some ==> explicit_mlx(Some(raw)) == Some(raw),
        explicit_mlx(None) is None,
{
    let a = "http://"@ + raw;
    let b = "https://"@ + raw;
    assert(a.subrange(0, "http://"@.len() as int) =~= "http://"@);
    assert(b.subrange(0, "https://"@.len() as int) =~= "https://"@);
}

/// A model is deleted only where Ollama says so; any other answer is an error that tells what
/// came back.
pub proof fn law_only_success_deletes(answer: DeleteAnswer)
    ensures
        delete_error(answer) is None <==> answer is Status && answer->Status_0 == 200,
        answer matches DeleteAnswer::Failed(e) ==> delete_error(answer) is Some
            && e@.is_suffix_of(delete_error(answer)->0),
        answer matches DeleteAnswer::NotBuilt(e) ==> delete_error(answer) is Some
            && e@.is_suffix_of(delete_error(answer)->0),
        answer matches DeleteAnswer::Status(code, shown) ==> (code != 200 ==> delete_error(answer)
            is Some && shown@.is_suffix_of(delete_error(answer)->0)),
{
    match answer {
        DeleteAnswer::NotBuilt(e) => {
            let s = "Failed to build request: "@ + e@;
            assert(s.subrange(s.len() - e@.len(), s.len() as int) =~= e@);
        },
        DeleteAnswer::Failed(e) => {
            let s = "Ollama delete request failed: "@ + e@;
            assert(s.subrange(s.len() - e@.len(), s.len() as int) =~= e@);
        },
        DeleteAnswer::Status(code, shown) => {
            let s = "Ollama returned status "@ + shown@;
            assert(s.subrange(s.len() - shown@.len(), s.len() as int) =~= shown@);
        },
    }
}

/// A list that is taken tells all of its models: as many as it has, under the names of their
/// ids.
pub proof fn law_taken_lists_tell_their_models(
    list: Seq<OpenAiModelView>,
    m: HttpAnswerView,
    vllm: VllmAnswers,
    docker: DockerAnswers,
    lmstudio: LmStudioAnswers,
    ramalama: RamaLamaAnswers,
    i: int,
)
    requires
        answers::model_list_of(m.body) == Some(list),
        0 <= i < list.len(),
    ensures
        answers::opt_answer(vllm.models) == Some(m) && openai::endpoint_identity(m.server, list)
            == OpenAiEndpointIdentity::Vllm && !openai::owned_by(list, "omlx"@) ==> {
            &&& vllm_told(vllm).available
            &&& vllm_told(vllm).count == list.len()
            &&& vllm_told(vllm).names.contains(outside::lowercase(list[i].id))
        },
        answers::opt_answer(docker.models) == Some(m) && !docker.ruled_out
            && openai::endpoint_identity(m.server, list)
            == OpenAiEndpointIdentity::DockerModelRunner ==> {
            &&& docker_told(docker).available
            &&& docker_told(docker).count == list.len()
            &&& docker_told(docker).names.contains(outside::lowercase(list[i].id))
        },
        answers::opt_answer(lmstudio.models) == Some(m) && answers::from_lmstudio(
            answers::opt_answer(lmstudio.native),
        ) ==> {
            &&& lmstudio_told(lmstudio).available
            &&& lmstudio_told(lmstudio).count == list.len()
            &&& lmstudio_told(lmstudio).names.contains(outside::lowercase(list[i].id))
        },
        answers::opt_answer(ramalama.models) == Some(m) && openai::endpoint_identity(
            m.server,
            list,
        ) != OpenAiEndpointIdentity::LlamaSwap ==> {
            &&& ramalama_told(ramalama).available
            &&& ramalama_told(ramalama).count == list.len()
            &&& ramalama_told(ramalama).names.contains(outside::lowercase(list[i].id))
        },
{
    let ids = openai::model_ids(list);
    assert(ids[i] == list[i].id);
    openai::law_ids_stand_for_names(ids, i, ids[i]);
    lemma_docker_names(ids, i);
}

proof fn lemma_docker_names(ids: Seq<Seq<char>>, i: int)
    requires
        0 <= i < ids.len(),
    ensures
        docker_names(ids).contains(outside::lowercase(ids[i])),
        docker_names(ids).contains(text::before_first(outside::lowercase(ids[i]), seq![':'])),
        docker_names(ids).contains(text::after_last(outside::lowercase(ids[i]), seq!['/'])),
    decreases ids.len(),
{
    if i < ids.len() - 1 {
        let front = ids.drop_last();
        lemma_docker_names(front, i);
        assert(front[i] == ids[i]);
    }
}

/// Without an answer no runtime is there, and without Docker Desktop its models are not asked
/// for.
pub proof fn law_silence_tells_nothing(
    vllm: VllmAnswers,
    docker: DockerAnswers,
    lmstudio: LmStudioAnswers,
    setting: Option<Seq<char>>,
)
    ensures
        vllm.models is None ==> !vllm_told(vllm).available && vllm_told(vllm).count == 0
            && !vllm_available(vllm),
        docker.models is None ==> !docker_told(docker).available && !docker_available(docker),
        docker.ruled_out ==> !docker_told(docker).available && docker_told(docker).count == 0,
        lmstudio.models is None ==> !lmstudio_told(lmstudio).available,
        ollama_told(None).1 == 0 && ollama_told(None).0 == Set::<Seq<char>>::empty(),
        !absent().available,
        silent().available && silent().count == 0,
        desktop_runs(true, false, setting) && desktop_runs(false, true, setting),
        desktop_runs(false, false, setting) <==> setting is Some && text::trim(setting->0).len() > 0,
{
}

/// An empty list at Docker's address counts where the root tells Docker Model Runner.
pub proof fn law_empty_docker_lists(server: Option<Seq<char>>, root: Option<HttpAnswerView>)
    requires
        openai::endpoint_identity(server, Seq::empty()) == OpenAiEndpointIdentity::Unrecognized,
    ensures
        from_docker(server, Seq::empty(), root) <==> answers::from_docker_root(root),
{
}

/// oMLX is asked for only where the address was not set and is not its own, and the second
/// server counts only where it is oMLX.
pub proof fn law_second_server_must_be_omlx(
    p: MlxProvider,
    servers: Seq<MlxServerAnswers>,
    status: Option<HttpAnswerView>,
    m: HttpAnswerView,
    list: Seq<OpenAiModelView>,
)
    requires
        answers::model_list_of(m.body) == Some(list),
        openai::endpoint_identity(m.server, list) == OpenAiEndpointIdentity::Unrecognized,
    ensures
        p.server_url_explicit ==> !asks_omlx(p) && mlx_served(p, servers) == mlx_list_at(servers, 0),
        mlx_list_at(servers, 0) is Some ==> mlx_served(p, servers) == mlx_list_at(servers, 0),
        asks_omlx(p) && mlx_list_at(servers, 0) is None ==> mlx_served(p, servers) == mlx_list_at(
            servers,
            1,
        ),
        mlx_list(false, status, Some(m)) == Some(list),
        answers::from_omlx(status) ==> mlx_list(true, status, Some(m)) == Some(list),
        openai::owned_by(list, "omlx"@) ==> mlx_list(true, status, Some(m)) == Some(list),
        !answers::from_omlx(status) && !openai::owned_by(list, "omlx"@) ==> mlx_list(
            true,
            status,
            Some(m),
        ) is None,
        mlx_list(true, status, None) is None,
{
}

/// MLX is only there on a Mac, where a server or the package is; what lies in the cache is told
/// everywhere.
pub proof fn law_mlx_runs_on_a_mac(p: MlxProvider, a: MlxAnswers, list: Seq<OpenAiModelView>, i: int)
    ensures
        !a.macos ==> !mlx_available(p, a) && mlx_names(p, a) == disk::cached_mlx(
            text::texts(a.cached@),
        ),
        a.macos && a.python ==> mlx_available(p, a),
        a.macos && mlx_served(p, a.servers@) is Some ==> mlx_available(p, a),
        a.macos && !a.python && mlx_served(p, a.servers@) is None ==> !mlx_available(p, a),
        disk::cached_mlx(text::texts(a.cached@)).subset_of(mlx_names(p, a)),
        a.macos && mlx_served(p, a.servers@) == Some(list) && 0 <= i < list.len() ==> mlx_names(
            p,
            a,
        ).contains(outside::lowercase(list[i].id)),
{
    if 0 <= i < list.len() {
        let ids = openai::model_ids(list);
        assert(ids[i] == list[i].id);
        lemma_lower_ids(ids, i);
    }
}

proof fn lemma_lower_ids(ids: Seq<Seq<char>>, i: int)
    requires
        0 <= i < ids.len(),
    ensures
        lower_ids(ids).contains(outside::lowercase(ids[i])),
    decreases ids.len(),
{
    if i < ids.len() - 1 {
        let front = ids.drop_last();
        lemma_lower_ids(front, i);
        assert(front[i] == ids[i]);
    }
}

/// The file of a tag is the first with its stem, whatever the case of its letters; without one
/// there is none.
pub proof fn law_first_file_of_a_tag(files: Seq<disk::GgufFileView>, tag: Seq<char>)
    ensures
        match file_of_tag(files, tag, 0) {
            Some(path) => exists|i: int|
                0 <= i < files.len() && #[trigger] files[i].path == path && files[i].stem is Some
                    && outside::lowercase(files[i].stem->0) == outside::lowercase(tag) && forall|
                    j: int,
                |
                    0 <= j < i ==> !((#[trigger] files[j]).stem is Some && outside::lowercase(
                        files[j].stem->0,
                    ) == outside::lowercase(tag)),
            None => forall|i: int|
                0 <= i < files.len() ==> !((#[trigger] files[i]).stem is Some && outside::lowercase(
                    files[i].stem->0,
                ) == outside::lowercase(tag)),
        },
{
    lemma_file_of_tag(files, tag, 0);
}

proof fn lemma_file_of_tag(files: Seq<disk::GgufFileView>, tag: Seq<char>, i: int)
    requires
        0 <= i,
    ensures
        match file_of_tag(files, tag, i) {
            Some(path) => exists|k: int|
                i <= k < files.len() && #[trigger] files[k].path == path && files[k].stem is Some
                    && outside::lowercase(files[k].stem->0) == outside::lowercase(tag) && forall|
                    j: int,
                |
                    i <= j < k ==> !((#[trigger] files[j]).stem is Some && outside::lowercase(
                        files[j].stem->0,
                    ) == outside::lowercase(tag)),
            None => forall|k: int|
                i <= k < files.len() ==> !((#[trigger] files[k]).stem is Some && outside::lowercase(
                    files[k].stem->0,
                ) == outside::lowercase(tag)),
        },
    decreases files.len() - i,
{
    if i < files.len() {
        if files[i].stem is Some && outside::lowercase(files[i].stem->0) == outside::lowercase(tag) {
            assert(files[i].path == file_of_tag(files, tag, i)->0);
        } else {
            lemma_file_of_tag(files, tag, i + 1);
            if let Some(path) = file_of_tag(files, tag, i + 1) {
                let k = choose|k: int|
                    i + 1 <= k < files.len() && #[trigger] files[k].path == path && files[k].stem
                        is Some && outside::lowercase(files[k].stem->0) == outside::lowercase(tag)
                        && forall|j: int|
                        i + 1 <= j < k ==> !((#[trigger] files[j]).stem is Some
                            && outside::lowercase(files[j].stem->0) == outside::lowercase(tag));
                assert(files[k].path == path);
            }
        }
    }
}

/// RamaLama's store is asked where no server answers or a proxy does, and tells its models only
/// where it can be read.
pub proof fn law_store_is_asked_where_no_server_tells(a: RamaLamaAnswers, m: HttpAnswerView)
    ensures
        asks_store(None),
        answers::model_list_of(m.body) is None ==> !asks_store(Some(m)),
        a.models is None && a.store is None ==> !ramalama_told(a).available,
        a.models is None && a.store is Some ==> (ramalama_told(a).available <==> answers::store_of(
            a.store->0@,
        ) is Some),
        a.models is None && a.store is Some && answers::store_of(a.store->0@) is Some
            ==> ramalama_told(a).count == (answers::store_of(a.store->0@)->0).1
            && ramalama_told(a).names == (answers::store_of(a.store->0@)->0).0,
        !asks_status(None),
        answers::model_list_of(m.body) is None ==> asks_status(Some(m)),
        answers::model_list_of(m.body) matches Some(list) ==> (asks_status(Some(m)) <==> list.len()
            == 0),
{
}

/// llama.cpp has the models of its directory and those of the hub's cache.
pub proof fn law_llamacpp_counts_both_places(a: LlamaCppAnswers)
    ensures
        disk::cached_gguf(text::texts(a.cached@)).0.subset_of(llama_told(a).0),
        a.tree is None ==> llama_told(a).1 == disk::cached_gguf(text::texts(a.cached@)).1,
        a.cached@.len() == 0 ==> llama_told(a).1 == disk::file_names(
            disk::found_models(disk::opt_entries(a.tree), disk::GGUF_SCAN_MAX_DEPTH as nat),
        ).1,
{
}

/// llama.cpp is there where one of its programs is or a server answered.
pub proof fn law_llamacpp_is_there(p: LlamaCppProvider, a: LlamaCppAnswers)
    ensures
        p.llama_cli is Some ==> p.available(a),
        p.llama_server is Some ==> p.available(a),
        p.server_running ==> p.available(a),
        p.llama_cli is None && p.llama_server is None && !p.server_running ==> !p.available(a),
{
}

} // verus!
