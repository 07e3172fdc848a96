//! Finding the server that a request goes to.
use vstd::prelude::*;
use crate::outside;
use crate::state::{LiveServer, ServerStatus};
use crate::text;

verus! {

/// The server runs and does the task.
pub open spec fn serves(s: LiveServer, task: Seq<char>) -> bool {
    s.status == ServerStatus::Running && s.def.task@ == task
}

/// The model is the server's own, under the name that it is served by or under its own name,
/// but for the case of ASCII letters.
pub open spec fn exact_match(s: LiveServer, model: Seq<char>) -> bool {
    text::same_but_case(s.def.served_name(), model) || text::same_but_case(s.def.model_id@, model)
}

/// One of the names, in lower case, ends with the other.
pub open spec fn loose_match(s: LiveServer, model: Seq<char>) -> bool {
    let lower = outside::lowercase(model);
    let hf = outside::lowercase(s.def.model_id@);
    let name = outside::lowercase(s.def.served_name());
    lower.is_suffix_of(hf) || lower.is_suffix_of(name) || hf.is_suffix_of(lower)
}

/// The port of the first server from number `i` on that does the task and serves exactly the
/// model.
pub open spec fn exact_port(
    servers: Seq<LiveServer>,
    model: Seq<char>,
    task: Seq<char>,
    i: int,
) -> Option<u16>
    decreases servers.len() - i,
{
    if i < 0 || i >= servers.len() {
        None
    } else if serves(servers[i], task) && exact_match(servers[i], model) {
        Some(servers[i].def.port)
    } else {
        exact_port(servers, model, task, i + 1)
    }
}

/// The port of the first server from number `i` on that does the task and serves a model of a
/// like name.
pub open spec fn loose_port(
    servers: Seq<LiveServer>,
    model: Seq<char>,
    task: Seq<char>,
    i: int,
) -> Option<u16>
    decreases servers.len() - i,
{
    if i < 0 || i >= servers.len() {
        None
    } else if serves(servers[i], task) && loose_match(servers[i], model) {
        Some(servers[i].def.port)
    } else {
        loose_port(servers, model, task, i + 1)
    }
}

/// The port that requests for a model go to.
pub open spec fn port_for(servers: Seq<LiveServer>, model: Seq<char>, task: Seq<char>) -> Option<
    u16,
> {
    let m = text::trim(model);
    if m.len() == 0 {
        None
    } else {
        match exact_port(servers, m, task, 0) {
            Some(port) => Some(port),
            None => loose_port(servers, m, task, 0),
        }
    }
}

/// Whether the server runs and does the task.
pub fn runs_task(s: &LiveServer, task: &str) -> (r: bool)
    ensures
        r == serves(*s, task@),
{
    s.status == ServerStatus::Running && text::same(&s.def.task, task)
}

/// The port that requests for a model go to: that of the first running server that serves it
/// by name, else that of the first whose name is like it.
pub fn find_server_port_for(servers: &Vec<LiveServer>, model: &str, task: &str) -> (r: Option<u16>)
    ensures
        r == port_for(servers@, model@, task@),
{
    let m = text::trimmed(model);
    if m.unicode_len() == 0 {
        return None;
    }
    for i in 0..servers.len()
        invariant
            exact_port(servers@, m@, task@, 0) == exact_port(servers@, m@, task@, i as int),
            m@ == text::trim(model@),
            m@.len() > 0,
    {
        let s = &servers[i];
        if runs_task(s, task) && (text::same_ignoring_case(s.def.effective_model_name(), m)
            || text::same_ignoring_case(&s.def.model_id, m)) {
            return Some(s.def.port);
        }
    }
    let lower = outside::to_lowercase(m);
    for i in 0..servers.len()
        invariant
            exact_port(servers@, m@, task@, 0) is None,
            loose_port(servers@, m@, task@, 0) == loose_port(servers@, m@, task@, i as int),
            m@ == text::trim(model@),
            m@.len() > 0,
            lower@ == outside::lowercase(m@),
    {
        let s = &servers[i];
        if runs_task(s, task) {
            let hf = outside::to_lowercase(&s.def.model_id);
            let name = outside::to_lowercase(s.def.effective_model_name());
            if text::ends_with(&hf, &lower) || text::ends_with(&name, &lower) || text::ends_with(
                &lower,
                &hf,
            ) {
                return Some(s.def.port);
            }
        }
    }
    None
}

/// The names under which the servers that do a task serve their models.
pub open spec fn names_serving(servers: Seq<LiveServer>, task: Seq<char>) -> Seq<Seq<char>>
    decreases servers.len(),
{
    if servers.len() == 0 {
        Seq::empty()
    } else if serves(servers.last(), task) {
        names_serving(servers.drop_last(), task).push(servers.last().def.served_name())
    } else {
        names_serving(servers.drop_last(), task)
    }
}

/// The names under which the servers that do a task serve their models.
pub fn running_model_names(servers: &Vec<LiveServer>, task: &str) -> (r: Vec<String>)
    ensures
        text::texts(r@) == names_serving(servers@, task@),
{
    let mut out: Vec<String> = Vec::new();
    assert(servers@.take(0) =~= Seq::empty());
    for i in 0..servers.len()
        invariant
            text::texts(out@) == names_serving(servers@.take(i as int), task@),
    {
        let ghost before = text::texts(out@);
        assert(servers@.take(i + 1).drop_last() =~= servers@.take(i as int));
        assert(servers@.take(i + 1).last() == servers@[i as int]);
        if runs_task(&servers[i], task) {
            out.push(servers[i].def.effective_model_name().to_string());
            assert(text::texts(out@) =~= before.push(servers@[i as int].def.served_name()));
        }
    }
    assert(servers@.take(servers@.len() as int) =~= servers@);
    out
}

proof fn lemma_exact_port_found(
    servers: Seq<LiveServer>,
    model: Seq<char>,
    task: Seq<char>,
    i: int,
)
    requires
        0 <= i,
    ensures
        exact_port(servers, model, task, i) matches Some(p) ==> exists|k: int|
            i <= k < servers.len() && serves(#[trigger] servers[k], task) && exact_match(
                servers[k],
                model,
            ) && servers[k].def.port == p,
        exact_port(servers, model, task, i) is None ==> forall|k: int|
            i <= k < servers.len() ==> !(serves(#[trigger] servers[k], task) && exact_match(
                servers[k],
                model,
            )),
    decreases servers.len() - i,
{
    if i < servers.len() {
        lemma_exact_port_found(servers, model, task, i + 1);
    }
}

proof fn lemma_loose_port_found(
    servers: Seq<LiveServer>,
    model: Seq<char>,
    task: Seq<char>,
    i: int,
)
    requires
        0 <= i,
    ensures
        loose_port(servers, model, task, i) matches Some(p) ==> exists|k: int|
            i <= k < servers.len() && serves(#[trigger] servers[k], task) && loose_match(
                servers[k],
                model,
            ) && servers[k].def.port == p,
    decreases servers.len() - i,
{
    if i < servers.len() {
        lemma_loose_port_found(servers, model, task, i + 1);
    }
}

/// A request goes only to a server that runs and does the task that was asked for.
pub proof fn law_routed_server_runs_the_task(
    servers: Seq<LiveServer>,
    model: Seq<char>,
    task: Seq<char>,
)
    requires
        port_for(servers, model, task) is Some,
    ensures
        exists|k: int|
            0 <= k < servers.len() && serves(#[trigger] servers[k], task) && port_for(
                servers,
                model,
                task,
            ) == Some(servers[k].def.port),
{
    let m = text::trim(model);
    lemma_exact_port_found(servers, m, task, 0);
    lemma_loose_port_found(servers, m, task, 0);
}

/// A server that serves the model by name is found, and none whose name is only like it is
/// taken before one that does.
pub proof fn law_exact_name_wins(
    servers: Seq<LiveServer>,
    model: Seq<char>,
    task: Seq<char>,
    k: int,
)
    requires
        text::trim(model).len() > 0,
        0 <= k < servers.len(),
        serves(servers[k], task),
        exact_match(servers[k], text::trim(model)),
    ensures
        exists|j: int|
            0 <= j < servers.len() && serves(#[trigger] servers[j], task) && exact_match(
                servers[j],
                text::trim(model),
            ) && port_for(servers, model, task) == Some(servers[j].def.port),
{
    lemma_exact_port_found(servers, text::trim(model), task, 0);
}

/// Where a request goes is told by the name of the model alone: the server runs, does the
/// task, and its model or the name that it serves it by is the one that was asked for, but for
/// white space and the case of letters, or one of these names ends with the other.
pub proof fn law_routed_server_serves_the_model(
    servers: Seq<LiveServer>,
    model: Seq<char>,
    task: Seq<char>,
)
    ensures
        text::trim(model).len() == 0 ==> port_for(servers, model, task) is None,
        port_for(servers, model, task) matches Some(port) ==> exists|k: int|
            0 <= k < servers.len() && (#[trigger] servers[k]).status == ServerStatus::Running
                && servers[k].def.task@ == task && servers[k].def.port == port && {
                let m = text::trim(model);
                let lower = outside::lowercase(m);
                let own = servers[k].def.model_id@;
                let served = servers[k].def.served_name();
                ||| text::ascii_lowercase(own) == text::ascii_lowercase(m)
                ||| text::ascii_lowercase(served) == text::ascii_lowercase(m)
                ||| lower.is_suffix_of(outside::lowercase(own))
                ||| lower.is_suffix_of(outside::lowercase(served))
                ||| outside::lowercase(own).is_suffix_of(lower)
            },
{
    let m = text::trim(model);
    lemma_exact_port_found(servers, m, task, 0);
    lemma_loose_port_found(servers, m, task, 0);
}

/// A running server that has the very model that was asked for gets the request, or one before
/// it in the list that has it too.
pub proof fn law_first_exact_server_is_taken(
    servers: Seq<LiveServer>,
    model: Seq<char>,
    task: Seq<char>,
    k: int,
)
    requires
        text::trim(model).len() > 0,
        0 <= k < servers.len(),
        servers[k].status == ServerStatus::Running,
        servers[k].def.task@ == task,
        servers[k].def.model_id@ == text::trim(model) || servers[k].def.served_name()
            == text::trim(model),
    ensures
        exists|j: int|
            0 <= j <= k && (#[trigger] servers[j]).status == ServerStatus::Running
                && servers[j].def.task@ == task && port_for(servers, model, task) == Some(
                servers[j].def.port,
            ) && (text::ascii_lowercase(servers[j].def.model_id@) == text::ascii_lowercase(
                text::trim(model),
            ) || text::ascii_lowercase(servers[j].def.served_name()) == text::ascii_lowercase(
                text::trim(model),
            )),
{
    lemma_first_exact_port(servers, text::trim(model), task, 0, k);
}

proof fn lemma_first_exact_port(
    servers: Seq<LiveServer>,
    model: Seq<char>,
    task: Seq<char>,
    i: int,
    k: int,
)
    requires
        0 <= i <= k < servers.len(),
        serves(servers[k], task),
        exact_match(servers[k], model),
    ensures
        exists|j: int|
            i <= j <= k && serves(#[trigger] servers[j], task) && exact_match(servers[j], model)
                && exact_port(servers, model, task, i) == Some(servers[j].def.port),
    decreases k - i,
{
    if !(serves(servers[i], task) && exact_match(servers[i], model)) {
        lemma_first_exact_port(servers, model, task, i + 1, k);
    }
}

/// A server that does not run, or that does another task, changes nothing about where a
/// request goes.
pub proof fn law_other_servers_do_not_matter(
    servers: Seq<LiveServer>,
    s: LiveServer,
    model: Seq<char>,
    task: Seq<char>,
)
    requires
        s.status != ServerStatus::Running || s.def.task@ != task,
    ensures
        port_for(servers.push(s), model, task) == port_for(servers, model, task),
        names_serving(servers.push(s), task) == names_serving(servers, task),
{
    let m = text::trim(model);
    lemma_exact_port_pushed(servers, s, m, task, 0);
    lemma_loose_port_pushed(servers, s, m, task, 0);
    assert(servers.push(s).drop_last() =~= servers);
}

proof fn lemma_exact_port_pushed(
    servers: Seq<LiveServer>,
    s: LiveServer,
    model: Seq<char>,
    task: Seq<char>,
    i: int,
)
    requires
        !serves(s, task),
        0 <= i <= servers.len(),
    ensures
        exact_port(servers.push(s), model, task, i) == exact_port(servers, model, task, i),
    decreases servers.len() - i,
{
    if i < servers.len() {
        lemma_exact_port_pushed(servers, s, model, task, i + 1);
    } else {
        assert(exact_port(servers.push(s), model, task, i + 1) is None);
    }
}

proof fn lemma_loose_port_pushed(
    servers: Seq<LiveServer>,
    s: LiveServer,
    model: Seq<char>,
    task: Seq<char>,
    i: int,
)
    requires
        !serves(s, task),
        0 <= i <= servers.len(),
    ensures
        loose_port(servers.push(s), model, task, i) == loose_port(servers, model, task, i),
    decreases servers.len() - i,
{
    if i < servers.len() {
        lemma_loose_port_pushed(servers, s, model, task, i + 1);
    } else {
        assert(loose_port(servers.push(s), model, task, i + 1) is None);
    }
}

/// The names of the models that are served are those of the running servers that do the task,
/// in the order of the servers.
pub proof fn law_running_servers_are_named(
    servers: Seq<LiveServer>,
    s: LiveServer,
    task: Seq<char>,
)
    requires
        s.status == ServerStatus::Running,
        s.def.task@ == task,
    ensures
        names_serving(servers.push(s), task) == names_serving(servers, task).push(
            match s.def.served_model_name {
                Some(name) => name@,
                None => s.def.model_id@,
            },
        ),
{
    assert(servers.push(s).drop_last() =~= servers);
}

} // verus!
