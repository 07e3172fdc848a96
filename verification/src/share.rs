//! The benchmarks that were run on this machine.
use vstd::prelude::*;
use crate::json;
use crate::json::{Json, JsonNumber, JsonTree};
use crate::outside;
use crate::paths;
use crate::paths::PlacedPath;
use crate::providers::matching;
use crate::state;
use crate::text;

verus! {

// ---------------------------------------------------------------------------
// Hiding directories
// ---------------------------------------------------------------------------

/// The name looks like an absolute path: it begins with a separator, or with a drive letter,
/// a colon and a separator.
pub open spec fn looks_absolute(id: Seq<char>) -> bool {
    (id.len() > 0 && (id[0] == '/' || id[0] == '\\')) || (id.len() >= 3 && (id[0] as u32) < 0x80
        && id[1] == ':' && (id[2] == '/' || id[2] == '\\'))
}

/// The name with the directories of a GGUF file taken off, where it is an absolute path to
/// one.
pub open spec fn without_directories(id: Seq<char>) -> Seq<char> {
    if looks_absolute(id) && ".gguf"@.is_suffix_of(text::ascii_lowercase(id)) {
        text::after_last(id, seq!['/', '\\'])
    } else {
        id
    }
}

fn is_absolute(id: &str) -> (r: bool)
    ensures
        r == looks_absolute(id@),
{
    let n: usize = id.unicode_len();
    if n > 0 && (id.get_char(0) == '/' || id.get_char(0) == '\\') {
        return true;
    }
    if n < 3 {
        return false;
    }
    let first: u32 = id.get_char(0) as u32;
    first < 0x80 && id.get_char(1) == ':' && (id.get_char(2) == '/' || id.get_char(2) == '\\')
}

/// The name with the directories of a GGUF file taken off, where it is an absolute path to
/// one: they tell of the machine, and often of its user.
pub fn strip_gguf_path(id: &str) -> (r: String)
    ensures
        r@ == without_directories(id@),
{
    if is_absolute(id) && text::ends_with(&text::ascii_lowered(id), ".gguf") {
        let slashes = ['/', '\\'];
        assert(slashes@ == seq!['/', '\\']);
        text::tail_after(id, &slashes).to_string()
    } else {
        id.to_string()
    }
}

/// The place of the first member from number `i` on with the name `key`.
pub open spec fn member_place(
    members: Seq<(Seq<char>, JsonTree)>,
    key: Seq<char>,
    i: int,
) -> Option<int>
    decreases members.len() - i,
{
    if i < 0 || i >= members.len() {
        None
    } else if members[i].0 == key {
        Some(i)
    } else {
        member_place(members, key, i + 1)
    }
}

/// A result with the directories of its model taken off.
pub open spec fn scrubbed_result(t: JsonTree) -> JsonTree {
    match t {
        JsonTree::Object(members) => match member_place(members, "model"@, 0) {
            Some(k) => match members[k].1 {
                JsonTree::Text(model) => JsonTree::Object(
                    members.update(
                        k,
                        ("model"@, JsonTree::Text(without_directories(model))),
                    ),
                ),
                _ => t,
            },
            None => t,
        },
        _ => t,
    }
}

/// A row of results with the directories of their models taken off.
pub open spec fn scrubbed_results(items: Seq<JsonTree>) -> Seq<JsonTree> {
    Seq::new(items.len(), |i: int| scrubbed_result(items[i]))
}

/// A stored payload with the directories of the models in its results taken off; all else is
/// as it was.
pub open spec fn scrubbed(t: JsonTree) -> JsonTree {
    match t {
        JsonTree::Object(members) => match member_place(members, "results"@, 0) {
            Some(k) => match members[k].1 {
                JsonTree::Array(items) => JsonTree::Object(
                    members.update(k, ("results"@, JsonTree::Array(scrubbed_results(items)))),
                ),
                _ => t,
            },
            None => t,
        },
        _ => t,
    }
}

fn find_member(members: &Vec<(String, Json)>, key: &str) -> (r: Option<usize>)
    ensures
        match r {
            Some(k) => k < members@.len() && member_place(json::members_tree(members@), key@, 0)
                == Some(k as int) && members@[k as int].0@ == key@,
            None => member_place(json::members_tree(members@), key@, 0) is None,
        },
{
    let ghost all = json::members_tree(members@);
    for i in 0..members.len()
        invariant
            all == json::members_tree(members@),
            member_place(all, key@, 0) == member_place(all, key@, i as int),
    {
        if text::same(&members[i].0, key) {
            return Some(i);
        }
    }
    None
}

fn scrub_result(item: Json) -> (r: Json)
    ensures
        r.tree() == scrubbed_result(item.tree()),
{
    match item {
        Json::Object(members) => {
            let mut members = members;
            let ghost before = json::members_tree(members@);
            assert(item.tree()->Object_0 =~= before);
            match find_member(&members, "model") {
                Some(k) => {
                    let new: Option<String> = match members[k].1.as_str() {
                        Some(model) => Some(strip_gguf_path(model)),
                        None => None,
                    };
                    if let Some(model) = new {
                        members.set(k, ("model".to_string(), Json::Text(model)));
                        assert(json::members_tree(members@) =~= before.update(
                            k as int,
                            ("model"@, JsonTree::Text(model@)),
                        ));
                    }
                    json::object(members)
                },
                None => json::object(members),
            }
        },
        other => other,
    }
}

fn scrub_results(items: Vec<Json>) -> (r: Vec<Json>)
    ensures
        json::trees(r@) == scrubbed_results(json::trees(items@)),
{
    let ghost all = json::trees(items@);
    let mut rest = items;
    let mut out: Vec<Json> = Vec::new();
    let ghost mut n: int = 0;
    assert(json::trees(rest@) =~= all.skip(0));
    assert(json::trees(out@) =~= scrubbed_results(all).take(0));
    while rest.len() > 0
        invariant
            0 <= n <= all.len(),
            json::trees(rest@) == all.skip(n),
            json::trees(out@) == scrubbed_results(all).take(n),
        decreases rest@.len(),
    {
        let ghost left = json::trees(rest@);
        let ghost done = json::trees(out@);
        let item = rest.remove(0);
        assert(item.tree() == left[0]);
        assert(json::trees(rest@) =~= left.remove(0));
        let new = scrub_result(item);
        out.push(new);
        proof {
            assert(left.remove(0) =~= all.skip(n + 1));
            assert(left[0] == all[n]);
            assert(json::trees(out@) =~= done.push(new.tree()));
            assert(scrubbed_results(all).take(n + 1) =~= done.push(scrubbed_results(all)[n]));
            n = n + 1;
        }
    }
    assert(scrubbed_results(all).take(n) =~= scrubbed_results(all));
    out
}

/// Takes the directories off the models in the results of a stored payload.
pub fn sanitize_stored_payload(payload: Json) -> (r: Json)
    ensures
        r.tree() == scrubbed(payload.tree()),
{
    match payload {
        Json::Object(members) => {
            let mut members = members;
            let ghost before = json::members_tree(members@);
            assert(payload.tree()->Object_0 =~= before);
            match find_member(&members, "results") {
                Some(k) => {
                    let (name, value) = members.remove(k);
                    let new = match value {
                        Json::Array(items) => {
                            assert(value.tree()->Array_0 =~= json::trees(items@));
                            json::array(scrub_results(items))
                        },
                        other => other,
                    };
                    members.insert(k, (name, new));
                    assert(json::members_tree(members@) =~= before.update(
                        k as int,
                        ("results"@, new.tree()),
                    ));
                    assert(before.update(k as int, before[k as int]) =~= before);
                    json::object(members)
                },
                None => json::object(members),
            }
        },
        other => other,
    }
}

/// Reads a stored payload, with the directories of its models taken off.
pub fn read_stored_payload(content: &[u8]) -> (r: Option<Json>)
    ensures
        json::own_tree(r) == (match outside::json_parsed(content@) {
            Some(t) => Some(scrubbed(t)),
            None => None,
        }),
{
    match json::parse(content) {
        Some(payload) => Some(sanitize_stored_payload(payload)),
        None => None,
    }
}

/// Where the store lies: in the directory that was set for it, else in the data directory of
/// the user.
pub fn store_root(set_dir: Option<&str>, data_dir: Option<&str>) -> (r: Option<PlacedPath>)
    ensures
        match r {
            Some(p) => if state::set_text(text::opt_str(set_dir)) is Some {
                p@ == (set_dir->0@, Seq::<&'static str>::empty())
            } else {
                data_dir matches Some(d) && p@ == (d@, seq!["llmfit", "benchmarks"])
            },
            None => state::set_text(text::opt_str(set_dir)) is None && data_dir is None,
        },
{
    if let Some(dir) = set_dir {
        if text::trimmed(dir).unicode_len() > 0 {
            return Some(paths::placed(dir, Vec::new()));
        }
    }
    match data_dir {
        Some(d) => {
            let names: Vec<&'static str> = vec!["llmfit", "benchmarks"];
            assert(names@ =~= seq!["llmfit", "benchmarks"]);
            Some(paths::placed(d, names))
        },
        None => None,
    }
}

/// A file is one of the store: its name ends in `.json`, with something before that.
pub open spec fn is_store_file(name: Seq<char>) -> bool {
    name.len() > 5 && ".json"@.is_suffix_of(name)
}

/// What the store holds: the name of each file and its payload.
pub open spec fn payload_views(list: Seq<(String, Json)>) -> Seq<(Seq<char>, JsonTree)> {
    Seq::new(list.len(), |i: int| (list[i].0@, list[i].1.tree()))
}

/// The position of the first file at or after number `i` before which `name` comes, the end
/// of the list where there is none.
pub open spec fn slot_from(list: Seq<(Seq<char>, JsonTree)>, name: Seq<char>, i: int) -> int
    decreases list.len() - i,
{
    if i < 0 || i >= list.len() {
        list.len() as int
    } else if text::comes_before(name, list[i].0) {
        i
    } else {
        slot_from(list, name, i + 1)
    }
}

/// The payloads in the files of a directory that are files of the store and hold a document,
/// in the order of the names; the directories of the models are taken off.
pub open spec fn store_of(files: Seq<(String, Vec<u8>)>) -> Seq<(Seq<char>, JsonTree)>
    decreases files.len(),
{
    if files.len() == 0 {
        Seq::empty()
    } else {
        let front = store_of(files.drop_last());
        let name = files.last().0@;
        match outside::json_parsed(files.last().1@) {
            Some(t) => if is_store_file(name) {
                front.insert(slot_from(front, name, 0), (name, scrubbed(t)))
            } else {
                front
            },
            None => front,
        }
    }
}

fn find_slot(list: &Vec<(String, Json)>, name: &str) -> (r: usize)
    ensures
        r == slot_from(payload_views(list@), name@, 0),
        r <= list.len(),
{
    let ghost vs = payload_views(list@);
    for i in 0..list.len()
        invariant
            vs == payload_views(list@),
            slot_from(vs, name@, 0) == slot_from(vs, name@, i as int),
    {
        assert(vs[i as int].0 == list@[i as int].0@);
        if text::is_before(name, &list[i].0) {
            return i;
        }
    }
    list.len()
}

/// Reads the files of a directory of the store, each given by its name and content. Names
/// begin with the time of the run, so that the oldest run comes first.
pub fn read_store(files: &Vec<(String, Vec<u8>)>) -> (r: Vec<(String, Json)>)
    ensures
        payload_views(r@) == store_of(files@),
{
    let mut out: Vec<(String, Json)> = Vec::new();
    assert(files@.take(0) =~= Seq::empty());
    assert(payload_views(out@) =~= Seq::empty());
    for i in 0..files.len()
        invariant
            payload_views(out@) == store_of(files@.take(i as int)),
    {
        assert(files@.take(i + 1).drop_last() =~= files@.take(i as int));
        assert(files@.take(i + 1).last() == files@[i as int]);
        let name = files[i].0.as_str();
        if name.unicode_len() > 5 && text::ends_with(name, ".json") {
            if let Some(payload) = read_stored_payload(files[i].1.as_slice()) {
                let ghost before = payload_views(out@);
                let slot = find_slot(&out, name);
                let ghost item = (name@, payload.tree());
                out.insert(slot, (name.to_string(), payload));
                assert(payload_views(out@) =~= before.insert(slot as int, item));
            }
        }
    }
    assert(files@.take(files@.len() as int) =~= files@);
    out
}

// ---------------------------------------------------------------------------
// Measured speeds
// ---------------------------------------------------------------------------

/// A stored benchmark run.
#[derive(Debug)]
pub struct StoredBenchmark {
    pub path: String,
    pub payload: Json,
    /// Whether it was run on the hardware that there is now.
    pub same_hardware: bool,
    /// For each of its results, whether the speed is plausible.
    pub plausible: Vec<bool>,
}

/// The model and the speed of a result, where it tells both.
pub open spec fn measurement_in(t: JsonTree) -> Option<(Seq<char>, JsonNumber)> {
    match (t.text_member("model"@), t.member("avgTps"@)) {
        (Some(model), Some(tps)) => match tps.as_number() {
            Some(n) => Some((model, n)),
            None => None,
        },
        _ => None,
    }
}

/// The plausible measurements among the results of a run, in order.
pub open spec fn measured_results(items: Seq<JsonTree>, plausible: Seq<bool>) -> Seq<
    (Seq<char>, JsonNumber),
>
    decreases items.len(),
{
    if items.len() == 0 {
        Seq::empty()
    } else {
        let i = items.len() - 1;
        let front = measured_results(items.drop_last(), plausible);
        match measurement_in(items.last()) {
            Some(m) => if i < plausible.len() && plausible[i] {
                front.push(m)
            } else {
                front
            },
            None => front,
        }
    }
}

/// The measurements of a run: none where the hardware was another.
pub open spec fn measured_run(b: StoredBenchmark) -> Seq<(Seq<char>, JsonNumber)> {
    if !b.same_hardware {
        Seq::empty()
    } else {
        match b.payload.tree().member("results"@) {
            Some(JsonTree::Array(items)) => measured_results(items, b.plausible@),
            _ => Seq::empty(),
        }
    }
}

/// The measurements of some runs, in order.
pub open spec fn measured_runs(runs: Seq<StoredBenchmark>) -> Seq<(Seq<char>, JsonNumber)>
    decreases runs.len(),
{
    if runs.len() == 0 {
        Seq::empty()
    } else {
        measured_runs(runs.drop_last()) + measured_run(runs.last())
    }
}

/// The name of the file of a run: what stands behind the last separator of its path. It begins
/// with the time of the run.
pub open spec fn run_name(b: StoredBenchmark) -> Seq<char> {
    text::after_last(b.path@, seq!['/', '\\'])
}

/// The position of the first run at or after number `i` before which a run with the name
/// comes, the end of the list where there is none.
pub open spec fn run_slot_from(runs: Seq<StoredBenchmark>, name: Seq<char>, i: int) -> int
    decreases runs.len() - i,
{
    if i < 0 || i >= runs.len() {
        runs.len() as int
    } else if text::comes_before(name, run_name(runs[i])) {
        i
    } else {
        run_slot_from(runs, name, i + 1)
    }
}

/// The runs in the order of the names of their files, the oldest first; of two with the same
/// name the one that came first stays first.
pub open spec fn runs_by_name(runs: Seq<StoredBenchmark>) -> Seq<StoredBenchmark>
    decreases runs.len(),
{
    if runs.len() == 0 {
        Seq::empty()
    } else {
        let front = runs_by_name(runs.drop_last());
        front.insert(run_slot_from(front, run_name(runs.last()), 0), runs.last())
    }
}

/// The runs that some references stand for.
pub open spec fn pointed(runs: Seq<&StoredBenchmark>) -> Seq<StoredBenchmark> {
    Seq::new(runs.len(), |i: int| *runs[i])
}

/// What a row of measurements says.
pub open spec fn entry_texts(entries: Seq<(String, JsonNumber)>) -> Seq<(Seq<char>, JsonNumber)> {
    Seq::new(entries.len(), |i: int| (entries[i].0@, entries[i].1))
}

/// The speeds that were measured on this machine, oldest first.
#[derive(Debug)]
pub struct LocalBenchIndex {
    entries: Vec<(String, JsonNumber)>,
}

/// Where a measured speed comes from.
#[derive(Clone, Copy, Debug, PartialEq, Eq, Structural)]
pub enum MeasuredSource {
    /// The runs that are stored on this machine.
    LocalBench,
}

/// A measured speed.
#[derive(Debug)]
pub struct MeasuredTps {
    pub tok_s: JsonNumber,
    pub sample_count: usize,
    pub hardware_label: String,
    pub source: MeasuredSource,
}

/// The speed of the newest measurement of a model, where the oldest stands first, and how
/// many there are.
pub open spec fn newest_among(
    entries: Seq<(Seq<char>, JsonNumber)>,
    model: Seq<char>,
) -> Option<(JsonNumber, nat)>
    decreases entries.len(),
{
    if entries.len() == 0 {
        None
    } else {
        let front = newest_among(entries.drop_last(), model);
        if matching::tag_is_of(entries.last().0, model) {
            Some(
                (
                    entries.last().1,
                    match front {
                        Some((_, n)) => n + 1,
                        None => 1,
                    },
                ),
            )
        } else {
            front
        }
    }
}

impl View for LocalBenchIndex {
    type V = Seq<(Seq<char>, JsonNumber)>;

    closed spec fn view(&self) -> Seq<(Seq<char>, JsonNumber)> {
        entry_texts(self.entries@)
    }
}

fn add_run(entries: &mut Vec<(String, JsonNumber)>, run: &StoredBenchmark)
    ensures
        entry_texts(final(entries)@) == entry_texts(old(entries)@) + measured_run(*run),
{
    let ghost start = entry_texts(entries@);
    assert(start + Seq::<(Seq<char>, JsonNumber)>::empty() =~= start);
    if !run.same_hardware {
        return;
    }
    let Some(results) = run.payload.get("results") else {
        return;
    };
    let Json::Array(items) = results else {
        return;
    };
    let ghost all = results.tree()->Array_0;
    assert(all =~= json::trees(items@));
    assert(all.take(0) =~= Seq::empty());
    for i in 0..items.len()
        invariant
            all == json::trees(items@),
            start == entry_texts(old(entries)@),
            entry_texts(entries@) == start + measured_results(all.take(i as int), run.plausible@),
    {
        assert(all.take(i + 1).drop_last() =~= all.take(i as int));
        assert(all.take(i + 1).last() == all[i as int]);
        let ghost before = entry_texts(entries@);
        let item = &items[i];
        if let Some(model) = item.get_str("model") {
            if let Some(tps) = item.get("avgTps") {
                if let Some(n) = tps.as_number() {
                    if i < run.plausible.len() && run.plausible[i] {
                        entries.push((model.to_string(), n));
                        proof {
                            let m = (model@, n);
                            assert(entry_texts(entries@) =~= before.push(m));
                            let f = measured_results(all.take(i as int), run.plausible@);
                            assert((start + f).push(m) =~= start + f.push(m));
                        }
                    }
                }
            }
        }
    }
    assert(all.take(items@.len() as int) =~= all);
}

fn file_name<'a>(b: &'a StoredBenchmark) -> (r: &'a str)
    ensures
        r@ == run_name(*b),
{
    let slashes = ['/', '\\'];
    assert(slashes@ == seq!['/', '\\']);
    text::tail_after(&b.path, &slashes)
}

/// Puts a run among those that are in order.
fn place_run<'a>(runs: &mut Vec<&'a StoredBenchmark>, run: &'a StoredBenchmark)
    ensures
        pointed(final(runs)@) == pointed(old(runs)@).insert(
            run_slot_from(pointed(old(runs)@), run_name(*run), 0),
            *run,
        ),
{
    let ghost all = pointed(runs@);
    let name = file_name(run);
    let n: usize = runs.len();
    let mut slot: usize = 0;
    while slot < n && !text::is_before(name, file_name(runs[slot]))
        invariant
            n == runs@.len(),
            slot <= n,
            runs@ == old(runs)@,
            all == pointed(runs@),
            name@ == run_name(*run),
            run_slot_from(all, name@, 0) == run_slot_from(all, name@, slot as int),
        decreases n - slot,
    {
        assert(all[slot as int] == *runs@[slot as int]);
        slot = slot + 1;
    }
    assert(slot < n ==> all[slot as int] == *runs@[slot as int]);
    assert(run_slot_from(all, name@, slot as int) == slot);
    runs.insert(slot, run);
    assert(pointed(runs@) =~= all.insert(slot as int, *run));
}

fn place_runs<'a>(out: &mut Vec<&'a StoredBenchmark>, runs: &'a Vec<StoredBenchmark>, Ghost(before): Ghost<
    Seq<StoredBenchmark>,
>)
    requires
        pointed(old(out)@) == runs_by_name(before),
    ensures
        pointed(final(out)@) == runs_by_name(before + runs@),
{
    assert(before + runs@.take(0) =~= before);
    for i in 0..runs.len()
        invariant
            pointed(out@) == runs_by_name(before + runs@.take(i as int)),
    {
        proof {
            let next = before + runs@.take(i + 1);
            assert(next.drop_last() =~= before + runs@.take(i as int));
            assert(next.last() == runs@[i as int]);
        }
        place_run(out, &runs[i]);
    }
    assert(runs@.take(runs@.len() as int) =~= runs@);
}

impl LocalBenchIndex {
    /// The speeds that the shared and the pending runs measured on the hardware that there is
    /// now, in the order of the names of their files: the oldest first, wherever it lies.
    /// There is no index where nothing was measured.
    pub fn load(shared: &Vec<StoredBenchmark>, pending: &Vec<StoredBenchmark>) -> (r: Option<
        LocalBenchIndex,
    >)
        ensures
            ({
                let all = measured_runs(runs_by_name(shared@ + pending@));
                match r {
                    Some(index) => index@ == all && all.len() > 0,
                    None => all.len() == 0,
                }
            }),
    {
        let mut runs: Vec<&StoredBenchmark> = Vec::new();
        let ghost none: Seq<StoredBenchmark> = Seq::empty();
        assert(pointed(runs@) =~= runs_by_name(none));
        place_runs(&mut runs, shared, Ghost(none));
        assert(none + shared@ =~= shared@);
        place_runs(&mut runs, pending, Ghost(shared@));
        let ghost all = pointed(runs@);
        let mut entries: Vec<(String, JsonNumber)> = Vec::new();
        assert(entry_texts(entries@) =~= Seq::empty());
        assert(all.take(0) =~= Seq::empty());
        for i in 0..runs.len()
            invariant
                all == pointed(runs@),
                entry_texts(entries@) == measured_runs(all.take(i as int)),
        {
            assert(all.take(i + 1).drop_last() =~= all.take(i as int));
            assert(all.take(i + 1).last() == *runs@[i as int]);
            add_run(&mut entries, runs[i]);
        }
        assert(all.take(runs@.len() as int) =~= all);
        if entries.len() == 0 {
            None
        } else {
            Some(LocalBenchIndex { entries })
        }
    }

    /// The newest speed that was measured of a model, and how many measurements there are.
    pub fn lookup(&self, model_hf_name: &str) -> (r: Option<MeasuredTps>)
        ensures
            match r {
                Some(m) => newest_among(self@, model_hf_name@) == Some(
                    (m.tok_s, m.sample_count as nat),
                ) && m.hardware_label@ == "this machine"@ && m.source
                    == MeasuredSource::LocalBench,
                None => newest_among(self@, model_hf_name@) is None,
            },
    {
        let mut found: Option<(JsonNumber, usize)> = None;
        let ghost all = self@;
        assert(all.take(0) =~= Seq::empty());
        for i in 0..self.entries.len()
            invariant
                all == self@,
                newest_among(all.take(i as int), model_hf_name@) == (match found {
                    Some((speed, n)) => Some((speed, n as nat)),
                    None => None,
                }),
                found matches Some((_, n)) ==> n <= i,
        {
            assert(all.take(i + 1).drop_last() =~= all.take(i as int));
            assert(all.take(i + 1).last() == all[i as int]);
            if matching::tag_matches_model(&self.entries[i].0, model_hf_name) {
                let count: usize = match found {
                    Some((_, n)) => n + 1,
                    None => 1,
                };
                found = Some((self.entries[i].1, count));
            }
        }
        assert(all.take(self.entries@.len() as int) =~= all);
        match found {
            Some((tok_s, sample_count)) => Some(
                MeasuredTps {
                    tok_s,
                    sample_count,
                    hardware_label: "this machine".to_string(),
                    source: MeasuredSource::LocalBench,
                },
            ),
            None => None,
        }
    }
}

// ---------------------------------------------------------------------------
// Laws
// ---------------------------------------------------------------------------

proof fn lemma_rfind_any(s: Seq<char>, set: Seq<char>, i: int)
    requires
        0 <= i <= s.len(),
    ensures
        match text::rfind_any_before(s, set, i) {
            Some(j) => 0 <= j < i && forall|k: int| j < k < i ==> !set.contains(#[trigger] s[k]),
            None => forall|k: int| 0 <= k < i ==> !set.contains(#[trigger] s[k]),
        },
    decreases i,
{
    if i > 0 && !set.contains(s[i - 1]) {
        lemma_rfind_any(s, set, i - 1);
    }
}

proof fn lemma_file_name_has_no_separator(s: Seq<char>, t: Seq<char>)
    requires
        t == text::after_last(s, seq!['/', '\\']),
    ensures
        forall|k: int| 0 <= k < t.len() ==> (#[trigger] t[k]) != '/' && t[k] != '\\',
{
    let set = seq!['/', '\\'];
    lemma_rfind_any(s, set, s.len() as int);
    assert(set[0] == '/' && set[1] == '\\');
    assert forall|k: int| 0 <= k < t.len() implies (#[trigger] t[k]) != '/' && t[k] != '\\' by {
        let off = s.len() - t.len();
        assert(t[k] == s[off + k]);
        assert(!set.contains(s[off + k]));
    }
}

/// What is left of a name never looks like an absolute path to a GGUF file.
pub proof fn law_no_directory_is_left(id: Seq<char>)
    ensures
        !(looks_absolute(without_directories(id)) && ".gguf"@.is_suffix_of(
            text::ascii_lowercase(without_directories(id)),
        )),
{
    if looks_absolute(id) && ".gguf"@.is_suffix_of(text::ascii_lowercase(id)) {
        let t = text::after_last(id, seq!['/', '\\']);
        lemma_file_name_has_no_separator(id, t);
        if t.len() > 0 {
            assert(t[0] != '/' && t[0] != '\\');
        }
        if t.len() >= 3 {
            assert(t[2] != '/' && t[2] != '\\');
        }
    }
}

/// Taking the directories off twice is taking them off once.
pub proof fn law_stripping_is_idempotent(id: Seq<char>)
    ensures
        without_directories(without_directories(id)) == without_directories(id),
{
    law_no_directory_is_left(id);
}

/// No file comes before one that stands in front of it.
pub open spec fn names_ordered(list: Seq<(Seq<char>, JsonTree)>) -> bool {
    forall|i: int, j: int|
        #![trigger list[i], list[j]]
        0 <= i < j < list.len() ==> !text::comes_before(list[j].0, list[i].0)
}

proof fn lemma_slot(list: Seq<(Seq<char>, JsonTree)>, name: Seq<char>, i: int)
    requires
        0 <= i <= list.len(),
        forall|k: int| 0 <= k < i ==> !text::comes_before(name, (#[trigger] list[k]).0),
    ensures
        i <= slot_from(list, name, i) <= list.len(),
        forall|k: int|
            0 <= k < slot_from(list, name, i) ==> !text::comes_before(
                name,
                (#[trigger] list[k]).0,
            ),
        slot_from(list, name, i) < list.len() ==> text::comes_before(
            name,
            list[slot_from(list, name, i)].0,
        ),
    decreases list.len() - i,
{
    if i < list.len() && !text::comes_before(name, list[i].0) {
        lemma_slot(list, name, i + 1);
    }
}

proof fn lemma_insertion_keeps_order(
    list: Seq<(Seq<char>, JsonTree)>,
    item: (Seq<char>, JsonTree),
)
    requires
        names_ordered(list),
    ensures
        names_ordered(list.insert(slot_from(list, item.0, 0), item)),
{
    lemma_slot(list, item.0, 0);
    let s = slot_from(list, item.0, 0);
    let out = list.insert(s, item);
    assert forall|i: int, j: int|
        #![trigger out[i], out[j]]
        0 <= i < j < out.len() implies !text::comes_before(out[j].0, out[i].0) by {
        if i < s {
            assert(out[i] == list[i]);
            if j > s {
                assert(out[j] == list[j - 1]);
            } else if j < s {
                assert(out[j] == list[j]);
            }
        } else if i == s {
            assert(out[j] == list[j - 1]);
            assert(!text::comes_before(list[j - 1].0, list[s].0)) by {
                if j - 1 == s {
                    text::lemma_before_irreflexive(list[s].0);
                }
            }
            if text::comes_before(list[j - 1].0, item.0) {
                text::lemma_before_transitive(list[j - 1].0, item.0, list[s].0);
            }
        } else {
            assert(out[i] == list[i - 1]);
            assert(out[j] == list[j - 1]);
        }
    }
}

/// The runs of the store come in the order of the names of their files, the oldest first.
pub proof fn law_oldest_runs_come_first(files: Seq<(String, Vec<u8>)>)
    ensures
        names_ordered(store_of(files)),
    decreases files.len(),
{
    if files.len() > 0 {
        law_oldest_runs_come_first(files.drop_last());
        let name = files.last().0@;
        if let Some(t) = outside::json_parsed(files.last().1@) {
            lemma_insertion_keeps_order(store_of(files.drop_last()), (name, scrubbed(t)));
        }
    }
}

proof fn lemma_last_is_told(entries: Seq<(Seq<char>, JsonNumber)>, model: Seq<char>, k: int)
    requires
        0 <= k < entries.len(),
        matching::tag_is_of(entries[k].0, model),
        forall|i: int|
            k < i < entries.len() ==> !matching::tag_is_of((#[trigger] entries[i]).0, model),
    ensures
        newest_among(entries, model) matches Some((speed, _)) && speed == entries[k].1,
    decreases entries.len(),
{
    if k < entries.len() - 1 {
        assert(!matching::tag_is_of(entries[entries.len() - 1].0, model));
        lemma_last_is_told(entries.drop_last(), model, k);
    }
}

/// No run comes before one that stands in front of it.
pub open spec fn runs_ordered(runs: Seq<StoredBenchmark>) -> bool {
    forall|i: int, j: int|
        #![trigger runs[i], runs[j]]
        0 <= i < j < runs.len() ==> !text::comes_before(run_name(runs[j]), run_name(runs[i]))
}

proof fn lemma_run_slot(runs: Seq<StoredBenchmark>, name: Seq<char>, i: int)
    requires
        0 <= i <= runs.len(),
        forall|k: int| 0 <= k < i ==> !text::comes_before(name, run_name(#[trigger] runs[k])),
    ensures
        i <= run_slot_from(runs, name, i) <= runs.len(),
        forall|k: int|
            0 <= k < run_slot_from(runs, name, i) ==> !text::comes_before(
                name,
                run_name(#[trigger] runs[k]),
            ),
        run_slot_from(runs, name, i) < runs.len() ==> text::comes_before(
            name,
            run_name(runs[run_slot_from(runs, name, i)]),
        ),
    decreases runs.len() - i,
{
    if i < runs.len() && !text::comes_before(name, run_name(runs[i])) {
        lemma_run_slot(runs, name, i + 1);
    }
}

/// The runs of both parts of the store are put in the order of the names of their files, and
/// none is lost or added.
pub proof fn law_runs_are_put_in_order(runs: Seq<StoredBenchmark>)
    ensures
        runs_ordered(runs_by_name(runs)),
        runs_by_name(runs).to_multiset() == runs.to_multiset(),
    decreases runs.len(),
{
    broadcast use vstd::seq_lib::group_to_multiset_ensures;

    if runs.len() > 0 {
        let front = runs_by_name(runs.drop_last());
        let x = runs.last();
        law_runs_are_put_in_order(runs.drop_last());
        lemma_run_slot(front, run_name(x), 0);
        let s = run_slot_from(front, run_name(x), 0);
        let out = front.insert(s, x);
        assert forall|i: int, j: int|
            #![trigger out[i], out[j]]
            0 <= i < j < out.len() implies !text::comes_before(run_name(out[j]), run_name(out[i])) by {
            if i < s {
                assert(out[i] == front[i]);
                if j > s {
                    assert(out[j] == front[j - 1]);
                } else if j < s {
                    assert(out[j] == front[j]);
                }
            } else if i == s {
                assert(out[j] == front[j - 1]);
                assert(!text::comes_before(run_name(front[j - 1]), run_name(front[s]))) by {
                    if j - 1 == s {
                        text::lemma_before_irreflexive(run_name(front[s]));
                    }
                }
                if text::comes_before(run_name(front[j - 1]), run_name(x)) {
                    text::lemma_before_transitive(
                        run_name(front[j - 1]),
                        run_name(x),
                        run_name(front[s]),
                    );
                }
            } else {
                assert(out[i] == front[i - 1]);
                assert(out[j] == front[j - 1]);
            }
        }
        assert(runs =~= runs.drop_last().push(x));
        assert(out.to_multiset() == front.to_multiset().insert(x));
        assert(runs.to_multiset() == runs.drop_last().to_multiset().insert(x));
    }
}

/// The run measured the model.
pub open spec fn measures(run: StoredBenchmark, model: Seq<char>) -> bool {
    exists|i: int|
        0 <= i < measured_run(run).len() && matching::tag_is_of(
            (#[trigger] measured_run(run)[i]).0,
            model,
        )
}

proof fn lemma_others_tell_nothing(runs: Seq<StoredBenchmark>, model: Seq<char>, k: int)
    requires
        0 <= k < runs.len(),
        forall|j: int| k < j < runs.len() ==> !measures(#[trigger] runs[j], model),
    ensures
        ({
            let before = measured_runs(runs.take(k)) + measured_run(runs[k]);
            let all = measured_runs(runs);
            &&& before.len() <= all.len()
            &&& all.take(before.len() as int) == before
            &&& forall|i: int|
                before.len() <= i < all.len() ==> !matching::tag_is_of((#[trigger] all[i]).0, model)
        }),
    decreases runs.len(),
{
    let before = measured_runs(runs.take(k)) + measured_run(runs[k]);
    let all = measured_runs(runs);
    let f = runs.drop_last();
    if k == runs.len() - 1 {
        assert(runs.take(k) =~= f);
        assert(all.take(before.len() as int) =~= before);
    } else {
        assert(f.take(k) =~= runs.take(k));
        assert(!measures(runs[runs.len() - 1], model));
        assert forall|j: int| k < j < f.len() implies !measures(#[trigger] f[j], model) by {
            assert(f[j] == runs[j]);
        }
        lemma_others_tell_nothing(f, model, k);
        let part = measured_runs(f);
        assert(all.take(before.len() as int) =~= part.take(before.len() as int));
        assert forall|i: int| before.len() <= i < all.len() implies !matching::tag_is_of(
            (#[trigger] all[i]).0,
            model,
        ) by {
            if i < part.len() {
                assert(all[i] == part[i]);
            } else {
                assert(all[i] == measured_run(runs.last())[i - part.len()]);
            }
        }
    }
}

/// Of the measurements of a model the newest is told: the last of the run after which no run
/// measured the model, in whichever part of the store it lies.
pub proof fn law_newest_measurement_is_told(
    shared: Seq<StoredBenchmark>,
    pending: Seq<StoredBenchmark>,
    model: Seq<char>,
    k: int,
    e: int,
)
    requires
        ({
            let runs = runs_by_name(shared + pending);
            &&& 0 <= k < runs.len()
            &&& forall|j: int| k < j < runs.len() ==> !measures(#[trigger] runs[j], model)
            &&& 0 <= e < measured_run(runs[k]).len()
            &&& matching::tag_is_of(measured_run(runs[k])[e].0, model)
            &&& forall|i: int|
                e < i < measured_run(runs[k]).len() ==> !matching::tag_is_of(
                    (#[trigger] measured_run(runs[k])[i]).0,
                    model,
                )
        }),
    ensures
        ({
            let runs = runs_by_name(shared + pending);
            &&& newest_among(measured_runs(runs), model) matches Some((speed, _)) && speed
                == measured_run(runs[k])[e].1
            &&& forall|j: int|
                0 <= j < runs.len() && measures(#[trigger] runs[j], model) ==> !text::comes_before(
                    run_name(runs[k]),
                    run_name(runs[j]),
                )
        }),
{
    let runs = runs_by_name(shared + pending);
    let all = measured_runs(runs);
    let front = measured_runs(runs.take(k));
    let own = measured_run(runs[k]);
    law_runs_are_put_in_order(shared + pending);
    lemma_others_tell_nothing(runs, model, k);
    let at = front.len() + e;
    assert(all.take((front + own).len() as int)[at] == own[e]);
    assert forall|i: int| at < i < all.len() implies !matching::tag_is_of(
        (#[trigger] all[i]).0,
        model,
    ) by {
        if i < (front + own).len() {
            assert(all.take((front + own).len() as int)[i] == own[i - front.len()]);
        }
    }
    lemma_last_is_told(all, model, at);
    assert forall|j: int|
        0 <= j < runs.len() && measures(#[trigger] runs[j], model) implies !text::comes_before(
        run_name(runs[k]),
        run_name(runs[j]),
    ) by {
        if j == k {
            text::lemma_before_irreflexive(run_name(runs[k]));
        } else {
            assert(j < k);
        }
    }
}

/// Runs on other hardware are never told of.
pub proof fn law_other_hardware_is_left_out(runs: Seq<StoredBenchmark>)
    requires
        forall|i: int| 0 <= i < runs.len() ==> !(#[trigger] runs[i]).same_hardware,
    ensures
        measured_runs(runs).len() == 0,
    decreases runs.len(),
{
    if runs.len() > 0 {
        law_other_hardware_is_left_out(runs.drop_last());
        assert(!runs[runs.len() - 1].same_hardware);
    }
}

/// Only the directories of an absolute path to a GGUF file are taken off: what is left is the
/// name of the file, the end of the path without a separator in it. Any other name stays.
pub proof fn law_only_directories_are_taken_off(id: Seq<char>)
    ensures
        ({
            let t = without_directories(id);
            &&& t.is_suffix_of(id)
            &&& !looks_absolute(id) || !".gguf"@.is_suffix_of(text::ascii_lowercase(id)) ==> t == id
            &&& looks_absolute(id) && ".gguf"@.is_suffix_of(text::ascii_lowercase(id)) ==> !t.contains(
                '/',
            ) && !t.contains('\\')
        }),
{
    let t = text::after_last(id, seq!['/', '\\']);
    lemma_rfind_any(id, seq!['/', '\\'], id.len() as int);
    assert(t =~= id.subrange(id.len() - t.len(), id.len() as int));
    assert(id =~= id.subrange(0, id.len() as int));
    lemma_file_name_has_no_separator(id, t);
    if t.contains('/') {
        let k = choose|k: int| 0 <= k < t.len() && t[k] == '/';
        assert(t[k] != '/');
    }
    if t.contains('\\') {
        let k = choose|k: int| 0 <= k < t.len() && t[k] == '\\';
        assert(t[k] != '\\');
    }
}

/// Taking directories off changes nothing but the names of the models: a result has as many
/// members as before, each under its name, and all but the model as it was.
pub proof fn law_results_keep_the_rest(members: Seq<(Seq<char>, JsonTree)>, i: int)
    requires
        0 <= i < members.len(),
    ensures
        scrubbed_result(JsonTree::Object(members)) matches JsonTree::Object(after) && after.len()
            == members.len() && after[i].0 == members[i].0 && (members[i].0 != "model"@ ==> after[i]
            == members[i]),
        scrubbed(JsonTree::Object(members)) matches JsonTree::Object(after) && after.len()
            == members.len() && after[i].0 == members[i].0 && (members[i].0 != "results"@
            ==> after[i] == members[i]),
{
    lemma_member_place(members, "model"@, 0);
    lemma_member_place(members, "results"@, 0);
}

proof fn lemma_member_place(members: Seq<(Seq<char>, JsonTree)>, key: Seq<char>, i: int)
    requires
        0 <= i,
    ensures
        match member_place(members, key, i) {
            Some(k) => i <= k < members.len() && members[k].0 == key,
            None => forall|j: int| i <= j < members.len() ==> (#[trigger] members[j]).0 != key,
        },
        json::member_from(members, key, i) == (match member_place(members, key, i) {
            Some(k) => Some(members[k].1),
            None => None,
        }),
    decreases members.len() - i,
{
    if i < members.len() && members[i].0 != key {
        lemma_member_place(members, key, i + 1);
    }
}

/// The model of a result is told without the directories that lead to it.
pub proof fn law_models_are_told_without_directories(
    members: Seq<(Seq<char>, JsonTree)>,
    model: Seq<char>,
)
    requires
        JsonTree::Object(members).text_member("model"@) == Some(model),
    ensures
        scrubbed_result(JsonTree::Object(members)).text_member("model"@) == Some(
            without_directories(model),
        ),
{
    lemma_member_place(members, "model"@, 0);
    let k = member_place(members, "model"@, 0)->0;
    let after = members.update(k, ("model"@, JsonTree::Text(without_directories(model))));
    lemma_member_found(members, after, "model"@, 0, k);
}

proof fn lemma_member_found(
    members: Seq<(Seq<char>, JsonTree)>,
    after: Seq<(Seq<char>, JsonTree)>,
    key: Seq<char>,
    i: int,
    k: int,
)
    requires
        0 <= i <= k < members.len(),
        after.len() == members.len(),
        member_place(members, key, i) == Some(k),
        after[k].0 == key,
        forall|j: int| i <= j < k ==> (#[trigger] after[j]) == members[j],
    ensures
        json::member_from(after, key, i) == Some(after[k].1),
    decreases k - i,
{
    if i < k {
        lemma_member_place(members, key, i);
        if members[i].0 != key {
            lemma_member_found(members, after, key, i + 1, k);
        }
    }
}

/// A measurement is a result that tells its model and its speed, each under its own name.
pub proof fn law_measurements_tell_model_and_speed(t: JsonTree)
    ensures
        measurement_in(t) matches Some((model, speed)) ==> t.member("model"@) == Some(
            JsonTree::Text(model),
        ) && t.member("avgTps"@) == Some(JsonTree::Number(speed)),
        t.member("model"@) matches Some(JsonTree::Text(model)) ==> (
        t.member("avgTps"@) matches Some(JsonTree::Number(speed)) ==> measurement_in(t) == Some(
            (model, speed),
        )),
{
}

/// A measurement that is not plausible is never told, and one that is always is.
pub proof fn law_only_plausible_measurements_count(
    items: Seq<JsonTree>,
    t: JsonTree,
    plausible: Seq<bool>,
)
    requires
        items.len() < plausible.len(),
    ensures
        plausible[items.len() as int] && measurement_in(t) is Some ==> measured_results(
            items.push(t),
            plausible,
        ) == measured_results(items, plausible).push(measurement_in(t)->0),
        !plausible[items.len() as int] || measurement_in(t) is None ==> measured_results(
            items.push(t),
            plausible,
        ) == measured_results(items, plausible),
{
    assert(items.push(t).drop_last() =~= items);
}

/// The measurements of a model are all counted, and one of another model changes nothing.
pub proof fn law_measurements_are_counted(
    entries: Seq<(Seq<char>, JsonNumber)>,
    tag: Seq<char>,
    speed: JsonNumber,
    model: Seq<char>,
)
    ensures
        ({
            let before = newest_among(entries, model);
            let after = newest_among(entries.push((tag, speed)), model);
            &&& matching::tag_is_of(tag, model) ==> after == Some(
                (
                    speed,
                    match before {
                        Some((_, k)) => k + 1,
                        None => 1,
                    },
                ),
            )
            &&& !matching::tag_is_of(tag, model) ==> after == before
        }),
        newest_among(Seq::empty(), model) is None,
{
    assert(entries.push((tag, speed)).drop_last() =~= entries);
}

/// The files of the store are those whose names end in `.json` with something before that.
pub proof fn law_store_files(stem: Seq<char>, name: Seq<char>)
    ensures
        stem.len() > 0 ==> is_store_file(stem + ".json"@),
        !is_store_file(".json"@),
        is_store_file(name) ==> name.len() > 5 && name.skip(name.len() - 5) == ".json"@,
{
    reveal_strlit(".json");
    let full = stem + ".json"@;
    assert(".json"@ =~= full.subrange(full.len() - 5, full.len() as int));
    if is_store_file(name) {
        assert(name.skip(name.len() - 5) =~= name.subrange(name.len() - 5, name.len() as int));
    }
}

/// The measurements of a run stand under its results, and those of another machine do not count.
pub proof fn law_runs_tell_their_results(b: StoredBenchmark, items: Seq<JsonTree>)
    ensures
        b.same_hardware && b.payload.tree().member("results"@) == Some(JsonTree::Array(items))
            ==> measured_run(b) == measured_results(items, b.plausible@),
        !b.same_hardware ==> measured_run(b).len() == 0,
        b.payload.tree().member("results"@) is None ==> measured_run(b).len() == 0,
{
}

/// A path is absolute where it begins with a slash of either kind or with a drive; a name
/// without any is not.
pub proof fn law_absolute_paths(rest: Seq<char>, drive: char)
    ensures
        looks_absolute(seq!['/'] + rest),
        looks_absolute(seq!['\\'] + rest),
        (drive as u32) < 0x80 ==> looks_absolute(seq![drive, ':', '/'] + rest) && looks_absolute(
            seq![drive, ':', '\\'] + rest,
        ),
        rest.len() > 0 && rest[0] != '/' && rest[0] != '\\' && !rest.contains(':') ==> !looks_absolute(
            rest,
        ),
        !looks_absolute(Seq::empty()),
{
    assert((seq!['/'] + rest)[0] == '/');
    assert((seq!['\\'] + rest)[0] == '\\');
    let (a, b) = (seq![drive, ':', '/'] + rest, seq![drive, ':', '\\'] + rest);
    assert(a[0] == drive && a[1] == ':' && a[2] == '/');
    assert(b[0] == drive && b[1] == ':' && b[2] == '\\');
    if rest.len() >= 3 {
        assert(rest.contains(rest[1]));
    }
}

} // verus!
