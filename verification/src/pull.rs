//! Downloads from the model hub: which are running, their scripts, their progress and their
//! outcome.
use vstd::prelude::*;
use crate::hf;
use crate::names::NameSet;
use crate::numeral;
use crate::outside;
use crate::text;

verus! {

// ---------------------------------------------------------------------------
// Running downloads
// ---------------------------------------------------------------------------

/// The downloads that are running, by the names of their models.
#[derive(Debug)]
pub struct PullRegistry {
    active: NameSet,
}

impl View for PullRegistry {
    type V = Set<Seq<char>>;

    closed spec fn view(&self) -> Set<Seq<char>> {
        self.active@
    }
}

impl PullRegistry {
    /// No download is running.
    pub fn new() -> (r: PullRegistry)
        ensures
            r@ == Set::<Seq<char>>::empty(),
    {
        PullRegistry { active: NameSet::new() }
    }

    /// Registers a download, unless one of the same model is running.
    pub fn begin(&mut self, model_id: &str) -> (r: Result<(), String>)
        ensures
            match r {
                Ok(()) => !old(self)@.contains(model_id@),
                Err(e) => old(self)@.contains(model_id@) && e@ == "already pulling "@ + model_id@,
            },
            final(self)@ == old(self)@.insert(model_id@),
    {
        if self.active.contains(model_id) {
            assert(self@.insert(model_id@) =~= self@);
            let mut e = "already pulling ".to_string();
            e.append(model_id);
            return Err(e);
        }
        self.active.insert(model_id.to_string());
        Ok(())
    }

    /// Whether a download of the model is running.
    pub fn contains(&self, model_id: &str) -> (r: bool)
        ensures
            r == self@.contains(model_id@),
    {
        self.active.contains(model_id)
    }

    /// Takes a download out, because it ended or was cancelled. Its outcome is reported only
    /// where it was still there.
    pub fn end(&mut self, model_id: &str) -> (r: bool)
        ensures
            final(self)@ == old(self)@.remove(model_id@),
            r == old(self)@.contains(model_id@),
    {
        self.active.remove(model_id)
    }

    /// The models that are being downloaded.
    pub fn models(&self) -> (r: Vec<String>)
        ensures
            text::texts(r@).to_set() == self@,
            text::texts(r@).no_duplicates(),
    {
        let items = self.active.items();
        let mut out: Vec<String> = Vec::new();
        for i in 0..items.len()
            invariant
                text::texts(out@) == text::texts(items@).take(i as int),
        {
            let ghost before = text::texts(out@);
            out.push(items[i].clone());
            assert(text::texts(out@) =~= before.push(text::texts(items@)[i as int]));
        }
        assert(text::texts(items@).take(items@.len() as int) =~= text::texts(items@));
        out
    }
}

/// The downloads that are running.
#[derive(Debug)]
pub struct PullState {
    pub pulling: Vec<String>,
}

/// The downloads that are running.
pub fn pull_status(registry: &PullRegistry) -> (r: PullState)
    ensures
        text::texts(r.pulling@).to_set() == registry@,
        text::texts(r.pulling@).no_duplicates(),
{
    PullState { pulling: registry.models() }
}

// ---------------------------------------------------------------------------
// Scripts
// ---------------------------------------------------------------------------

/// An ASCII character that is neither a letter, a digit nor white space.
pub open spec fn is_ascii_punctuation(c: char) -> bool {
    let n = c as u32;
    (0x21 <= n <= 0x2f) || (0x3a <= n <= 0x40) || (0x5b <= n <= 0x60) || (0x7b <= n <= 0x7e)
}

/// A character that may stand between single quotes in a script.
pub open spec fn token_char(c: char) -> bool {
    text::is_digit(c) || text::is_ascii_alpha(c) || (is_ascii_punctuation(c) && c != '\'')
}

/// A token that may stand between single quotes in a script.
pub open spec fn token_usable(token: Seq<char>) -> bool {
    token.len() > 0 && forall|i: int| 0 <= i < token.len() ==> token_char(#[trigger] token[i])
}

/// Whether a token may stand between single quotes in a script.
pub fn token_ok(token: &str) -> (r: bool)
    ensures
        r == token_usable(token@),
{
    let cs = text::chars_of(token);
    if cs.len() == 0 {
        return false;
    }
    for i in 0..cs.len()
        invariant
            cs@ == token@,
            forall|j: int| 0 <= j < i ==> token_char(#[trigger] token@[j]),
    {
        let c = cs[i];
        let n: u32 = c as u32;
        let plain = ('0' <= c && c <= '9') || ('a' <= c && c <= 'z') || ('A' <= c && c <= 'Z');
        let punctuation = (0x21 <= n && n <= 0x2f) || (0x3a <= n && n <= 0x40) || (0x5b <= n && n
            <= 0x60) || (0x7b <= n && n <= 0x7e);
        if !(plain || (punctuation && c != '\'')) {
            assert(!token_char(token@[i as int]));
            return false;
        }
    }
    true
}

/// The script that downloads a model with the tools of the virtual environment `venv`.
pub open spec fn download_script(
    venv: Seq<char>,
    token: Seq<char>,
    hf_home: Option<Seq<char>>,
    offline: bool,
    model_id: Seq<char>,
) -> Seq<char> {
    let home = match hf_home {
        Some(h) => text::trim(h),
        None => Seq::empty(),
    };
    (if home.len() > 0 {
        "mkdir -p "@ + home + " && export HF_HOME="@ + home + " && "@
    } else {
        Seq::empty()
    }) + (if offline {
        "export HF_HUB_OFFLINE=1 && "@
    } else {
        Seq::empty()
    }) + (if text::occurs(venv, "~"@) || "/"@.is_prefix_of(venv) {
        "cd "@ + venv + "/.. && "@
    } else {
        Seq::empty()
    }) + " . "@ + venv + "/bin/activate && HF_HUB_DISABLE_TQDM=1 "@ + (if token_usable(token) {
        "HF_TOKEN='"@ + token + "' "@
    } else {
        Seq::empty()
    }) + "hf download "@ + model_id + " 2>&1 || echo __HF_PULL_FAILED__"@
}

/// The script that downloads a model.
pub fn pull_script(
    venv: &str,
    token: &str,
    hf_home: Option<&str>,
    offline: bool,
    model_id: &str,
) -> (r: String)
    ensures
        r@ == download_script(venv@, token@, text::opt_str(hf_home), offline, model_id@),
{
    let mut out = String::new();
    if let Some(h) = hf_home {
        let home = text::trimmed(h);
        if home.unicode_len() > 0 {
            out.append("mkdir -p ");
            out.append(home);
            out.append(" && export HF_HOME=");
            out.append(home);
            out.append(" && ");
        }
    }
    if offline {
        out.append("export HF_HUB_OFFLINE=1 && ");
    }
    if text::contains_text(venv, "~") || text::starts_with(venv, "/") {
        out.append("cd ");
        out.append(venv);
        out.append("/.. && ");
    }
    out.append(" . ");
    out.append(venv);
    out.append("/bin/activate && HF_HUB_DISABLE_TQDM=1 ");
    if token_ok(token) {
        out.append("HF_TOKEN='");
        out.append(token);
        out.append("' ");
    }
    out.append("hf download ");
    out.append(model_id);
    out.append(" 2>&1 || echo __HF_PULL_FAILED__");
    assert(out@ =~= download_script(venv@, token@, text::opt_str(hf_home), offline, model_id@));
    out
}

// ---------------------------------------------------------------------------
// Outcome
// ---------------------------------------------------------------------------

/// How a download ended: without a message, or with what went wrong.
#[derive(Debug)]
pub enum PullOutcome {
    Complete,
    Failed(String),
}

/// `s` without its null characters.
pub open spec fn without_nulls(s: Seq<char>) -> Seq<char>
    decreases s.len(),
{
    if s.len() == 0 {
        s
    } else if s.last() == '\0' {
        without_nulls(s.drop_last())
    } else {
        without_nulls(s.drop_last()).push(s.last())
    }
}

/// The last line of `s`, without the white space at its ends.
pub open spec fn last_line(s: Seq<char>) -> Seq<char> {
    let body = match text::without_suffix(s, "\n"@) {
        Some(b) => b,
        None => s,
    };
    text::trim(text::after_last(body, seq!['\n']))
}

/// The message of a download that failed: its error output, or else the last line of its
/// output, or else a general one.
pub open spec fn failure_message(stdout: Seq<char>, stderr: Seq<char>) -> Seq<char> {
    let err = text::trim(without_nulls(stderr));
    let line = last_line(without_nulls(stdout));
    if err.len() > 0 {
        err
    } else if line.len() > 0 {
        line
    } else {
        "Download failed"@
    }
}

/// The download ended well: its process did, and its output does not hold the mark of a
/// failure.
pub open spec fn download_complete(ok: bool, stdout: Seq<char>, stderr: Seq<char>) -> bool {
    ok && !text::occurs(stdout, "__HF_PULL_FAILED__"@) && !text::occurs(
        stderr,
        "__HF_PULL_FAILED__"@,
    )
}

/// `s` without its null characters.
pub fn drop_nulls(s: &str) -> (r: String)
    ensures
        r@ == without_nulls(s@),
{
    let cs = text::chars_of(s);
    let mut out = String::new();
    assert(s@.take(0) =~= Seq::empty());
    for i in 0..cs.len()
        invariant
            cs@ == s@,
            out@ == without_nulls(s@.take(i as int)),
    {
        assert(s@.take(i + 1).drop_last() =~= s@.take(i as int));
        assert(s@.take(i + 1).last() == s@[i as int]);
        if cs[i] != '\0' {
            out.push(cs[i]);
        }
    }
    assert(s@.take(s@.len() as int) =~= s@);
    out
}

/// How a download ended.
pub fn pull_outcome(ok: bool, stdout: &str, stderr: &str) -> (r: PullOutcome)
    ensures
        match r {
            PullOutcome::Complete => download_complete(ok, stdout@, stderr@),
            PullOutcome::Failed(m) => !download_complete(ok, stdout@, stderr@) && m@
                == failure_message(stdout@, stderr@),
        },
{
    if ok && !text::contains_text(stdout, "__HF_PULL_FAILED__") && !text::contains_text(
        stderr,
        "__HF_PULL_FAILED__",
    ) {
        return PullOutcome::Complete;
    }
    let clean_err = drop_nulls(stderr);
    let err = text::trimmed(&clean_err);
    if err.unicode_len() > 0 {
        return PullOutcome::Failed(err.to_string());
    }
    let clean_out = drop_nulls(stdout);
    let body: &str = match text::strip_suffix(&clean_out, "\n") {
        Some(b) => b,
        None => clean_out.as_str(),
    };
    let newline = ['\n'];
    assert(newline@ == seq!['\n']);
    let line = text::trimmed(text::tail_after(body, &newline));
    if line.unicode_len() > 0 {
        return PullOutcome::Failed(line.to_string());
    }
    PullOutcome::Failed("Download failed".to_string())
}

// ---------------------------------------------------------------------------
// Progress
// ---------------------------------------------------------------------------

pub const PERCENT_PATTERN: &'static str = "(\\d+(?:\\.\\d+)?)%";

pub const SPEED_PATTERN: &'static str =
    "(\\d+(?:\\.\\d+)?)\\s*([KMGT]?B)/s|(\\d+(?:\\.\\d+)?)\\s*s/it";

pub const ETA_PATTERN: &'static str = "\\[(?:\\d{2}:\\d{2})<(\\d{2}):(\\d{2})";

/// The progress of a download.
#[derive(Debug)]
pub struct PullProgress {
    /// The numeral of the percentage.
    pub percent: String,
    /// The numeral of the speed and the bytes of its unit, per second.
    pub speed: Option<(String, u64)>,
    pub eta_seconds: Option<u64>,
}

/// The text of group number `i` of a match.
pub open spec fn group_at(groups: Option<Seq<Option<Seq<char>>>>, i: int) -> Option<Seq<char>> {
    match groups {
        Some(g) => if 0 <= i < g.len() {
            g[i]
        } else {
            None
        },
        None => None,
    }
}

/// The bytes of a unit of data.
pub open spec fn unit_bytes(unit: Seq<char>) -> u64 {
    if text::same_but_case(unit, "KB"@) {
        0x400
    } else if text::same_but_case(unit, "MB"@) {
        0x10_0000
    } else if text::same_but_case(unit, "GB"@) {
        0x4000_0000
    } else if text::same_but_case(unit, "TB"@) {
        0x100_0000_0000
    } else {
        1
    }
}

/// The speed that a match tells: a numeral and the bytes of its unit.
pub open spec fn speed_in(groups: Option<Seq<Option<Seq<char>>>>) -> Option<(Seq<char>, u64)> {
    match group_at(groups, 1) {
        Some(digits) => Some(
            (
                digits,
                unit_bytes(
                    match group_at(groups, 2) {
                        Some(u) => u,
                        None => ""@,
                    },
                ),
            ),
        ),
        None => None,
    }
}

/// The seconds that a match tells: minutes and seconds, of two digits each.
pub open spec fn eta_in(groups: Option<Seq<Option<Seq<char>>>>) -> Option<nat> {
    match (group_at(groups, 1), group_at(groups, 2)) {
        (Some(m), Some(s)) => match (
            numeral::whole_number(m, 99),
            numeral::whole_number(s, 99),
        ) {
            (Some(minutes), Some(seconds)) => Some(minutes * 60 + seconds),
            _ => None,
        },
        _ => None,
    }
}

/// The progress that the matches in a line tell: none where there is no percentage.
pub open spec fn progress_of(
    r: Option<PullProgress>,
    percent: Option<Seq<Option<Seq<char>>>>,
    speed: Option<Seq<Option<Seq<char>>>>,
    eta: Option<Seq<Option<Seq<char>>>>,
) -> bool {
    match group_at(percent, 1) {
        None => r is None,
        Some(share) => r matches Some(progress) && progress.percent@ == share && (
        match progress.speed {
            Some((d, unit)) => speed_in(speed) == Some((d@, unit)),
            None => speed_in(speed) is None,
        }) && (match progress.eta_seconds {
            Some(n) => eta_in(eta) == Some(n as nat),
            None => eta_in(eta) is None,
        }),
    }
}

fn group_text<'a>(groups: &'a Option<Vec<Option<String>>>, i: usize) -> (r: Option<&'a str>)
    ensures
        text::opt_str(r) == group_at(hf::opt_groups(*groups), i as int),
{
    match groups {
        Some(g) => if i < g.len() {
            assert(outside::group_texts(g@)[i as int] == text::opt_text(g@[i as int]));
            match &g[i] {
                Some(s) => Some(s.as_str()),
                None => None,
            }
        } else {
            None
        },
        None => None,
    }
}

fn bytes_of_unit(unit: &str) -> (r: u64)
    ensures
        r == unit_bytes(unit@),
{
    if text::same_ignoring_case(unit, "KB") {
        0x400
    } else if text::same_ignoring_case(unit, "MB") {
        0x10_0000
    } else if text::same_ignoring_case(unit, "GB") {
        0x4000_0000
    } else if text::same_ignoring_case(unit, "TB") {
        0x100_0000_0000
    } else {
        1
    }
}

/// The progress that the matches of the three patterns in a line tell.
pub fn progress_from_groups(
    percent: &Option<Vec<Option<String>>>,
    speed: &Option<Vec<Option<String>>>,
    eta: &Option<Vec<Option<String>>>,
) -> (r: Option<PullProgress>)
    ensures
        progress_of(
            r,
            hf::opt_groups(*percent),
            hf::opt_groups(*speed),
            hf::opt_groups(*eta),
        ),
{
    let Some(digits) = group_text(percent, 1) else {
        return None;
    };
    let rate: Option<(String, u64)> = match group_text(speed, 1) {
        Some(d) => {
            let unit: &str = match group_text(speed, 2) {
                Some(u) => u,
                None => "",
            };
            Some((d.to_string(), bytes_of_unit(unit)))
        },
        None => None,
    };
    let eta_seconds: Option<u64> = match (group_text(eta, 1), group_text(eta, 2)) {
        (Some(m), Some(s)) => match (numeral::read_whole(m, 99), numeral::read_whole(s, 99)) {
            (Some(minutes), Some(seconds)) => {
                assert(minutes <= 99 && seconds <= 99);
                Some(minutes * 60 + seconds)
            },
            _ => None,
        },
        _ => None,
    };
    Some(PullProgress { percent: digits.to_string(), speed: rate, eta_seconds })
}

/// The progress that a line of a download's output tells.
pub fn parse_progress_line(line: &str) -> (r: Option<PullProgress>)
    ensures
        progress_of(
            r,
            outside::lite_groups(PERCENT_PATTERN@, line@),
            outside::lite_groups(SPEED_PATTERN@, line@),
            outside::lite_groups(ETA_PATTERN@, line@),
        ),
{
    progress_from_groups(
        &outside::lite_captures(PERCENT_PATTERN, line),
        &outside::lite_captures(SPEED_PATTERN, line),
        &outside::lite_captures(ETA_PATTERN, line),
    )
}

// ---------------------------------------------------------------------------
// Laws
// ---------------------------------------------------------------------------

/// A token of letters, digits, hyphens and underscores may stand in a script; one with white
/// space, a single quote, a control character or a character beyond ASCII may not.
pub proof fn law_usable_tokens(token: Seq<char>, i: int)
    requires
        0 <= i < token.len(),
    ensures
        (forall|k: int|
            0 <= k < token.len() ==> (text::is_digit(#[trigger] token[k]) || text::is_ascii_alpha(
                token[k],
            ) || token[k] == '-' || token[k] == '_')) ==> token_usable(token),
        token[i] == '\'' || text::is_white_space(token[i]) || text::is_control_char(token[i])
            || token[i] as u32 > 0x7e ==> !token_usable(token),
        !token_usable(Seq::empty()),
{
    if token[i] == '\'' || text::is_white_space(token[i]) || text::is_control_char(token[i])
        || token[i] as u32 > 0x7e {
        assert(!token_char(token[i]));
    }
}

/// The script of a download enters the virtual environment and asks for the model.
pub proof fn law_scripts_ask_for_the_model(
    venv: Seq<char>,
    token: Seq<char>,
    home: Option<Seq<char>>,
    offline: bool,
    model_id: Seq<char>,
)
    ensures
        ({
            let script = download_script(venv, token, home, offline, model_id);
            &&& text::occurs(script, venv + "/bin/activate && HF_HUB_DISABLE_TQDM=1 "@)
            &&& ("hf download "@ + model_id + " 2>&1 || echo __HF_PULL_FAILED__"@).is_suffix_of(
                script,
            )
        }),
{
    let script = download_script(venv, token, home, offline, model_id);
    let asked = "hf download "@ + model_id + " 2>&1 || echo __HF_PULL_FAILED__"@;
    assert(script.skip(script.len() - asked.len()) =~= asked);
    let word = venv + "/bin/activate && HF_HUB_DISABLE_TQDM=1 "@;
    let shown = if token_usable(token) {
        "HF_TOKEN='"@ + token + "' "@
    } else {
        Seq::empty()
    };
    let rest = shown + asked;
    let front = script.take(script.len() - rest.len() - word.len());
    assert(script =~= front + word + rest);
    text::law_parts_occur(front, word, rest);
}

/// A token is handed to the script of a download only where it may stand there.
pub proof fn law_scripts_hold_usable_tokens(
    venv: Seq<char>,
    token: Seq<char>,
    home: Option<Seq<char>>,
    offline: bool,
    model_id: Seq<char>,
)
    ensures
        ({
            let script = download_script(venv, token, home, offline, model_id);
            &&& token_usable(token) ==> text::occurs(script, "HF_TOKEN='"@ + token + "' "@)
            &&& !token_usable(token) ==> script == download_script(
                venv,
                Seq::empty(),
                home,
                offline,
                model_id,
            )
        }),
{
    let script = download_script(venv, token, home, offline, model_id);
    assert(!token_usable(Seq::<char>::empty()));
    if token_usable(token) {
        let shown = "HF_TOKEN='"@ + token + "' "@;
        let asked = "hf download "@ + model_id + " 2>&1 || echo __HF_PULL_FAILED__"@;
        let front = script.take(script.len() - shown.len() - asked.len());
        assert(script =~= front + shown + asked);
        text::law_parts_occur(front, shown, asked);
    }
}

/// The script of a download begins with the hub's directory where one was set, and says that
/// there is no network where there is none.
pub proof fn law_scripts_tell_the_home(
    venv: Seq<char>,
    token: Seq<char>,
    home: Seq<char>,
    model_id: Seq<char>,
    offline: bool,
)
    ensures
        text::trim(home).len() > 0 ==> ("mkdir -p "@ + text::trim(home) + " && export HF_HOME="@
            + text::trim(home) + " && "@ + download_script(venv, token, None, offline, model_id))
            == download_script(venv, token, Some(home), offline, model_id),
        text::trim(home).len() == 0 ==> download_script(venv, token, Some(home), offline, model_id)
            == download_script(venv, token, None, offline, model_id),
        download_script(venv, token, None, true, model_id) == "export HF_HUB_OFFLINE=1 && "@
            + download_script(venv, token, None, false, model_id),
{
    assert("export HF_HUB_OFFLINE=1 && "@ + download_script(venv, token, None, false, model_id)
        =~= download_script(venv, token, None, true, model_id));
    if text::trim(home).len() > 0 {
        assert("mkdir -p "@ + text::trim(home) + " && export HF_HOME="@ + text::trim(home)
            + " && "@ + download_script(venv, token, None, offline, model_id)
            =~= download_script(venv, token, Some(home), offline, model_id));
    }
}

/// Null characters are taken out, and nothing else is.
pub proof fn law_nulls_are_taken_out(s: Seq<char>, c: char)
    ensures
        !without_nulls(s).contains('\0'),
        !s.contains('\0') ==> without_nulls(s) == s,
        c != '\0' ==> without_nulls(s.push(c)) == without_nulls(s).push(c),
        without_nulls(s.push('\0')) == without_nulls(s),
    decreases s.len(),
{
    assert(s.push(c).drop_last() =~= s);
    assert(s.push('\0').drop_last() =~= s);
    if s.len() > 0 {
        let front = s.drop_last();
        law_nulls_are_taken_out(front, c);
        assert(s =~= front.push(s.last()));
        let clean = without_nulls(front);
        if without_nulls(s).contains('\0') {
            let k = choose|k: int| 0 <= k < without_nulls(s).len() && without_nulls(s)[k] == '\0';
            if k < clean.len() {
                assert(clean[k] == '\0');
                assert(clean.contains('\0'));
            }
            assert(false);
        }
        if !s.contains('\0') {
            assert(s[s.len() - 1] == s.last());
            assert(!front.contains('\0')) by {
                if front.contains('\0') {
                    let k = choose|k: int| 0 <= k < front.len() && front[k] == '\0';
                    assert(s[k] == '\0');
                }
            }
        }
    }
}

/// A download is complete only where its process ended well and left no mark of a failure in
/// either output. What went wrong is told by the error output, else by the last line of the
/// output; there is always a message.
pub proof fn law_failed_downloads_are_told(
    ok: bool,
    stdout: Seq<char>,
    stderr: Seq<char>,
    front: Seq<char>,
    line: Seq<char>,
)
    ensures
        !ok ==> !download_complete(ok, stdout, stderr),
        text::occurs(stdout, "__HF_PULL_FAILED__"@) ==> !download_complete(ok, stdout, stderr),
        text::occurs(stderr, "__HF_PULL_FAILED__"@) ==> !download_complete(ok, stdout, stderr),
        download_complete(true, Seq::empty(), Seq::empty()),
        failure_message(stdout, stderr).len() > 0,
        !stderr.contains('\0') && text::trim(stderr).len() > 0 ==> failure_message(stdout, stderr)
            == text::trim(stderr),
        !front.contains('\0') && !line.contains('\0') && !line.contains('\n') && text::trim(line).len()
            > 0 ==> failure_message(front + seq!['\n'] + line, Seq::empty()) == text::trim(line),
        !front.contains('\0') && !line.contains('\0') && !line.contains('\n') && text::trim(line).len()
            > 0 ==> failure_message(front + seq!['\n'] + line + seq!['\n'], Seq::empty())
            == text::trim(line),
{
    reveal_strlit("Download failed");
    reveal_strlit("__HF_PULL_FAILED__");
    reveal_strlit("\n");
    assert(!text::occurs(Seq::<char>::empty(), "__HF_PULL_FAILED__"@));
    law_nulls_are_taken_out(stderr, 'a');
    assert(without_nulls(Seq::<char>::empty()) =~= Seq::<char>::empty());
    assert(text::trim(Seq::<char>::empty()) =~= Seq::<char>::empty());
    if !front.contains('\0') && !line.contains('\0') && !line.contains('\n') && text::trim(
        line,
    ).len() > 0 {
        let a = front + seq!['\n'] + line;
        let b = a + seq!['\n'];
        assert(line.len() > 0) by {
            if line.len() == 0 {
                assert(line =~= Seq::<char>::empty());
            }
        }
        assert forall|k: int| 0 <= k < a.len() implies #[trigger] a[k] != '\0' by {
            if k < front.len() {
                assert(front[k] == a[k]);
                assert(front.contains(front[k]));
            } else if k > front.len() {
                assert(line[k - front.len() - 1] == a[k]);
                assert(line.contains(line[k - front.len() - 1]));
            }
        }
        assert forall|k: int| 0 <= k < b.len() implies #[trigger] b[k] != '\0' by {
            if k < a.len() {
                assert(a[k] == b[k]);
            }
        }
        law_nulls_are_taken_out(a, 'a');
        law_nulls_are_taken_out(b, 'a');
        assert("\n"@ =~= seq!['\n']);
        assert(b.skip(b.len() - 1) =~= "\n"@);
        assert("\n"@.is_suffix_of(b));
        assert(b.take(b.len() - 1) =~= a);
        assert(!"\n"@.is_suffix_of(a)) by {
            if "\n"@.is_suffix_of(a) {
                let tail = a.subrange(a.len() - 1, a.len() as int);
                assert(tail[0] == a.last());
                assert(a.last() == line.last());
                assert(line.contains(line.last()));
            }
        }
        lemma_last_line(front, line);
        assert(last_line(a) == text::trim(line));
        assert(last_line(b) == text::trim(line));
    }
}

proof fn lemma_last_line(front: Seq<char>, line: Seq<char>)
    requires
        !line.contains('\n'),
    ensures
        text::after_last(front + seq!['\n'] + line, seq!['\n']) == line,
{
    let s = front + seq!['\n'] + line;
    text::law_cutting(s, '\n');
    let tail = text::after_last(s, seq!['\n']);
    assert(s[front.len() as int] == '\n');
    assert(s.contains('\n'));
    let at = s.len() - tail.len() - 1;
    if at > front.len() {
        assert(line[at - front.len() - 1] == s[at]);
        assert(line.contains(s[at]));
    }
    if at < front.len() {
        assert(tail[front.len() - at - 1] == s[front.len() as int]);
        assert(tail.contains('\n'));
    }
    assert(tail =~= line);
}

/// Each unit of data is the thousand and twenty-fourth part of the next, whatever its case, and
/// a byte is one.
pub proof fn law_units_grow_by_1024(unit: Seq<char>)
    ensures
        text::same_but_case(unit, "KB"@) ==> unit_bytes(unit) == 1024 * unit_bytes("B"@),
        text::same_but_case(unit, "MB"@) ==> unit_bytes(unit) == 1024 * unit_bytes("KB"@),
        text::same_but_case(unit, "GB"@) ==> unit_bytes(unit) == 1024 * unit_bytes("MB"@),
        text::same_but_case(unit, "TB"@) ==> unit_bytes(unit) == 1024 * unit_bytes("GB"@),
        unit_bytes("B"@) == 1,
{
    reveal_strlit("B");
    reveal_strlit("KB");
    reveal_strlit("MB");
    reveal_strlit("GB");
    reveal_strlit("TB");
    let k = text::ascii_lowercase("KB"@);
    let m = text::ascii_lowercase("MB"@);
    let g = text::ascii_lowercase("GB"@);
    let t = text::ascii_lowercase("TB"@);
    let b = text::ascii_lowercase("B"@);
    assert(b.len() == 1 && k.len() == 2);
    assert(k[0] == 'k' && m[0] == 'm' && g[0] == 'g' && t[0] == 't');
    assert(m.len() == 2 && g.len() == 2 && t.len() == 2);
}

/// A line tells its percentage, its speed with the unit, and the seconds that are left; without
/// a percentage it tells nothing.
pub proof fn law_progress_is_what_the_line_says(
    r: Option<PullProgress>,
    whole: Option<Seq<char>>,
    share: Seq<char>,
    digits: Seq<char>,
    unit: Seq<char>,
    minutes: nat,
    seconds: nat,
    speed: Option<Seq<Option<Seq<char>>>>,
    eta: Option<Seq<Option<Seq<char>>>>,
)
    requires
        minutes <= 99,
        seconds <= 99,
    ensures
        progress_of(r, None, speed, eta) ==> r is None,
        progress_of(r, Some(seq![whole, Some(share)]), speed, eta) ==> r is Some
            && r->0.percent@ == share,
        progress_of(
            r,
            Some(seq![whole, Some(share)]),
            Some(seq![whole, Some(digits), Some(unit)]),
            eta,
        ) ==> r is Some && r->0.speed is Some && (r->0.speed->0).0@ == digits && (r->0.speed->0).1
            == unit_bytes(unit),
        progress_of(r, Some(seq![whole, Some(share)]), None, eta) ==> r is Some && r->0.speed is None,
        progress_of(
            r,
            Some(seq![whole, Some(share)]),
            speed,
            Some(
                seq![whole, Some(numeral::decimal(minutes)), Some(numeral::decimal(seconds))],
            ),
        ) ==> r is Some && r->0.eta_seconds is Some && r->0.eta_seconds->0 == 60 * minutes + seconds,
        progress_of(r, Some(seq![whole, Some(share)]), speed, None) ==> r is Some
            && r->0.eta_seconds is None,
{
    numeral::law_numerals_are_read_back(minutes, 99);
    numeral::law_numerals_are_read_back(seconds, 99);
}

} // verus!
