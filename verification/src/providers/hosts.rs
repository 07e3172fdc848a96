//! Where the runtimes listen: host settings and the addresses made from them.
use vstd::prelude::*;
use crate::text;

verus! {

/// The base address that a host setting stands for: the setting itself where it names
/// `http` or `https`, `http://` in front of it where it names no scheme. An empty setting
/// and one with another scheme stand for none.
pub open spec fn host_address(raw: Seq<char>) -> Option<Seq<char>> {
    let host = text::trim(raw);
    if host.len() == 0 {
        None
    } else if "http://"@.is_prefix_of(host) || "https://"@.is_prefix_of(host) {
        Some(host)
    } else if text::occurs(host, "://"@) {
        None
    } else {
        Some("http://"@ + host)
    }
}

fn normalize_host(raw: &str) -> (r: Option<String>)
    ensures
        text::opt_text(r) == host_address(raw@),
{
    let host = text::trimmed(raw);
    if host.unicode_len() == 0 {
        return None;
    }
    if text::starts_with(host, "http://") || text::starts_with(host, "https://") {
        return Some(host.to_string());
    }
    if text::contains_text(host, "://") {
        return None;
    }
    let mut out = "http://".to_string();
    out.append(host);
    Some(out)
}

/// The base address that the setting `OLLAMA_HOST` stands for.
pub fn normalize_ollama_host(raw: &str) -> (r: Option<String>)
    ensures
        text::opt_text(r) == host_address(raw@),
{
    normalize_host(raw)
}

/// The base address that the setting `DOCKER_MODEL_RUNNER_HOST` stands for.
pub fn normalize_docker_mr_host(raw: &str) -> (r: Option<String>)
    ensures
        text::opt_text(r) == host_address(raw@),
{
    normalize_host(raw)
}

/// The base address that the setting `LMSTUDIO_HOST` stands for.
pub fn normalize_lmstudio_host(raw: &str) -> (r: Option<String>)
    ensures
        text::opt_text(r) == host_address(raw@),
{
    normalize_host(raw)
}

/// The base address that the setting `VLLM_HOST` stands for.
pub fn normalize_vllm_host(raw: &str) -> (r: Option<String>)
    ensures
        text::opt_text(r) == host_address(raw@),
{
    normalize_host(raw)
}

/// The base address that the setting `RAMALAMA_HOST` stands for.
pub fn normalize_ramalama_host(raw: &str) -> (r: Option<String>)
    ensures
        text::opt_text(r) == host_address(raw@),
{
    normalize_host(raw)
}

proof fn lemma_trim_start_suffix(s: Seq<char>)
    ensures
        text::trim_start(s).len() <= s.len(),
        text::trim_start(s) == s.skip(s.len() - text::trim_start(s).len()),
        text::trim_start(s).len() > 0 ==> !text::is_white_space(text::trim_start(s)[0]),
    decreases s.len(),
{
    if s.len() > 0 && text::is_white_space(s[0]) {
        lemma_trim_start_suffix(s.skip(1));
        let t = text::trim_start(s.skip(1));
        assert(s.skip(1).skip(s.len() - 1 - t.len()) =~= s.skip(s.len() - t.len()));
    } else {
        assert(s.skip(0) =~= s);
    }
}

proof fn lemma_trim_end_prefix(s: Seq<char>)
    ensures
        text::trim_end(s).len() <= s.len(),
        text::trim_end(s) == s.take(text::trim_end(s).len() as int),
        text::trim_end(s).len() > 0 ==> !text::is_white_space(text::trim_end(s).last()),
    decreases s.len(),
{
    if s.len() > 0 && text::is_white_space(s.last()) {
        lemma_trim_end_prefix(s.drop_last());
        let t = text::trim_end(s.drop_last());
        assert(s.drop_last().take(t.len() as int) =~= s.take(t.len() as int));
    } else {
        assert(s.take(s.len() as int) =~= s);
    }
}

/// A base address is taken as it is when it is given as the setting again.
pub proof fn law_address_is_stable(raw: Seq<char>)
    ensures
        host_address(raw) matches Some(address) ==> host_address(address) == Some(address),
{
    if let Some(address) = host_address(raw) {
        let host = text::trim(raw);
        let left = text::trim_start(raw);
        lemma_trim_start_suffix(raw);
        lemma_trim_end_prefix(left);
        reveal_strlit("http://");
        reveal_strlit("https://");
        if "http://"@.is_prefix_of(host) {
            assert(host.subrange(0, 7)[0] == 'h');
        } else if "https://"@.is_prefix_of(host) {
            assert(host.subrange(0, 8)[0] == 'h');
        }
        assert(host.last() == address.last());
        assert(address[0] == 'h');
        assert(text::trim_start(address) == address);
        assert(text::trim(address) == address);
        if address != host {
            assert(address.subrange(0, 7) =~= "http://"@);
            assert("http://"@.is_prefix_of(address));
        }
    }
}

/// The part of an address behind its scheme.
pub open spec fn after_scheme(url: Seq<char>) -> Seq<char> {
    match text::without_prefix(url, "http://"@) {
        Some(rest) => rest,
        None => match text::without_prefix(url, "https://"@) {
            Some(rest) => rest,
            None => url,
        },
    }
}

/// The host of an address is the one that stands for every interface: `0.0.0.0`, or in
/// square brackets `::` or `0:0:0:0:0:0:0:0`. A server can listen there, but nothing can
/// connect to it.
pub open spec fn wildcard_address(url: Seq<char>) -> bool {
    let host_port = text::before_first(after_scheme(url), seq!['/', '?', '#']);
    match text::without_prefix(host_port, "["@) {
        Some(rest) => text::find_any_from(rest, seq![']'], 0) is Some && ({
            let host = text::before_first(rest, seq![']']);
            host == "::"@ || host == "0:0:0:0:0:0:0:0"@
        }),
        None => text::before_first(host_port, seq![':']) == "0.0.0.0"@,
    }
}

/// Whether the host of an address is the one that stands for every interface.
pub fn is_wildcard_bind_address(url: &str) -> (r: bool)
    ensures
        r == wildcard_address(url@),
{
    let rest = match text::strip_prefix(url, "http://") {
        Some(rest) => rest,
        None => match text::strip_prefix(url, "https://") {
            Some(rest) => rest,
            None => url,
        },
    };
    let ends = ['/', '?', '#'];
    let bracket = [']'];
    let colon = [':'];
    assert(ends@ == seq!['/', '?', '#']);
    assert(bracket@ == seq![']']);
    assert(colon@ == seq![':']);
    let host_port = text::head_before(rest, &ends);
    match text::strip_prefix(host_port, "[") {
        Some(inner) => {
            if text::find_any(inner, &bracket).is_none() {
                return false;
            }
            let host = text::head_before(inner, &bracket);
            text::same(host, "::") || text::same(host, "0:0:0:0:0:0:0:0")
        },
        None => text::same(text::head_before(host_port, &colon), "0.0.0.0"),
    }
}

/// A setting that names a runtime's host, if it is there and is not just white space.
pub open spec fn setting_given(value: Option<Seq<char>>) -> bool {
    value matches Some(v) && text::trim(v).len() > 0
}

/// Whether a host setting is there and is not just white space.
pub fn host_is_set(value: Option<&str>) -> (r: bool)
    ensures
        r == setting_given(text::opt_str(value)),
{
    match value {
        Some(v) => text::trimmed(v).unicode_len() > 0,
        None => false,
    }
}

/// `base` without the slashes at its end, followed by `path`.
pub open spec fn address_at(base: Seq<char>, path: Seq<char>) -> Seq<char> {
    text::trim_end_char(base, '/') + path
}

/// The address of `path` at a base address.
pub fn url_at(base: &str, path: &str) -> (r: String)
    ensures
        r@ == address_at(base@, path@),
{
    let mut out = text::trimmed_end_char(base, '/').to_string();
    out.append(path);
    out
}

/// The address of the model list of a server with OpenAI's interface.
pub fn openai_models_url(base_url: &str) -> (r: String)
    ensures
        r@ == address_at(base_url@, "/v1/models"@),
{
    url_at(base_url, "/v1/models")
}

/// A host without a scheme is reached by `http`, one with `http` or `https` as it is, and one
/// with another scheme or without any name not at all.
pub proof fn law_hosts_are_reached_by_http(host: Seq<char>)
    requires
        host.len() > 0,
        !text::is_white_space(host[0]),
        !text::is_white_space(host.last()),
    ensures
        !text::occurs(host, "://"@) ==> host_address(host) == Some("http://"@ + host),
        host_address("http://"@ + host) == Some("http://"@ + host),
        host_address("https://"@ + host) == Some("https://"@ + host),
        host_address("ftp://"@ + host) is None,
        host_address(Seq::empty()) is None,
        host_address(host) == host_address(seq![' '] + host + seq!['\n']),
{
    reveal_strlit("http://");
    reveal_strlit("https://");
    reveal_strlit("ftp://");
    reveal_strlit("://");
    let a = "http://"@ + host;
    let b = "https://"@ + host;
    let c = "ftp://"@ + host;
    assert(text::trim(host) == host);
    assert(a[0] == 'h' && a.last() == host.last());
    assert(b[0] == 'h' && b.last() == host.last());
    assert(c[0] == 'f' && c.last() == host.last());
    assert(text::trim(a) == a && text::trim(b) == b && text::trim(c) == c);
    assert(a.subrange(0, 7) =~= "http://"@);
    assert(b.subrange(0, 8) =~= "https://"@);
    assert(c.subrange(3, 6) =~= "://"@);
    assert(text::occurs_at(c, "://"@, 3));
    if "http://"@.is_prefix_of(c) {
        assert(c.subrange(0, 7)[0] == 'f');
    }
    if "https://"@.is_prefix_of(c) {
        assert(c.subrange(0, 8)[0] == 'f');
    }
    if "http://"@.is_prefix_of(host) {
        assert(host.subrange(0, 7) =~= "http://"@);
        assert(host.subrange(4, 7) =~= host.subrange(0, 7).subrange(4, 7));
        assert(host.subrange(4, 7) =~= "://"@);
        assert(text::occurs_at(host, "://"@, 4));
    }
    if "https://"@.is_prefix_of(host) {
        assert(host.subrange(0, 8) =~= "https://"@);
        assert(host.subrange(5, 8) =~= host.subrange(0, 8).subrange(5, 8));
        assert(host.subrange(5, 8) =~= "://"@);
        assert(text::occurs_at(host, "://"@, 5));
    }
    let d = seq![' '] + host + seq!['\n'];
    let e = host + seq!['\n'];
    assert(d[0] == ' ' && d.skip(1) =~= e);
    assert(text::trim_start(d) == text::trim_start(e));
    assert(e[0] == host[0]);
    assert(text::trim_start(e) == e);
    assert(e.last() == '\n' && e.drop_last() =~= host);
    assert(text::trim_end(e) == text::trim_end(host));
}

/// The address of every interface is told with a scheme or without one, with a port and a path
/// or without them.
pub proof fn law_wildcards_are_told(host: Seq<char>, port: Seq<char>)
    requires
        !host.contains('/') && !host.contains('?') && !host.contains('#') && !host.contains(':')
            && !host.contains('['),
        !port.contains('/') && !port.contains('?') && !port.contains('#'),
    ensures
        wildcard_address("http://"@ + host + seq![':'] + port) <==> host == "0.0.0.0"@,
        wildcard_address("https://"@ + host + seq![':'] + port) <==> host == "0.0.0.0"@,
{
    reveal_strlit("http://");
    reveal_strlit("https://");
    reveal_strlit("[");
    let rest = host + seq![':'] + port;
    let a = "http://"@ + host + seq![':'] + port;
    let b = "https://"@ + host + seq![':'] + port;
    assert(a.subrange(0, 7) =~= "http://"@);
    assert("http://"@.is_prefix_of(a));
    assert(a.skip(7) =~= rest);
    assert(after_scheme(a) == rest);
    assert(b.subrange(0, 8) =~= "https://"@);
    assert("https://"@.is_prefix_of(b));
    assert(!"http://"@.is_prefix_of(b)) by {
        if "http://"@.is_prefix_of(b) {
            assert(b.subrange(0, 7)[4] == 's');
            assert("http://"@[4] == ':');
        }
    }
    assert(b.skip(8) =~= rest);
    assert(after_scheme(b) == rest);
    let ends = seq!['/', '?', '#'];
    assert forall|k: int| 0 <= k < rest.len() implies !ends.contains(#[trigger] rest[k]) by {
        if k < host.len() {
            assert(host.contains(host[k]));
            assert(rest[k] == host[k]);
        } else if k > host.len() {
            assert(port.contains(port[k - host.len() - 1]));
            assert(rest[k] == port[k - host.len() - 1]);
        }
    }
    lemma_none_found(rest, ends, 0);
    assert(text::before_first(rest, ends) == rest);
    assert(!"["@.is_prefix_of(rest)) by {
        if "["@.is_prefix_of(rest) {
            assert(rest.subrange(0, 1)[0] == rest[0]);
            assert(rest[0] == '[');
            if host.len() > 0 {
                assert(host.contains(host[0]));
            }
        }
    }
    text::law_cutting(rest, ':');
    let head = text::before_first(rest, seq![':']);
    assert(rest[host.len() as int] == ':');
    assert(rest.contains(':'));
    let tail = text::after_first(rest, seq![':'])->0;
    assert(rest[head.len() as int] == (head + seq![':'] + tail)[head.len() as int]);
    if head.len() < host.len() {
        assert(host.contains(host[head.len() as int]));
    }
    if head.len() > host.len() {
        assert(head[host.len() as int] == rest[host.len() as int]);
        assert(head.contains(':'));
    }
    assert forall|k: int| 0 <= k < host.len() implies #[trigger] head[k] == host[k] by {
        assert((head + seq![':'] + tail)[k] == rest[k]);
    }
    assert(head =~= host);
}

proof fn lemma_none_found(s: Seq<char>, set: Seq<char>, i: int)
    requires
        0 <= i,
        forall|k: int| i <= k < s.len() ==> !set.contains(#[trigger] s[k]),
    ensures
        text::find_any_from(s, set, i) is None,
    decreases s.len() - i,
{
    if i < s.len() {
        lemma_none_found(s, set, i + 1);
    }
}

/// An address has its path behind exactly one slash, however many stand at the end of the base.
pub proof fn law_paths_stand_behind_one_slash(base: Seq<char>, path: Seq<char>)
    requires
        base.len() > 0,
        base.last() != '/',
    ensures
        address_at(base, path) == base + path,
        address_at(base.push('/'), path) == base + path,
        setting_given(Some(base)) ==> host_address(base) is Some || text::occurs(
            text::trim(base),
            "://"@,
        ),
        !setting_given(None),
{
    text::law_ends_are_taken_off(base, '/');
}

} // verus!
