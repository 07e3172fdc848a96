//! The settings of the panel.
use vstd::prelude::*;
use crate::memory::MemorySettings;
use crate::outside;
use crate::servers;
use crate::state;
use crate::state::{LlamaCppChannel, ServerDef};
use crate::text;

verus! {

// ---------------------------------------------------------------------------
// Records
// ---------------------------------------------------------------------------

/// The settings of the servers and of the gateway.
#[derive(Clone, Debug)]
pub struct AdvancedSettings {
    pub host: String,
    pub gateway_enabled: bool,
    pub gateway_port: u16,
    pub api_key: Option<String>,
    pub log_level: String,
    pub kv_cache_dtype: String,
    pub extra_vllm_args: Option<String>,
    pub custom_env_vars: Option<String>,
    pub hf_home: Option<String>,
    pub hf_offline: bool,
}

/// What the settings of the servers say.
#[verifier::ext_equal]
pub struct AdvancedTexts {
    pub host: Seq<char>,
    pub gateway_enabled: bool,
    pub gateway_port: u16,
    pub api_key: Option<Seq<char>>,
    pub log_level: Seq<char>,
    pub kv_cache_dtype: Seq<char>,
    pub extra_vllm_args: Option<Seq<char>>,
    pub custom_env_vars: Option<Seq<char>>,
    pub hf_home: Option<Seq<char>>,
    pub hf_offline: bool,
}

impl View for AdvancedSettings {
    type V = AdvancedTexts;

    open spec fn view(&self) -> AdvancedTexts {
        AdvancedTexts {
            host: self.host@,
            gateway_enabled: self.gateway_enabled,
            gateway_port: self.gateway_port,
            api_key: text::opt_text(self.api_key),
            log_level: self.log_level@,
            kv_cache_dtype: self.kv_cache_dtype@,
            extra_vllm_args: text::opt_text(self.extra_vllm_args),
            custom_env_vars: text::opt_text(self.custom_env_vars),
            hf_home: text::opt_text(self.hf_home),
            hf_offline: self.hf_offline,
        }
    }
}

/// An installed llama.cpp.
#[derive(Clone, Debug)]
pub struct LlamaCppInstall {
    pub dir: String,
    pub executable: Option<String>,
    pub version: Option<String>,
    pub help: Option<String>,
    pub installed_tag: Option<String>,
}

/// What is known of an installed llama.cpp.
#[verifier::ext_equal]
pub struct InstallTexts {
    pub dir: Seq<char>,
    pub executable: Option<Seq<char>>,
    pub version: Option<Seq<char>>,
    pub help: Option<Seq<char>>,
    pub installed_tag: Option<Seq<char>>,
}

impl View for LlamaCppInstall {
    type V = InstallTexts;

    open spec fn view(&self) -> InstallTexts {
        InstallTexts {
            dir: self.dir@,
            executable: text::opt_text(self.executable),
            version: text::opt_text(self.version),
            help: text::opt_text(self.help),
            installed_tag: text::opt_text(self.installed_tag),
        }
    }
}

/// The builds of llama.cpp that come through a channel.
#[derive(Clone, Debug)]
pub struct ChannelInstall {
    pub channel: LlamaCppChannel,
    pub install: LlamaCppInstall,
}

impl View for ChannelInstall {
    type V = (Option<Seq<char>>, InstallTexts);

    open spec fn view(&self) -> (Option<Seq<char>>, InstallTexts) {
        (self.channel.label(), self.install@)
    }
}

/// What is known of the channels.
pub open spec fn channel_views(channels: Seq<ChannelInstall>) -> Seq<
    (Option<Seq<char>>, InstallTexts),
> {
    Seq::new(channels.len(), |i: int| channels[i]@)
}

/// The place of the first channel from number `i` on with the label.
pub open spec fn channel_from(
    channels: Seq<(Option<Seq<char>>, InstallTexts)>,
    label: Option<Seq<char>>,
    i: int,
) -> Option<int>
    decreases channels.len() - i,
{
    if i < 0 || i >= channels.len() {
        None
    } else if channels[i].0 == label {
        Some(i)
    } else {
        channel_from(channels, label, i + 1)
    }
}

/// The place of a channel.
pub fn find_channel(channels: &Vec<ChannelInstall>, channel: &LlamaCppChannel) -> (r: Option<usize>)
    ensures
        match r {
            Some(k) => k < channels@.len() && channel_from(
                channel_views(channels@),
                channel.label(),
                0,
            ) == Some(k as int),
            None => channel_from(channel_views(channels@), channel.label(), 0) is None,
        },
{
    let ghost vs = channel_views(channels@);
    for i in 0..channels.len()
        invariant
            vs == channel_views(channels@),
            channel_from(vs, channel.label(), 0) == channel_from(vs, channel.label(), i as int),
    {
        assert(vs[i as int] == channels@[i as int]@);
        if channels[i].channel.same(channel) {
            return Some(i);
        }
    }
    None
}

/// The settings of the panel.
#[derive(Clone, Debug)]
pub struct PanelSettings {
    pub distro: String,
    pub llm_dir: String,
    pub venv_dir: String,
    pub gguf_dir: String,
    pub llamacpp: LlamaCppInstall,
    /// The channels of llama.cpp, each once.
    pub llamacpp_channels: Vec<ChannelInstall>,
    pub hf_token: String,
    pub github_token: String,
    pub default_quant: String,
    pub advanced_settings: AdvancedSettings,
    pub minimize_to_tray: bool,
    pub auto_restart_crashed: bool,
    pub launch_at_login: bool,
}

/// What the settings of the panel say.
#[verifier::ext_equal]
pub struct SettingsTexts {
    pub distro: Seq<char>,
    pub llm_dir: Seq<char>,
    pub venv_dir: Seq<char>,
    pub gguf_dir: Seq<char>,
    pub llamacpp: InstallTexts,
    pub llamacpp_channels: Seq<(Option<Seq<char>>, InstallTexts)>,
    pub hf_token: Seq<char>,
    pub github_token: Seq<char>,
    pub default_quant: Seq<char>,
    pub advanced_settings: AdvancedTexts,
    pub minimize_to_tray: bool,
    pub auto_restart_crashed: bool,
    pub launch_at_login: bool,
}

impl View for PanelSettings {
    type V = SettingsTexts;

    open spec fn view(&self) -> SettingsTexts {
        SettingsTexts {
            distro: self.distro@,
            llm_dir: self.llm_dir@,
            venv_dir: self.venv_dir@,
            gguf_dir: self.gguf_dir@,
            llamacpp: self.llamacpp@,
            llamacpp_channels: channel_views(self.llamacpp_channels@),
            hf_token: self.hf_token@,
            github_token: self.github_token@,
            default_quant: self.default_quant@,
            advanced_settings: self.advanced_settings@,
            minimize_to_tray: self.minimize_to_tray,
            auto_restart_crashed: self.auto_restart_crashed,
            launch_at_login: self.launch_at_login,
        }
    }
}

/// Changes to the settings; what is left out stays.
#[derive(Debug)]
pub struct SettingsPatch {
    pub distro: Option<String>,
    pub llm_dir: Option<String>,
    pub venv_dir: Option<String>,
    pub llamacpp_dir: Option<String>,
    pub gguf_dir: Option<String>,
    pub llamacpp_executable: Option<String>,
    /// The new channels; where the upstream builds are among them, they are what is used.
    pub llamacpp_channels: Option<Vec<ChannelInstall>>,
    pub hf_token: Option<String>,
    pub github_token: Option<String>,
    pub clear_hf_token: Option<bool>,
    pub clear_github_token: Option<bool>,
    pub default_quant: Option<String>,
    pub advanced_settings: Option<AdvancedSettings>,
    pub clear_advanced_api_key: Option<bool>,
    pub clear_custom_env_vars: Option<bool>,
    pub minimize_to_tray: Option<bool>,
    pub auto_restart_crashed: Option<bool>,
    pub launch_at_login: Option<bool>,
}

/// Which secrets there are; they themselves are not shown.
#[derive(Clone, Copy, Debug, PartialEq, Eq, Structural)]
pub struct PublicSettings {
    pub hf_token_configured: bool,
    pub github_token_configured: bool,
    pub api_key_configured: bool,
}

/// Which secrets there are.
pub fn public_settings(s: &PanelSettings) -> (r: PublicSettings)
    ensures
        r.hf_token_configured == (text::trim(s.hf_token@).len() > 0),
        r.github_token_configured == (text::trim(s.github_token@).len() > 0),
        r.api_key_configured == (state::set_text(text::opt_text(s.advanced_settings.api_key)) is Some),
{
    let api_key: Option<&str> = match &s.advanced_settings.api_key {
        Some(k) => Some(k.as_str()),
        None => None,
    };
    PublicSettings {
        hf_token_configured: text::trimmed(&s.hf_token).unicode_len() > 0,
        github_token_configured: text::trimmed(&s.github_token).unicode_len() > 0,
        api_key_configured: state::set_value(api_key).is_some(),
    }
}

// ---------------------------------------------------------------------------
// Checks
// ---------------------------------------------------------------------------

/// A letter or a digit of ASCII.
pub open spec fn is_alphanumeric(c: char) -> bool {
    text::is_digit(c) || text::is_ascii_alpha(c)
}

fn alphanumeric(c: char) -> (r: bool)
    ensures
        r == is_alphanumeric(c),
{
    ('0' <= c && c <= '9') || ('a' <= c && c <= 'z') || ('A' <= c && c <= 'Z')
}

/// A plain address or name of a machine.
pub open spec fn plain_host(host: Seq<char>) -> bool {
    host.len() > 0 && forall|i: int|
        0 <= i < host.len() ==> is_alphanumeric(#[trigger] host[i]) || host[i] == '.' || host[i]
            == ':' || host[i] == '-'
}

/// An address that only this machine can reach.
pub open spec fn loopback(host: Seq<char>) -> bool {
    host == "127.0.0.1"@ || host == "localhost"@ || host == "::1"@
}

/// The name of a type.
pub open spec fn plain_dtype(s: Seq<char>) -> bool {
    forall|i: int|
        0 <= i < s.len() ==> is_alphanumeric(#[trigger] s[i]) || s[i] == '_' || s[i] == '-'
}

fn host_is_plain(host: &str) -> (r: bool)
    ensures
        r == plain_host(host@),
{
    let cs = text::chars_of(host);
    if cs.len() == 0 {
        return false;
    }
    for i in 0..cs.len()
        invariant
            cs@ == host@,
            forall|j: int|
                0 <= j < i ==> is_alphanumeric(#[trigger] host@[j]) || host@[j] == '.' || host@[j]
                    == ':' || host@[j] == '-',
    {
        let c = cs[i];
        if !(alphanumeric(c) || c == '.' || c == ':' || c == '-') {
            assert(!is_alphanumeric(host@[i as int]));
            return false;
        }
    }
    true
}

fn dtype_is_plain(s: &str) -> (r: bool)
    ensures
        r == plain_dtype(s@),
{
    let cs = text::chars_of(s);
    for i in 0..cs.len()
        invariant
            cs@ == s@,
            forall|j: int|
                0 <= j < i ==> is_alphanumeric(#[trigger] s@[j]) || s@[j] == '_' || s@[j] == '-',
    {
        let c = cs[i];
        if !(alphanumeric(c) || c == '_' || c == '-') {
            assert(!is_alphanumeric(s@[i as int]));
            return false;
        }
    }
    true
}

/// The names of the variables that the lines from number `i` on set, up to the first line
/// that sets none, and whether there is such a line. Blank lines and those that begin with
/// `#` do not count.
pub open spec fn env_names_from(lines: Seq<Seq<char>>, i: int) -> (Seq<Seq<char>>, bool)
    decreases lines.len() - i,
{
    if i < 0 || i >= lines.len() {
        (Seq::empty(), false)
    } else {
        let line = text::trim(lines[i]);
        if line.len() == 0 || "#"@.is_prefix_of(line) {
            env_names_from(lines, i + 1)
        } else if text::after_first(line, seq!['=']) is None {
            (Seq::empty(), true)
        } else {
            let (names, bad) = env_names_from(lines, i + 1);
            (seq![text::trim(text::before_first(line, seq!['=']))] + names, bad)
        }
    }
}

/// The names of the variables that a text sets, line by line, up to the first line that sets
/// none, and whether there is such a line.
pub fn custom_env_names(custom: &str) -> (r: (Vec<String>, bool))
    ensures
        (text::texts(r.0@), r.1) == env_names_from(text::lines(custom@), 0),
{
    let lines = text::split_lines(custom);
    let ghost all = text::texts(lines@);
    let equals = ['='];
    assert(equals@ == seq!['=']);
    let mut names: Vec<String> = Vec::new();
    let mut i: usize = 0;
    assert(text::texts(names@) + env_names_from(all, 0).0 =~= env_names_from(all, 0).0);
    while i < lines.len()
        invariant
            i <= lines@.len(),
            equals@ == seq!['='],
            all == text::texts(lines@),
            all == text::lines(custom@),
            env_names_from(all, 0).0 == text::texts(names@) + env_names_from(all, i as int).0,
            env_names_from(all, 0).1 == env_names_from(all, i as int).1,
        decreases lines@.len() - i,
    {
        assert(all[i as int] == lines@[i as int]@);
        let line = text::trimmed(&lines[i]);
        if line.unicode_len() > 0 && !text::starts_with(line, "#") {
            if text::rest_after(line, &equals).is_none() {
                assert(text::texts(names@) + Seq::<Seq<char>>::empty() =~= text::texts(names@));
                return (names, true);
            }
            let ghost before = text::texts(names@);
            let name = text::trimmed(text::head_before(line, &equals));
            names.push(name.to_string());
            proof {
                let rest = env_names_from(all, i + 1).0;
                assert(text::texts(names@) =~= before.push(name@));
                assert(before + (seq![name@] + rest) =~= before.push(name@) + rest);
            }
        }
        i += 1;
    }
    assert(text::texts(names@) + Seq::<Seq<char>>::empty() =~= text::texts(names@));
    (names, false)
}

/// Why the settings of the servers are refused: the first of what is wrong with them.
/// `name_error` tells why a name of a variable is refused.
pub open spec fn advanced_error(a: AdvancedTexts, name_error: Option<Seq<char>>) -> Option<
    Seq<char>,
> {
    let host = text::trim(a.host);
    let dtype = text::trim(a.kv_cache_dtype);
    if !plain_host(host) {
        Some("host must be a plain IP address or hostname"@)
    } else if a.gateway_port < 1024 {
        Some("gateway_port must be at least 1024"@)
    } else if !loopback(host) && state::set_text(a.api_key) is None {
        Some("an API key is required before binding vLLM to a non-loopback host"@)
    } else if !(a.log_level == "INFO"@ || a.log_level == "DEBUG"@ || a.log_level == "WARNING"@
        || a.log_level == "ERROR"@) {
        Some("log_level must be INFO, DEBUG, WARNING, or ERROR"@)
    } else if !plain_dtype(dtype) {
        Some("kv_cache_dtype contains unsupported characters"@)
    } else if a.extra_vllm_args matches Some(extra) && outside::shlex_words(extra) is None {
        Some("extra_vllm_args has invalid shell quoting"@)
    } else {
        match a.custom_env_vars {
            Some(custom) => match name_error {
                Some(e) => Some(e),
                None => if env_names_from(text::lines(custom), 0).1 {
                    Some("custom_env_vars must use KEY=VALUE lines"@)
                } else {
                    None
                },
            },
            None => None,
        }
    }
}

/// Refuses settings of the servers that are not right. `name_error` tells why the first bad
/// name among those that the custom variables set is refused.
pub fn validate_advanced_settings(a: &AdvancedSettings, name_error: Option<String>) -> (r: Result<
    (),
    String,
>)
    ensures
        servers::error_of(r) == advanced_error(a@, text::opt_text(name_error)),
{
    let host = text::trimmed(&a.host);
    if !host_is_plain(host) {
        return Err("host must be a plain IP address or hostname".to_string());
    }
    if a.gateway_port < 1024 {
        return Err("gateway_port must be at least 1024".to_string());
    }
    let own = text::same(host, "127.0.0.1") || text::same(host, "localhost") || text::same(
        host,
        "::1",
    );
    let api_key: Option<&str> = match &a.api_key {
        Some(k) => Some(k.as_str()),
        None => None,
    };
    if !own && state::set_value(api_key).is_none() {
        return Err(
            "an API key is required before binding vLLM to a non-loopback host".to_string(),
        );
    }
    if !(text::same(&a.log_level, "INFO") || text::same(&a.log_level, "DEBUG") || text::same(
        &a.log_level,
        "WARNING",
    ) || text::same(&a.log_level, "ERROR")) {
        return Err("log_level must be INFO, DEBUG, WARNING, or ERROR".to_string());
    }
    if !dtype_is_plain(text::trimmed(&a.kv_cache_dtype)) {
        return Err("kv_cache_dtype contains unsupported characters".to_string());
    }
    if let Some(extra) = &a.extra_vllm_args {
        if outside::shlex_split(extra).is_none() {
            return Err("extra_vllm_args has invalid shell quoting".to_string());
        }
    }
    if let Some(custom) = &a.custom_env_vars {
        if let Some(e) = name_error {
            return Err(e);
        }
        if custom_env_names(custom).1 {
            return Err("custom_env_vars must use KEY=VALUE lines".to_string());
        }
    }
    Ok(())
}

/// Settings that pass never let others reach the servers without a key.
pub proof fn law_open_hosts_have_a_key(a: AdvancedTexts, name_error: Option<Seq<char>>)
    requires
        advanced_error(a, name_error) is None,
        !loopback(text::trim(a.host)),
    ensures
        a.api_key matches Some(k) && text::trim(k).len() > 0,
{
}

// ---------------------------------------------------------------------------
// Changing
// ---------------------------------------------------------------------------

/// The text that was given, without the white space at its ends; the old one where none was
/// given or it is blank.
pub open spec fn patched_text(old_text: Seq<char>, given: Option<Seq<char>>) -> Seq<char> {
    match given {
        Some(s) => if text::trim(s).len() > 0 {
            text::trim(s)
        } else {
            old_text
        },
        None => old_text,
    }
}

fn patch_text(old_text: String, given: Option<String>) -> (r: String)
    ensures
        r@ == patched_text(old_text@, text::opt_text(given)),
{
    match given {
        Some(s) => {
            let t = text::trimmed(&s);
            if t.unicode_len() > 0 {
                t.to_string()
            } else {
                old_text
            }
        },
        None => old_text,
    }
}

/// A token: cleared where that was asked for, kept where none or only what stands for it was
/// given, else the one that was given.
pub open spec fn patched_token(
    old_token: Seq<char>,
    given: Option<Seq<char>>,
    clear: Option<bool>,
    placeholder: Seq<char>,
) -> Seq<char> {
    if servers::or_flag(clear, false) {
        Seq::empty()
    } else {
        match given {
            Some(t) => if t != placeholder {
                text::trim(t)
            } else {
                old_token
            },
            None => old_token,
        }
    }
}

fn patch_token(
    old_token: String,
    given: Option<String>,
    clear: Option<bool>,
    placeholder: &str,
) -> (r: String)
    ensures
        r@ == patched_token(old_token@, text::opt_text(given), clear, placeholder@),
{
    let cleared = match clear {
        Some(b) => b,
        None => false,
    };
    if cleared {
        return String::new();
    }
    match given {
        Some(t) => if !text::same(&t, placeholder) {
            text::trimmed(&t).to_string()
        } else {
            old_token
        },
        None => old_token,
    }
}

/// The new settings of the servers: those that were given, with the key and the variables
/// that were not shown put back, and with those cleared that were asked to be.
pub open spec fn patched_advanced(
    a: AdvancedTexts,
    given: Option<AdvancedTexts>,
    clear_key: Option<bool>,
    clear_env: Option<bool>,
    placeholder: Seq<char>,
) -> AdvancedTexts {
    let n = match given {
        Some(g) => AdvancedTexts {
            api_key: if g.api_key is None || g.api_key == Some(placeholder) {
                a.api_key
            } else {
                g.api_key
            },
            custom_env_vars: if g.custom_env_vars is None {
                a.custom_env_vars
            } else {
                g.custom_env_vars
            },
            ..g
        },
        None => a,
    };
    AdvancedTexts {
        api_key: if servers::or_flag(clear_key, false) {
            None
        } else {
            n.api_key
        },
        custom_env_vars: if servers::or_flag(clear_env, false) {
            None
        } else {
            n.custom_env_vars
        },
        ..n
    }
}

fn patch_advanced(
    a: AdvancedSettings,
    given: Option<AdvancedSettings>,
    clear_key: Option<bool>,
    clear_env: Option<bool>,
    placeholder: &str,
) -> (r: AdvancedSettings)
    ensures
        r@ == patched_advanced(
            a@,
            match given {
                Some(g) => Some(g@),
                None => None,
            },
            clear_key,
            clear_env,
            placeholder@,
        ),
{
    let mut n: AdvancedSettings = match given {
        Some(g) => {
            let mut g = g;
            let restore = match &g.api_key {
                Some(k) => text::same(k, placeholder),
                None => true,
            };
            if restore {
                g.api_key = a.api_key;
            }
            if g.custom_env_vars.is_none() {
                g.custom_env_vars = a.custom_env_vars;
            }
            g
        },
        None => a,
    };
    if let Some(true) = clear_key {
        n.api_key = None;
    }
    if let Some(true) = clear_env {
        n.custom_env_vars = None;
    }
    n
}

/// The new llama.cpp: the directory and the program that were given; where the upstream
/// builds were given, they count.
pub open spec fn patched_llamacpp(
    l: InstallTexts,
    dir: Option<Seq<char>>,
    executable: Option<Seq<char>>,
    upstream: Option<InstallTexts>,
) -> InstallTexts {
    let n = InstallTexts {
        dir: patched_text(l.dir, dir),
        executable: match executable {
            Some(e) => state::set_text(Some(e)),
            None => l.executable,
        },
        ..l
    };
    match upstream {
        Some(u) => InstallTexts {
            dir: if text::trim(u.dir).len() > 0 {
                u.dir
            } else {
                n.dir
            },
            executable: u.executable,
            version: u.version,
            help: u.help,
            installed_tag: u.installed_tag,
        },
        None => n,
    }
}

fn patch_llamacpp(
    l: LlamaCppInstall,
    dir: Option<String>,
    executable: Option<String>,
    upstream: Option<LlamaCppInstall>,
) -> (r: LlamaCppInstall)
    ensures
        r@ == patched_llamacpp(
            l@,
            text::opt_text(dir),
            text::opt_text(executable),
            match upstream {
                Some(u) => Some(u@),
                None => None,
            },
        ),
{
    let mut n = l;
    let old_dir = n.dir;
    n.dir = patch_text(old_dir, dir);
    if let Some(e) = executable {
        n.executable = match state::set_value(Some(e.as_str())) {
            Some(t) => Some(t.to_string()),
            None => None,
        };
    }
    match upstream {
        Some(u) => {
            let mut u = u;
            if text::trimmed(&u.dir).unicode_len() == 0 {
                u.dir = n.dir;
            }
            u
        },
        None => n,
    }
}

/// What the changes say.
pub open spec fn opt_advanced(o: Option<AdvancedSettings>) -> Option<AdvancedTexts> {
    match o {
        Some(a) => Some(a@),
        None => None,
    }
}

/// The upstream builds among the new channels.
pub open spec fn new_upstream(o: Option<Vec<ChannelInstall>>) -> Option<InstallTexts> {
    match o {
        Some(list) => {
            let vs = channel_views(list@);
            match channel_from(vs, None, 0) {
                Some(k) => Some(vs[k].1),
                None => None,
            }
        },
        None => None,
    }
}

fn copied_text(o: &Option<String>) -> (r: Option<String>)
    ensures
        text::opt_text(r) == text::opt_text(*o),
{
    match o {
        Some(s) => Some(s.clone()),
        None => None,
    }
}

fn upstream_of(o: &Option<Vec<ChannelInstall>>) -> (r: Option<LlamaCppInstall>)
    ensures
        new_upstream(*o) == (match r {
            Some(u) => Some(u@),
            None => None,
        }),
{
    let Some(list) = o else {
        return None;
    };
    let Some(k) = find_channel(list, &LlamaCppChannel::Upstream) else {
        return None;
    };
    let i = &list[k].install;
    let out = LlamaCppInstall {
        dir: i.dir.clone(),
        executable: copied_text(&i.executable),
        version: copied_text(&i.version),
        help: copied_text(&i.help),
        installed_tag: copied_text(&i.installed_tag),
    };
    assert(channel_views(list@)[k as int].1 == i@);
    assert(out@ =~= i@);
    Some(out)
}

/// The settings after the changes.
pub open spec fn patched(
    s: SettingsTexts,
    p: SettingsPatch,
    placeholder: Seq<char>,
) -> SettingsTexts {
    SettingsTexts {
        distro: patched_text(s.distro, text::opt_text(p.distro)),
        llm_dir: patched_text(s.llm_dir, text::opt_text(p.llm_dir)),
        venv_dir: patched_text(s.venv_dir, text::opt_text(p.venv_dir)),
        gguf_dir: patched_text(s.gguf_dir, text::opt_text(p.gguf_dir)),
        llamacpp: patched_llamacpp(
            s.llamacpp,
            text::opt_text(p.llamacpp_dir),
            text::opt_text(p.llamacpp_executable),
            new_upstream(p.llamacpp_channels),
        ),
        llamacpp_channels: match p.llamacpp_channels {
            Some(list) => channel_views(list@),
            None => s.llamacpp_channels,
        },
        hf_token: patched_token(
            s.hf_token,
            text::opt_text(p.hf_token),
            p.clear_hf_token,
            placeholder,
        ),
        github_token: patched_token(
            s.github_token,
            text::opt_text(p.github_token),
            p.clear_github_token,
            placeholder,
        ),
        default_quant: servers::or_text(text::opt_text(p.default_quant), s.default_quant),
        advanced_settings: patched_advanced(
            s.advanced_settings,
            opt_advanced(p.advanced_settings),
            p.clear_advanced_api_key,
            p.clear_custom_env_vars,
            placeholder,
        ),
        minimize_to_tray: servers::or_flag(p.minimize_to_tray, s.minimize_to_tray),
        auto_restart_crashed: servers::or_flag(p.auto_restart_crashed, s.auto_restart_crashed),
        launch_at_login: servers::or_flag(p.launch_at_login, s.launch_at_login),
    }
}

/// Why the changes are refused: the virtual environment that was given is not right, as
/// `venv_error` tells, or the settings of the servers would not be.
pub open spec fn patch_error(
    s: SettingsTexts,
    p: SettingsPatch,
    placeholder: Seq<char>,
    venv_error: Option<Seq<char>>,
    name_error: Option<Seq<char>>,
) -> Option<Seq<char>> {
    if (p.venv_dir matches Some(v) && text::trim(v@).len() > 0) && venv_error is Some {
        venv_error
    } else {
        advanced_error(patched(s, p, placeholder).advanced_settings, name_error)
    }
}

/// The settings after the changes, or why they are refused; refused changes change nothing.
pub fn settings_set(
    s: PanelSettings,
    p: SettingsPatch,
    placeholder: &str,
    venv_error: Option<String>,
    name_error: Option<String>,
) -> (r: Result<PanelSettings, String>)
    ensures
        servers::error_of(r) == patch_error(
            s@,
            p,
            placeholder@,
            text::opt_text(venv_error),
            text::opt_text(name_error),
        ),
        r matches Ok(n) ==> n@ == patched(s@, p, placeholder@),
{
    let names_venv = match &p.venv_dir {
        Some(v) => text::trimmed(v).unicode_len() > 0,
        None => false,
    };
    if names_venv {
        if let Some(e) = venv_error {
            return Err(e);
        }
    }
    let advanced_settings = patch_advanced(
        s.advanced_settings,
        p.advanced_settings,
        p.clear_advanced_api_key,
        p.clear_custom_env_vars,
        placeholder,
    );
    if let Err(e) = validate_advanced_settings(&advanced_settings, name_error) {
        return Err(e);
    }
    let upstream = upstream_of(&p.llamacpp_channels);
    Ok(
        PanelSettings {
            distro: patch_text(s.distro, p.distro),
            llm_dir: patch_text(s.llm_dir, p.llm_dir),
            venv_dir: patch_text(s.venv_dir, p.venv_dir),
            gguf_dir: patch_text(s.gguf_dir, p.gguf_dir),
            llamacpp: patch_llamacpp(
                s.llamacpp,
                p.llamacpp_dir,
                p.llamacpp_executable,
                upstream,
            ),
            llamacpp_channels: match p.llamacpp_channels {
                Some(list) => list,
                None => s.llamacpp_channels,
            },
            hf_token: patch_token(s.hf_token, p.hf_token, p.clear_hf_token, placeholder),
            github_token: patch_token(
                s.github_token,
                p.github_token,
                p.clear_github_token,
                placeholder,
            ),
            default_quant: match p.default_quant {
                Some(q) => q,
                None => s.default_quant,
            },
            advanced_settings,
            minimize_to_tray: match p.minimize_to_tray {
                Some(b) => b,
                None => s.minimize_to_tray,
            },
            auto_restart_crashed: match p.auto_restart_crashed {
                Some(b) => b,
                None => s.auto_restart_crashed,
            },
            launch_at_login: match p.launch_at_login {
                Some(b) => b,
                None => s.launch_at_login,
            },
        },
    )
}

/// The settings without the token for GitHub.
pub fn clear_github_token(s: PanelSettings) -> (r: PanelSettings)
    ensures
        r@ == (SettingsTexts { github_token: Seq::empty(), ..s@ }),
{
    let mut n = s;
    n.github_token = String::new();
    assert(n.github_token@ =~= Seq::empty());
    n
}

/// Changes that are saved with the secrets as they were shown leave the secrets as they are.
pub proof fn law_shown_secrets_are_kept(s: SettingsTexts, p: SettingsPatch, placeholder: Seq<char>)
    requires
        text::opt_text(p.hf_token) == Some(placeholder),
        !servers::or_flag(p.clear_hf_token, false),
        text::opt_text(p.github_token) == Some(placeholder),
        !servers::or_flag(p.clear_github_token, false),
        p.advanced_settings matches Some(a) && text::opt_text(a.api_key) == Some(placeholder),
        !servers::or_flag(p.clear_advanced_api_key, false),
    ensures
        patched(s, p, placeholder).hf_token == s.hf_token,
        patched(s, p, placeholder).github_token == s.github_token,
        patched(s, p, placeholder).advanced_settings.api_key == s.advanced_settings.api_key,
{
}

/// What is asked to be cleared is cleared, whatever else was given.
pub proof fn law_clearing_clears(s: SettingsTexts, p: SettingsPatch, placeholder: Seq<char>)
    ensures
        servers::or_flag(p.clear_hf_token, false) ==> patched(s, p, placeholder).hf_token.len() == 0,
        servers::or_flag(p.clear_github_token, false) ==> patched(
            s,
            p,
            placeholder,
        ).github_token.len() == 0,
        servers::or_flag(p.clear_advanced_api_key, false) ==> patched(
            s,
            p,
            placeholder,
        ).advanced_settings.api_key is None,
        servers::or_flag(p.clear_custom_env_vars, false) ==> patched(
            s,
            p,
            placeholder,
        ).advanced_settings.custom_env_vars is None,
{
}

// ---------------------------------------------------------------------------
// Importing
// ---------------------------------------------------------------------------

pub const EXPORT_SCHEMA: &'static str = "local-llm-panel/config-export/";

pub const RECIPE_SCHEMA: &'static str = "local-llm-panel/server-recipe/";

/// Refuses an exported configuration of another form.
pub fn check_export_schema(schema: &str) -> (r: Result<(), String>)
    ensures
        servers::error_of(r) == (if EXPORT_SCHEMA@.is_prefix_of(schema@) {
            None
        } else {
            Some("Unsupported configuration schema: "@ + schema@)
        }),
{
    if text::starts_with(schema, EXPORT_SCHEMA) {
        return Ok(());
    }
    let mut e = "Unsupported configuration schema: ".to_string();
    e.append(schema);
    Err(e)
}

/// The imported settings of the servers: the key and the variables stay those of this
/// machine.
pub fn import_advanced(own: AdvancedSettings, imported: AdvancedSettings) -> (r: AdvancedSettings)
    ensures
        r@ == (AdvancedTexts {
            api_key: own@.api_key,
            custom_env_vars: own@.custom_env_vars,
            ..imported@
        }),
{
    let mut n = imported;
    n.api_key = own.api_key;
    n.custom_env_vars = own.custom_env_vars;
    n
}

/// The imported server `r`: it does not count as running. The environment gets the secrets back
/// that were left out; from an export with secrets, only those of this machine count.
pub open spec fn is_imported(
    r: ServerDef,
    server: ServerDef,
    previous: Option<ServerDef>,
    secrets_omitted: bool,
    placeholder: Seq<char>,
) -> bool {
    let own_key = match previous {
        Some(p) => text::opt_text(p.api_key),
        None => None,
    };
    let shown = text::opt_text(server.api_key) == Some(placeholder);
    &&& r == (ServerDef { was_running: false, api_key: r.api_key, env: r.env, ..server })
    &&& text::opt_text(r.api_key) == (if !secrets_omitted || (shown && previous is Some) {
        own_key
    } else {
        text::opt_text(server.api_key)
    })
    &&& r.env.listing() == (if secrets_omitted {
        match previous {
            Some(p) => crate::text_map::restored_pairs(server.env.listing(), p.env@, placeholder),
            None => server.env.listing(),
        }
    } else {
        match previous {
            Some(p) => p.env.listing(),
            None => Seq::empty(),
        }
    })
}

/// The imported server with the secrets of this machine; `previous` is what it is here.
pub fn import_server(
    server: ServerDef,
    previous: Option<&ServerDef>,
    secrets_omitted: bool,
    placeholder: &str,
) -> (r: ServerDef)
    ensures
        is_imported(
            r,
            server,
            match previous {
                Some(p) => Some(*p),
                None => None,
            },
            secrets_omitted,
            placeholder@,
        ),
{
    let mut n = server;
    n.was_running = false;
    if secrets_omitted {
        if let Some(p) = previous {
            let shown = match &n.api_key {
                Some(k) => text::same(k, placeholder),
                None => false,
            };
            if shown {
                n.api_key = match &p.api_key {
                    Some(k) => Some(k.clone()),
                    None => None,
                };
            }
            let env = n.env.restored(&p.env, placeholder);
            n.env = env;
        }
    } else {
        n.api_key = match previous {
            Some(p) => match &p.api_key {
                Some(k) => Some(k.clone()),
                None => None,
            },
            None => None,
        };
        n.env = match previous {
            Some(p) => p.env.clone(),
            None => crate::text_map::TextMap::new(),
        };
    }
    n
}

/// The server of this machine with the id.
pub open spec fn own_server(own: Seq<ServerDef>, id: Seq<char>) -> Option<ServerDef> {
    match servers::place_from(own, id, 0) {
        Some(k) => Some(own[k]),
        None => None,
    }
}

/// The servers of an export, each with the secrets of the server of this machine that has its
/// id.
pub fn prepare_servers(
    list: Vec<ServerDef>,
    own: &Vec<ServerDef>,
    secrets_omitted: bool,
    placeholder: &str,
) -> (r: Vec<ServerDef>)
    ensures
        r@.len() == list@.len(),
        forall|i: int|
            0 <= i < list@.len() ==> is_imported(
                #[trigger] r@[i],
                list@[i],
                own_server(own@, list@[i].id@),
                secrets_omitted,
                placeholder@,
            ),
{
    let ghost all = list@;
    let mut rest = list;
    let mut out: Vec<ServerDef> = Vec::new();
    assert(all.skip(0) =~= all);
    while rest.len() > 0
        invariant
            all == list@,
            out@.len() <= all.len(),
            rest@ == all.skip(out@.len() as int),
            forall|i: int|
                0 <= i < out@.len() ==> is_imported(
                    #[trigger] out@[i],
                    all[i],
                    own_server(own@, all[i].id@),
                    secrets_omitted,
                    placeholder@,
                ),
        decreases rest@.len(),
    {
        let ghost n = out@.len() as int;
        let server = rest.remove(0);
        assert(all.skip(n)[0] == all[n]);
        assert(all.skip(n).remove(0) =~= all.skip(n + 1));
        let previous: Option<&ServerDef> = match servers::find_server(own, &server.id) {
            Some(k) => Some(&own[k]),
            None => None,
        };
        out.push(import_server(server, previous, secrets_omitted, placeholder));
    }
    out
}

/// Why an imported server is refused: another that was imported has its id or its port.
pub open spec fn clash(servers: Seq<ServerDef>, id: Seq<char>, port: u16) -> Option<Seq<char>> {
    if exists|i: int| 0 <= i < servers.len() && (#[trigger] servers[i]).id@ == id {
        Some("configuration contains duplicate server id "@ + id)
    } else if exists|i: int| 0 <= i < servers.len() && (#[trigger] servers[i]).port == port {
        Some(
            "configuration contains duplicate server port "@ + crate::numeral::decimal(
                port as nat,
            ),
        )
    } else {
        None
    }
}

/// Adds an imported server to those that were imported, or tells why it is refused.
pub fn accept_imported_server(servers: &mut Vec<ServerDef>, server: ServerDef) -> (r: Result<
    (),
    String,
>)
    ensures
        servers::error_of(r) == clash(old(servers)@, server.id@, server.port),
        final(servers)@ == (if r is Ok {
            old(servers)@.push(server)
        } else {
            old(servers)@
        }),
{
    let n: usize = servers.len();
    for i in 0..n
        invariant
            n == servers@.len(),
            servers@ == old(servers)@,
            forall|j: int| 0 <= j < i ==> (#[trigger] servers@[j]).id@ != server.id@,
    {
        if servers[i].id == server.id {
            let mut e = "configuration contains duplicate server id ".to_string();
            e.append(&server.id);
            return Err(e);
        }
    }
    for i in 0..n
        invariant
            n == servers@.len(),
            servers@ == old(servers)@,
            forall|j: int| 0 <= j < n ==> (#[trigger] servers@[j]).id@ != server.id@,
            forall|j: int| 0 <= j < i ==> (#[trigger] servers@[j]).port != server.port,
    {
        if servers[i].port == server.port {
            let mut e = "configuration contains duplicate server port ".to_string();
            e.append(&crate::numeral::number_text(server.port as u64));
            return Err(e);
        }
    }
    servers.push(server);
    Ok(())
}

/// No two servers have the same id or the same port.
pub open spec fn servers_differ(servers: Seq<ServerDef>) -> bool {
    forall|i: int, j: int|
        0 <= i < j < servers.len() ==> (#[trigger] servers[i]).id@ != (#[trigger] servers[j]).id@
            && servers[i].port != servers[j].port
}

/// An imported server: the id that it was exported under, and the server with the secrets of
/// this machine and fit for what runs it, or why it is not.
#[derive(Debug)]
pub struct PreparedServer {
    pub id: String,
    pub outcome: Result<ServerDef, String>,
}

/// The imported servers, none of which counts as running, or why the first that is refused
/// is.
pub open spec fn imported_servers(list: Seq<PreparedServer>) -> Result<Seq<ServerDef>, Seq<char>>
    decreases list.len(),
{
    if list.len() == 0 {
        Ok(Seq::empty())
    } else {
        match imported_servers(list.drop_last()) {
            Err(e) => Err(e),
            Ok(before) => if !servers::good_server_id(list.last().id@) {
                Err("server id must be 1-128 printable characters"@)
            } else {
                match list.last().outcome {
                    Err(e) => Err(e@),
                    Ok(s) => match clash(before, s.id@, s.port) {
                        Some(e) => Err(e),
                        None => Ok(before.push(ServerDef { was_running: false, ..s })),
                    },
                }
            },
        }
    }
}

proof fn lemma_refusal_stays(list: Seq<PreparedServer>, n: int)
    requires
        0 <= n <= list.len(),
        imported_servers(list.take(n)) is Err,
    ensures
        imported_servers(list) == imported_servers(list.take(n)),
    decreases list.len(),
{
    if n < list.len() {
        assert(list.drop_last().take(n) =~= list.take(n));
        lemma_refusal_stays(list.drop_last(), n);
    } else {
        assert(list.take(n) =~= list);
    }
}

/// The imported servers, or why the first that is refused is.
pub fn import_servers(list: Vec<PreparedServer>) -> (r: Result<Vec<ServerDef>, String>)
    ensures
        match r {
            Ok(servers) => imported_servers(list@) == Ok::<Seq<ServerDef>, Seq<char>>(servers@),
            Err(e) => imported_servers(list@) == Err::<Seq<ServerDef>, Seq<char>>(e@),
        },
{
    let ghost all = list@;
    let mut rest = list;
    let mut out: Vec<ServerDef> = Vec::new();
    let ghost mut n: int = 0;
    assert(all.take(0) =~= Seq::empty());
    assert(out@ =~= Seq::empty());
    assert(all.skip(0) =~= all);
    while rest.len() > 0
        invariant
            all == list@,
            0 <= n <= all.len(),
            rest@ == all.skip(n),
            imported_servers(all.take(n)) == Ok::<Seq<ServerDef>, Seq<char>>(out@),
        decreases rest@.len(),
    {
        let p = rest.remove(0);
        proof {
            assert(all.skip(n)[0] == all[n]);
            assert(all.skip(n).remove(0) =~= all.skip(n + 1));
            assert(all.take(n + 1).drop_last() =~= all.take(n));
            assert(all.take(n + 1).last() == all[n]);
            n = n + 1;
            if imported_servers(all.take(n)) is Err {
                lemma_refusal_stays(all, n);
            }
        }
        if let Err(e) = servers::validate_server_id(&p.id) {
            return Err(e);
        }
        match p.outcome {
            Err(e) => {
                return Err(e);
            },
            Ok(s) => {
                let mut s = s;
                s.was_running = false;
                if let Err(e) = accept_imported_server(&mut out, s) {
                    return Err(e);
                }
            },
        }
    }
    assert(all.take(n) =~= all);
    Ok(out)
}

/// Imported servers never share an id or a port, and none counts as running.
pub proof fn law_imported_servers_differ(list: Seq<PreparedServer>)
    ensures
        imported_servers(list) matches Ok(servers) ==> servers_differ(servers) && servers.len()
            == list.len() && forall|i: int|
            0 <= i < servers.len() ==> !(#[trigger] servers[i]).was_running,
    decreases list.len(),
{
    if list.len() > 0 {
        law_imported_servers_differ(list.drop_last());
    }
}

/// The settings in an exported configuration.
#[derive(Clone, Debug)]
pub struct ConfigPackage {
    pub schema: String,
    pub distro: String,
    pub llm_dir: String,
    pub venv_dir: String,
    pub default_quant: String,
    pub memory_settings: MemorySettings,
    pub advanced_settings: AdvancedSettings,
    pub minimize_to_tray: bool,
    pub auto_restart_crashed: bool,
    pub launch_at_login: bool,
    /// Whether the secrets were left out of the export.
    pub secrets_omitted: bool,
    pub servers: Vec<ServerDef>,
}

/// The prepared servers are those of the export, each under its id.
pub open spec fn prepared_from(list: Seq<PreparedServer>, servers: Seq<ServerDef>) -> bool {
    &&& list.len() == servers.len()
    &&& forall|i: int| 0 <= i < list.len() ==> (#[trigger] list[i]).id@ == servers[i].id@
}

/// The settings after an import: what an export leaves out stays as it is.
pub open spec fn imported_settings(s: SettingsTexts, p: ConfigPackage) -> SettingsTexts {
    SettingsTexts {
        distro: p.distro@,
        llm_dir: p.llm_dir@,
        venv_dir: p.venv_dir@,
        default_quant: p.default_quant@,
        advanced_settings: AdvancedTexts {
            api_key: s.advanced_settings.api_key,
            custom_env_vars: s.advanced_settings.custom_env_vars,
            ..p.advanced_settings@
        },
        minimize_to_tray: p.minimize_to_tray,
        auto_restart_crashed: p.auto_restart_crashed,
        launch_at_login: p.launch_at_login,
        ..s
    }
}

/// Why an import is refused: its form, its virtual environment, its settings of the servers,
/// or one of its servers.
pub open spec fn import_error(
    s: SettingsTexts,
    p: ConfigPackage,
    list: Seq<PreparedServer>,
    venv_error: Option<Seq<char>>,
    name_error: Option<Seq<char>>,
) -> Option<Seq<char>> {
    if !EXPORT_SCHEMA@.is_prefix_of(p.schema@) {
        Some("Unsupported configuration schema: "@ + p.schema@)
    } else if venv_error is Some {
        venv_error
    } else {
        match advanced_error(imported_settings(s, p).advanced_settings, name_error) {
            Some(e) => Some(e),
            None => match imported_servers(list) {
                Ok(_) => None,
                Err(e) => Some(e),
            },
        }
    }
}

/// The settings, the settings of memory and the servers after an import, or why it is
/// refused. `list` holds the servers of the export once they were prepared, `venv_error` tells
/// why its virtual environment is not right, `name_error` why the first bad name among the
/// custom variables is refused.
pub fn config_import(
    s: PanelSettings,
    p: ConfigPackage,
    list: Vec<PreparedServer>,
    venv_error: Option<String>,
    name_error: Option<String>,
) -> (r: Result<(PanelSettings, MemorySettings, Vec<ServerDef>), String>)
    requires
        prepared_from(list@, p.servers@),
    ensures
        servers::error_of(r) == import_error(
            s@,
            p,
            list@,
            text::opt_text(venv_error),
            text::opt_text(name_error),
        ),
        r matches Ok((n, memory, servers)) ==> n@ == imported_settings(s@, p) && memory
            == p.memory_settings && imported_servers(list@) == Ok::<Seq<ServerDef>, Seq<char>>(
            servers@,
        ),
{
    if let Err(e) = check_export_schema(&p.schema) {
        return Err(e);
    }
    if let Some(e) = venv_error {
        return Err(e);
    }
    let advanced_settings = import_advanced(s.advanced_settings, p.advanced_settings);
    if let Err(e) = validate_advanced_settings(&advanced_settings, name_error) {
        return Err(e);
    }
    match import_servers(list) {
        Err(e) => Err(e),
        Ok(servers) => Ok(
            (
                PanelSettings {
                    distro: p.distro,
                    llm_dir: p.llm_dir,
                    venv_dir: p.venv_dir,
                    gguf_dir: s.gguf_dir,
                    llamacpp: s.llamacpp,
                    llamacpp_channels: s.llamacpp_channels,
                    hf_token: s.hf_token,
                    github_token: s.github_token,
                    default_quant: p.default_quant,
                    advanced_settings,
                    minimize_to_tray: p.minimize_to_tray,
                    auto_restart_crashed: p.auto_restart_crashed,
                    launch_at_login: p.launch_at_login,
                },
                p.memory_settings,
                servers,
            ),
        ),
    }
}

/// An import never brings in a key, a variable of the environment or a token: those of this
/// machine stay.
pub proof fn law_imports_keep_the_secrets(s: SettingsTexts, p: ConfigPackage)
    ensures
        imported_settings(s, p).hf_token == s.hf_token,
        imported_settings(s, p).github_token == s.github_token,
        imported_settings(s, p).advanced_settings.api_key == s.advanced_settings.api_key,
        imported_settings(s, p).advanced_settings.custom_env_vars
            == s.advanced_settings.custom_env_vars,
{
}

/// Refuses a recipe of another form, without a model or without a port.
pub fn check_recipe(schema: &str, model_id: &str, port: u16) -> (r: Result<(), String>)
    ensures
        servers::error_of(r) == (if !RECIPE_SCHEMA@.is_prefix_of(schema@) {
            Some("Unsupported server recipe schema: "@ + schema@)
        } else if text::trim(model_id@).len() == 0 || port == 0 {
            Some("Recipe must include a model_id and a non-zero port"@)
        } else {
            None
        }),
{
    if !text::starts_with(schema, RECIPE_SCHEMA) {
        let mut e = "Unsupported server recipe schema: ".to_string();
        e.append(schema);
        return Err(e);
    }
    if text::trimmed(model_id).unicode_len() == 0 || port == 0 {
        return Err("Recipe must include a model_id and a non-zero port".to_string());
    }
    Ok(())
}

// ---------------------------------------------------------------------------
// Laws of changing
// ---------------------------------------------------------------------------

/// Settings that are changed are what was said: each directory and the distribution without
/// the white space around it, each switch and the quantization as it is. Those of which
/// nothing was said, or only white space, stay.
pub proof fn law_changed_settings_are_what_was_said(
    s: SettingsTexts,
    p: SettingsPatch,
    placeholder: Seq<char>,
)
    ensures
        p.distro matches Some(t) ==> (text::trim(t@).len() > 0 ==> patched(s, p, placeholder).distro
            == text::trim(t@)) && (text::trim(t@).len() == 0 ==> patched(s, p, placeholder).distro
            == s.distro),
        p.distro is None ==> patched(s, p, placeholder).distro == s.distro,
        p.llm_dir matches Some(t) ==> (text::trim(t@).len() > 0 ==> patched(s, p, placeholder).llm_dir
            == text::trim(t@)) && (text::trim(t@).len() == 0 ==> patched(s, p, placeholder).llm_dir
            == s.llm_dir),
        p.llm_dir is None ==> patched(s, p, placeholder).llm_dir == s.llm_dir,
        p.venv_dir matches Some(t) ==> (text::trim(t@).len() > 0 ==> patched(s, p, placeholder).venv_dir
            == text::trim(t@)) && (text::trim(t@).len() == 0 ==> patched(s, p, placeholder).venv_dir
            == s.venv_dir),
        p.venv_dir is None ==> patched(s, p, placeholder).venv_dir == s.venv_dir,
        p.gguf_dir matches Some(t) ==> (text::trim(t@).len() > 0 ==> patched(s, p, placeholder).gguf_dir
            == text::trim(t@)) && (text::trim(t@).len() == 0 ==> patched(s, p, placeholder).gguf_dir
            == s.gguf_dir),
        p.gguf_dir is None ==> patched(s, p, placeholder).gguf_dir == s.gguf_dir,
        p.minimize_to_tray matches Some(b) ==> patched(s, p, placeholder).minimize_to_tray == b,
        p.minimize_to_tray is None ==> patched(s, p, placeholder).minimize_to_tray == s.minimize_to_tray,
        p.auto_restart_crashed matches Some(b) ==> patched(s, p, placeholder).auto_restart_crashed == b,
        p.auto_restart_crashed is None ==> patched(s, p, placeholder).auto_restart_crashed == s.auto_restart_crashed,
        p.launch_at_login matches Some(b) ==> patched(s, p, placeholder).launch_at_login == b,
        p.launch_at_login is None ==> patched(s, p, placeholder).launch_at_login == s.launch_at_login,
        p.default_quant matches Some(t) ==> patched(s, p, placeholder).default_quant == t@,
        p.default_quant is None ==> patched(s, p, placeholder).default_quant == s.default_quant,
        p.llamacpp_channels matches Some(list) ==> patched(s, p, placeholder).llamacpp_channels
            == channel_views(list@),
        p.llamacpp_channels is None ==> patched(s, p, placeholder).llamacpp_channels
            == s.llamacpp_channels,
{
}

/// A token that was said is kept without the white space around it; where nothing was said, or
/// only what stands for it came back, the old one stays.
pub proof fn law_tokens_are_what_was_said(
    s: SettingsTexts,
    p: SettingsPatch,
    placeholder: Seq<char>,
)
    ensures
        p.clear_hf_token != Some(true) ==> {
            &&& p.hf_token is None ==> patched(s, p, placeholder).hf_token == s.hf_token
            &&& p.hf_token matches Some(t) ==> (t@ == placeholder ==> patched(s, p, placeholder).hf_token
                == s.hf_token) && (t@ != placeholder ==> patched(s, p, placeholder).hf_token
                == text::trim(t@))
        },
        p.clear_hf_token == Some(true) ==> patched(s, p, placeholder).hf_token.len() == 0,
        p.clear_github_token != Some(true) ==> {
            &&& p.github_token is None ==> patched(s, p, placeholder).github_token == s.github_token
            &&& p.github_token matches Some(t) ==> (t@ == placeholder ==> patched(s, p, placeholder).github_token
                == s.github_token) && (t@ != placeholder ==> patched(s, p, placeholder).github_token
                == text::trim(t@))
        },
        p.clear_github_token == Some(true) ==> patched(s, p, placeholder).github_token.len() == 0,
{
}

/// The settings of the servers are all those that were given, except that a key or variables
/// that were not given stay as they were.
pub proof fn law_server_settings_are_what_was_said(
    a: AdvancedTexts,
    given: AdvancedTexts,
    placeholder: Seq<char>,
)
    ensures
        patched_advanced(a, None, None, None, placeholder) == a,
        ({
            let n = patched_advanced(a, Some(given), None, None, placeholder);
            &&& n.host == given.host
            &&& n.gateway_enabled == given.gateway_enabled
            &&& n.gateway_port == given.gateway_port
            &&& n.log_level == given.log_level
            &&& n.kv_cache_dtype == given.kv_cache_dtype
            &&& n.extra_vllm_args == given.extra_vllm_args
            &&& n.hf_home == given.hf_home
            &&& n.hf_offline == given.hf_offline
            &&& given.api_key is None ==> n.api_key == a.api_key
            &&& given.api_key == Some(placeholder) ==> n.api_key == a.api_key
            &&& given.api_key is Some && given.api_key != Some(placeholder) ==> n.api_key
                == given.api_key
            &&& given.custom_env_vars is None ==> n.custom_env_vars == a.custom_env_vars
            &&& given.custom_env_vars is Some ==> n.custom_env_vars == given.custom_env_vars
        }),
        patched_advanced(a, Some(given), Some(true), None, placeholder).api_key is None,
        patched_advanced(a, Some(given), None, Some(true), placeholder).custom_env_vars is None,
{
}

/// The llama.cpp that is used: the directory and the program that were said, unless the
/// upstream builds were given, which count then. What is known of its version stays where
/// nothing new is.
pub proof fn law_llamacpp_is_what_was_said(
    l: InstallTexts,
    dir: Seq<char>,
    executable: Seq<char>,
    upstream: InstallTexts,
)
    ensures
        text::trim(dir).len() > 0 ==> patched_llamacpp(l, Some(dir), None, None).dir == text::trim(
            dir,
        ),
        patched_llamacpp(l, None, None, None) == l,
        text::trim(executable).len() > 0 ==> patched_llamacpp(l, None, Some(executable), None).executable
            == Some(text::trim(executable)),
        text::trim(executable).len() == 0 ==> patched_llamacpp(l, None, Some(executable), None).executable is None,
        patched_llamacpp(l, Some(dir), Some(executable), None).version == l.version,
        patched_llamacpp(l, Some(dir), Some(executable), None).installed_tag == l.installed_tag,
        ({
            let n = patched_llamacpp(l, None, None, Some(upstream));
            &&& text::trim(upstream.dir).len() > 0 ==> n.dir == upstream.dir
            &&& text::trim(upstream.dir).len() == 0 ==> n.dir == l.dir
            &&& n.executable == upstream.executable
            &&& n.version == upstream.version
            &&& n.installed_tag == upstream.installed_tag
        }),
{
}

/// Settings of the servers that pass have a plain host, a port that needs no rights, a known
/// level of the log and a plain type of the cache; each that does not is refused.
pub proof fn law_server_settings_are_checked(a: AdvancedTexts, name_error: Option<Seq<char>>)
    ensures
        advanced_error(a, name_error) is None ==> {
            &&& text::trim(a.host).len() > 0
            &&& a.gateway_port >= 1024
            &&& a.log_level == "INFO"@ || a.log_level == "DEBUG"@ || a.log_level == "WARNING"@
                || a.log_level == "ERROR"@
            &&& a.custom_env_vars is Some ==> name_error is None
            &&& a.extra_vllm_args matches Some(extra) ==> outside::shlex_words(extra) is Some
        },
        a.gateway_port < 1024 ==> advanced_error(a, name_error) is Some,
        text::trim(a.host).len() == 0 ==> advanced_error(a, name_error) is Some,
        a.custom_env_vars is Some && name_error is Some ==> advanced_error(a, name_error) is Some,
        text::trim(a.host) == "127.0.0.1"@ && a.gateway_port >= 1024 && a.log_level == "INFO"@
            && text::trim(a.kv_cache_dtype) == "auto"@ && a.extra_vllm_args is None
            && a.custom_env_vars is None ==> advanced_error(a, name_error) is None,
{
    reveal_strlit("127.0.0.1");
    reveal_strlit("auto");
}

/// Only the addresses of this machine itself count as ones that no other can reach.
pub proof fn law_loopback_addresses(host: Seq<char>)
    ensures
        loopback(host) <==> host == "127.0.0.1"@ || host == "localhost"@ || host == "::1"@,
        plain_host(host) ==> !host.contains(' ') && !host.contains('/') && !host.contains(';'),
{
    if plain_host(host) {
        if host.contains(' ') {
            let i = choose|i: int| 0 <= i < host.len() && host[i] == ' ';
            assert(is_alphanumeric(host[i]) || host[i] == '.');
        }
        if host.contains('/') {
            let i = choose|i: int| 0 <= i < host.len() && host[i] == '/';
            assert(is_alphanumeric(host[i]) || host[i] == '.');
        }
        if host.contains(';') {
            let i = choose|i: int| 0 <= i < host.len() && host[i] == ';';
            assert(is_alphanumeric(host[i]) || host[i] == '.');
        }
    }
}

/// Changes are refused where the virtual environment that was said is not right, or where the
/// settings of the servers would not be.
pub proof fn law_refused_changes(
    s: SettingsTexts,
    p: SettingsPatch,
    placeholder: Seq<char>,
    venv_error: Option<Seq<char>>,
    name_error: Option<Seq<char>>,
)
    ensures
        p.venv_dir matches Some(v) ==> (text::trim(v@).len() > 0 && venv_error is Some
            ==> patch_error(s, p, placeholder, venv_error, name_error) == venv_error),
        p.venv_dir is None && p.advanced_settings is None && p.clear_advanced_api_key is None
            && p.clear_custom_env_vars is None && advanced_error(s.advanced_settings, name_error) is None
            ==> patch_error(s, p, placeholder, venv_error, name_error) is None,
        p.advanced_settings matches Some(a) ==> (a.gateway_port < 1024 ==> patch_error(
            s,
            p,
            placeholder,
            venv_error,
            name_error,
        ) is Some),
{
}

// ---------------------------------------------------------------------------
// Laws of importing
// ---------------------------------------------------------------------------

/// An import brings the settings of the export: all of those that it tells, each as it tells
/// it, while the directory for GGUF files and what is installed of llama.cpp stay.
pub proof fn law_imports_bring_the_settings(s: SettingsTexts, p: ConfigPackage)
    ensures
        imported_settings(s, p).distro == p.distro@,
        imported_settings(s, p).llm_dir == p.llm_dir@,
        imported_settings(s, p).venv_dir == p.venv_dir@,
        imported_settings(s, p).default_quant == p.default_quant@,
        imported_settings(s, p).minimize_to_tray == p.minimize_to_tray,
        imported_settings(s, p).auto_restart_crashed == p.auto_restart_crashed,
        imported_settings(s, p).launch_at_login == p.launch_at_login,
        imported_settings(s, p).advanced_settings.host == p.advanced_settings@.host,
        imported_settings(s, p).advanced_settings.gateway_enabled == p.advanced_settings@.gateway_enabled,
        imported_settings(s, p).advanced_settings.gateway_port == p.advanced_settings@.gateway_port,
        imported_settings(s, p).advanced_settings.log_level == p.advanced_settings@.log_level,
        imported_settings(s, p).advanced_settings.kv_cache_dtype == p.advanced_settings@.kv_cache_dtype,
        imported_settings(s, p).advanced_settings.extra_vllm_args == p.advanced_settings@.extra_vllm_args,
        imported_settings(s, p).advanced_settings.hf_home == p.advanced_settings@.hf_home,
        imported_settings(s, p).advanced_settings.hf_offline == p.advanced_settings@.hf_offline,
        imported_settings(s, p).gguf_dir == s.gguf_dir,
        imported_settings(s, p).llamacpp == s.llamacpp,
        imported_settings(s, p).llamacpp_channels == s.llamacpp_channels,
{
}

/// An imported server is the one of the export but for its secrets, and does not count as
/// running. From an export that holds secrets none of them is taken: the key and the variables
/// are those that the server has on this machine.
pub proof fn law_imported_server_is_the_exported_one(
    r: ServerDef,
    server: ServerDef,
    previous: Option<ServerDef>,
    secrets_omitted: bool,
    placeholder: Seq<char>,
)
    requires
        is_imported(r, server, previous, secrets_omitted, placeholder),
    ensures
        r.id == server.id,
        r.name == server.name,
        r.model_id == server.model_id,
        r.backend == server.backend,
        r.task == server.task,
        r.port == server.port,
        r.quant == server.quant,
        r.gpu_mem_util == server.gpu_mem_util,
        r.max_model_len == server.max_model_len,
        r.ctx_size == server.ctx_size,
        r.n_gpu_layers == server.n_gpu_layers,
        !r.was_running,
        !secrets_omitted && previous is None ==> r.api_key is None && r.env.listing().len() == 0,
        !secrets_omitted ==> (previous matches Some(p) ==> text::opt_text(r.api_key)
            == text::opt_text(p.api_key) && r.env.listing() == p.env.listing()),
        secrets_omitted && text::opt_text(server.api_key) == Some(placeholder) ==> (
        previous matches Some(p) ==> text::opt_text(r.api_key) == text::opt_text(p.api_key)),
        secrets_omitted && text::opt_text(server.api_key) != Some(placeholder) ==> text::opt_text(
            r.api_key,
        ) == text::opt_text(server.api_key),
        secrets_omitted ==> r.env.listing().len() == server.env.listing().len(),
{
}

/// The servers of an import are those that were prepared, in their order, or it is refused;
/// each has a good id.
pub proof fn law_imported_servers_are_the_prepared_ones(list: Seq<PreparedServer>, k: int)
    requires
        0 <= k < list.len(),
    ensures
        imported_servers(list) matches Ok(servers) ==> servers.len() == list.len() && (
        list[k].outcome matches Ok(s) && servers[k] == (ServerDef { was_running: false, ..s }))
            && servers::good_server_id(list[k].id@),
        list[k].outcome is Err ==> imported_servers(list) is Err,
    decreases list.len(),
{
    law_imported_servers_differ(list);
    if k < list.len() - 1 {
        law_imported_servers_differ(list.drop_last());
        law_imported_servers_are_the_prepared_ones(list.drop_last(), k);
    } else if imported_servers(list) is Ok {
        law_imported_servers_differ(list.drop_last());
    }
}

/// An import is refused where its form is another, where its virtual environment is not right,
/// where its settings of the servers are not, and where one of its servers is not.
pub proof fn law_refused_imports(
    s: SettingsTexts,
    p: ConfigPackage,
    list: Seq<PreparedServer>,
    venv_error: Option<Seq<char>>,
    name_error: Option<Seq<char>>,
)
    ensures
        !"local-llm-panel/config-export/"@.is_prefix_of(p.schema@) ==> import_error(
            s,
            p,
            list,
            venv_error,
            name_error,
        ) is Some,
        venv_error is Some ==> import_error(s, p, list, venv_error, name_error) is Some,
        p.advanced_settings.gateway_port < 1024 ==> import_error(
            s,
            p,
            list,
            venv_error,
            name_error,
        ) is Some,
        imported_servers(list) is Err ==> import_error(s, p, list, venv_error, name_error) is Some,
        "local-llm-panel/config-export/"@.is_prefix_of(p.schema@) && venv_error is None
            && advanced_error(imported_settings(s, p).advanced_settings, name_error) is None
            && imported_servers(list) is Ok ==> import_error(s, p, list, venv_error, name_error) is None,
{
}

/// A server clashes with those that were imported exactly where one of them has its id or its
/// port.
pub proof fn law_clashes(servers: Seq<ServerDef>, id: Seq<char>, port: u16, k: int)
    ensures
        0 <= k < servers.len() && (servers[k].id@ == id || servers[k].port == port) ==> clash(
            servers,
            id,
            port,
        ) is Some,
        clash(servers, id, port) is Some ==> exists|i: int|
            0 <= i < servers.len() && ((#[trigger] servers[i]).id@ == id || servers[i].port
                == port),
{
}

/// A plain host has letters, digits, points, colons and hyphens, and a plain type letters,
/// digits, hyphens and underscores; anything else in them is refused.
pub proof fn law_plain_texts(s: Seq<char>, i: int)
    requires
        0 <= i < s.len(),
    ensures
        s[i] == ' ' || s[i] == '/' || s[i] == '\'' || s[i] == ';' || s[i] == '$' || s[i] == '\n'
            ==> !plain_host(s) && !plain_dtype(s),
        (forall|k: int|
            0 <= k < s.len() ==> (text::is_digit(#[trigger] s[k]) || text::is_ascii_alpha(s[k])))
            ==> plain_host(s) && plain_dtype(s),
        (forall|k: int| 0 <= k < s.len() ==> #[trigger] s[k] == '-') ==> plain_host(s)
            && plain_dtype(s),
        (forall|k: int| 0 <= k < s.len() ==> #[trigger] s[k] == '_') ==> !plain_host(s)
            && plain_dtype(s),
        (forall|k: int| 0 <= k < s.len() ==> (#[trigger] s[k] == '.' || s[k] == ':')) ==> plain_host(
            s,
        ) && !plain_dtype(s),
        !plain_host(Seq::empty()),
{
    let c = s[i];
    assert(plain_host(s) ==> is_alphanumeric(s[i]) || c == '.' || c == ':' || c == '-');
    assert(plain_dtype(s) ==> is_alphanumeric(s[i]) || c == '_' || c == '-');
}

/// The builds of a channel are those of its first row, and a channel without a row has none.
pub proof fn law_channels_are_found(
    channels: Seq<(Option<Seq<char>>, InstallTexts)>,
    label: Option<Seq<char>>,
    k: int,
)
    ensures
        0 <= k < channels.len() && channels[k].0 == label && (forall|j: int|
            0 <= j < k ==> (#[trigger] channels[j]).0 != label) ==> channel_from(channels, label, 0)
            == Some(k),
        (forall|j: int| 0 <= j < channels.len() ==> (#[trigger] channels[j]).0 != label)
            ==> channel_from(channels, label, 0) is None,
{
    lemma_channel_from(channels, label, 0);
    if let Some(f) = channel_from(channels, label, 0) {
        assert(channels[f].0 == label);
    }
}

proof fn lemma_channel_from(
    channels: Seq<(Option<Seq<char>>, InstallTexts)>,
    label: Option<Seq<char>>,
    i: int,
)
    requires
        0 <= i,
    ensures
        match channel_from(channels, label, i) {
            Some(k) => i <= k < channels.len() && channels[k].0 == label && forall|j: int|
                i <= j < k ==> (#[trigger] channels[j]).0 != label,
            None => forall|j: int| i <= j < channels.len() ==> (#[trigger] channels[j]).0 != label,
        },
    decreases channels.len() - i,
{
    if i < channels.len() && channels[i].0 != label {
        lemma_channel_from(channels, label, i + 1);
    }
}

/// The upstream builds of a list are those of its first row without a name.
pub proof fn law_upstream_of_a_list(list: Vec<ChannelInstall>)
    requires
        list@.len() > 0,
        list@[0].channel is Upstream,
    ensures
        new_upstream(Some(list)) == Some(list@[0].install@),
        new_upstream(None) is None,
{
    let vs = channel_views(list@);
    assert(vs[0] == list@[0]@);
    law_channels_are_found(vs, None, 0);
}

} // verus!
