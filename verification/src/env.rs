//! What the panel shows of the machine.
use vstd::prelude::*;
use crate::estimate;
use crate::memory::GpuSnapshot;
use crate::outside;
use crate::settings;
use crate::settings::{ChannelInstall, InstallTexts, LlamaCppInstall};
use crate::state::{LiveServer, LlamaCppChannel, ServerStatus};
use crate::text;

verus! {

// ---------------------------------------------------------------------------
// Provisioning
// ---------------------------------------------------------------------------

/// What the provisioning of the machine achieved.
#[derive(Debug)]
pub struct ProvisionReport {
    pub phases_completed: Vec<String>,
    pub distro: String,
    pub vllm_version: Option<String>,
    pub torch_version: Option<String>,
    pub cuda_available: bool,
    pub gpu_name: Option<String>,
    pub vram_mb: Option<u64>,
    pub bf16_supported: bool,
}

/// The phases of a complete provisioning.
pub open spec fn all_phases() -> Seq<Seq<char>> {
    seq!["distro"@, "sudo"@, "apt"@, "uv"@, "venv"@, "vllm"@, "verify"@]
}

/// What comes after the first `p` in `s`, up to the next one.
pub open spec fn second_part(s: Seq<char>, p: Seq<char>) -> Option<Seq<char>> {
    match text::find(s, p) {
        None => None,
        Some(i) => {
            let rest = s.skip(i + p.len());
            match text::find(rest, p) {
                Some(j) => Some(rest.take(j)),
                None => Some(rest),
            }
        },
    }
}

/// The version of vLLM that a report tells: the first text in quotes behind its name.
pub open spec fn vllm_in(report: Seq<char>) -> Option<Seq<char>> {
    match second_part(report, "\"vllm\":"@) {
        None => None,
        Some(part) => {
            let pieces = text::pieces(part, '"');
            if pieces.len() > 1 {
                Some(pieces[1])
            } else {
                None
            }
        },
    }
}

fn text_behind(s: &str, p: &str) -> (r: Option<String>)
    requires
        p@.len() > 0,
    ensures
        text::opt_text(r) == second_part(s@, p@),
{
    proof {
        text::lemma_find_in_range(s@, p@, 0);
    }
    match text::find_text(s, p) {
        None => None,
        Some(i) => {
            let n: usize = s.unicode_len();
            let k: usize = p.unicode_len();
            let rest = s.substring_char(i + k, n);
            assert(rest@ =~= s@.skip(i + p@.len()));
            proof {
                text::lemma_find_in_range(rest@, p@, 0);
            }
            match text::find_text(rest, p) {
                Some(j) => {
                    let part = rest.substring_char(0, j);
                    assert(part@ =~= rest@.take(j as int));
                    Some(part.to_string())
                },
                None => Some(rest.to_string()),
            }
        },
    }
}

fn vllm_version_in(report: &str) -> (r: Option<String>)
    ensures
        text::opt_text(r) == vllm_in(report@),
{
    proof {
        reveal_strlit("\"vllm\":");
    }
    match text_behind(report, "\"vllm\":") {
        None => None,
        Some(part) => {
            let pieces = text::split_char(&part, '"');
            assert(text::texts(pieces@) == text::pieces(part@, '"'));
            if pieces.len() > 1 {
                assert(text::texts(pieces@)[1] == pieces@[1]@);
                Some(pieces[1].clone())
            } else {
                None
            }
        },
    }
}

/// The report of a provisioning of which only the end is known.
pub open spec fn is_assumed_report(
    r: ProvisionReport,
    output: Seq<char>,
    distro: Seq<char>,
    gpu: Option<GpuSnapshot>,
) -> bool {
    &&& text::texts(r.phases_completed@) == all_phases()
    &&& r.distro@ == distro
    &&& text::opt_text(r.vllm_version) == vllm_in(output)
    &&& text::opt_text(r.torch_version) == Some("torch (CUDA)"@)
    &&& r.cuda_available == (gpu is Some)
    &&& match gpu {
        Some(g) => text::opt_text(r.gpu_name) == Some(g.name@) && r.vram_mb == Some(
            g.vram_total_mb,
        ),
        None => r.gpu_name is None && r.vram_mb is None,
    }
    &&& r.bf16_supported
}

/// The report of the machine's provisioning, if it was provisioned: the one that was read,
/// else the one that the mark of a complete provisioning stands for.
pub fn provision_report(
    output: &str,
    parsed: Option<ProvisionReport>,
    distro: &str,
    gpu: &Option<GpuSnapshot>,
) -> (r: Option<ProvisionReport>)
    ensures
        match parsed {
            Some(p) => r == Some(p),
            None => if text::occurs(output@, "\"provisioned\": true"@) {
                r matches Some(p) && is_assumed_report(p, output@, distro@, *gpu)
            } else {
                r is None
            },
        },
{
    if parsed.is_some() {
        return parsed;
    }
    if !text::contains_text(output, "\"provisioned\": true") {
        return None;
    }
    let mut phases_completed: Vec<String> = Vec::new();
    phases_completed.push("distro".to_string());
    phases_completed.push("sudo".to_string());
    phases_completed.push("apt".to_string());
    phases_completed.push("uv".to_string());
    phases_completed.push("venv".to_string());
    phases_completed.push("vllm".to_string());
    phases_completed.push("verify".to_string());
    assert(text::texts(phases_completed@) =~= all_phases());
    let (gpu_name, vram_mb): (Option<String>, Option<u64>) = match gpu {
        Some(g) => (Some(g.name.clone()), Some(g.vram_total_mb)),
        None => (None, None),
    };
    Some(
        ProvisionReport {
            phases_completed,
            distro: distro.to_string(),
            vllm_version: vllm_version_in(output),
            torch_version: Some("torch (CUDA)".to_string()),
            cuda_available: gpu.is_some(),
            gpu_name,
            vram_mb,
            bf16_supported: true,
        },
    )
}

/// The report of a run that installed the tools for building on the card, and nothing else.
pub fn cuda_tools_report(distro: &str) -> (r: ProvisionReport)
    ensures
        text::texts(r.phases_completed@) == seq!["cuda-tools"@],
        r.distro@ == distro@,
        r.vllm_version is None && r.torch_version is None,
        r.gpu_name is None && r.vram_mb is None,
        !r.cuda_available && !r.bf16_supported,
{
    let mut phases_completed: Vec<String> = Vec::new();
    phases_completed.push("cuda-tools".to_string());
    assert(text::texts(phases_completed@) =~= seq!["cuda-tools"@]);
    ProvisionReport {
        phases_completed,
        distro: distro.to_string(),
        vllm_version: None,
        torch_version: None,
        cuda_available: false,
        gpu_name: None,
        vram_mb: None,
        bf16_supported: false,
    }
}

// ---------------------------------------------------------------------------
// The machine
// ---------------------------------------------------------------------------

/// A device that llama.cpp can use.
#[derive(Debug)]
pub struct LlamaDevice {
    pub name: String,
    pub backend: String,
}

/// A device of the card's maker is among them.
pub open spec fn has_cuda(devices: Seq<LlamaDevice>) -> bool {
    exists|i: int|
        0 <= i < devices.len() && text::same_but_case((#[trigger] devices[i]).backend@, "cuda"@)
}

/// Whether a device of the card's maker is among them.
pub fn cuda_available(devices: &Vec<LlamaDevice>) -> (r: bool)
    ensures
        r == has_cuda(devices@),
{
    for i in 0..devices.len()
        invariant
            forall|j: int|
                0 <= j < i ==> !text::same_but_case((#[trigger] devices@[j]).backend@, "cuda"@),
    {
        if text::same_ignoring_case(&devices[i].backend, "cuda") {
            return true;
        }
    }
    false
}

/// How llama.cpp is installed.
#[derive(Debug)]
pub struct InstallStatus {
    pub installed: bool,
    pub tag: Option<String>,
    pub version: Option<String>,
    pub executable: Option<String>,
    pub cuda_available: bool,
    pub devices: Vec<LlamaDevice>,
}

/// The first of two values that is there.
pub open spec fn either_text(a: Option<String>, b: Option<String>) -> Option<String> {
    if a is Some {
        a
    } else {
        b
    }
}

/// How llama.cpp is installed: the tag and the version of the upstream builds count before
/// those in the settings.
pub fn llamacpp_status(
    executable: Option<String>,
    upstream: (Option<String>, Option<String>),
    configured: (Option<String>, Option<String>),
    devices: Vec<LlamaDevice>,
) -> (r: InstallStatus)
    ensures
        r.installed == (executable is Some),
        r.tag == either_text(upstream.0, configured.0),
        r.version == either_text(upstream.1, configured.1),
        r.executable == executable,
        r.cuda_available == has_cuda(devices@),
        r.devices == devices,
{
    let installed = executable.is_some();
    let cuda = cuda_available(&devices);
    let (up_tag, up_version) = upstream;
    let (own_tag, own_version) = configured;
    InstallStatus {
        installed,
        tag: if up_tag.is_some() {
            up_tag
        } else {
            own_tag
        },
        version: if up_version.is_some() {
            up_version
        } else {
            own_version
        },
        executable,
        cuda_available: cuda,
        devices,
    }
}

/// What is known of a channel once a build was installed through it.
pub open spec fn installed_texts(
    before: InstallTexts,
    tag: Seq<char>,
    executable: Seq<char>,
    version: Seq<char>,
    help: Seq<char>,
) -> InstallTexts {
    InstallTexts {
        dir: before.dir,
        executable: Some(executable),
        version: Some(version),
        help: Some(help),
        installed_tag: Some(tag),
    }
}

/// The channels once a build was installed through one of them, and how llama.cpp is
/// installed then. Of a channel that is not among them nothing is kept.
pub fn channel_installed(
    channels: Vec<ChannelInstall>,
    channel: &LlamaCppChannel,
    tag: String,
    executable: String,
    version: String,
    help: String,
    devices: Vec<LlamaDevice>,
) -> (r: (Vec<ChannelInstall>, InstallStatus))
    ensures
        ({
            let before = settings::channel_views(channels@);
            let at = settings::channel_from(before, channel.label(), 0);
            &&& settings::channel_views(r.0@) == (match at {
                Some(k) => before.update(
                    k,
                    (
                        before[k].0,
                        installed_texts(before[k].1, tag@, executable@, version@, help@),
                    ),
                ),
                None => before,
            })
            &&& r.1.installed
            &&& text::opt_text(r.1.tag) == (if at is Some {
                Some(tag@)
            } else {
                None
            })
            &&& text::opt_text(r.1.version) == (if at is Some {
                Some(version@)
            } else {
                None
            })
            &&& text::opt_text(r.1.executable) == (if at is Some {
                Some(executable@)
            } else {
                None
            })
            &&& r.1.cuda_available == has_cuda(devices@)
            &&& r.1.devices == devices
        }),
{
    let ghost before = settings::channel_views(channels@);
    let cuda = cuda_available(&devices);
    let mut out = channels;
    match settings::find_channel(&out, channel) {
        None => (
            out,
            InstallStatus {
                installed: true,
                tag: None,
                version: None,
                executable: None,
                cuda_available: cuda,
                devices,
            },
        ),
        Some(k) => {
            let status = InstallStatus {
                installed: true,
                tag: Some(tag.clone()),
                version: Some(version.clone()),
                executable: Some(executable.clone()),
                cuda_available: cuda,
                devices,
            };
            let old = out.remove(k);
            let new = ChannelInstall {
                channel: old.channel,
                install: LlamaCppInstall {
                    dir: old.install.dir,
                    executable: Some(executable),
                    version: Some(version),
                    help: Some(help),
                    installed_tag: Some(tag),
                },
            };
            let ghost said = new@;
            out.insert(k, new);
            assert(settings::channel_views(out@) =~= before.update(k as int, said));
            (out, status)
        },
    }
}

/// Where the registry holds what is started at login.
pub const AUTOSTART_KEY: &'static str = "HKCU\\Software\\Microsoft\\Windows\\CurrentVersion\\Run";

/// The name under which the panel is started at login.
pub const AUTOSTART_NAME: &'static str = "LocalLLmPanel";

/// Whether the panel is started at login: the question for its name in the registry ended
/// well and showed it.
pub fn autostart_get(ended_well: bool, shown: &str) -> (r: bool)
    ensures
        r == (ended_well && text::occurs(shown@, AUTOSTART_NAME@)),
{
    ended_well && text::contains_text(shown, AUTOSTART_NAME)
}

/// What the registry is told so that the panel is started at login, or no longer.
pub open spec fn autostart_words(enabled: bool, program: Seq<char>) -> Seq<Seq<char>> {
    if enabled {
        seq![
            "add"@,
            AUTOSTART_KEY@,
            "/v"@,
            AUTOSTART_NAME@,
            "/t"@,
            "REG_SZ"@,
            "/d"@,
            "\""@ + program + "\""@,
            "/f"@,
        ]
    } else {
        seq!["delete"@, AUTOSTART_KEY@, "/v"@, AUTOSTART_NAME@, "/f"@]
    }
}

/// What the registry is told so that the panel is started at login, or no longer.
pub fn autostart_set(enabled: bool, program: &str) -> (r: Vec<String>)
    ensures
        text::texts(r@) == autostart_words(enabled, program@),
{
    let mut out: Vec<String> = Vec::new();
    out.push(
        if enabled {
            "add".to_string()
        } else {
            "delete".to_string()
        },
    );
    out.push(AUTOSTART_KEY.to_string());
    out.push("/v".to_string());
    out.push(AUTOSTART_NAME.to_string());
    if enabled {
        out.push("/t".to_string());
        out.push("REG_SZ".to_string());
        out.push("/d".to_string());
        let mut quoted = "\"".to_string();
        quoted.append(program);
        quoted.append("\"");
        out.push(quoted);
    }
    out.push("/f".to_string());
    assert(text::texts(out@) =~= autostart_words(enabled, program@));
    out
}

/// The number of servers that run.
pub open spec fn running_count_of(servers: Seq<LiveServer>) -> nat
    decreases servers.len(),
{
    if servers.len() == 0 {
        0
    } else {
        running_count_of(servers.drop_last()) + (if servers.last().status == ServerStatus::Running {
            1nat
        } else {
            0nat
        })
    }
}

/// The number of servers that run.
pub fn running_count(servers: &Vec<LiveServer>) -> (r: usize)
    ensures
        r == running_count_of(servers@),
{
    let mut n: usize = 0;
    assert(servers@.take(0) =~= Seq::empty());
    for i in 0..servers.len()
        invariant
            n == running_count_of(servers@.take(i as int)),
            n <= i,
    {
        assert(servers@.take(i + 1).drop_last() =~= servers@.take(i as int));
        assert(servers@.take(i + 1).last() == servers@[i as int]);
        if servers[i].status == ServerStatus::Running {
            n += 1;
        }
    }
    assert(servers@.take(servers@.len() as int) =~= servers@);
    n
}

/// What was found out about the machine.
#[derive(Debug)]
pub struct EnvProbe {
    pub distro: String,
    pub wsl_running: bool,
    pub apt_based: bool,
    pub wsl_gpu: Option<GpuSnapshot>,
    pub native_gpu: Option<GpuSnapshot>,
    pub provision_output: String,
    /// The report that was read from the output, where it is one.
    pub provision_report: Option<ProvisionReport>,
    pub cpu_name: String,
    pub cpu_cores: usize,
    /// The RAM, in bytes.
    pub total_ram: u64,
    /// What is available of it, in bytes.
    pub available_ram: u64,
    /// The weights of the running servers, in bytes.
    pub running_weight: u64,
    /// The program of llama.cpp that was found on its own.
    pub native_llamacpp: Option<String>,
    pub llamacpp_available: bool,
    pub ollama_available: bool,
    pub llamacpp_devices: Vec<LlamaDevice>,
    /// The tag, the version and the program of the upstream builds.
    pub upstream: (Option<String>, Option<String>, Option<String>),
    /// The tag, the version and the program in the settings.
    pub configured: (Option<String>, Option<String>, Option<String>),
}

/// What the panel shows of the machine.
#[derive(Debug)]
pub struct EnvStatus {
    pub wsl_ok: bool,
    pub distro: String,
    pub apt_based: bool,
    pub provisioned: bool,
    pub report: Option<ProvisionReport>,
    pub gpu: Option<GpuSnapshot>,
    pub servers_running: usize,
    /// The weights of the running servers, in bytes.
    pub running_weight: u64,
    pub gpu_bandwidth_gbs: u32,
    pub gpu_bw_known: bool,
    pub cpu_name: Option<String>,
    pub cpu_cores: Option<usize>,
    /// In tenths of a GiB.
    pub total_ram: Option<u64>,
    /// In tenths of a GiB.
    pub available_ram: Option<u64>,
    pub ram_bandwidth_gbps: Option<u32>,
    pub providers_detected: Vec<String>,
    pub llamacpp_installed: bool,
    pub llamacpp_tag: Option<String>,
    pub llamacpp_version: Option<String>,
    pub llamacpp_executable: Option<String>,
    pub llamacpp_cuda_available: bool,
    pub llamacpp_devices: Vec<LlamaDevice>,
}

/// The card that is shown: the one that the Linux side sees where it runs, else the one that
/// the machine itself sees.
pub open spec fn shown_gpu(p: EnvProbe) -> Option<GpuSnapshot> {
    if p.wsl_running && p.wsl_gpu is Some {
        p.wsl_gpu
    } else {
        p.native_gpu
    }
}

/// The names of the runtimes that were found.
pub open spec fn runtimes(llamacpp: bool, ollama: bool, vllm: bool) -> Seq<Seq<char>> {
    (if llamacpp {
        seq!["llama.cpp"@]
    } else {
        Seq::empty()
    }) + (if ollama {
        seq!["Ollama"@]
    } else {
        Seq::empty()
    }) + (if vllm {
        seq!["vLLM (WSL)"@]
    } else {
        Seq::empty()
    })
}

fn runtime_names(llamacpp: bool, ollama: bool, vllm: bool) -> (r: Vec<String>)
    ensures
        text::texts(r@) == runtimes(llamacpp, ollama, vllm),
{
    let mut out: Vec<String> = Vec::new();
    if llamacpp {
        out.push("llama.cpp".to_string());
    }
    if ollama {
        out.push("Ollama".to_string());
    }
    if vllm {
        out.push("vLLM (WSL)".to_string());
    }
    assert(text::texts(out@) =~= runtimes(llamacpp, ollama, vllm));
    out
}

fn first_of(a: Option<String>, b: Option<String>) -> (r: Option<String>)
    ensures
        r == either_text(a, b),
{
    match a {
        Some(_) => a,
        None => b,
    }
}

/// What the panel shows is what was found out.
pub open spec fn is_status_of(s: EnvStatus, p: EnvProbe, servers: Seq<LiveServer>) -> bool {
    let gpu = shown_gpu(p);
    let output = if p.wsl_running {
        p.provision_output@
    } else {
        Seq::empty()
    };
    let parsed = if p.wsl_running {
        p.provision_report
    } else {
        None
    };
    let known = match gpu {
        Some(g) => estimate::bandwidth_from(outside::lowercase(g.name@), 0),
        None => None,
    };
    let vllm = s.report matches Some(r) && r.vllm_version is Some;
    &&& s.wsl_ok == p.wsl_running
    &&& s.distro@ == p.distro@
    &&& s.apt_based == p.apt_based
    &&& s.provisioned == (s.report is Some)
    &&& match parsed {
        Some(r) => s.report == Some(r),
        None => if text::occurs(output, "\"provisioned\": true"@) {
            s.report matches Some(r) && is_assumed_report(r, output, p.distro@, gpu)
        } else {
            s.report is None
        },
    }
    &&& s.gpu == gpu
    &&& s.servers_running == running_count_of(servers)
    &&& s.gpu_bandwidth_gbs == (match known {
        Some(b) => b,
        None => 700,
    })
    &&& s.gpu_bw_known == (known is Some)
    &&& text::opt_text(s.cpu_name) == Some(p.cpu_name@)
    &&& s.cpu_cores == Some(p.cpu_cores)
    &&& s.running_weight == p.running_weight
    &&& s.total_ram == Some(tenths_of_gib(p.total_ram))
    &&& s.available_ram == Some(tenths_of_gib(p.available_ram))
    &&& s.ram_bandwidth_gbps == Some(117u32)
    &&& text::texts(s.providers_detected@) == runtimes(
        p.native_llamacpp is Some || p.llamacpp_available,
        p.ollama_available,
        vllm,
    )
    &&& s.llamacpp_installed == (p.native_llamacpp is Some)
    &&& s.llamacpp_tag == either_text(p.upstream.0, p.configured.0)
    &&& s.llamacpp_version == either_text(p.upstream.1, p.configured.1)
    &&& s.llamacpp_executable == either_text(
        p.native_llamacpp,
        either_text(p.upstream.2, p.configured.2),
    )
    &&& s.llamacpp_cuda_available == has_cuda(p.llamacpp_devices@)
    &&& s.llamacpp_devices == p.llamacpp_devices
}

/// Bytes in tenths of a GiB, to the nearest; halfway between two it is the higher.
pub open spec fn tenths_of_gib(bytes: u64) -> u64 {
    ((bytes * 10 + 0x2000_0000) / 0x4000_0000) as u64
}

fn rounded_tenths(bytes: u64) -> (r: u64)
    ensures
        r == tenths_of_gib(bytes),
{
    ((bytes as u128 * 10 + 0x2000_0000) / 0x4000_0000) as u64
}

/// What the panel shows of the machine.
pub fn env_status(p: EnvProbe, servers: &Vec<LiveServer>) -> (r: EnvStatus)
    ensures
        is_status_of(r, p, servers@),
{
    let ghost probe = p;
    let gpu: Option<GpuSnapshot> = if p.wsl_running && p.wsl_gpu.is_some() {
        p.wsl_gpu
    } else {
        p.native_gpu
    };
    let (gpu_bandwidth_gbs, gpu_bw_known): (u32, bool) = match &gpu {
        Some(g) => estimate::gpu_bandwidth(&g.name),
        None => (700, false),
    };
    let report: Option<ProvisionReport> = if p.wsl_running {
        provision_report(&p.provision_output, p.provision_report, &p.distro, &gpu)
    } else {
        proof {
            reveal_strlit("");
            assert(""@ =~= Seq::<char>::empty());
        }
        provision_report("", None, &p.distro, &gpu)
    };
    let vllm = match &report {
        Some(r) => r.vllm_version.is_some(),
        None => false,
    };
    let providers_detected = runtime_names(
        p.native_llamacpp.is_some() || p.llamacpp_available,
        p.ollama_available,
        vllm,
    );
    let llamacpp_cuda_available = cuda_available(&p.llamacpp_devices);
    let installed = p.native_llamacpp.is_some();
    let s = EnvStatus {
        wsl_ok: p.wsl_running,
        distro: p.distro,
        apt_based: p.apt_based,
        provisioned: report.is_some(),
        report,
        gpu,
        servers_running: running_count(servers),
        gpu_bandwidth_gbs,
        gpu_bw_known,
        cpu_name: Some(p.cpu_name),
        cpu_cores: Some(p.cpu_cores),
        running_weight: p.running_weight,
        total_ram: Some(rounded_tenths(p.total_ram)),
        available_ram: Some(rounded_tenths(p.available_ram)),
        ram_bandwidth_gbps: Some(117),
        providers_detected,
        llamacpp_installed: installed,
        llamacpp_tag: first_of(p.upstream.0, p.configured.0),
        llamacpp_version: first_of(p.upstream.1, p.configured.1),
        llamacpp_executable: first_of(p.native_llamacpp, first_of(p.upstream.2, p.configured.2)),
        llamacpp_cuda_available,
        llamacpp_devices: p.llamacpp_devices,
    };
    assert(is_status_of(s, probe, servers@));
    s
}

// ---------------------------------------------------------------------------
// FlashInfer
// ---------------------------------------------------------------------------

/// Whether what building FlashInfer needs is there.
#[derive(Debug)]
pub struct FlashInferReady {
    pub nvcc: bool,
    pub gcc: bool,
    pub ninja: bool,
    pub python_dev: bool,
    pub cuda_home: Option<String>,
    pub torch_cuda_version: Option<String>,
}

/// One of the first four lines, without the white space at its ends, is `mark`.
pub open spec fn front_has(lines: Seq<Seq<char>>, mark: Seq<char>) -> bool {
    exists|i: int| 0 <= i < 4 && i < lines.len() && text::trim(#[trigger] lines[i]) == mark
}

/// The text of line number `i`, without the white space at its ends, unless it is blank or
/// says that there is none.
pub open spec fn told_in(lines: Seq<Seq<char>>, i: int, none: Seq<char>) -> Option<Seq<char>> {
    if 0 <= i < lines.len() && text::trim(lines[i]).len() > 0 && text::trim(lines[i]) != none {
        Some(text::trim(lines[i]))
    } else {
        None
    }
}

fn front_says(lines: &Vec<String>, mark: &str) -> (r: bool)
    ensures
        r == front_has(text::texts(lines@), mark@),
{
    let ghost all = text::texts(lines@);
    let mut i: usize = 0;
    while i < lines.len() && i < 4
        invariant
            i <= lines@.len(),
            i <= 4,
            all == text::texts(lines@),
            forall|j: int| 0 <= j < i ==> text::trim(#[trigger] all[j]) != mark@,
        decreases 4 - i,
    {
        if text::same(text::trimmed(&lines[i]), mark) {
            assert(text::trim(all[i as int]) == mark@);
            return true;
        }
        i += 1;
    }
    false
}

fn line_says(lines: &Vec<String>, i: usize, none: &str) -> (r: Option<String>)
    ensures
        text::opt_text(r) == told_in(text::texts(lines@), i as int, none@),
{
    if i >= lines.len() {
        return None;
    }
    assert(text::texts(lines@)[i as int] == lines@[i as int]@);
    let t = text::trimmed(&lines[i]);
    if t.unicode_len() > 0 && !text::same(t, none) {
        Some(t.to_string())
    } else {
        None
    }
}

/// What the script that looks for what building FlashInfer needs has told.
pub fn read_flashinfer(stdout: &str) -> (r: FlashInferReady)
    ensures
        ({
            let lines = text::lines(stdout@);
            &&& r.nvcc == front_has(lines, "nvcc=yes"@)
            &&& r.gcc == front_has(lines, "gcc=yes"@)
            &&& r.ninja == front_has(lines, "ninja=yes"@)
            &&& r.python_dev == front_has(lines, "python_dev=yes"@)
            &&& text::opt_text(r.cuda_home) == told_in(lines, 4, "none"@)
            &&& text::opt_text(r.torch_cuda_version) == told_in(lines, 5, "unknown"@)
        }),
{
    let lines = text::split_lines(stdout);
    FlashInferReady {
        nvcc: front_says(&lines, "nvcc=yes"),
        gcc: front_says(&lines, "gcc=yes"),
        ninja: front_says(&lines, "ninja=yes"),
        python_dev: front_says(&lines, "python_dev=yes"),
        cuda_home: line_says(&lines, 4, "none"),
        torch_cuda_version: line_says(&lines, 5, "unknown"),
    }
}

// ---------------------------------------------------------------------------
// Other requests
// ---------------------------------------------------------------------------

/// Refuses to open what is no address of the web.
pub fn check_url(url: &str) -> (r: Result<(), String>)
    ensures
        match r {
            Ok(()) => "http://"@.is_prefix_of(url@) || "https://"@.is_prefix_of(url@),
            Err(e) => !("http://"@.is_prefix_of(url@) || "https://"@.is_prefix_of(url@)) && e@
                == "Only http and https URLs are allowed"@,
        },
{
    if text::starts_with(url, "http://") || text::starts_with(url, "https://") {
        Ok(())
    } else {
        Err("Only http and https URLs are allowed".to_string())
    }
}

/// Whether the card is to be looked at again: it never was, or the last time was more than
/// four seconds ago.
pub fn samples_again(last_ms: Option<u64>, now_ms: u64) -> (r: bool)
    ensures
        r == (match last_ms {
            Some(t) => now_ms > t && now_ms - t > 4000,
            None => true,
        }),
{
    match last_ms {
        Some(t) => now_ms > t && now_ms - t > 4000,
        None => true,
    }
}

/// What was measured of a server at a time. The speeds are held as the bits of
/// double-precision numbers.
#[derive(Clone, Copy, Debug, PartialEq, Eq, Structural)]
pub struct ServerMetricPoint {
    pub timestamp: u64,
    pub tok_s: u64,
    pub prompt_tok_s: u64,
    pub requests_running: u32,
    pub requests_waiting: u32,
}

/// The points of the first series from number `i` on that is the server's.
pub open spec fn series_from(
    series: Seq<(String, Vec<ServerMetricPoint>)>,
    server_id: Seq<char>,
    i: int,
) -> Seq<ServerMetricPoint>
    decreases series.len() - i,
{
    if i < 0 || i >= series.len() {
        Seq::empty()
    } else if series[i].0@ == server_id {
        series[i].1@
    } else {
        series_from(series, server_id, i + 1)
    }
}

/// What was measured of a server; nothing where it is not known.
pub fn get_server_metrics_series(
    series: &Vec<(String, Vec<ServerMetricPoint>)>,
    server_id: &str,
) -> (r: Vec<ServerMetricPoint>)
    ensures
        r@ == series_from(series@, server_id@, 0),
{
    for i in 0..series.len()
        invariant
            series_from(series@, server_id@, 0) == series_from(series@, server_id@, i as int),
    {
        if text::same(&series[i].0, server_id) {
            return vstd::slice::slice_to_vec(series[i].1.as_slice());
        }
    }
    Vec::new()
}

/// The place of the first entry from number `i` on with the id.
pub open spec fn place_of<T>(list: Seq<(String, T)>, id: Seq<char>, i: int) -> Option<int>
    decreases list.len() - i,
{
    if i < 0 || i >= list.len() {
        None
    } else if list[i].0@ == id {
        Some(i)
    } else {
        place_of(list, id, i + 1)
    }
}

/// Saves a conversation: in the place of the one with its id, else in front of all.
pub fn conversations_save<T>(list: &mut Vec<(String, T)>, conversation: (String, T))
    ensures
        final(list)@ == (match place_of(old(list)@, conversation.0@, 0) {
            Some(k) => old(list)@.update(k, conversation),
            None => seq![conversation] + old(list)@,
        }),
{
    let ghost before = list@;
    let n: usize = list.len();
    let mut i: usize = 0;
    while i < n
        invariant
            i <= n,
            n == list@.len(),
            list@ == before,
            before == old(list)@,
            place_of(before, conversation.0@, 0) == place_of(before, conversation.0@, i as int),
        decreases n - i,
    {
        if list[i].0 == conversation.0 {
            list.set(i, conversation);
            return;
        }
        i += 1;
    }
    list.insert(0, conversation);
    assert(list@ =~= seq![conversation] + before);
}

/// The entries other than those with the id, in order.
pub open spec fn without_id<T>(list: Seq<(String, T)>, id: Seq<char>) -> Seq<(String, T)>
    decreases list.len(),
{
    if list.len() == 0 {
        list
    } else if list.last().0@ == id {
        without_id(list.drop_last(), id)
    } else {
        without_id(list.drop_last(), id).push(list.last())
    }
}

/// The conversations without the one with the id.
pub fn conversations_delete<T>(list: Vec<(String, T)>, id: &str) -> (r: Vec<(String, T)>)
    ensures
        r@ == without_id(list@, id@),
{
    let ghost all = list@;
    let mut rest = list;
    let mut out: Vec<(String, T)> = Vec::new();
    let ghost mut n: int = 0;
    assert(all.take(0) =~= Seq::empty());
    assert(all.skip(0) =~= all);
    while rest.len() > 0
        invariant
            0 <= n <= all.len(),
            rest@ == all.skip(n),
            out@ == without_id(all.take(n), id@),
        decreases rest@.len(),
    {
        let s = rest.remove(0);
        proof {
            assert(all.skip(n)[0] == all[n]);
            assert(all.skip(n).remove(0) =~= all.skip(n + 1));
            assert(all.take(n + 1).drop_last() =~= all.take(n));
            assert(all.take(n + 1).last() == all[n]);
            n = n + 1;
        }
        if !text::same(&s.0, id) {
            out.push(s);
        }
    }
    assert(all.take(n) =~= all);
    out
}

/// The runs of a server.
pub open spec fn runs_of<T>(list: Seq<(String, T)>, server_id: Seq<char>) -> Seq<(String, T)>
    decreases list.len(),
{
    if list.len() == 0 {
        list
    } else if list.last().0@ == server_id {
        runs_of(list.drop_last(), server_id).push(list.last())
    } else {
        runs_of(list.drop_last(), server_id)
    }
}

/// The benchmark runs, each with the id of its server: those of one server, or all.
pub fn benchmarks_history<T>(runs: Vec<(String, T)>, server_id: Option<&str>) -> (r: Vec<
    (String, T),
>)
    ensures
        r@ == (match server_id {
            Some(id) => runs_of(runs@, id@),
            None => runs@,
        }),
{
    let Some(id) = server_id else {
        return runs;
    };
    let ghost all = runs@;
    let mut rest = runs;
    let mut out: Vec<(String, T)> = Vec::new();
    let ghost mut n: int = 0;
    assert(all.take(0) =~= Seq::empty());
    assert(all.skip(0) =~= all);
    while rest.len() > 0
        invariant
            0 <= n <= all.len(),
            rest@ == all.skip(n),
            out@ == runs_of(all.take(n), id@),
        decreases rest@.len(),
    {
        let s = rest.remove(0);
        proof {
            assert(all.skip(n)[0] == all[n]);
            assert(all.skip(n).remove(0) =~= all.skip(n + 1));
            assert(all.take(n + 1).drop_last() =~= all.take(n));
            assert(all.take(n + 1).last() == all[n]);
            n = n + 1;
        }
        if text::same(&s.0, id) {
            out.push(s);
        }
    }
    assert(all.take(n) =~= all);
    out
}

/// The file that sets up WSL, and what is in it.
#[derive(Debug)]
pub struct WslConfigInfo {
    pub path: Option<String>,
    pub content: Option<String>,
}

/// The file that sets up WSL, and what was read from it; without a home directory there is
/// neither.
pub fn wslconfig_get(path: Option<String>, content: Option<String>) -> (r: WslConfigInfo)
    ensures
        r.path == path,
        r.content == (if path is Some {
            content
        } else {
            None
        }),
{
    if path.is_none() {
        return WslConfigInfo { path: None, content: None };
    }
    WslConfigInfo { path, content }
}

/// A conversation that was saved is there, and saving it again under the same id leaves as
/// many as there were.
pub proof fn law_saved_conversations_are_there<T>(
    list: Seq<(String, T)>,
    conversation: (String, T),
)
    ensures
        ({
            let after = match place_of(list, conversation.0@, 0) {
                Some(k) => list.update(k, conversation),
                None => seq![conversation] + list,
            };
            &&& after.contains(conversation)
            &&& place_of(list, conversation.0@, 0) is Some ==> after.len() == list.len()
            &&& place_of(list, conversation.0@, 0) is None ==> after.len() == list.len() + 1
        }),
{
    lemma_place_of(list, conversation.0@, 0);
    match place_of(list, conversation.0@, 0) {
        Some(k) => {
            assert(list.update(k, conversation)[k] == conversation);
        },
        None => {
            assert((seq![conversation] + list)[0] == conversation);
        },
    }
}

proof fn lemma_place_of<T>(list: Seq<(String, T)>, id: Seq<char>, i: int)
    requires
        0 <= i,
    ensures
        place_of(list, id, i) matches Some(k) ==> i <= k < list.len(),
    decreases list.len() - i,
{
    if i < list.len() {
        lemma_place_of(list, id, i + 1);
    }
}

/// What the panel shows is what was found out, each thing in its own place: the distribution,
/// the processor and the memory as they are, the servers that run, and the tag, the version and
/// the program of llama.cpp, of which those of the upstream builds count before those of the
/// settings.
pub proof fn law_status_shows_what_was_found(s: EnvStatus, p: EnvProbe, servers: Seq<LiveServer>)
    requires
        is_status_of(s, p, servers),
    ensures
        s.wsl_ok == p.wsl_running,
        s.distro@ == p.distro@,
        s.apt_based == p.apt_based,
        s.provisioned <==> s.report is Some,
        s.cpu_name matches Some(name) && name@ == p.cpu_name@,
        s.cpu_cores == Some(p.cpu_cores),
        s.running_weight == p.running_weight,
        s.llamacpp_installed <==> p.native_llamacpp is Some,
        p.native_llamacpp is Some ==> s.llamacpp_executable == p.native_llamacpp,
        p.native_llamacpp is None && p.upstream.2 is Some ==> s.llamacpp_executable
            == p.upstream.2,
        p.native_llamacpp is None && p.upstream.2 is None ==> s.llamacpp_executable
            == p.configured.2,
        p.upstream.0 is Some ==> s.llamacpp_tag == p.upstream.0,
        p.upstream.0 is None ==> s.llamacpp_tag == p.configured.0,
        p.upstream.1 is Some ==> s.llamacpp_version == p.upstream.1,
        p.upstream.1 is None ==> s.llamacpp_version == p.configured.1,
        s.llamacpp_devices == p.llamacpp_devices,
        p.wsl_running && p.wsl_gpu is Some ==> s.gpu == p.wsl_gpu,
        !p.wsl_running || p.wsl_gpu is None ==> s.gpu == p.native_gpu,
        !s.gpu_bw_known ==> s.gpu_bandwidth_gbs == 700,
        s.gpu is None ==> !s.gpu_bw_known,
{
}

/// A machine on which the Linux side does not run counts as not provisioned; else it counts as
/// provisioned where a report was read or where the mark of one was seen.
pub proof fn law_provisioned_machines(s: EnvStatus, p: EnvProbe, servers: Seq<LiveServer>)
    requires
        is_status_of(s, p, servers),
    ensures
        !p.wsl_running ==> !s.provisioned,
        p.wsl_running && p.provision_report is Some ==> s.report == p.provision_report,
        p.wsl_running && p.provision_report is None ==> (s.provisioned <==> text::occurs(
            p.provision_output@,
            "\"provisioned\": true"@,
        )),
{
    reveal_strlit("\"provisioned\": true");
    if !p.wsl_running {
        let none = Seq::<char>::empty();
        let mark = "\"provisioned\": true"@;
        if text::occurs(none, mark) {
            let i = choose|i: int| text::occurs_at(none, mark, i);
            assert(i + mark.len() <= none.len());
        }
    }
}

/// The runtimes that are shown are those that were found, and no others.
pub proof fn law_runtimes_are_shown(llamacpp: bool, ollama: bool, vllm: bool)
    ensures
        ({
            let names = runtimes(llamacpp, ollama, vllm);
            &&& names.contains("llama.cpp"@) <==> llamacpp
            &&& names.contains("Ollama"@) <==> ollama
            &&& names.contains("vLLM (WSL)"@) <==> vllm
        }),
{
    reveal_strlit("llama.cpp");
    reveal_strlit("Ollama");
    reveal_strlit("vLLM (WSL)");
    let names = runtimes(llamacpp, ollama, vllm);
    assert("llama.cpp"@.len() == 9 && "Ollama"@.len() == 6 && "vLLM (WSL)"@.len() == 10);
    if llamacpp {
        assert(names[0] == "llama.cpp"@);
    }
    if ollama {
        if llamacpp {
            assert(names[1] == "Ollama"@);
        } else {
            assert(names[0] == "Ollama"@);
        }
    }
    if vllm {
        assert(names[names.len() - 1] == "vLLM (WSL)"@);
    }
}

/// The servers that run are counted: one more where one more runs, and none for any other.
pub proof fn law_running_servers_are_counted(servers: Seq<LiveServer>, s: LiveServer)
    ensures
        running_count_of(Seq::empty()) == 0,
        running_count_of(servers.push(s)) == running_count_of(servers) + (if s.status
            == ServerStatus::Running {
            1int
        } else {
            0
        }),
{
    assert(servers.push(s).drop_last() =~= servers);
}

/// Tenths of a GiB are the nearest to the bytes: off by no more than a twentieth of a GiB.
pub proof fn law_tenths_are_the_nearest(bytes: u64)
    ensures
        ({
            let off = tenths_of_gib(bytes) * 0x4000_0000 - 10 * bytes;
            -0x2000_0000 < off <= 0x2000_0000
        }),
{
}

/// A report that is assumed names all the phases, the distribution and the card.
pub proof fn law_assumed_reports(
    r: ProvisionReport,
    output: Seq<char>,
    distro: Seq<char>,
    gpu: Option<GpuSnapshot>,
)
    requires
        is_assumed_report(r, output, distro, gpu),
    ensures
        r.phases_completed@.len() == 7,
        r.phases_completed@[0]@ == "distro"@,
        r.phases_completed@[6]@ == "verify"@,
        r.distro@ == distro,
        r.cuda_available <==> gpu is Some,
        gpu matches Some(g) ==> r.vram_mb == Some(g.vram_total_mb) && (r.gpu_name matches Some(n)
            && n@ == g.name@),
        gpu is None ==> r.vram_mb is None && r.gpu_name is None,
{
    let phases = text::texts(r.phases_completed@);
    assert(phases.len() == 7);
    assert(phases[0] == r.phases_completed@[0]@);
    assert(phases[6] == r.phases_completed@[6]@);
}

/// What a report says of vLLM is the first text in quotes behind its name.
pub proof fn law_version_stands_in_quotes(front: Seq<char>, version: Seq<char>, rest: Seq<char>)
    requires
        !version.contains('"'),
        text::find(front + "\"vllm\":"@ + "\""@ + version + "\""@ + rest, "\"vllm\":"@) == Some(
            front.len() as int,
        ),
        text::find("\""@ + version + "\""@ + rest, "\"vllm\":"@) is None,
    ensures
        vllm_in(front + "\"vllm\":"@ + "\""@ + version + "\""@ + rest) == Some(version),
{
    reveal_strlit("\"");
    reveal_strlit("\"vllm\":");
    let mark = "\"vllm\":"@;
    let part = "\""@ + version + "\""@ + rest;
    let s = front + mark + "\""@ + version + "\""@ + rest;
    assert(s.skip(front.len() as int + mark.len()) =~= part);
    assert(second_part(s, mark) == Some(part));
    lemma_find_quote(part, 0, 0);
    assert(part.take(0) =~= Seq::empty());
    let after = version + "\""@ + rest;
    assert(part.skip(1) =~= after);
    assert forall|k: int| 0 <= k < version.len() implies #[trigger] after[k] != '"' by {
        assert(after[k] == version[k]);
    }
    lemma_find_quote(after, version.len() as int, 0);
    assert(after.take(version.len() as int) =~= version);
    reveal_with_fuel(text::pieces, 2);
    assert(text::pieces(part, '"')[1] == text::pieces(after, '"')[0]);
}

proof fn lemma_find_quote(s: Seq<char>, at: int, i: int)
    requires
        0 <= i <= at < s.len(),
        s[at] == '"',
        forall|k: int| i <= k < at ==> #[trigger] s[k] != '"',
    ensures
        text::find_any_from(s, seq!['"'], i) == Some(at),
    decreases at - i,
{
    assert(seq!['"'][0] == '"');
    if i < at {
        assert(!seq!['"'].contains(s[i]));
        lemma_find_quote(s, at, i + 1);
    } else {
        assert(seq!['"'].contains(s[i]));
    }
}

/// The registry is told to add the panel under its name with the quoted program, or to delete
/// it under the same name.
pub proof fn law_registry_is_told(program: Seq<char>)
    ensures
        autostart_words(true, program)[0] == "add"@,
        autostart_words(false, program)[0] == "delete"@,
        autostart_words(true, program)[1] == autostart_words(false, program)[1],
        autostart_words(true, program)[3] == "LocalLLmPanel"@,
        autostart_words(false, program)[3] == "LocalLLmPanel"@,
        autostart_words(true, program)[7] == "\""@ + program + "\""@,
{
}

/// A conversation that is deleted is gone, and every other stays.
pub proof fn law_deleted_conversations_are_gone<T>(
    list: Seq<(String, T)>,
    id: Seq<char>,
    x: (String, T),
)
    ensures
        without_id(list, id).contains(x) <==> list.contains(x) && x.0@ != id,
        runs_of(list, id).contains(x) <==> list.contains(x) && x.0@ == id,
    decreases list.len(),
{
    if list.len() > 0 {
        let f = list.drop_last();
        let last = list.last();
        law_deleted_conversations_are_gone(f, id, x);
        assert(list =~= f.push(last));
        lemma_pushed(f, last, x);
        lemma_pushed(without_id(f, id), last, x);
        lemma_pushed(runs_of(f, id), last, x);
    }
}

proof fn lemma_pushed<T>(s: Seq<T>, a: T, x: T)
    ensures
        s.push(a).contains(x) <==> s.contains(x) || x == a,
{
    if s.contains(x) {
        let k = choose|k: int| 0 <= k < s.len() && s[k] == x;
        assert(s.push(a)[k] == x);
    }
    assert(s.push(a)[s.len() as int] == a);
}

/// What was measured of a server is its own series, and nothing where it has none.
pub proof fn law_series_is_the_servers_own(
    series: Seq<(String, Vec<ServerMetricPoint>)>,
    server_id: Seq<char>,
    i: int,
)
    requires
        0 <= i <= series.len(),
    ensures
        ({
            let told = series_from(series, server_id, i);
            ||| told.len() == 0
            ||| exists|k: int|
                i <= k < series.len() && (#[trigger] series[k]).0@ == server_id && series[k].1@
                    == told
        }),
        i < series.len() && series[i].0@ == server_id ==> series_from(series, server_id, i)
            == series[i].1@,
        (forall|k: int| i <= k < series.len() ==> (#[trigger] series[k]).0@ != server_id)
            ==> series_from(series, server_id, i).len() == 0,
    decreases series.len() - i,
{
    if i < series.len() && series[i].0@ != server_id {
        law_series_is_the_servers_own(series, server_id, i + 1);
    }
}

/// A line tells its text unless it is blank or says that there is none, and an entry is found
/// where its id stands first.
pub proof fn law_lines_and_places<T>(
    lines: Seq<Seq<char>>,
    i: int,
    none: Seq<char>,
    list: Seq<(String, T)>,
    id: Seq<char>,
)
    ensures
        told_in(lines, i, none) matches Some(t) ==> 0 <= i < lines.len() && t == text::trim(lines[i])
            && t.len() > 0 && t != none,
        0 <= i < lines.len() && text::trim(lines[i]).len() > 0 && text::trim(lines[i]) != none
            ==> told_in(lines, i, none) is Some,
        list.len() > 0 && list[0].0@ == id ==> place_of(list, id, 0) == Some(0int),
        place_of(list, id, 0) matches Some(k) ==> 0 <= k < list.len() && list[k].0@ == id,
        0 <= i < list.len() && list[i].0@ == id ==> place_of(list, id, 0) is Some,
{
    lemma_place_found(list, id, 0);
}

proof fn lemma_place_found<T>(list: Seq<(String, T)>, id: Seq<char>, i: int)
    requires
        0 <= i,
    ensures
        match place_of(list, id, i) {
            Some(k) => i <= k < list.len() && list[k].0@ == id,
            None => forall|k: int| i <= k < list.len() ==> (#[trigger] list[k]).0@ != id,
        },
    decreases list.len() - i,
{
    if i < list.len() && list[i].0@ != id {
        lemma_place_found(list, id, i + 1);
    }
}

/// What the first four lines say is told, whatever white space stands around it, and later lines
/// are not looked at.
pub proof fn law_first_lines_tell(lines: Seq<Seq<char>>, mark: Seq<char>, i: int)
    ensures
        0 <= i < 4 && i < lines.len() && text::trim(lines[i]) == mark ==> front_has(lines, mark),
        (forall|k: int| 0 <= k < 4 && k < lines.len() ==> text::trim(#[trigger] lines[k]) != mark)
            ==> !front_has(lines, mark),
{
    if 0 <= i < 4 && i < lines.len() && text::trim(lines[i]) == mark {
        assert(text::trim(lines[i]) == mark);
    }
}

} // verus!
