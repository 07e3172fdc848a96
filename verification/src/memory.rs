//! The memory that models may use.
use vstd::prelude::*;
use crate::estimate;
use crate::fit::HardwareProfile;
use crate::outside;
use crate::text;

verus! {

/// How much memory models may use.
#[derive(Clone, Copy, Debug, PartialEq, Eq, Structural)]
pub struct MemorySettings {
    /// In ten-thousandths of the card's memory.
    pub default_gpu_mem_util: u32,
    pub vram_overhead_mb: u64,
    pub enable_ram_overflow: bool,
    pub manual_ram_limit_mb: Option<u64>,
    pub safety_reserve_mb: u64,
    pub offload_weights_allowed: bool,
    pub max_context_cap: Option<usize>,
}

/// The memory of the machine and what of it models may use.
#[derive(Clone, Copy, Debug, PartialEq, Eq, Structural)]
pub struct SystemMemoryInfo {
    pub wsl_total_mb: u64,
    pub wsl_available_mb: u64,
    pub usable_budget_mb: u64,
    pub safety_reserve_mb: u64,
    pub manual_override_mb: Option<u64>,
}

/// The RAM that models could use: what was set by hand, else what is there beyond the
/// reserve.
pub open spec fn potential_ram(s: MemorySettings, available_mb: u64) -> u64 {
    match s.manual_ram_limit_mb {
        Some(m) => m,
        None => if available_mb > s.safety_reserve_mb {
            (available_mb - s.safety_reserve_mb) as u64
        } else {
            0
        },
    }
}

/// The RAM that models may use: none where overflowing into it is switched off.
pub open spec fn usable_ram(s: MemorySettings, available_mb: u64) -> u64 {
    if s.enable_ram_overflow {
        potential_ram(s, available_mb)
    } else {
        0
    }
}

fn ram_potential(s: &MemorySettings, available_mb: u64) -> (r: u64)
    ensures
        r == potential_ram(*s, available_mb),
{
    match s.manual_ram_limit_mb {
        Some(m) => m,
        None => if available_mb > s.safety_reserve_mb {
            available_mb - s.safety_reserve_mb
        } else {
            0
        },
    }
}

fn ram_usable(s: &MemorySettings, available_mb: u64) -> (r: u64)
    ensures
        r == usable_ram(*s, available_mb),
{
    if s.enable_ram_overflow {
        ram_potential(s, available_mb)
    } else {
        0
    }
}

/// The memory of the machine, of which `total_mb` and `available_mb` were detected, and what
/// of it models may use.
pub fn get_system_memory_impl(s: &MemorySettings, total_mb: u64, available_mb: u64) -> (r:
    SystemMemoryInfo)
    ensures
        r == (SystemMemoryInfo {
            wsl_total_mb: total_mb,
            wsl_available_mb: available_mb,
            usable_budget_mb: usable_ram(*s, available_mb),
            safety_reserve_mb: s.safety_reserve_mb,
            manual_override_mb: s.manual_ram_limit_mb,
        }),
{
    SystemMemoryInfo {
        wsl_total_mb: total_mb,
        wsl_available_mb: available_mb,
        usable_budget_mb: ram_usable(s, available_mb),
        safety_reserve_mb: s.safety_reserve_mb,
        manual_override_mb: s.manual_ram_limit_mb,
    }
}

/// Whether the distribution is taken as it stands in the settings: only the ones made up for
/// tests are; any other is looked up.
pub fn distro_is_fixed(distro: &str) -> (r: bool)
    ensures
        r == "__test_"@.is_prefix_of(distro@),
{
    text::starts_with(distro, "__test_")
}

// ---------------------------------------------------------------------------
// Hardware
// ---------------------------------------------------------------------------

/// A graphics card as it was found.
#[derive(Clone, Debug)]
pub struct GpuSnapshot {
    pub name: String,
    pub vram_total_mb: u64,
    pub vram_free_mb: u64,
    pub util_percent: u32,
}

/// The profile of the hardware.
pub open spec fn is_profile(
    p: HardwareProfile,
    gpu: GpuSnapshot,
    s: MemorySettings,
    total_mb: u64,
    available_mb: u64,
) -> bool {
    let known = estimate::bandwidth_from(outside::lowercase(gpu.name@), 0);
    &&& p.gpu_name@ == gpu.name@
    &&& p.vram_total_mb == (if gpu.vram_total_mb > 0 {
        gpu.vram_total_mb
    } else {
        16384
    })
    &&& p.bandwidth_gbs == (match known {
        Some(b) => b,
        None => 700,
    })
    &&& p.bandwidth_known == (known is Some)
    &&& p.ram_total_mb == total_mb
    &&& p.ram_usable_mb == usable_ram(s, available_mb)
    &&& p.ram_potential_mb == potential_ram(s, available_mb)
    &&& p.ram_bandwidth_gbs == 65
}

/// The profile of the hardware, where a graphics card was found.
pub fn hardware_profile(
    gpu: Option<&GpuSnapshot>,
    s: &MemorySettings,
    total_mb: u64,
    available_mb: u64,
) -> (r: Option<HardwareProfile>)
    ensures
        match (r, gpu) {
            (Some(p), Some(g)) => is_profile(p, *g, *s, total_mb, available_mb),
            (None, None) => true,
            _ => false,
        },
{
    match gpu {
        Some(g) => {
            let (bandwidth_gbs, bandwidth_known): (u32, bool) = estimate::gpu_bandwidth(&g.name);
            Some(
                HardwareProfile {
                    gpu_name: g.name.clone(),
                    vram_total_mb: if g.vram_total_mb > 0 {
                        g.vram_total_mb
                    } else {
                        16384
                    },
                    bandwidth_gbs,
                    bandwidth_known,
                    ram_total_mb: total_mb,
                    ram_usable_mb: ram_usable(s, available_mb),
                    ram_potential_mb: ram_potential(s, available_mb),
                    ram_bandwidth_gbs: 65,
                },
            )
        },
        None => None,
    }
}

/// The profile that counts where no graphics card was found.
pub fn fallback_hardware_profile() -> (r: HardwareProfile)
    ensures
        r.gpu_name@ == "Generic GPU"@,
        r.vram_total_mb == 16384,
        r.bandwidth_gbs == 700,
        !r.bandwidth_known,
        r.ram_total_mb == 16384,
        r.ram_usable_mb == 12288,
        r.ram_potential_mb == 12288,
        r.ram_bandwidth_gbs == 65,
{
    HardwareProfile {
        gpu_name: "Generic GPU".to_string(),
        vram_total_mb: 16384,
        bandwidth_gbs: 700,
        bandwidth_known: false,
        ram_total_mb: 16384,
        ram_usable_mb: 12288,
        ram_potential_mb: 12288,
        ram_bandwidth_gbs: 65,
    }
}

// ---------------------------------------------------------------------------
// Recommendations
// ---------------------------------------------------------------------------

/// How long recommendations are kept, in seconds.
pub const RECOMMENDATION_SECONDS: u64 = 600;

/// Recommendations that are kept, with the memory of the card that they were made for.
#[derive(Debug)]
pub struct Recommendations<T> {
    pub models: T,
    pub vram_mb: u64,
}

/// The settings and the recommendations that were made under them.
#[derive(Debug)]
pub struct MemoryState<T> {
    pub settings: MemorySettings,
    pub recommendations: Option<Recommendations<T>>,
}

/// The settings.
pub fn get_memory_settings_impl<T>(st: &MemoryState<T>) -> (r: MemorySettings)
    ensures
        r == st.settings,
{
    st.settings
}

/// Sets the settings; recommendations that were made under the old ones are dropped.
pub fn update_memory_settings_impl<T>(st: &mut MemoryState<T>, settings: MemorySettings)
    ensures
        final(st).settings == settings,
        final(st).recommendations is None,
{
    st.settings = settings;
    st.recommendations = None;
}

/// Whether the recommendations that are kept, which are `age` seconds old, can be shown for
/// a card with the given memory. Those for another card are dropped.
pub fn use_recommendations<T>(st: &mut MemoryState<T>, vram_mb: u64, age: u64) -> (r: bool)
    ensures
        r == (old(st).recommendations matches Some(k) && k.vram_mb == vram_mb && age
            < RECOMMENDATION_SECONDS),
        final(st).settings == old(st).settings,
        final(st).recommendations == (if old(st).recommendations matches Some(k) && k.vram_mb
            == vram_mb {
            old(st).recommendations
        } else {
            None
        }),
{
    let same = match &st.recommendations {
        Some(k) => k.vram_mb == vram_mb,
        None => false,
    };
    if !same {
        st.recommendations = None;
        return false;
    }
    age < RECOMMENDATION_SECONDS
}

/// Keeps recommendations for a card with the given memory; where there are none, what was
/// kept before stays.
pub fn store_recommendations<T>(
    st: &mut MemoryState<Vec<T>>,
    models: Vec<T>,
    vram_mb: u64,
)
    ensures
        final(st).settings == old(st).settings,
        final(st).recommendations == (if models@.len() > 0 {
            Some(Recommendations { models, vram_mb })
        } else {
            old(st).recommendations
        }),
{
    if models.len() > 0 {
        st.recommendations = Some(Recommendations { models, vram_mb });
    }
}

/// What models may use, unless a limit was set by hand, is never more than is there, and
/// leaves the reserve.
pub proof fn law_budget_is_within_what_is_there(s: MemorySettings, available_mb: u64)
    requires
        s.manual_ram_limit_mb is None,
    ensures
        usable_ram(s, available_mb) <= potential_ram(s, available_mb) <= available_mb,
        s.enable_ram_overflow && available_mb >= s.safety_reserve_mb ==> usable_ram(s, available_mb)
            + s.safety_reserve_mb == available_mb,
{
}

/// A limit that was set by hand is what models could use, whatever is there; and nothing may
/// be used where overflowing into RAM is switched off.
pub proof fn law_budget_follows_the_settings(s: MemorySettings, little: u64, much: u64)
    requires
        little <= much,
    ensures
        s.manual_ram_limit_mb matches Some(m) ==> potential_ram(s, little) == m,
        !s.enable_ram_overflow ==> usable_ram(s, little) == 0,
        s.enable_ram_overflow ==> usable_ram(s, little) == potential_ram(s, little),
        potential_ram(s, little) <= potential_ram(s, much),
        s.manual_ram_limit_mb is None && little <= s.safety_reserve_mb ==> potential_ram(s, little)
            == 0,
{
}

/// The profile tells the card and the memory that were found: a card whose memory is not known
/// counts as one of 16 GiB, and one that is not known as one that moves 700 GB in a second.
pub proof fn law_profile_tells_the_hardware(
    p: HardwareProfile,
    gpu: GpuSnapshot,
    s: MemorySettings,
    total_mb: u64,
    available_mb: u64,
)
    requires
        is_profile(p, gpu, s, total_mb, available_mb),
    ensures
        p.gpu_name@ == gpu.name@,
        gpu.vram_total_mb > 0 ==> p.vram_total_mb == gpu.vram_total_mb,
        gpu.vram_total_mb == 0 ==> p.vram_total_mb == 16384,
        !p.bandwidth_known ==> p.bandwidth_gbs == 700,
        p.bandwidth_known <==> estimate::bandwidth_from(outside::lowercase(gpu.name@), 0) is Some,
        p.bandwidth_known ==> estimate::bandwidth_from(outside::lowercase(gpu.name@), 0) == Some(
            p.bandwidth_gbs,
        ),
        p.ram_total_mb == total_mb,
        p.ram_usable_mb <= p.ram_potential_mb,
        !s.enable_ram_overflow ==> p.ram_usable_mb == 0,
        s.manual_ram_limit_mb is None ==> p.ram_potential_mb <= available_mb,
        s.manual_ram_limit_mb matches Some(m) ==> p.ram_potential_mb == m,
{
}

} // verus!
