//! What one sample of the hardware counters says, and the rules that read it.
//!
//! A reading that the hardware reports as a real number is held in a type
//! parameter `F`.
use vstd::prelude::*;
use vstd::std_specs::ops::DivSpec;

use crate::arith::{mean, quotient, total, Real, WideReal};
use crate::soc::CpuDomainInfo;
use crate::text::{contains, ends_with, same_text, starts_with};

verus! {

/// The subgroup of the channels that report single CPU cores.
pub const CPU_FREQ_CORE_SUBG: &'static str = "CPU Core Performance States";

/// The subgroup of the channels that report the GPU.
pub const GPU_FREQ_DICE_SUBG: &'static str = "GPU Performance States";

/// Temperatures in Celsius.
#[derive(Debug, Default)]
pub struct TempMetrics<F> {
    pub cpu_avg: F,
    pub gpu_avg: F,
}

/// Memory in bytes.
#[derive(Debug, Default)]
pub struct MemMetrics {
    pub ram_total: u64,
    pub ram_usage: u64,
    pub swap_total: u64,
    pub swap_usage: u64,
}

/// Power in Watts.
#[derive(Debug, Default)]
pub struct PowerMetrics<F> {
    /// The whole package: CPU, GPU, neural engine and both memories.
    pub package: F,
    pub cpu: F,
    pub gpu: F,
    pub ram: F,
    pub gpu_ram: F,
    pub ane: F,
    /// The whole system (`PSTR`), independent of the battery and DC readings.
    pub board: F,
    /// The battery rail (`PPBR`).
    pub battery: F,
    /// The external DC input (`PDTR`).
    pub dc_in: F,
}

/// What one core did.
#[derive(Debug, Default, Clone, PartialEq)]
pub struct CoreUsageEntry<F> {
    pub freq_mhz: u32,
    pub usage: F,
}

/// What one CPU domain did.
#[derive(Debug, Default, Clone, PartialEq)]
pub struct CpuUsageEntry<F> {
    pub name: String,
    pub units: u32,
    pub freq_mhz: u32,
    pub usage: F,
    pub cores: Vec<CoreUsageEntry<F>>,
}

/// What one GPU channel did.
#[derive(Debug, Default, Clone, PartialEq)]
pub struct GpuUsageEntry<F> {
    pub name: String,
    pub units: u32,
    pub freq_mhz: u32,
    pub usage: F,
}

/// One complete measurement.
#[derive(Debug, Default)]
pub struct Metrics<F> {
    pub temp: TempMetrics<F>,
    pub memory: MemMetrics,
    pub cpu_usage: Vec<CpuUsageEntry<F>>,
    pub gpu_usage: Vec<GpuUsageEntry<F>>,
    pub power: PowerMetrics<F>,
}

/// Divides, taking the quotient by zero to be zero.
pub fn zero_div<T: core::ops::Div<Output = T> + Default + PartialEq>(a: T, b: T) -> (r: T)
    requires
        forall|zero: T, same: bool|
            #![trigger call_ensures(T::default, (), zero), call_ensures(T::eq, (&b, &zero), same)]
            call_ensures(T::default, (), zero) && call_ensures(T::eq, (&b, &zero), same) && !same
                ==> a.div_req(b),
    ensures
        exists|zero: T, same: bool|
            #![trigger call_ensures(T::default, (), zero), call_ensures(T::eq, (&b, &zero), same)]
            call_ensures(T::default, (), zero) && call_ensures(T::eq, (&b, &zero), same) && (
            if same {
                r == zero
            } else {
                call_ensures(T::div, (a, b), r)
            }),
{
    let zero: T = Default::default();
    if b == zero {
        zero
    } else {
        a / b
    }
}

/// Tells a plausible temperature reading: above 0 and at most 150 degrees.
pub fn is_valid_temp<F: PartialOrd + From<u8>>(val: &F) -> (r: bool)
    ensures
        valid_temp(*val, r),
{
    let low: F = F::from(0u8);
    let high: F = F::from(150u8);
    let above = *val > low;
    if !above {
        return false;
    }
    *val <= high
}

/// Whether `r` is a verdict on the reading `val`: `val > 0 && val <= 150`, with
/// the comparisons of `F` between `val` and the two limits taken into `F`.
pub open spec fn valid_temp<F: PartialOrd + From<u8>>(val: F, r: bool) -> bool {
    exists|low: F, high: F, above: bool|
        {
            &&& #[trigger] call_ensures(F::from, (0u8,), low)
            &&& #[trigger] call_ensures(F::from, (150u8,), high)
            &&& #[trigger] call_ensures(F::gt, (&val, &low), above)
            &&& if above {
                call_ensures(F::le, (&val, &high), r)
            } else {
                !r
            }
        }
}

/// Whether a state is one in which the unit works: not `IDLE` or `DOWN` (CPU)
/// and not `OFF` (GPU).
pub open spec fn active_state(name: Seq<char>) -> bool {
    name != "IDLE"@ && name != "DOWN"@ && name != "OFF"@
}

/// Tells a working state from an idle one by its name.
pub fn is_active_state(name: &str) -> (r: bool)
    ensures
        r == active_state(name@),
{
    !same_text(name, "IDLE") && !same_text(name, "DOWN") && !same_text(name, "OFF")
}

/// Whether `at` is the position of the first working state.
pub open spec fn first_active(items: Seq<(String, i64)>, at: int) -> bool {
    &&& 0 <= at < items.len()
    &&& active_state(items[at].0@)
    &&& forall|i: int| 0 <= i < at ==> !active_state(#[trigger] items[i].0@)
}

/// Whether no state is a working one.
pub open spec fn never_active(items: Seq<(String, i64)>) -> bool {
    forall|i: int| 0 <= i < items.len() ==> !active_state(#[trigger] items[i].0@)
}

/// Finds the first working state.
pub fn active_offset(items: &[(String, i64)]) -> (r: Option<usize>)
    ensures
        match r {
            Some(at) => first_active(items@, at as int),
            None => never_active(items@),
        },
{
    let mut i: usize = 0;
    while i < items.len()
        invariant
            i <= items@.len(),
            forall|j: int| 0 <= j < i ==> !active_state(#[trigger] items@[j].0@),
        decreases items@.len() - i,
    {
        if is_active_state(items[i].0.as_str()) {
            return Some(i);
        }
        i += 1;
    }
    None
}

/// Whether a unit's states can be read against a table of `n` frequencies:
/// there is a working state, and the states from the first one on are no fewer
/// than the frequencies.
pub open spec fn covers(items: Seq<(String, i64)>, n: nat) -> bool {
    exists|at: int| #[trigger] first_active(items, at) && at + n <= items.len()
}

/// Tests whether a unit's states can be read against a frequency table.
pub fn states_cover(items: &[(String, i64)], freqs: &[u32]) -> (r: bool)
    ensures
        r == covers(items@, freqs@.len()),
{
    match active_offset(items) {
        Some(at) => {
            assert(forall|x: int| #[trigger] first_active(items@, x) ==> x == at);
            freqs.len() <= items.len() - at
        },
        None => false,
    }
}

/// Whether `times` are the times in each state.
pub open spec fn times_are<F, W: WideReal<F>>(items: Seq<(String, i64)>, times: Seq<W>) -> bool {
    &&& times.len() == items.len()
    &&& forall|i: int|
        0 <= i < items.len() ==> call_ensures(W::of_i64, (items[i].1,), #[trigger] times[i])
}

/// Whether `avg` is the mean frequency of a unit that worked for `usage` in
/// all, each frequency weighed by its part of that time.
pub open spec fn mean_freq_is<W: Real>(
    active: Seq<W>,
    usage: W,
    freqs: Seq<u32>,
    avg: W,
) -> bool
    decreases freqs.len(),
{
    if freqs.len() == 0 {
        call_ensures(W::default, (), avg)
    } else {
        exists|part: W, weight: W, freq: W, term: W|
            {
                &&& mean_freq_is(active, usage, freqs.drop_last(), part)
                &&& crate::arith::quotient_is(active[freqs.len() - 1], usage, weight)
                &&& call_ensures(W::of_u32, (freqs.last(),), freq)
                &&& #[trigger] call_ensures(W::times, (weight, freq), term)
                &&& #[trigger] call_ensures(W::plus, (part, term), avg)
            }
    }
}

/// Whether the frequency and usage `r` come from these intermediate values.
pub open spec fn activity_by<F, W: WideReal<F>>(
    items: Seq<(String, i64)>,
    freqs: Seq<u32>,
    at: int,
    times: Seq<W>,
    usage: W,
    total: W,
    avg: W,
    ratio: W,
    r: (u32, F),
) -> bool {
    &&& first_active(items, at)
    &&& times_are::<F, W>(items, times)
    &&& crate::arith::sum_is(times.skip(at), usage)
    &&& crate::arith::sum_is(times, total)
    &&& mean_freq_is(times.skip(at), usage, freqs, avg)
    &&& crate::arith::quotient_is(usage, total, ratio)
    &&& call_ensures(W::to_u32, (avg,), r.0)
    &&& call_ensures(W::narrow, (ratio,), r.1)
}

/// Whether `r` is the mean frequency and the usage of a unit whose states are
/// `items`: the states from the first working one on stand for the frequencies
/// of the table, in order, and the usage is their part of the whole time.
pub open spec fn activity_is<F, W: WideReal<F>>(
    items: Seq<(String, i64)>,
    freqs: Seq<u32>,
    r: (u32, F),
) -> bool {
    exists|at: int, times: Seq<W>, usage: W, total: W, avg: W, ratio: W| #[trigger]
        activity_by::<F, W>(items, freqs, at, times, usage, total, avg, ratio, r)
}

/// Computes the mean frequency and the usage of a unit from the time that it
/// spent in each state.
pub fn calc_freq_from_residencies<F, W: WideReal<F>>(items: &[(String, i64)], freqs: &[u32]) -> (r:
    (u32, F))
    requires
        covers(items@, freqs@.len()),
    ensures
        activity_is::<F, W>(items@, freqs@, r),
{
    let offset: usize = match active_offset(items) {
        Some(at) => at,
        None => 0,
    };
    assert(first_active(items@, offset as int) && offset + freqs@.len() <= items@.len());
    let mut times: Vec<W> = Vec::new();
    let mut active: Vec<W> = Vec::new();
    let mut i: usize = 0;
    while i < items.len()
        invariant
            i <= items@.len(),
            offset < items@.len(),
            times@.len() == i,
            forall|j: int|
                0 <= j < i ==> call_ensures(W::of_i64, (items@[j].1,), #[trigger] times@[j]),
            active@ == (if i < offset {
                Seq::<W>::empty()
            } else {
                times@.skip(offset as int)
            }),
        decreases items@.len() - i,
    {
        let time: W = W::of_i64(items[i].1);
        times.push(time);
        if i >= offset {
            active.push(time);
        }
        assert(active@ =~= (if i + 1 < offset {
            Seq::<W>::empty()
        } else {
            times@.skip(offset as int)
        }));
        i += 1;
    }
    let usage: W = total(active.as_slice());
    let all: W = total(times.as_slice());
    let mut avg: W = W::default();
    let mut k: usize = 0;
    while k < freqs.len()
        invariant
            k <= freqs@.len() <= active@.len(),
            mean_freq_is(active@, usage, freqs@.take(k as int), avg),
        decreases freqs@.len() - k,
    {
        let ghost part = avg;
        let weight: W = quotient(active[k], usage);
        let freq: W = W::of_u32(freqs[k]);
        let term: W = weight.times(freq);
        avg = avg.plus(term);
        assert(mean_freq_is(active@, usage, freqs@.take(k + 1), avg)) by {
            assert(freqs@.take(k + 1).drop_last() =~= freqs@.take(k as int));
            assert(freqs@.take(k + 1).last() == freqs@[k as int]);
            assert(call_ensures(W::times, (weight, freq), term));
            assert(call_ensures(W::plus, (part, term), avg));
        }
        k += 1;
    }
    assert(freqs@.take(k as int) =~= freqs@);
    let ratio: W = quotient(usage, all);
    let r = (avg.to_u32(), ratio.narrow());
    assert(activity_by::<F, W>(
        items@,
        freqs@,
        offset as int,
        times@,
        usage,
        all,
        avg,
        ratio,
        r,
    ));
    r
}

/// The highest frequency of the cores that are marked, or 0.
pub open spec fn peak(freqs: Seq<u32>, marked: Seq<bool>) -> u32
    decreases freqs.len(),
{
    if freqs.len() == 0 {
        0
    } else {
        let rest = peak(freqs.drop_last(), marked.drop_last());
        if marked.last() && freqs.last() > rest {
            freqs.last()
        } else {
            rest
        }
    }
}

/// The frequency of each core.
pub open spec fn core_freqs<F>(cores: Seq<CoreUsageEntry<F>>) -> Seq<u32> {
    cores.map_values(|c: CoreUsageEntry<F>| c.freq_mhz)
}

/// Whether `busy` marks the cores whose usage is above zero.
pub open spec fn marks_busy<F: PartialOrd + Default>(
    cores: Seq<CoreUsageEntry<F>>,
    busy: Seq<bool>,
) -> bool {
    exists|zero: F|
        {
            &&& #[trigger] call_ensures(F::default, (), zero)
            &&& busy.len() == cores.len()
            &&& forall|i: int|
                0 <= i < cores.len() ==> call_ensures(
                    F::gt,
                    (&cores[i].usage, &zero),
                    #[trigger] busy[i],
                )
        }
}

/// The highest frequency among the cores of a cluster that did any work, or 0.
fn peak_freq<F: PartialOrd + Default>(cores: &[CoreUsageEntry<F>]) -> (r: u32)
    ensures
        exists|busy: Seq<bool>| #[trigger]
            marks_busy(cores@, busy) && r == peak(core_freqs(cores@), busy),
{
    let zero: F = F::default();
    let ghost mut busy: Seq<bool> = Seq::empty();
    let mut best: u32 = 0;
    let mut i: usize = 0;
    let ghost freqs = core_freqs(cores@);
    while i < cores.len()
        invariant
            i <= cores@.len(),
            freqs == core_freqs(cores@),
            call_ensures(F::default, (), zero),
            busy.len() == i,
            forall|j: int|
                0 <= j < i ==> call_ensures(F::gt, (&cores@[j].usage, &zero), #[trigger] busy[j]),
            best == peak(freqs.take(i as int), busy),
        decreases cores@.len() - i,
    {
        let works = cores[i].usage > zero;
        let ghost before = busy;
        proof {
            busy = busy.push(works);
        }
        assert(busy.drop_last() =~= before);
        assert(freqs.take(i + 1).drop_last() =~= freqs.take(i as int));
        if works && cores[i].freq_mhz > best {
            best = cores[i].freq_mhz;
        }
        i += 1;
    }
    assert(freqs.take(i as int) =~= freqs);
    assert(marks_busy(cores@, busy));
    best
}

/// Whether `share` is a core's usage scaled from its own frequency to `top`.
pub open spec fn share_is<F: Real>(core: CoreUsageEntry<F>, top: F, share: F) -> bool {
    exists|freq: F, work: F|
        {
            &&& #[trigger] call_ensures(F::of_u32, (core.freq_mhz,), freq)
            &&& #[trigger] call_ensures(F::times, (core.usage, freq), work)
            &&& call_ensures(F::over, (work, top), share)
        }
}

/// Whether the frequency and usage `r` of a cluster whose busy cores are
/// marked come from the shares of its cores at the peak frequency.
pub open spec fn cluster_by<F: Real>(
    cores: Seq<CoreUsageEntry<F>>,
    busy: Seq<bool>,
    top: F,
    shares: Seq<F>,
    r: (u32, F),
) -> bool {
    &&& marks_busy(cores, busy)
    &&& if peak(core_freqs(cores), busy) == 0 {
        r.0 == 0 && call_ensures(F::default, (), r.1)
    } else {
        &&& call_ensures(F::of_u32, (peak(core_freqs(cores), busy),), top)
        &&& shares.len() == cores.len()
        &&& forall|i: int| 0 <= i < cores.len() ==> share_is(cores[i], top, #[trigger] shares[i])
        &&& crate::arith::mean_is(shares, r.1)
        &&& call_ensures(F::to_u32, (top,), r.0)
    }
}

/// Whether `r` is the peak frequency of a cluster and its usage at that
/// frequency: the mean of what its cores do, each scaled to the peak. A cluster
/// none of whose cores did any work is at zero.
pub open spec fn cluster_is<F: Real>(cores: Seq<CoreUsageEntry<F>>, r: (u32, F)) -> bool {
    exists|busy: Seq<bool>, top: F, shares: Seq<F>| #[trigger]
        cluster_by(cores, busy, top, shares, r)
}

/// Computes the frequency and the usage of a cluster from those of its cores.
pub fn calc_cluster_usage_at_peak_freq<F: Real>(cores: &[CoreUsageEntry<F>]) -> (r: (u32, F))
    ensures
        cluster_is(cores@, r),
{
    let best: u32 = peak_freq(cores);
    let ghost busy = choose|busy: Seq<bool>| #[trigger]
        marks_busy(cores@, busy) && best == peak(core_freqs(cores@), busy);
    if best == 0 {
        let r = (0, F::default());
        assert(cluster_by(cores@, busy, r.1, Seq::empty(), r));
        return r;
    }
    let top: F = F::of_u32(best);
    let mut shares: Vec<F> = Vec::new();
    let mut i: usize = 0;
    while i < cores.len()
        invariant
            i <= cores@.len(),
            shares@.len() == i,
            forall|j: int| 0 <= j < i ==> share_is(cores@[j], top, #[trigger] shares@[j]),
        decreases cores@.len() - i,
    {
        let freq: F = F::of_u32(cores[i].freq_mhz);
        let work: F = cores[i].usage.times(freq);
        assert(call_ensures(F::of_u32, (cores@[i as int].freq_mhz,), freq));
        assert(call_ensures(F::times, (cores@[i as int].usage, freq), work));
        shares.push(work.over(top));
        i += 1;
    }
    let r = (top.to_u32(), mean(shares.as_slice()));
    assert(cluster_by(cores@, busy, top, shares@, r));
    r
}

/// The position of the first domain whose name stands in the channel's name.
pub open spec fn domain_of(channel: Seq<char>, domains: Seq<CpuDomainInfo>) -> Option<usize>
    decreases domains.len(),
{
    if domains.len() == 0 {
        None
    } else {
        match domain_of(channel, domains.drop_last()) {
            Some(i) => Some(i),
            None => if crate::text::has_part(channel, domains.last().name@) {
                Some((domains.len() - 1) as usize)
            } else {
                None
            },
        }
    }
}

/// Finds the domain that a CPU channel belongs to. The domain's name may stand
/// anywhere in the channel's, since chips of several dies prefix it.
pub fn cpu_channel_domain_index(channel: &str, domains: &[CpuDomainInfo]) -> (r: Option<usize>)
    ensures
        r == domain_of(channel@, domains@),
        match r {
            Some(at) => {
                &&& at < domains@.len()
                &&& crate::text::has_part(channel@, domains@[at as int].name@)
                &&& forall|i: int|
                    0 <= i < at ==> !crate::text::has_part(channel@, #[trigger] domains@[i].name@)
            },
            None => forall|i: int|
                0 <= i < domains@.len() ==> !crate::text::has_part(channel@, #[trigger] domains@[i].name@),
        },
{
    let mut i: usize = 0;
    while i < domains.len()
        invariant
            i <= domains@.len(),
            domain_of(channel@, domains@.take(i as int)) is None,
            forall|j: int| 0 <= j < i ==> !crate::text::has_part(channel@, #[trigger] domains@[j].name@),
        decreases domains@.len() - i,
    {
        assert(domains@.take(i + 1).drop_last() =~= domains@.take(i as int));
        if contains(channel, domains[i].name.as_str()) {
            proof {
                found_domain_stays(channel@, domains@, i + 1);
            }
            return Some(i);
        }
        i += 1;
    }
    assert(domains@.take(i as int) =~= domains@);
    None
}

/// A domain found among the first `n` is the one found among all.
proof fn found_domain_stays(channel: Seq<char>, domains: Seq<CpuDomainInfo>, n: int)
    requires
        0 <= n <= domains.len(),
        domain_of(channel, domains.take(n)) is Some,
    ensures
        domain_of(channel, domains) == domain_of(channel, domains.take(n)),
    decreases domains.len() - n,
{
    if n == domains.len() {
        assert(domains.take(n) =~= domains);
    } else {
        assert(domains.take(n + 1).drop_last() =~= domains.take(n));
        found_domain_stays(channel, domains, n + 1);
    }
}

/// What a power reading is counted towards.
#[derive(Debug, Clone, Copy, PartialEq, Eq, Structural)]
pub enum PowerRail {
    Gpu,
    Cpu,
    Ane,
    Ram,
    GpuRam,
}

/// What a counter channel is used for.
#[derive(Debug, Clone, Copy, PartialEq, Eq, Structural)]
pub enum ChannelRoute {
    /// A core of the CPU domain at this position.
    CpuCore(usize),
    Gpu,
    Power(PowerRail),
    Ignored,
}

/// The rail that a channel of the energy model reports.
pub open spec fn rail_of(channel: Seq<char>) -> Option<PowerRail> {
    if channel == "GPU Energy"@ {
        Some(PowerRail::Gpu)
    } else if crate::text::has_suffix(channel, "CPU Energy"@) {
        Some(PowerRail::Cpu)
    } else if crate::text::has_prefix(channel, "ANE"@) {
        Some(PowerRail::Ane)
    } else if crate::text::has_prefix(channel, "DRAM"@) {
        Some(PowerRail::Ram)
    } else if crate::text::has_prefix(channel, "GPU SRAM"@) {
        Some(PowerRail::GpuRam)
    } else {
        None
    }
}

/// Finds the rail of a channel of the energy model. Chips of several dies
/// prefix the CPU channels and number the neural engine's.
fn power_rail(channel: &str) -> (r: Option<PowerRail>)
    ensures
        r == rail_of(channel@),
{
    if same_text(channel, "GPU Energy") {
        Some(PowerRail::Gpu)
    } else if ends_with(channel, "CPU Energy") {
        Some(PowerRail::Cpu)
    } else if starts_with(channel, "ANE") {
        Some(PowerRail::Ane)
    } else if starts_with(channel, "DRAM") {
        Some(PowerRail::Ram)
    } else if starts_with(channel, "GPU SRAM") {
        Some(PowerRail::GpuRam)
    } else {
        None
    }
}

/// What a channel is used for, by its names.
pub open spec fn route_of(
    group: Seq<char>,
    subgroup: Seq<char>,
    channel: Seq<char>,
    domains: Seq<CpuDomainInfo>,
) -> ChannelRoute {
    if group == "CPU Stats"@ && subgroup == CPU_FREQ_CORE_SUBG@ {
        match domain_of(channel, domains) {
            Some(at) => ChannelRoute::CpuCore(at),
            None => ChannelRoute::Ignored,
        }
    } else if group == "GPU Stats"@ && subgroup == GPU_FREQ_DICE_SUBG@ && channel == "GPUPH"@ {
        ChannelRoute::Gpu
    } else if group == "Energy Model"@ {
        match rail_of(channel) {
            Some(rail) => ChannelRoute::Power(rail),
            None => ChannelRoute::Ignored,
        }
    } else {
        ChannelRoute::Ignored
    }
}

/// Decides what a channel is used for.
pub fn channel_route(
    group: &str,
    subgroup: &str,
    channel: &str,
    domains: &[CpuDomainInfo],
) -> (r: ChannelRoute)
    ensures
        r == route_of(group@, subgroup@, channel@, domains@),
        r matches ChannelRoute::CpuCore(at) ==> at < domains@.len(),
{
    proof {
        distinct_groups();
    }
    if same_text(group, "CPU Stats") && same_text(subgroup, CPU_FREQ_CORE_SUBG) {
        if let Some(at) = cpu_channel_domain_index(channel, domains) {
            return ChannelRoute::CpuCore(at);
        }
    }
    if same_text(group, "GPU Stats") && same_text(subgroup, GPU_FREQ_DICE_SUBG) && same_text(
        channel,
        "GPUPH",
    ) {
        return ChannelRoute::Gpu;
    }
    if same_text(group, "Energy Model") {
        if let Some(rail) = power_rail(channel) {
            return ChannelRoute::Power(rail);
        }
    }
    ChannelRoute::Ignored
}

/// The names of the three groups differ.
proof fn distinct_groups()
    ensures
        "CPU Stats"@ != "GPU Stats"@,
        "CPU Stats"@ != "Energy Model"@,
        "GPU Stats"@ != "Energy Model"@,
{
    reveal_strlit("CPU Stats");
    reveal_strlit("GPU Stats");
    reveal_strlit("Energy Model");
    assert("CPU Stats"@[0] == 'C');
    assert("GPU Stats"@[0] == 'G');
    assert("Energy Model"@[0] == 'E');
}

/// Whether a channel is subscribed to.
pub open spec fn subscribed(group: Seq<char>, subgroup: Seq<char>, channel: Seq<char>) -> bool {
    ||| group == "Energy Model"@ && rail_of(channel) is Some
    ||| group == "CPU Stats"@ && subgroup == CPU_FREQ_CORE_SUBG@
    ||| group == "GPU Stats"@ && subgroup == GPU_FREQ_DICE_SUBG@
}

/// Selects the channels to subscribe to.
pub fn ioreport_channels_filter(group: &str, subgroup: &str, channel: &str, _unit: &str) -> (r:
    bool)
    ensures
        r == subscribed(group@, subgroup@, channel@),
{
    proof {
        distinct_groups();
    }
    if same_text(group, "Energy Model") {
        return same_text(channel, "GPU Energy") || ends_with(channel, "CPU Energy")
            || starts_with(channel, "ANE") || starts_with(channel, "DRAM") || starts_with(
            channel,
            "GPU SRAM",
        );
    }
    if same_text(group, "CPU Stats") {
        return same_text(subgroup, CPU_FREQ_CORE_SUBG);
    }
    same_text(group, "GPU Stats") && same_text(subgroup, GPU_FREQ_DICE_SUBG)
}

/// The subscription and the use of channels agree: every channel that is used
/// is subscribed to, and one that is subscribed to is left unused only if it is
/// a CPU channel of no known domain or a GPU channel other than `GPUPH`.
pub proof fn used_channels_are_subscribed(
    group: Seq<char>,
    subgroup: Seq<char>,
    channel: Seq<char>,
    domains: Seq<CpuDomainInfo>,
)
    ensures
        route_of(group, subgroup, channel, domains) != ChannelRoute::Ignored ==> subscribed(
            group,
            subgroup,
            channel,
        ),
        subscribed(group, subgroup, channel) && route_of(group, subgroup, channel, domains)
            == ChannelRoute::Ignored ==> {
            ||| group == "CPU Stats"@ && domain_of(channel, domains) is None
            ||| group == "GPU Stats"@ && channel != "GPUPH"@
        },
{
    distinct_groups();
}

} // verus!
