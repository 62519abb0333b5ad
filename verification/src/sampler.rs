//! Opening the hardware sources and turning what they report into metrics.
//!
//! The caller talks to the hardware. The rules here say what to open and read
//! next, which sensors count, and how the readings are put together.
use vstd::prelude::*;
use vstd::slice::slice_subrange;

use crate::arith::{mean, total, Real, WideReal};
use crate::metrics::{
    calc_cluster_usage_at_peak_freq, calc_freq_from_residencies, channel_route, is_valid_temp,
    states_cover, ChannelRoute, CoreUsageEntry, CpuUsageEntry, GpuUsageEntry, MemMetrics, Metrics,
    PowerMetrics, PowerRail, TempMetrics,
};
use crate::soc::{CpuDomainInfo, SocInfo};
use crate::text::starts_with;

verus! {

/// The elements of `items` that `keep` marks, in order.
pub open spec fn picked<T>(items: Seq<T>, keep: Seq<bool>) -> Seq<T>
    decreases items.len(),
{
    if items.len() == 0 {
        Seq::empty()
    } else {
        let rest = picked(items.drop_last(), keep.drop_last());
        if keep.last() {
            rest.push(items.last())
        } else {
            rest
        }
    }
}

/// Picking goes on element by element.
proof fn picked_push<T>(items: Seq<T>, keep: Seq<bool>, item: T, k: bool)
    ensures
        picked(items.push(item), keep.push(k)) == (if k {
            picked(items, keep).push(item)
        } else {
            picked(items, keep)
        }),
{
    assert(items.push(item).drop_last() =~= items);
    assert(keep.push(k).drop_last() =~= keep);
}

/// What a temperature sensor measures.
#[derive(Debug, Clone, Copy, PartialEq, Eq, Structural)]
pub enum SensorKind {
    Cpu,
    Gpu,
}

/// What the SMC key measures, by its name: `Tp`, `Te` and `Ts` are CPU
/// temperatures, `Tg` is a GPU temperature.
pub open spec fn kind_of(name: Seq<char>) -> Option<SensorKind> {
    if crate::text::has_prefix(name, "Tp"@) || crate::text::has_prefix(name, "Te"@)
        || crate::text::has_prefix(name, "Ts"@) {
        Some(SensorKind::Cpu)
    } else if crate::text::has_prefix(name, "Tg"@) {
        Some(SensorKind::Gpu)
    } else {
        None
    }
}

/// Classifies an SMC key.
fn sensor_kind(name: &str) -> (r: Option<SensorKind>)
    ensures
        r == kind_of(name@),
{
    if starts_with(name, "Tp") || starts_with(name, "Te") || starts_with(name, "Ts") {
        Some(SensorKind::Cpu)
    } else if starts_with(name, "Tg") {
        Some(SensorKind::Gpu)
    } else {
        None
    }
}

/// Marks the keys that measure a temperature.
pub open spec fn sensor_marks(names: Seq<String>) -> Seq<bool> {
    names.map_values(|n: String| kind_of(n@) is Some)
}

/// Marks the keys that measure `kind` and could be read.
pub open spec fn kept_marks(keys: Seq<String>, readable: Seq<bool>, kind: SensorKind) -> Seq<bool> {
    Seq::new(readable.len(), |i: int| readable[i] && kind_of(keys[i]@) == Some(kind))
}

/// A search of the SMC keys for temperature sensors that can be read.
///
/// Every key that may be one is tried once: `pending` names the next to try,
/// `answer` takes the outcome.
pub struct SmcScan {
    keys: Vec<String>,
    cpu_keys: Vec<String>,
    gpu_keys: Vec<String>,
    next: usize,
    readable: Ghost<Seq<bool>>,
}

impl SmcScan {
    /// The keys to try.
    pub closed spec fn keys(&self) -> Seq<String> {
        self.keys@
    }

    /// The outcomes so far.
    pub closed spec fn readable(&self) -> Seq<bool> {
        self.readable@
    }

    /// The state is what the outcomes so far make it.
    pub closed spec fn wf(&self) -> bool {
        let n = self.next as int;
        &&& n == self.readable@.len() <= self.keys@.len()
        &&& forall|i: int| 0 <= i < self.keys@.len() ==> kind_of(#[trigger] self.keys@[i]@) is Some
        &&& self.cpu_keys@ == picked(
            self.keys@.take(n),
            kept_marks(self.keys@, self.readable@, SensorKind::Cpu),
        )
        &&& self.gpu_keys@ == picked(
            self.keys@.take(n),
            kept_marks(self.keys@, self.readable@, SensorKind::Gpu),
        )
    }

    /// The key to try next, if any is left.
    pub fn pending(&self) -> (r: Option<&String>)
        requires
            self.wf(),
        ensures
            match r {
                Some(key) => self.readable().len() < self.keys().len() && *key
                    == self.keys()[self.readable().len() as int],
                None => self.readable().len() == self.keys().len(),
            },
    {
        if self.next < self.keys.len() {
            Some(&self.keys[self.next])
        } else {
            None
        }
    }

    /// Takes whether the pending key could be read.
    pub fn answer(&mut self, readable: bool)
        requires
            old(self).wf(),
            old(self).readable().len() < old(self).keys().len(),
        ensures
            final(self).wf(),
            final(self).keys() == old(self).keys(),
            final(self).readable() == old(self).readable().push(readable),
    {
        let at: usize = self.next;
        assert(at < self.keys.len());
        proof {
            let n = at as int;
            let item = self.keys@[n];
            let answers = self.readable@.push(readable);
            assert(self.keys@.take(n + 1) =~= self.keys@.take(n).push(item));
            assert(kept_marks(self.keys@, answers, SensorKind::Cpu) =~= kept_marks(
                self.keys@,
                self.readable@,
                SensorKind::Cpu,
            ).push(readable && kind_of(item@) == Some(SensorKind::Cpu)));
            assert(kept_marks(self.keys@, answers, SensorKind::Gpu) =~= kept_marks(
                self.keys@,
                self.readable@,
                SensorKind::Gpu,
            ).push(readable && kind_of(item@) == Some(SensorKind::Gpu)));
            picked_push(
                self.keys@.take(n),
                kept_marks(self.keys@, self.readable@, SensorKind::Cpu),
                item,
                readable && kind_of(item@) == Some(SensorKind::Cpu),
            );
            picked_push(
                self.keys@.take(n),
                kept_marks(self.keys@, self.readable@, SensorKind::Gpu),
                item,
                readable && kind_of(item@) == Some(SensorKind::Gpu),
            );
        }
        if readable {
            let key = self.keys[at].clone();
            match sensor_kind(key.as_str()) {
                Some(SensorKind::Cpu) => self.cpu_keys.push(key),
                _ => self.gpu_keys.push(key),
            }
        }
        self.next = at + 1;
        self.readable = Ghost(self.readable@.push(readable));
    }

    /// The readable CPU and GPU sensors, once every key was tried.
    pub fn finish(self) -> (r: (Vec<String>, Vec<String>))
        requires
            self.wf(),
            self.readable().len() == self.keys().len(),
        ensures
            r.0@ == picked(
                self.keys(),
                kept_marks(self.keys(), self.readable(), SensorKind::Cpu),
            ),
            r.1@ == picked(
                self.keys(),
                kept_marks(self.keys(), self.readable(), SensorKind::Gpu),
            ),
    {
        assert(self.keys@.take(self.next as int) =~= self.keys@);
        (self.cpu_keys, self.gpu_keys)
    }
}

/// Starts the search for temperature sensors among the keys of the SMC. Where
/// the keys could not be listed there is nothing to search.
pub fn init_smc(names: Option<Vec<String>>) -> (r: SmcScan)
    ensures
        r.wf(),
        r.readable() == Seq::<bool>::empty(),
        match names {
            Some(names) => r.keys() == picked(names@, sensor_marks(names@)),
            None => r.keys() == Seq::<String>::empty(),
        },
{
    let mut keys: Vec<String> = Vec::new();
    if let Some(list) = &names {
        let ghost marks = sensor_marks(list@);
        let mut i: usize = 0;
        while i < list.len()
            invariant
                i <= list@.len(),
                marks == sensor_marks(list@),
                keys@ == picked(list@.take(i as int), marks.take(i as int)),
                forall|j: int| 0 <= j < keys@.len() ==> kind_of(#[trigger] keys@[j]@) is Some,
            decreases list@.len() - i,
        {
            let kind = sensor_kind(list[i].as_str());
            proof {
                assert(list@.take(i + 1) =~= list@.take(i as int).push(list@[i as int]));
                assert(marks.take(i + 1) =~= marks.take(i as int).push(kind is Some));
                picked_push(list@.take(i as int), marks.take(i as int), list@[i as int], kind is Some);
            }
            if kind.is_some() {
                keys.push(list[i].clone());
            }
            i += 1;
        }
        assert(list@.take(i as int) =~= list@);
        assert(marks.take(i as int) =~= marks);
    }
    let ghost none = Seq::<bool>::empty();
    assert(keys@.take(0) =~= Seq::<String>::empty());
    SmcScan { keys, cpu_keys: Vec::new(), gpu_keys: Vec::new(), next: 0, readable: Ghost(none) }
}

/// Where the temperatures are read.
#[derive(Debug, Clone, Copy, PartialEq, Eq, Structural)]
pub enum TempSource {
    Smc,
    Hid,
}

/// Whether `keep` is the outcome of testing each of `values`.
pub open spec fn tested<F: PartialOrd + From<u8>>(values: Seq<F>, keep: Seq<bool>) -> bool {
    &&& keep.len() == values.len()
    &&& forall|i: int|
        0 <= i < values.len() ==> crate::metrics::valid_temp(values[i], #[trigger] keep[i])
}

/// Keeps the plausible temperatures.
fn plausible<F: Real>(values: &[F]) -> (r: Vec<F>)
    ensures
        exists|keep: Seq<bool>| #[trigger] tested(values@, keep) && r@ == picked(values@, keep),
{
    let mut out: Vec<F> = Vec::new();
    let ghost mut keep: Seq<bool> = Seq::empty();
    let mut i: usize = 0;
    while i < values.len()
        invariant
            i <= values@.len(),
            tested(values@.take(i as int), keep),
            out@ == picked(values@.take(i as int), keep),
        decreases values@.len() - i,
    {
        let ok = is_valid_temp(&values[i]);
        proof {
            assert(values@.take(i + 1) =~= values@.take(i as int).push(values@[i as int]));
            picked_push(values@.take(i as int), keep, values@[i as int], ok);
            keep = keep.push(ok);
        }
        if ok {
            out.push(values[i]);
        }
        i += 1;
    }
    assert(values@.take(i as int) =~= values@);
    out
}

/// Whether `avg` is the mean of the plausible ones among `values`.
pub open spec fn plausible_mean<F: Real>(values: Seq<F>, avg: F) -> bool {
    exists|keep: Seq<bool>| #[trigger]
        tested(values, keep) && crate::arith::mean_is(picked(values, keep), avg)
}

/// The first failure among some readings.
pub open spec fn first_error<T>(readings: Seq<Result<T, String>>) -> Option<String>
    decreases readings.len(),
{
    if readings.len() == 0 {
        None
    } else {
        match readings[0] {
            Err(e) => Some(e),
            Ok(_) => first_error(readings.drop_first()),
        }
    }
}

/// The values of readings none of which failed.
pub open spec fn values_of<T>(readings: Seq<Result<T, String>>) -> Seq<T> {
    readings.map_values(|x: Result<T, String>| x->Ok_0)
}

/// Readings before the first failure do not count in finding it.
proof fn first_error_skips<T>(readings: Seq<Result<T, String>>, n: int)
    requires
        0 <= n <= readings.len(),
        forall|i: int| 0 <= i < n ==> #[trigger] readings[i] is Ok,
    ensures
        first_error(readings) == first_error(readings.skip(n)),
    decreases n,
{
    if n == 0 {
        assert(readings.skip(0) =~= readings);
    } else {
        assert(readings[0] is Ok);
        let rest = readings.drop_first();
        assert forall|i: int| 0 <= i < n - 1 implies #[trigger] rest[i] is Ok by {
            assert(rest[i] == readings[i + 1]);
        }
        first_error_skips(rest, n - 1);
        assert(rest.skip(n - 1) =~= readings.skip(n));
    }
}

/// Collects the values of readings, or gives the first failure.
fn all_read<F: Real>(readings: &[Result<F, String>]) -> (r: Result<Vec<F>, String>)
    ensures
        match r {
            Err(e) => first_error(readings@) == Some(e),
            Ok(values) => first_error(readings@) is None && values@ == values_of(readings@),
        },
{
    let mut values: Vec<F> = Vec::new();
    let mut i: usize = 0;
    while i < readings.len()
        invariant
            i <= readings@.len(),
            forall|j: int| 0 <= j < i ==> #[trigger] readings@[j] is Ok,
            values@ == values_of(readings@.take(i as int)),
        decreases readings@.len() - i,
    {
        match &readings[i] {
            Ok(x) => {
                values.push(*x);
                assert(values@ =~= values_of(readings@.take(i + 1)));
            },
            Err(e) => {
                proof {
                    first_error_skips(readings@, i as int);
                    assert(readings@.skip(i as int)[0] == readings@[i as int]);
                }
                return Err(e.clone());
            },
        }
        i += 1;
    }
    proof {
        first_error_skips(readings@, i as int);
        assert(readings@.take(i as int) =~= readings@);
    }
    Ok(values)
}

/// What an HID sensor measures, by its name.
pub open spec fn hid_kind_of(name: Seq<char>) -> Option<SensorKind> {
    if crate::text::has_prefix(name, "pACC MTR Temp Sensor"@) || crate::text::has_prefix(
        name,
        "eACC MTR Temp Sensor"@,
    ) {
        Some(SensorKind::Cpu)
    } else if crate::text::has_prefix(name, "GPU MTR Temp Sensor"@) {
        Some(SensorKind::Gpu)
    } else {
        None
    }
}

/// Classifies an HID sensor.
fn hid_sensor_kind(name: &str) -> (r: Option<SensorKind>)
    ensures
        r == hid_kind_of(name@),
{
    if starts_with(name, "pACC MTR Temp Sensor") || starts_with(name, "eACC MTR Temp Sensor") {
        Some(SensorKind::Cpu)
    } else if starts_with(name, "GPU MTR Temp Sensor") {
        Some(SensorKind::Gpu)
    } else {
        None
    }
}

/// Whether `keep` marks the sensors of a kind whose reading is plausible.
pub open spec fn tested_sensors<F: PartialOrd + From<u8>>(
    sensors: Seq<(String, F)>,
    kind: SensorKind,
    keep: Seq<bool>,
) -> bool {
    &&& keep.len() == sensors.len()
    &&& forall|i: int|
        0 <= i < sensors.len() ==> if hid_kind_of(sensors[i].0@) == Some(kind) {
            crate::metrics::valid_temp(sensors[i].1, #[trigger] keep[i])
        } else {
            !keep[i]
        }
}

/// The readings of some sensors.
pub open spec fn sensor_values<F>(sensors: Seq<(String, F)>) -> Seq<F> {
    sensors.map_values(|s: (String, F)| s.1)
}

/// Whether `avg` is the mean of the plausible readings of the sensors of a kind.
pub open spec fn sensor_mean<F: Real>(sensors: Seq<(String, F)>, kind: SensorKind, avg: F) -> bool {
    exists|keep: Seq<bool>| #[trigger]
        tested_sensors(sensors, kind, keep) && crate::arith::mean_is(
            picked(sensor_values(sensors), keep),
            avg,
        )
}

/// Picked elements are elements that were marked.
proof fn picked_was_marked<T>(items: Seq<T>, keep: Seq<bool>, k: int) -> (at: int)
    requires
        keep.len() == items.len(),
        0 <= k < picked(items, keep).len(),
    ensures
        0 <= at < items.len(),
        keep[at],
        items[at] == picked(items, keep)[k],
    decreases items.len(),
{
    let n = items.len() - 1;
    if keep.last() && k == picked(items, keep).len() - 1 {
        n as int
    } else {
        picked_was_marked(items.drop_last(), keep.drop_last(), k)
    }
}

/// A scan keeps a key only if it could be read, and only as the kind of sensor
/// that its name says; so no key is kept as both.
pub proof fn kept_sensors_are_readable(keys: Seq<String>, readable: Seq<bool>, kind: SensorKind)
    requires
        readable.len() == keys.len(),
    ensures
        forall|k: int|
            0 <= k < picked(keys, kept_marks(keys, readable, kind)).len() ==> {
                let key = #[trigger] picked(keys, kept_marks(keys, readable, kind))[k];
                &&& kind_of(key@) == Some(kind)
                &&& exists|i: int| 0 <= i < keys.len() && keys[i] == key && #[trigger] readable[i]
            },
{
    let marks = kept_marks(keys, readable, kind);
    assert forall|k: int| 0 <= k < picked(keys, marks).len() implies {
        let key = #[trigger] picked(keys, marks)[k];
        &&& kind_of(key@) == Some(kind)
        &&& exists|i: int| 0 <= i < keys.len() && keys[i] == key && #[trigger] readable[i]
    } by {
        let at = picked_was_marked(keys, marks, k);
        assert(readable[at]);
    }
}

/// What is known of the machine once its sources are open.
pub struct Sampler {
    pub soc: SocInfo,
    pub smc_cpu_keys: Vec<String>,
    pub smc_gpu_keys: Vec<String>,
}

impl Sampler {
    /// Puts together what opening the sources found.
    pub fn new(soc: SocInfo, smc_cpu_keys: Vec<String>, smc_gpu_keys: Vec<String>) -> (r: Self)
        ensures
            r.soc == soc,
            r.smc_cpu_keys == smc_cpu_keys,
            r.smc_gpu_keys == smc_gpu_keys,
    {
        Sampler { soc, smc_cpu_keys, smc_gpu_keys }
    }

    /// Where to read the temperatures: from the SMC if it has CPU sensors, else
    /// from the HID sensors.
    pub fn get_temp(&self) -> (r: TempSource)
        ensures
            r == (if self.smc_cpu_keys@.len() > 0 {
                TempSource::Smc
            } else {
                TempSource::Hid
            }),
    {
        if self.smc_cpu_keys.len() > 0 {
            TempSource::Smc
        } else {
            TempSource::Hid
        }
    }

    /// Averages the readings of the SMC's CPU and GPU keys, each in the order of
    /// its keys. The first key that could not be read makes the whole fail, the
    /// CPU keys coming before the GPU keys.
    pub fn get_temp_smc<F: Real>(cpu: &[Result<F, String>], gpu: &[Result<F, String>]) -> (r: Result<
        TempMetrics<F>,
        String,
    >)
        ensures
            match (first_error(cpu@), first_error(gpu@)) {
                (Some(e), _) => r == Err::<TempMetrics<F>, String>(e),
                (None, Some(e)) => r == Err::<TempMetrics<F>, String>(e),
                (None, None) => r matches Ok(t) && plausible_mean(values_of(cpu@), t.cpu_avg)
                    && plausible_mean(values_of(gpu@), t.gpu_avg),
            },
    {
        let cpu = match all_read(cpu) {
            Ok(values) => values,
            Err(e) => return Err(e),
        };
        let gpu = match all_read(gpu) {
            Ok(values) => values,
            Err(e) => return Err(e),
        };
        Ok(
            TempMetrics {
                cpu_avg: mean(plausible(cpu.as_slice()).as_slice()),
                gpu_avg: mean(plausible(gpu.as_slice()).as_slice()),
            },
        )
    }

    /// Averages the named readings of the HID sensors.
    pub fn get_temp_hid<F: Real>(metrics: &[(String, F)]) -> (r: TempMetrics<F>)
        ensures
            sensor_mean(metrics@, SensorKind::Cpu, r.cpu_avg),
            sensor_mean(metrics@, SensorKind::Gpu, r.gpu_avg),
    {
        let mut cpu: Vec<F> = Vec::new();
        let mut gpu: Vec<F> = Vec::new();
        let ghost mut keep_cpu: Seq<bool> = Seq::empty();
        let ghost mut keep_gpu: Seq<bool> = Seq::empty();
        let ghost values = sensor_values(metrics@);
        let mut i: usize = 0;
        while i < metrics.len()
            invariant
                i <= metrics@.len(),
                values == sensor_values(metrics@),
                tested_sensors(metrics@.take(i as int), SensorKind::Cpu, keep_cpu),
                tested_sensors(metrics@.take(i as int), SensorKind::Gpu, keep_gpu),
                cpu@ == picked(values.take(i as int), keep_cpu),
                gpu@ == picked(values.take(i as int), keep_gpu),
            decreases metrics@.len() - i,
        {
            let kind = hid_sensor_kind(metrics[i].0.as_str());
            let value: F = metrics[i].1;
            let is_cpu = matches!(kind, Some(SensorKind::Cpu));
            let is_gpu = matches!(kind, Some(SensorKind::Gpu));
            let ok = kind.is_some() && is_valid_temp(&value);
            proof {
                assert(values.take(i + 1) =~= values.take(i as int).push(value));
                picked_push(values.take(i as int), keep_cpu, value, is_cpu && ok);
                picked_push(values.take(i as int), keep_gpu, value, is_gpu && ok);
                keep_cpu = keep_cpu.push(is_cpu && ok);
                keep_gpu = keep_gpu.push(is_gpu && ok);
            }
            if is_cpu && ok {
                cpu.push(value);
            }
            if is_gpu && ok {
                gpu.push(value);
            }
            i += 1;
        }
        assert(metrics@.take(i as int) =~= metrics@);
        assert(values.take(i as int) =~= values);
        TempMetrics { cpu_avg: mean(cpu.as_slice()), gpu_avg: mean(gpu.as_slice()) }
    }

    /// Names the four memory readings; each pair is usage, then total. Where
    /// either could not be read the whole fails, that of the RAM first.
    pub fn get_mem(ram: Result<(u64, u64), String>, swap: Result<(u64, u64), String>) -> (r: Result<
        MemMetrics,
        String,
    >)
        ensures
            match (ram, swap) {
                (Err(e), _) => r == Err::<MemMetrics, String>(e),
                (Ok(_), Err(e)) => r == Err::<MemMetrics, String>(e),
                (Ok(ram), Ok(swap)) => {
                    &&& r matches Ok(m)
                    &&& m.ram_usage == ram.0
                    &&& m.ram_total == ram.1
                    &&& m.swap_usage == swap.0
                    &&& m.swap_total == swap.1
                },
            },
    {
        let (ram_usage, ram_total) = match ram {
            Ok(pair) => pair,
            Err(e) => return Err(e),
        };
        let (swap_usage, swap_total) = match swap {
            Ok(pair) => pair,
            Err(e) => return Err(e),
        };
        Ok(MemMetrics { ram_total, ram_usage, swap_total, swap_usage })
    }
}

/// What a counter channel reported.
#[derive(Debug)]
pub enum Reading<F> {
    /// The time that a core or the GPU spent in each of its states.
    States(Vec<(String, i64)>),
    /// The power, or why it could not be told.
    Watts(Result<F, String>),
    /// The channel was not read.
    Unread,
}

/// One channel of a counter sample.
#[derive(Debug)]
pub struct Sample<F> {
    pub group: String,
    pub subgroup: String,
    pub channel: String,
    pub reading: Reading<F>,
}

/// The cores of one CPU domain that reported.
#[derive(Debug)]
pub struct DomainCores<F> {
    pub name: String,
    pub units: u32,
    pub cores: Vec<CoreUsageEntry<F>>,
}

/// The power readings that count towards each rail, in reading order.
#[derive(Debug)]
pub struct PowerReadings<F> {
    pub gpu: Vec<F>,
    pub cpu: Vec<F>,
    pub ane: Vec<F>,
    pub ram: Vec<F>,
    pub gpu_ram: Vec<F>,
}

/// A counter sample sorted by use.
#[derive(Debug)]
pub struct Readings<F> {
    /// The CPU domains of which any core reported, in the order of the chip.
    pub cpu: Vec<DomainCores<F>>,
    pub gpu: Vec<GpuUsageEntry<F>>,
    pub power: PowerReadings<F>,
}

impl<F> Sample<F> {
    /// What the channel is used for.
    pub open spec fn route(&self, domains: Seq<CpuDomainInfo>) -> ChannelRoute {
        crate::metrics::route_of(self.group@, self.subgroup@, self.channel@, domains)
    }
}

/// Whether `acts` holds the frequency and usage of each core or GPU channel
/// among the samples, read against the frequency table of its domain. The table
/// of the GPU starts with its off state, which is left out.
pub open spec fn acts_are<F, W: WideReal<F>>(
    samples: Seq<Sample<F>>,
    soc: SocInfo,
    acts: Seq<(u32, F)>,
) -> bool {
    &&& acts.len() == samples.len()
    &&& forall|i: int| 0 <= i < samples.len() ==> act_is::<F, W>(samples[i], soc, #[trigger] acts[i])
}

/// Whether `act` is the frequency and usage that a sample reports, if it
/// reports any.
pub open spec fn act_is<F, W: WideReal<F>>(x: Sample<F>, soc: SocInfo, act: (u32, F)) -> bool {
    match (x.route(soc.cpu_domains@), x.reading) {
        (
            ChannelRoute::CpuCore(d),
            Reading::States(items),
        ) => crate::metrics::activity_is::<F, W>(
            items@,
            soc.cpu_domains@[d as int].freqs_mhz@,
            act,
        ),
        (ChannelRoute::Gpu, Reading::States(items)) => crate::metrics::activity_is::<F, W>(
            items@,
            soc.gpu_freqs@.skip(1),
            act,
        ),
        _ => true,
    }
}

/// Whether a sample holds what its channel is used for: of a core or the GPU,
/// states that can be read against the frequency table that they belong to; of
/// a rail, its power. Nothing is asked of a channel that is not used.
pub open spec fn legible<F>(x: Sample<F>, soc: SocInfo) -> bool {
    match x.route(soc.cpu_domains@) {
        ChannelRoute::CpuCore(d) => x.reading matches Reading::States(items)
            && crate::metrics::covers(items@, soc.cpu_domains@[d as int].freqs_mhz@.len()),
        ChannelRoute::Gpu => x.reading matches Reading::States(items) && soc.gpu_freqs@.len() > 0
            && crate::metrics::covers(items@, (soc.gpu_freqs@.len() - 1) as nat),
        ChannelRoute::Power(_) => x.reading is Watts,
        ChannelRoute::Ignored => true,
    }
}

/// Whether every sample up to the first failure is legible.
pub open spec fn legible_to_failure<F>(samples: Seq<Sample<F>>, soc: SocInfo) -> bool {
    forall|i: int|
        0 <= i < samples.len() && failure_of(#[trigger] samples.take(i), soc.cpu_domains@) is None
            ==> legible(samples[i], soc)
}

/// What the cores of domain `d` reported.
pub open spec fn cores_of<F>(
    samples: Seq<Sample<F>>,
    acts: Seq<(u32, F)>,
    domains: Seq<CpuDomainInfo>,
    d: int,
) -> Seq<CoreUsageEntry<F>>
    decreases samples.len(),
{
    if samples.len() == 0 {
        Seq::empty()
    } else {
        let rest = cores_of(samples.drop_last(), acts.drop_last(), domains, d);
        match (samples.last().route(domains), samples.last().reading) {
            (ChannelRoute::CpuCore(at), Reading::States(_)) => if at == d {
                rest.push(CoreUsageEntry { freq_mhz: acts.last().0, usage: acts.last().1 })
            } else {
                rest
            },
            _ => rest,
        }
    }
}

/// What the GPU reported.
pub open spec fn gpu_of<F>(
    samples: Seq<Sample<F>>,
    acts: Seq<(u32, F)>,
    soc: SocInfo,
) -> Seq<GpuUsageEntry<F>>
    decreases samples.len(),
{
    if samples.len() == 0 {
        Seq::empty()
    } else {
        let rest = gpu_of(samples.drop_last(), acts.drop_last(), soc);
        match (samples.last().route(soc.cpu_domains@), samples.last().reading) {
            (ChannelRoute::Gpu, Reading::States(_)) => rest.push(
                GpuUsageEntry {
                    name: samples.last().channel,
                    units: soc.gpu_cores as u32,
                    freq_mhz: acts.last().0,
                    usage: acts.last().1,
                },
            ),
            _ => rest,
        }
    }
}

/// The power readings that count towards a rail.
pub open spec fn watts_of<F>(
    samples: Seq<Sample<F>>,
    domains: Seq<CpuDomainInfo>,
    rail: PowerRail,
) -> Seq<F>
    decreases samples.len(),
{
    if samples.len() == 0 {
        Seq::empty()
    } else {
        let rest = watts_of(samples.drop_last(), domains, rail);
        match (samples.last().route(domains), samples.last().reading) {
            (ChannelRoute::Power(r), Reading::Watts(Ok(w))) => if r == rail {
                rest.push(w)
            } else {
                rest
            },
            _ => rest,
        }
    }
}

/// The first failure among the power readings that count.
pub open spec fn failure_of<F>(samples: Seq<Sample<F>>, domains: Seq<CpuDomainInfo>) -> Option<
    String,
>
    decreases samples.len(),
{
    if samples.len() == 0 {
        None
    } else {
        match failure_of(samples.drop_last(), domains) {
            Some(e) => Some(e),
            None => match (samples.last().route(domains), samples.last().reading) {
                (ChannelRoute::Power(_), Reading::Watts(Err(e))) => Some(e),
                _ => None,
            },
        }
    }
}

/// The positions of the first `n` domains of which any core reported.
pub open spec fn reporting<F>(
    samples: Seq<Sample<F>>,
    acts: Seq<(u32, F)>,
    domains: Seq<CpuDomainInfo>,
    n: int,
) -> Seq<int>
    decreases n,
{
    if n <= 0 {
        Seq::empty()
    } else if cores_of(samples, acts, domains, n - 1).len() > 0 {
        reporting(samples, acts, domains, n - 1).push(n - 1)
    } else {
        reporting(samples, acts, domains, n - 1)
    }
}

/// Whether `entry` holds what domain `d` reported.
pub open spec fn holds_domain<F>(
    entry: DomainCores<F>,
    samples: Seq<Sample<F>>,
    acts: Seq<(u32, F)>,
    domains: Seq<CpuDomainInfo>,
    d: int,
) -> bool {
    &&& entry.name == domains[d].name
    &&& entry.units == domains[d].units
    &&& entry.cores@ == cores_of(samples, acts, domains, d)
}

/// Whether `x` holds the samples sorted by use, with these frequencies and
/// usages.
pub open spec fn sorted_by_use<F>(
    x: Readings<F>,
    samples: Seq<Sample<F>>,
    acts: Seq<(u32, F)>,
    soc: SocInfo,
) -> bool {
    let domains = soc.cpu_domains@;
    let at = reporting(samples, acts, domains, domains.len() as int);
    &&& x.cpu@.len() == at.len()
    &&& forall|k: int|
        0 <= k < at.len() ==> holds_domain(#[trigger] x.cpu@[k], samples, acts, domains, at[k])
    &&& x.gpu@ == gpu_of(samples, acts, soc)
    &&& x.power.gpu@ == watts_of(samples, domains, PowerRail::Gpu)
    &&& x.power.cpu@ == watts_of(samples, domains, PowerRail::Cpu)
    &&& x.power.ane@ == watts_of(samples, domains, PowerRail::Ane)
    &&& x.power.ram@ == watts_of(samples, domains, PowerRail::Ram)
    &&& x.power.gpu_ram@ == watts_of(samples, domains, PowerRail::GpuRam)
}

/// Whether `x` holds the samples sorted by use.
pub open spec fn readings_are<F, W: WideReal<F>>(
    x: Readings<F>,
    samples: Seq<Sample<F>>,
    soc: SocInfo,
) -> bool {
    exists|acts: Seq<(u32, F)>| #[trigger]
        acts_are::<F, W>(samples, soc, acts) && sorted_by_use(x, samples, acts, soc)
}

/// A failure among the first `n` samples is the first of all.
proof fn failure_stays<F>(samples: Seq<Sample<F>>, domains: Seq<CpuDomainInfo>, n: int)
    requires
        0 <= n <= samples.len(),
        failure_of(samples.take(n), domains) is Some,
    ensures
        failure_of(samples, domains) == failure_of(samples.take(n), domains),
    decreases samples.len() - n,
{
    if n == samples.len() {
        assert(samples.take(n) =~= samples);
    } else {
        assert(samples.take(n + 1).drop_last() =~= samples.take(n));
        failure_stays(samples, domains, n + 1);
    }
}

impl Sampler {
    /// Tests whether a sample holds what its channel is used for.
    pub fn can_read<F>(&self, x: &Sample<F>) -> (r: bool)
        ensures
            r == legible(*x, self.soc),
    {
        let route = channel_route(
            x.group.as_str(),
            x.subgroup.as_str(),
            x.channel.as_str(),
            self.soc.cpu_domains.as_slice(),
        );
        match (route, &x.reading) {
            (ChannelRoute::CpuCore(at), Reading::States(items)) => states_cover(
                items.as_slice(),
                self.soc.cpu_domains[at].freqs_mhz.as_slice(),
            ),
            (ChannelRoute::Gpu, Reading::States(items)) => {
                self.soc.gpu_freqs.len() > 0 && states_cover(
                    items.as_slice(),
                    slice_subrange(self.soc.gpu_freqs.as_slice(), 1, self.soc.gpu_freqs.len()),
                )
            },
            (ChannelRoute::Power(_), Reading::Watts(_)) => true,
            (ChannelRoute::Ignored, _) => true,
            _ => false,
        }
    }

    /// Sorts a counter sample by use. The first power reading that counts and
    /// failed makes the whole sample fail.
    pub fn get_readings<F: Real, W: WideReal<F>>(&self, samples: &[Sample<F>]) -> (r: Result<
        Readings<F>,
        String,
    >)
        requires
            legible_to_failure(samples@, self.soc),
        ensures
            match r {
                Err(e) => failure_of(samples@, self.soc.cpu_domains@) == Some(e),
                Ok(x) => {
                    &&& failure_of(samples@, self.soc.cpu_domains@) is None
                    &&& readings_are::<F, W>(x, samples@, self.soc)
                },
            },
    {
        let domains = self.soc.cpu_domains.as_slice();
        let mut cores: Vec<Vec<CoreUsageEntry<F>>> = Vec::new();
        let mut d: usize = 0;
        while d < domains.len()
            invariant
                d <= domains@.len(),
                cores@.len() == d,
                forall|k: int| 0 <= k < d ==> (#[trigger] cores@[k])@.len() == 0,
            decreases domains@.len() - d,
        {
            cores.push(Vec::new());
            d += 1;
        }
        let mut gpu: Vec<GpuUsageEntry<F>> = Vec::new();
        let mut power = PowerReadings {
            gpu: Vec::new(),
            cpu: Vec::new(),
            ane: Vec::new(),
            ram: Vec::new(),
            gpu_ram: Vec::new(),
        };
        let zero: F = F::default();
        let ghost mut acts: Seq<(u32, F)> = Seq::empty();
        assert(samples@.take(0) =~= Seq::<Sample<F>>::empty());
        let mut i: usize = 0;
        while i < samples.len()
            invariant
                i <= samples@.len(),
                domains@ == self.soc.cpu_domains@,
                cores@.len() == domains@.len(),
                legible_to_failure(samples@, self.soc),
                acts_are::<F, W>(samples@.take(i as int), self.soc, acts),
                forall|k: int|
                    0 <= k < domains@.len() ==> (#[trigger] cores@[k])@ == cores_of(
                        samples@.take(i as int),
                        acts,
                        domains@,
                        k,
                    ),
                gpu@ == gpu_of(samples@.take(i as int), acts, self.soc),
                power.gpu@ == watts_of(samples@.take(i as int), domains@, PowerRail::Gpu),
                power.cpu@ == watts_of(samples@.take(i as int), domains@, PowerRail::Cpu),
                power.ane@ == watts_of(samples@.take(i as int), domains@, PowerRail::Ane),
                power.ram@ == watts_of(samples@.take(i as int), domains@, PowerRail::Ram),
                power.gpu_ram@ == watts_of(samples@.take(i as int), domains@, PowerRail::GpuRam),
                failure_of(samples@.take(i as int), domains@) is None,
            decreases samples@.len() - i,
        {
            let x = &samples[i];
            let mut act: (u32, F) = (0, zero);
            assert(samples@.take(i + 1).drop_last() =~= samples@.take(i as int));
            assert(samples@.take(i + 1).last() == *x);
            assert(legible(samples@[i as int], self.soc));
            let route = channel_route(
                x.group.as_str(),
                x.subgroup.as_str(),
                x.channel.as_str(),
                domains,
            );
            match (route, &x.reading) {
                (ChannelRoute::CpuCore(at), Reading::States(items)) => {
                    act = calc_freq_from_residencies::<F, W>(
                        items.as_slice(),
                        domains[at].freqs_mhz.as_slice(),
                    );
                    cores[at].push(CoreUsageEntry { freq_mhz: act.0, usage: act.1 });
                },
                (ChannelRoute::Gpu, Reading::States(items)) => {
                    let table = slice_subrange(
                        self.soc.gpu_freqs.as_slice(),
                        1,
                        self.soc.gpu_freqs.len(),
                    );
                    assert(table@ =~= self.soc.gpu_freqs@.skip(1));
                    act = calc_freq_from_residencies::<F, W>(items.as_slice(), table);
                    gpu.push(
                        GpuUsageEntry {
                            name: x.channel.clone(),
                            units: self.soc.gpu_cores as u32,
                            freq_mhz: act.0,
                            usage: act.1,
                        },
                    );
                },
                (ChannelRoute::Power(rail), Reading::Watts(watts)) => {
                    match watts {
                        Err(e) => {
                            proof {
                                failure_stays(samples@, domains@, i + 1);
                            }
                            return Err(e.clone());
                        },
                        Ok(w) => match rail {
                            PowerRail::Gpu => power.gpu.push(*w),
                            PowerRail::Cpu => power.cpu.push(*w),
                            PowerRail::Ane => power.ane.push(*w),
                            PowerRail::Ram => power.ram.push(*w),
                            PowerRail::GpuRam => power.gpu_ram.push(*w),
                        },
                    }
                },
                _ => {},
            }
            proof {
                let before = acts;
                acts = acts.push(act);
                assert(acts.drop_last() =~= before);
                assert(acts_are::<F, W>(samples@.take(i + 1), self.soc, acts));
            }
            i += 1;
        }
        assert(samples@.take(i as int) =~= samples@);
        let mut cpu: Vec<DomainCores<F>> = Vec::new();
        let ghost all = cores@;
        let mut k: usize = 0;
        for mine in it: cores
            invariant
                it.seq() == all,
                k == it.index(),
                domains@ == self.soc.cpu_domains@,
                all.len() == domains@.len(),
                forall|j: int|
                    0 <= j < domains@.len() ==> (#[trigger] all[j])@ == cores_of(
                        samples@,
                        acts,
                        domains@,
                        j,
                    ),
                cpu@.len() == reporting(samples@, acts, domains@, k as int).len(),
                forall|j: int|
                    0 <= j < cpu@.len() ==> holds_domain(
                        #[trigger] cpu@[j],
                        samples@,
                        acts,
                        domains@,
                        reporting(samples@, acts, domains@, k as int)[j],
                    ),
        {
            assert(k < domains.len());
            assert(mine@ == all[k as int]@);
            if mine.len() > 0 {
                cpu.push(
                    DomainCores { name: domains[k].name.clone(), units: domains[k].units, cores: mine },
                );
            }
            k += 1;
        }
        let x = Readings { cpu, gpu, power };
        assert(sorted_by_use(x, samples@, acts, self.soc));
        Ok(x)
    }

    /// Takes a measurement from a counter sample and the other readings. It
    /// fails with the first failure of the counters, the memory and the
    /// temperatures, in this order. A rail that could not be read counts as zero.
    pub fn get_metrics<F: Real, W: WideReal<F>>(
        &self,
        samples: &[Sample<F>],
        memory: Result<MemMetrics, String>,
        temp: Result<TempMetrics<F>, String>,
        rails: Rails<F>,
    ) -> (r: Result<Metrics<F>, String>)
        requires
            legible_to_failure(samples@, self.soc),
        ensures
            outcome_is::<F, W>(samples@, self.soc, memory, temp, rails, r),
    {
        let readings = match self.get_readings::<F, W>(samples) {
            Ok(readings) => readings,
            Err(e) => return Err(e),
        };
        let memory = match memory {
            Ok(memory) => memory,
            Err(e) => return Err(e),
        };
        let temp = match temp {
            Ok(temp) => temp,
            Err(e) => return Err(e),
        };
        Ok(Self::measured(readings, memory, temp, rails))
    }

    /// Puts a measurement together.
    fn measured<F: Real>(
        readings: Readings<F>,
        memory: MemMetrics,
        temp: TempMetrics<F>,
        rails: Rails<F>,
    ) -> (r: Metrics<F>)
        ensures
            measures(r, readings, memory, temp, rails),
    {
        let mut cpu_usage: Vec<CpuUsageEntry<F>> = Vec::new();
        let ghost all = readings.cpu@;
        for entry in it: readings.cpu
            invariant
                it.seq() == all,
                cpu_usage@.len() == it.index(),
                forall|k: int|
                    0 <= k < cpu_usage@.len() ==> summarizes(#[trigger] cpu_usage@[k], all[k]),
        {
            let (freq_mhz, usage) = calc_cluster_usage_at_peak_freq(entry.cores.as_slice());
            cpu_usage.push(
                CpuUsageEntry {
                    name: entry.name,
                    units: entry.units,
                    freq_mhz,
                    usage,
                    cores: entry.cores,
                },
            );
        }
        let cpu = total(readings.power.cpu.as_slice());
        let gpu = total(readings.power.gpu.as_slice());
        let ane = total(readings.power.ane.as_slice());
        let ram = total(readings.power.ram.as_slice());
        let gpu_ram = total(readings.power.gpu_ram.as_slice());
        let processors = cpu.plus(gpu);
        let engines = processors.plus(ane);
        let memories = engines.plus(ram);
        let package = memories.plus(gpu_ram);
        assert(call_ensures(F::plus, (cpu, gpu), processors));
        assert(call_ensures(F::plus, (processors, ane), engines));
        assert(call_ensures(F::plus, (engines, ram), memories));
        let power = PowerMetrics {
            package,
            cpu,
            gpu,
            ram,
            gpu_ram,
            ane,
            board: or_zero(rails.board),
            battery: or_zero(rails.battery),
            dc_in: or_zero(rails.dc_in),
        };
        Metrics { temp, memory, cpu_usage, gpu_usage: readings.gpu, power }
    }
}

/// Whether `m` is the measurement that a sorted counter sample and the other
/// readings make.
pub open spec fn measures<F: Real>(
    m: Metrics<F>,
    readings: Readings<F>,
    memory: MemMetrics,
    temp: TempMetrics<F>,
    rails: Rails<F>,
) -> bool {
    &&& m.temp == temp
    &&& m.memory == memory
    &&& m.gpu_usage == readings.gpu
    &&& m.cpu_usage@.len() == readings.cpu@.len()
    &&& forall|k: int|
        0 <= k < m.cpu_usage@.len() ==> summarizes(#[trigger] m.cpu_usage@[k], readings.cpu@[k])
    &&& crate::arith::sum_is(readings.power.cpu@, m.power.cpu)
    &&& crate::arith::sum_is(readings.power.gpu@, m.power.gpu)
    &&& crate::arith::sum_is(readings.power.ane@, m.power.ane)
    &&& crate::arith::sum_is(readings.power.ram@, m.power.ram)
    &&& crate::arith::sum_is(readings.power.gpu_ram@, m.power.gpu_ram)
    &&& package_is(m.power)
    &&& given_or_zero(rails.board, m.power.board)
    &&& given_or_zero(rails.battery, m.power.battery)
    &&& given_or_zero(rails.dc_in, m.power.dc_in)
}

/// Whether `r` is what a measurement comes to: the first failure of the counters,
/// the memory and the temperatures, in this order, or else what the readings make.
pub open spec fn outcome_is<F: Real, W: WideReal<F>>(
    samples: Seq<Sample<F>>,
    soc: SocInfo,
    memory: Result<MemMetrics, String>,
    temp: Result<TempMetrics<F>, String>,
    rails: Rails<F>,
    r: Result<Metrics<F>, String>,
) -> bool {
    match (failure_of(samples, soc.cpu_domains@), memory, temp) {
        (Some(e), _, _) => r == Err::<Metrics<F>, String>(e),
        (None, Err(e), _) => r == Err::<Metrics<F>, String>(e),
        (None, Ok(_), Err(e)) => r == Err::<Metrics<F>, String>(e),
        (None, Ok(memory), Ok(temp)) => {
            &&& r matches Ok(m)
            &&& exists|x: Readings<F>| #[trigger]
                readings_are::<F, W>(x, samples, soc) && measures(m, x, memory, temp, rails)
        },
    }
}

/// The SMC key of the whole system's power.
pub const BOARD_KEY: &'static str = "PSTR";

/// The SMC key of the battery rail.
pub const BATTERY_KEY: &'static str = "PPBR";

/// The SMC key of the external DC input.
pub const DC_IN_KEY: &'static str = "PDTR";

/// The power readings that do not come from the counters, where there are any.
#[derive(Debug)]
pub struct Rails<F> {
    pub board: Option<F>,
    pub battery: Option<F>,
    pub dc_in: Option<F>,
}

/// Whether `x` is the reading, or zero if there is none.
pub open spec fn given_or_zero<F: Default>(reading: Option<F>, x: F) -> bool {
    match reading {
        Some(w) => x == w,
        None => call_ensures(F::default, (), x),
    }
}

fn or_zero<F: Real>(reading: Option<F>) -> (x: F)
    ensures
        given_or_zero(reading, x),
{
    match reading {
        Some(w) => w,
        None => F::default(),
    }
}

/// Whether an entry says what the cores of a domain did together.
pub open spec fn summarizes<F: Real>(entry: CpuUsageEntry<F>, d: DomainCores<F>) -> bool {
    &&& entry.name == d.name
    &&& entry.units == d.units
    &&& entry.cores == d.cores
    &&& crate::metrics::cluster_is(d.cores@, (entry.freq_mhz, entry.usage))
}

/// Whether the power of the package is that of the CPU, the GPU, the neural
/// engine and the two memories, added up in this order.
pub open spec fn package_is<F: Real>(p: PowerMetrics<F>) -> bool {
    exists|processors: F, engines: F, memories: F|
        {
            &&& #[trigger] call_ensures(F::plus, (p.cpu, p.gpu), processors)
            &&& #[trigger] call_ensures(F::plus, (processors, p.ane), engines)
            &&& #[trigger] call_ensures(F::plus, (engines, p.ram), memories)
            &&& call_ensures(F::plus, (memories, p.gpu_ram), p.package)
        }
}

/// What opening the sources has come to, and so what is to be done next.
///
/// The IOReport subscription is opened last: it takes the baseline that the
/// first timed sample is measured against.
pub enum Startup {
    /// Read the chip's description.
    Soc,
    /// Open the HID sensors.
    Hid(SocInfo),
    /// Open the SMC and list its keys.
    Smc(SocInfo),
    /// Try to read the scan's pending key.
    Probe(SocInfo, SmcScan),
    /// Open the IOReport subscription.
    IoReport(Sampler),
    Ready(Sampler),
    Failed(String),
}

/// The outcome of a step of opening the sources.
pub enum Opened {
    Soc(Result<SocInfo, String>),
    Hid(Result<(), String>),
    /// The SMC opened; its keys, if they could be listed.
    Smc(Result<Option<Vec<String>>, String>),
    /// Whether the pending key could be read.
    Probe(bool),
    IoReport(Result<(), String>),
}

/// Whether a scan has gone through all keys with these outcomes and found
/// these sensors.
pub open spec fn scanned(keys: Seq<String>, readable: Seq<bool>, sampler: Sampler) -> bool {
    &&& readable.len() == keys.len()
    &&& sampler.smc_cpu_keys@ == picked(keys, kept_marks(keys, readable, SensorKind::Cpu))
    &&& sampler.smc_gpu_keys@ == picked(keys, kept_marks(keys, readable, SensorKind::Gpu))
}

/// Whether a scan in this state is what startup goes on with: probing while a
/// key is left, and opening the IOReport subscription after that.
pub open spec fn scanning(
    soc: SocInfo,
    keys: Seq<String>,
    readable: Seq<bool>,
    next: Startup,
) -> bool {
    if readable.len() < keys.len() {
        next matches Startup::Probe(s, scan) && s == soc && scan.wf() && scan.keys() == keys
            && scan.readable() == readable
    } else {
        next matches Startup::IoReport(sampler) && sampler.soc == soc && scanned(
            keys,
            readable,
            sampler,
        )
    }
}

impl Startup {
    /// A scan under way has a key left to try.
    pub open spec fn wf(self) -> bool {
        self matches Startup::Probe(_, scan) ==> scan.wf() && scan.readable().len()
            < scan.keys().len()
    }

    /// Whether `next` follows on this state and the outcome `event`. An outcome
    /// that was not waited for changes nothing.
    pub open spec fn leads_to(self, event: Opened, next: Startup) -> bool {
        match (self, event) {
            (Startup::Soc, Opened::Soc(Ok(soc))) => next == Startup::Hid(soc),
            (Startup::Soc, Opened::Soc(Err(e))) => next == Startup::Failed(e),
            (Startup::Hid(soc), Opened::Hid(Ok(_))) => next == Startup::Smc(soc),
            (Startup::Hid(_), Opened::Hid(Err(e))) => next == Startup::Failed(e),
            (Startup::Smc(soc), Opened::Smc(Ok(names))) => scanning(
                soc,
                match names {
                    Some(names) => picked(names@, sensor_marks(names@)),
                    None => Seq::empty(),
                },
                Seq::empty(),
                next,
            ),
            (Startup::Smc(_), Opened::Smc(Err(e))) => next == Startup::Failed(e),
            (Startup::Probe(soc, scan), Opened::Probe(ok)) => scanning(
                soc,
                scan.keys(),
                scan.readable().push(ok),
                next,
            ),
            (Startup::IoReport(sampler), Opened::IoReport(Ok(_))) => next == Startup::Ready(
                sampler,
            ),
            (Startup::IoReport(_), Opened::IoReport(Err(e))) => next == Startup::Failed(e),
            _ => next == self,
        }
    }

    /// Goes on with a scan, or past it once every key was tried.
    fn continue_scan(soc: SocInfo, scan: SmcScan) -> (r: Startup)
        requires
            scan.wf(),
            scan.readable().len() <= scan.keys().len(),
        ensures
            r.wf(),
            scanning(soc, scan.keys(), scan.readable(), r),
    {
        if scan.pending().is_some() {
            Startup::Probe(soc, scan)
        } else {
            let (cpu, gpu) = scan.finish();
            Startup::IoReport(Sampler::new(soc, cpu, gpu))
        }
    }

    /// Takes the outcome of the step that this state asks for.
    pub fn advance(self, event: Opened) -> (r: Startup)
        requires
            self.wf(),
        ensures
            r.wf(),
            self.leads_to(event, r),
    {
        match (self, event) {
            (Startup::Soc, Opened::Soc(outcome)) => match outcome {
                Ok(soc) => Startup::Hid(soc),
                Err(e) => Startup::Failed(e),
            },
            (Startup::Hid(soc), Opened::Hid(outcome)) => match outcome {
                Ok(_) => Startup::Smc(soc),
                Err(e) => Startup::Failed(e),
            },
            (Startup::Smc(soc), Opened::Smc(outcome)) => match outcome {
                Ok(names) => Startup::continue_scan(soc, init_smc(names)),
                Err(e) => Startup::Failed(e),
            },
            (Startup::Probe(soc, mut scan), Opened::Probe(ok)) => {
                scan.answer(ok);
                Startup::continue_scan(soc, scan)
            },
            (Startup::IoReport(sampler), Opened::IoReport(outcome)) => match outcome {
                Ok(_) => Startup::Ready(sampler),
                Err(e) => Startup::Failed(e),
            },
            (state, _) => state,
        }
    }
}

/// Whether step `i` of a startup follows the rules.
pub open spec fn startup_step(states: Seq<Startup>, events: Seq<Opened>, i: int) -> bool {
    states[i].leads_to(events[i], states[i + 1])
}

/// Whether `states` is a startup that takes the outcomes `events` in turn.
pub open spec fn startup_run(states: Seq<Startup>, events: Seq<Opened>) -> bool {
    &&& states.len() == events.len() + 1
    &&& states[0] == Startup::Soc
    &&& forall|i: int| 0 <= i < events.len() ==> #[trigger] startup_step(states, events, i)
}

/// Whether the four steps at these positions opened the four sources, in this
/// order and with nothing opened after the last.
pub open spec fn opened_in_order(
    states: Seq<Startup>,
    events: Seq<Opened>,
    soc: int,
    hid: int,
    smc: int,
    ior: int,
) -> bool {
    &&& 0 <= soc < hid < smc < ior < events.len()
    &&& states[soc] is Soc
    &&& events[soc] matches Opened::Soc(Ok(_))
    &&& states[hid] is Hid
    &&& events[hid] matches Opened::Hid(Ok(_))
    &&& states[smc] is Smc
    &&& events[smc] matches Opened::Smc(Ok(_))
    &&& states[ior] is IoReport
    &&& events[ior] matches Opened::IoReport(Ok(_))
    &&& forall|i: int| ior < i < states.len() ==> #[trigger] states[i] is Ready
}

/// A startup that gets ready opens the sources in order: the chip's description
/// is read, then the HID sensors are opened, then the SMC, and the IOReport
/// subscription last.
pub proof fn startup_opens_io_report_last(states: Seq<Startup>, events: Seq<Opened>)
    requires
        startup_run(states, events),
        states.last() is Ready,
    ensures
        exists|soc: int, hid: int, smc: int, ior: int|
            opened_in_order(states, events, soc, hid, smc, ior),
{
    let n = events.len() as int;
    let ior = entered(states, events, n, |s: Startup| s is Ready);
    assert(startup_step(states, events, ior));
    let smc = entered(states, events, ior, |s: Startup| s is IoReport || s is Probe);
    assert(startup_step(states, events, smc));
    let hid = entered(states, events, smc, |s: Startup| s is Smc);
    assert(startup_step(states, events, hid));
    let soc = entered(states, events, hid, |s: Startup| s is Hid);
    assert(startup_step(states, events, soc));
    assert(opened_in_order(states, events, soc, hid, smc, ior));
}

/// Finds the step that last entered a kind of state that `at` is in.
proof fn entered(
    states: Seq<Startup>,
    events: Seq<Opened>,
    at: int,
    kind: spec_fn(Startup) -> bool,
) -> (step: int)
    requires
        startup_run(states, events),
        0 <= at <= events.len(),
        kind(states[at]),
        !kind(Startup::Soc),
    ensures
        0 <= step < at,
        !kind(states[step]),
        forall|i: int| step < i <= at ==> kind(#[trigger] states[i]),
    decreases at,
{
    if kind(states[at - 1]) {
        entered(states, events, at - 1, kind)
    } else {
        at - 1
    }
}

/// What the step that a state asks for failed with, if it did. A key that could
/// not be read is no failure.
pub open spec fn step_failure(state: Startup, event: Opened) -> Option<String> {
    match (state, event) {
        (Startup::Soc, Opened::Soc(Err(e))) => Some(e),
        (Startup::Hid(_), Opened::Hid(Err(e))) => Some(e),
        (Startup::Smc(_), Opened::Smc(Err(e))) => Some(e),
        (Startup::IoReport(_), Opened::IoReport(Err(e))) => Some(e),
        _ => None,
    }
}

/// Whether step `at` is the first that failed, with `e`, and nothing is asked for
/// after it.
pub open spec fn failed_at(
    states: Seq<Startup>,
    events: Seq<Opened>,
    at: int,
    e: String,
) -> bool {
    &&& 0 <= at < events.len()
    &&& step_failure(states[at], events[at]) == Some(e)
    &&& forall|i: int| 0 <= i < at ==> step_failure(#[trigger] states[i], events[i]) is None
    &&& forall|i: int| at < i < states.len() ==> #[trigger] states[i] == Startup::Failed(e)
}

/// A startup that fails does so with the error of the first step that failed,
/// and nothing is opened after it.
pub proof fn startup_fails_with_first_error(states: Seq<Startup>, events: Seq<Opened>, e: String)
    requires
        startup_run(states, events),
        states.last() == Startup::Failed(e),
    ensures
        exists|at: int| failed_at(states, events, at, e),
{
    let n = events.len() as int;
    let at = entered(states, events, n, |s: Startup| s == Startup::Failed(e));
    assert(startup_step(states, events, at));
    assert forall|i: int| 0 <= i < at implies step_failure(#[trigger] states[i], events[i]) is None by {
        assert(startup_step(states, events, i));
        if let Some(x) = step_failure(states[i], events[i]) {
            failed_stays(states, events, x, i + 1, at);
            failed_stays(states, events, x, i + 1, n);
        }
    }
    assert(failed_at(states, events, at, e));
}

/// A startup that failed stays so.
proof fn failed_stays(states: Seq<Startup>, events: Seq<Opened>, e: String, from: int, to: int)
    requires
        startup_run(states, events),
        0 <= from <= to <= events.len(),
        states[from] == Startup::Failed(e),
    ensures
        states[to] == Startup::Failed(e),
    decreases to - from,
{
    if from < to {
        assert(startup_step(states, events, from));
        failed_stays(states, events, e, from + 1, to);
    }
}

/// Marks the samples of the channels that are subscribed to.
pub open spec fn subscribed_marks<F>(samples: Seq<Sample<F>>) -> Seq<bool> {
    samples.map_values(
        |x: Sample<F>| crate::metrics::subscribed(x.group@, x.subgroup@, x.channel@),
    )
}

/// Nothing is lost by subscribing to the selected channels alone: the samples
/// of the others change no reading and make none fail.
pub proof fn subscription_loses_nothing<F>(
    samples: Seq<Sample<F>>,
    acts: Seq<(u32, F)>,
    soc: SocInfo,
    d: int,
    rail: PowerRail,
)
    requires
        acts.len() == samples.len(),
    ensures
        ({
            let marks = subscribed_marks(samples);
            let kept = picked(samples, marks);
            let kept_acts = picked(acts, marks);
            let domains = soc.cpu_domains@;
            &&& cores_of(kept, kept_acts, domains, d) == cores_of(samples, acts, domains, d)
            &&& gpu_of(kept, kept_acts, soc) == gpu_of(samples, acts, soc)
            &&& watts_of(kept, domains, rail) == watts_of(samples, domains, rail)
            &&& failure_of(kept, domains) == failure_of(samples, domains)
        }),
    decreases samples.len(),
{
    if samples.len() > 0 {
        let x = samples.last();
        let marks = subscribed_marks(samples);
        let less = samples.drop_last();
        assert(marks.drop_last() =~= subscribed_marks(less));
        subscription_loses_nothing(less, acts.drop_last(), soc, d, rail);
        crate::metrics::used_channels_are_subscribed(
            x.group@,
            x.subgroup@,
            x.channel@,
            soc.cpu_domains@,
        );
        if marks.last() {
            let rest = picked(less, marks.drop_last());
            let rest_acts = picked(acts.drop_last(), marks.drop_last());
            assert(rest.push(x).drop_last() =~= rest);
            assert(rest_acts.push(acts.last()).drop_last() =~= rest_acts);
        }
    }
}

} // verus!
