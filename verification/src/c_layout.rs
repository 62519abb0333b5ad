//! The structures that C code is given, and what they own.
//!
//! A pointer to memory that the structure owns is an `Option`: `None` is null.
//! The lengths stand beside the pointers, as C code sees them.
use vstd::prelude::*;

use crate::c_text::{make_c_string, CText};
use crate::metrics::{CoreUsageEntry, CpuUsageEntry, GpuUsageEntry, Metrics};
use crate::soc::{CpuDomainInfo, SocInfo};

verus! {

/// What a CPU domain did. The two arrays are as long as there are units.
#[allow(non_camel_case_types)]
#[derive(Debug)]
pub struct macmon_cpu_usage_t<F> {
    pub name: Option<CText>,
    pub units: u32,
    pub freq_mhz: u32,
    pub usage: F,
    pub cores_freq_mhz: Option<Vec<u32>>,
    pub cores_usage: Option<Vec<F>>,
}

/// The CPU domains.
#[allow(non_camel_case_types)]
#[derive(Debug)]
pub struct macmon_cpu_usage_list_t<F> {
    pub len: usize,
    pub ptr: Option<Vec<macmon_cpu_usage_t<F>>>,
}

/// What a GPU channel did.
#[allow(non_camel_case_types)]
#[derive(Debug)]
pub struct macmon_gpu_usage_t<F> {
    pub name: Option<CText>,
    pub units: u32,
    pub freq_mhz: u32,
    pub usage: F,
}

/// The GPU channels.
#[allow(non_camel_case_types)]
#[derive(Debug)]
pub struct macmon_gpu_usage_list_t<F> {
    pub len: usize,
    pub ptr: Option<Vec<macmon_gpu_usage_t<F>>>,
}

/// Power in Watts.
#[allow(non_camel_case_types)]
#[derive(Debug)]
pub struct macmon_power_metrics_t<F> {
    pub package: F,
    pub cpu: F,
    pub gpu: F,
    pub ram: F,
    pub gpu_ram: F,
    pub ane: F,
    pub board: F,
    pub battery: F,
    pub dc_in: F,
}

/// Memory in bytes.
#[allow(non_camel_case_types)]
#[derive(Debug)]
pub struct macmon_mem_metrics_t {
    pub ram_total: u64,
    pub ram_usage: u64,
    pub swap_total: u64,
    pub swap_usage: u64,
}

/// Temperatures in Celsius.
#[allow(non_camel_case_types)]
#[derive(Debug)]
pub struct macmon_temp_metrics_t<F> {
    pub cpu_avg: F,
    pub gpu_avg: F,
}

/// One complete measurement.
#[allow(non_camel_case_types)]
#[derive(Debug)]
pub struct macmon_metrics_t<F> {
    pub cpu_usage: macmon_cpu_usage_list_t<F>,
    pub gpu_usage: macmon_gpu_usage_list_t<F>,
    pub power: macmon_power_metrics_t<F>,
    pub memory: macmon_mem_metrics_t,
    pub temp: macmon_temp_metrics_t<F>,
}

/// A CPU domain of the chip.
#[allow(non_camel_case_types)]
#[derive(Debug)]
pub struct macmon_cpu_domain_t {
    pub name: Option<CText>,
    pub units: u32,
    pub freqs_len: usize,
    pub freqs_mhz: Option<Vec<u32>>,
}

/// The chip's description.
#[allow(non_camel_case_types)]
#[derive(Debug)]
pub struct macmon_soc_info_t {
    pub mac_model: Option<CText>,
    pub chip_name: Option<CText>,
    pub memory_gb: u16,
    pub cpu_domains_len: usize,
    pub cpu_domains: Option<Vec<macmon_cpu_domain_t>>,
    pub gpu_cores: u8,
    pub gpu_freqs_len: usize,
    pub gpu_freqs_mhz: Option<Vec<u32>>,
}

/// Whether a value is the default of its type.
pub open spec fn zero<F: Default>(x: F) -> bool {
    call_ensures(F::default, (), x)
}

impl<F: Default> macmon_metrics_t<F> {
    /// Owns nothing and shows nothing.
    pub open spec fn is_empty(&self) -> bool {
        &&& self.cpu_usage.ptr is None && self.cpu_usage.len == 0
        &&& self.gpu_usage.ptr is None && self.gpu_usage.len == 0
        &&& zero(self.power.package) && zero(self.power.cpu) && zero(self.power.gpu)
        &&& zero(self.power.ram) && zero(self.power.gpu_ram) && zero(self.power.ane)
        &&& zero(self.power.board) && zero(self.power.battery) && zero(self.power.dc_in)
        &&& self.memory.ram_total == 0 && self.memory.ram_usage == 0
        &&& self.memory.swap_total == 0 && self.memory.swap_usage == 0
        &&& zero(self.temp.cpu_avg) && zero(self.temp.gpu_avg)
    }
}

impl<F: Default> Default for macmon_metrics_t<F> {
    fn default() -> (r: Self)
        ensures
            r.is_empty(),
    {
        macmon_metrics_t {
            cpu_usage: macmon_cpu_usage_list_t { len: 0, ptr: None },
            gpu_usage: macmon_gpu_usage_list_t { len: 0, ptr: None },
            power: macmon_power_metrics_t {
                package: F::default(),
                cpu: F::default(),
                gpu: F::default(),
                ram: F::default(),
                gpu_ram: F::default(),
                ane: F::default(),
                board: F::default(),
                battery: F::default(),
                dc_in: F::default(),
            },
            memory: macmon_mem_metrics_t {
                ram_total: 0,
                ram_usage: 0,
                swap_total: 0,
                swap_usage: 0,
            },
            temp: macmon_temp_metrics_t { cpu_avg: F::default(), gpu_avg: F::default() },
        }
    }
}

impl macmon_soc_info_t {
    /// Owns nothing and shows nothing.
    pub open spec fn is_empty(&self) -> bool {
        &&& self.mac_model is None && self.chip_name is None
        &&& self.memory_gb == 0
        &&& self.cpu_domains is None && self.cpu_domains_len == 0
        &&& self.gpu_cores == 0
        &&& self.gpu_freqs_mhz is None && self.gpu_freqs_len == 0
    }
}

impl Default for macmon_soc_info_t {
    fn default() -> (r: Self)
        ensures
            r.is_empty(),
    {
        macmon_soc_info_t {
            mac_model: None,
            chip_name: None,
            memory_gb: 0,
            cpu_domains_len: 0,
            cpu_domains: None,
            gpu_cores: 0,
            gpu_freqs_len: 0,
            gpu_freqs_mhz: None,
        }
    }
}

/// Whether a text pointer shows a text.
pub open spec fn shows_text(p: Option<CText>, s: Seq<char>) -> bool {
    p matches Some(text) && text@ == crate::c_text::sanitized(s)
}

/// Whether an array pointer shows some values.
pub open spec fn shows_array<T>(p: Option<Vec<T>>, s: Seq<T>) -> bool {
    p matches Some(items) && items@ == s
}

/// Whether a structure shows what a CPU domain did. Its units are the cores
/// that reported, not those that the chip has.
pub open spec fn shows_cpu<F>(c: macmon_cpu_usage_t<F>, e: CpuUsageEntry<F>) -> bool {
    &&& shows_text(c.name, e.name@)
    &&& c.units == e.cores@.len() as u32
    &&& c.freq_mhz == e.freq_mhz
    &&& c.usage == e.usage
    &&& shows_array(c.cores_freq_mhz, crate::metrics::core_freqs(e.cores@))
    &&& shows_array(c.cores_usage, e.cores@.map_values(|x: CoreUsageEntry<F>| x.usage))
}

/// Whether a list shows what the CPU domains did.
pub open spec fn shows_cpus<F>(
    l: macmon_cpu_usage_list_t<F>,
    items: Seq<CpuUsageEntry<F>>,
) -> bool {
    &&& l.len == items.len()
    &&& l.ptr matches Some(list)
    &&& list@.len() == items.len()
    &&& forall|i: int| 0 <= i < items.len() ==> shows_cpu(#[trigger] list@[i], items[i])
}

/// Whether a structure shows what a GPU channel did.
pub open spec fn shows_gpu<F>(g: macmon_gpu_usage_t<F>, e: GpuUsageEntry<F>) -> bool {
    &&& shows_text(g.name, e.name@)
    &&& g.units == e.units
    &&& g.freq_mhz == e.freq_mhz
    &&& g.usage == e.usage
}

/// Whether a list shows what the GPU channels did.
pub open spec fn shows_gpus<F>(
    l: macmon_gpu_usage_list_t<F>,
    items: Seq<GpuUsageEntry<F>>,
) -> bool {
    &&& l.len == items.len()
    &&& l.ptr matches Some(list)
    &&& list@.len() == items.len()
    &&& forall|i: int| 0 <= i < items.len() ==> shows_gpu(#[trigger] list@[i], items[i])
}

/// Whether a structure shows a measurement.
pub open spec fn shows_metrics<F>(c: macmon_metrics_t<F>, m: Metrics<F>) -> bool {
    &&& shows_cpus(c.cpu_usage, m.cpu_usage@)
    &&& shows_gpus(c.gpu_usage, m.gpu_usage@)
    &&& c.power.package == m.power.package && c.power.cpu == m.power.cpu
    &&& c.power.gpu == m.power.gpu && c.power.ram == m.power.ram
    &&& c.power.gpu_ram == m.power.gpu_ram && c.power.ane == m.power.ane
    &&& c.power.board == m.power.board && c.power.battery == m.power.battery
    &&& c.power.dc_in == m.power.dc_in
    &&& c.memory.ram_total == m.memory.ram_total && c.memory.ram_usage == m.memory.ram_usage
    &&& c.memory.swap_total == m.memory.swap_total && c.memory.swap_usage == m.memory.swap_usage
    &&& c.temp.cpu_avg == m.temp.cpu_avg && c.temp.gpu_avg == m.temp.gpu_avg
}

/// Whether a structure shows a CPU domain of the chip.
pub open spec fn shows_domain(c: macmon_cpu_domain_t, d: CpuDomainInfo) -> bool {
    &&& shows_text(c.name, d.name@)
    &&& c.units == d.units
    &&& c.freqs_len == d.freqs_mhz@.len()
    &&& shows_array(c.freqs_mhz, d.freqs_mhz@)
}

/// Whether a structure shows the chip's description.
pub open spec fn shows_soc(c: macmon_soc_info_t, info: SocInfo) -> bool {
    &&& shows_text(c.mac_model, info.mac_model@)
    &&& shows_text(c.chip_name, info.chip_name@)
    &&& c.memory_gb == info.memory_gb
    &&& c.cpu_domains_len == info.cpu_domains@.len()
    &&& c.cpu_domains matches Some(domains)
    &&& domains@.len() == info.cpu_domains@.len()
    &&& forall|i: int|
        0 <= i < domains@.len() ==> shows_domain(#[trigger] domains@[i], info.cpu_domains@[i])
    &&& c.gpu_cores == info.gpu_cores
    &&& c.gpu_freqs_len == info.gpu_freqs@.len()
    &&& shows_array(c.gpu_freqs_mhz, info.gpu_freqs@)
}

/// Copies a text for C code.
fn ffi_string(value: &str) -> (r: Option<CText>)
    ensures
        shows_text(r, value@),
{
    Some(make_c_string(value))
}

/// Copies an array for C code, and tells its length.
pub fn ffi_u32_array(values: &[u32]) -> (r: (Option<Vec<u32>>, usize))
    ensures
        shows_array(r.0, values@),
        r.1 == values@.len(),
{
    let mut copy: Vec<u32> = Vec::new();
    let mut i: usize = 0;
    while i < values.len()
        invariant
            i <= values@.len(),
            copy@ == values@.take(i as int),
        decreases values@.len() - i,
    {
        copy.push(values[i]);
        i += 1;
    }
    assert(copy@ =~= values@);
    (Some(copy), values.len())
}

/// Copies the CPU domains for C code.
pub fn ffi_cpu_usage_list<F: Copy>(items: &[CpuUsageEntry<F>]) -> (r: macmon_cpu_usage_list_t<F>)
    ensures
        shows_cpus(r, items@),
{
    let mut entries: Vec<macmon_cpu_usage_t<F>> = Vec::new();
    let mut i: usize = 0;
    while i < items.len()
        invariant
            i <= items@.len(),
            entries@.len() == i,
            forall|j: int| 0 <= j < i ==> shows_cpu(#[trigger] entries@[j], items@[j]),
        decreases items@.len() - i,
    {
        let entry = &items[i];
        let mut freqs: Vec<u32> = Vec::new();
        let mut usages: Vec<F> = Vec::new();
        let mut k: usize = 0;
        while k < entry.cores.len()
            invariant
                k <= entry.cores@.len(),
                freqs@ == crate::metrics::core_freqs(entry.cores@.take(k as int)),
                usages@ == entry.cores@.take(k as int).map_values(|x: CoreUsageEntry<F>| x.usage),
            decreases entry.cores@.len() - k,
        {
            assert(entry.cores@.take(k + 1) =~= entry.cores@.take(k as int).push(
                entry.cores@[k as int],
            ));
            freqs.push(entry.cores[k].freq_mhz);
            usages.push(entry.cores[k].usage);
            k += 1;
        }
        assert(entry.cores@.take(k as int) =~= entry.cores@);
        entries.push(
            macmon_cpu_usage_t {
                name: ffi_string(entry.name.as_str()),
                units: entry.cores.len() as u32,
                freq_mhz: entry.freq_mhz,
                usage: entry.usage,
                cores_freq_mhz: Some(freqs),
                cores_usage: Some(usages),
            },
        );
        i += 1;
    }
    macmon_cpu_usage_list_t { len: entries.len(), ptr: Some(entries) }
}

/// Copies the GPU channels for C code.
pub fn ffi_gpu_usage_list<F: Copy>(items: &[GpuUsageEntry<F>]) -> (r: macmon_gpu_usage_list_t<F>)
    ensures
        shows_gpus(r, items@),
{
    let mut entries: Vec<macmon_gpu_usage_t<F>> = Vec::new();
    let mut i: usize = 0;
    while i < items.len()
        invariant
            i <= items@.len(),
            entries@.len() == i,
            forall|j: int| 0 <= j < i ==> shows_gpu(#[trigger] entries@[j], items@[j]),
        decreases items@.len() - i,
    {
        entries.push(
            macmon_gpu_usage_t {
                name: ffi_string(items[i].name.as_str()),
                units: items[i].units,
                freq_mhz: items[i].freq_mhz,
                usage: items[i].usage,
            },
        );
        i += 1;
    }
    macmon_gpu_usage_list_t { len: entries.len(), ptr: Some(entries) }
}

/// Copies a measurement for C code.
pub fn ffi_metrics<F: Copy>(metrics: Metrics<F>) -> (r: macmon_metrics_t<F>)
    ensures
        shows_metrics(r, metrics),
{
    macmon_metrics_t {
        cpu_usage: ffi_cpu_usage_list(metrics.cpu_usage.as_slice()),
        gpu_usage: ffi_gpu_usage_list(metrics.gpu_usage.as_slice()),
        power: macmon_power_metrics_t {
            package: metrics.power.package,
            cpu: metrics.power.cpu,
            gpu: metrics.power.gpu,
            ram: metrics.power.ram,
            gpu_ram: metrics.power.gpu_ram,
            ane: metrics.power.ane,
            board: metrics.power.board,
            battery: metrics.power.battery,
            dc_in: metrics.power.dc_in,
        },
        memory: macmon_mem_metrics_t {
            ram_total: metrics.memory.ram_total,
            ram_usage: metrics.memory.ram_usage,
            swap_total: metrics.memory.swap_total,
            swap_usage: metrics.memory.swap_usage,
        },
        temp: macmon_temp_metrics_t {
            cpu_avg: metrics.temp.cpu_avg,
            gpu_avg: metrics.temp.gpu_avg,
        },
    }
}

/// Copies the chip's description for C code.
pub fn ffi_soc_info(info: SocInfo) -> (r: macmon_soc_info_t)
    ensures
        shows_soc(r, info),
{
    let mut domains: Vec<macmon_cpu_domain_t> = Vec::new();
    let mut i: usize = 0;
    while i < info.cpu_domains.len()
        invariant
            i <= info.cpu_domains@.len(),
            domains@.len() == i,
            forall|j: int|
                0 <= j < i ==> shows_domain(#[trigger] domains@[j], info.cpu_domains@[j]),
        decreases info.cpu_domains@.len() - i,
    {
        let domain = &info.cpu_domains[i];
        let (freqs_mhz, freqs_len) = ffi_u32_array(domain.freqs_mhz.as_slice());
        domains.push(
            macmon_cpu_domain_t {
                name: ffi_string(domain.name.as_str()),
                units: domain.units,
                freqs_len,
                freqs_mhz,
            },
        );
        i += 1;
    }
    let (gpu_freqs_mhz, gpu_freqs_len) = ffi_u32_array(info.gpu_freqs.as_slice());
    macmon_soc_info_t {
        mac_model: ffi_string(info.mac_model.as_str()),
        chip_name: ffi_string(info.chip_name.as_str()),
        memory_gb: info.memory_gb,
        cpu_domains_len: domains.len(),
        cpu_domains: Some(domains),
        gpu_cores: info.gpu_cores,
        gpu_freqs_len,
        gpu_freqs_mhz,
    }
}

/// A block of memory that a structure owns: its kind, and its length where C
/// code is told one.
#[derive(Debug, Clone, Copy, PartialEq, Eq, Structural)]
pub enum Block {
    Sampler,
    CString,
    U32Array(usize),
    F32Array(usize),
    CpuUsageArray(usize),
    GpuUsageArray(usize),
    CpuDomainArray(usize),
}

/// Whether an array pointer is null or has a given length.
pub open spec fn fits<T>(p: Option<Vec<T>>, len: int) -> bool {
    p matches Some(items) ==> items@.len() == len
}

/// The block of a text, if any.
pub open spec fn text_blocks(p: Option<CText>) -> Seq<Block> {
    if p is Some {
        seq![Block::CString]
    } else {
        Seq::empty()
    }
}

/// The block of an array of numbers, if any.
pub open spec fn u32_blocks(p: Option<Vec<u32>>) -> Seq<Block> {
    match p {
        Some(items) => seq![Block::U32Array(items@.len() as usize)],
        None => Seq::empty(),
    }
}

/// The block of an array of real numbers, if any.
pub open spec fn f32_blocks<F>(p: Option<Vec<F>>) -> Seq<Block> {
    match p {
        Some(items) => seq![Block::F32Array(items@.len() as usize)],
        None => Seq::empty(),
    }
}

/// The blocks that the elements of an array own, one element after the other.
pub open spec fn each_blocks<T>(items: Seq<T>, blocks: spec_fn(T) -> Seq<Block>) -> Seq<Block>
    decreases items.len(),
{
    if items.len() == 0 {
        Seq::empty()
    } else {
        each_blocks(items.drop_last(), blocks) + blocks(items.last())
    }
}

impl<F> macmon_cpu_usage_t<F> {
    /// The arrays are as long as there are units.
    pub open spec fn wf(self) -> bool {
        fits(self.cores_freq_mhz, self.units as int) && fits(self.cores_usage, self.units as int)
    }

    /// The blocks that it owns.
    pub open spec fn blocks(self) -> Seq<Block> {
        text_blocks(self.name) + u32_blocks(self.cores_freq_mhz) + f32_blocks(self.cores_usage)
    }
}

impl<F> macmon_cpu_usage_list_t<F> {
    /// The lengths are those of the arrays.
    pub open spec fn wf(self) -> bool {
        self.ptr matches Some(items) ==> items@.len() == self.len && forall|i: int|
            0 <= i < items@.len() ==> (#[trigger] items@[i]).wf()
    }

    /// The blocks that it owns.
    pub open spec fn blocks(self) -> Seq<Block> {
        match self.ptr {
            Some(items) => each_blocks(items@, |c: macmon_cpu_usage_t<F>| c.blocks()) + seq![
                Block::CpuUsageArray(items@.len() as usize),
            ],
            None => Seq::empty(),
        }
    }
}

impl<F> macmon_gpu_usage_list_t<F> {
    /// The length is that of the array.
    pub open spec fn wf(self) -> bool {
        fits(self.ptr, self.len as int)
    }

    /// The blocks that it owns.
    pub open spec fn blocks(self) -> Seq<Block> {
        match self.ptr {
            Some(items) => each_blocks(items@, |g: macmon_gpu_usage_t<F>| text_blocks(g.name))
                + seq![Block::GpuUsageArray(items@.len() as usize)],
            None => Seq::empty(),
        }
    }
}

impl<F> macmon_metrics_t<F> {
    /// The lengths are those of the arrays.
    pub open spec fn wf(self) -> bool {
        self.cpu_usage.wf() && self.gpu_usage.wf()
    }

    /// The blocks that it owns.
    pub open spec fn blocks(self) -> Seq<Block> {
        self.cpu_usage.blocks() + self.gpu_usage.blocks()
    }
}

impl macmon_cpu_domain_t {
    /// The length is that of the array.
    pub open spec fn wf(self) -> bool {
        fits(self.freqs_mhz, self.freqs_len as int)
    }

    /// The blocks that it owns.
    pub open spec fn blocks(self) -> Seq<Block> {
        text_blocks(self.name) + u32_blocks(self.freqs_mhz)
    }
}

/// The blocks of an array of CPU domains, if any.
pub open spec fn domain_blocks(p: Option<Vec<macmon_cpu_domain_t>>) -> Seq<Block> {
    match p {
        Some(items) => each_blocks(items@, |d: macmon_cpu_domain_t| d.blocks()) + seq![
            Block::CpuDomainArray(items@.len() as usize),
        ],
        None => Seq::empty(),
    }
}

impl macmon_soc_info_t {
    /// The lengths are those of the arrays.
    pub open spec fn wf(self) -> bool {
        &&& fits(self.gpu_freqs_mhz, self.gpu_freqs_len as int)
        &&& self.cpu_domains matches Some(items) ==> items@.len() == self.cpu_domains_len
            && forall|i: int| 0 <= i < items@.len() ==> (#[trigger] items@[i]).wf()
    }

    /// The blocks that it owns.
    pub open spec fn blocks(self) -> Seq<Block> {
        text_blocks(self.mac_model) + text_blocks(self.chip_name) + domain_blocks(
            self.cpu_domains,
        ) + u32_blocks(self.gpu_freqs_mhz)
    }
}

/// Frees a text.
fn free_c_string(ptr: Option<CText>, freed: &mut Vec<Block>)
    ensures
        final(freed)@ == old(freed)@ + text_blocks(ptr),
{
    if ptr.is_some() {
        freed.push(Block::CString);
    }
    assert(freed@ =~= old(freed)@ + text_blocks(ptr));
}

/// Frees an array of numbers, which must have the length that is told.
fn free_u32_array(ptr: Option<Vec<u32>>, len: usize, freed: &mut Vec<Block>)
    requires
        fits(ptr, len as int),
    ensures
        final(freed)@ == old(freed)@ + u32_blocks(ptr),
{
    if ptr.is_some() {
        freed.push(Block::U32Array(len));
    }
    assert(freed@ =~= old(freed)@ + u32_blocks(ptr));
}

/// Frees an array of real numbers, which must have the length that is told.
fn free_f32_array<F>(ptr: Option<Vec<F>>, len: usize, freed: &mut Vec<Block>)
    requires
        fits(ptr, len as int),
    ensures
        final(freed)@ == old(freed)@ + f32_blocks(ptr),
{
    if ptr.is_some() {
        freed.push(Block::F32Array(len));
    }
    assert(freed@ =~= old(freed)@ + f32_blocks(ptr));
}

/// Frees what the CPU domains own, and empties their list.
fn free_cpu_usage_list<F>(list: &mut macmon_cpu_usage_list_t<F>, freed: &mut Vec<Block>)
    requires
        old(list).wf(),
    ensures
        final(list).ptr is None,
        final(list).len == 0,
        final(freed)@ == old(freed)@ + old(list).blocks(),
{
    let len: usize = list.len;
    if let Some(entries) = list.ptr.take() {
        let ghost all = entries@;
        let ghost owned = |c: macmon_cpu_usage_t<F>| c.blocks();
        for entry in it: entries
            invariant
                it.seq() == all,
                forall|i: int| 0 <= i < all.len() ==> (#[trigger] all[i]).wf(),
                owned == (|c: macmon_cpu_usage_t<F>| c.blocks()),
                freed@ == old(freed)@ + each_blocks(all.take(it.index()), owned),
        {
            let units: usize = entry.units as usize;
            free_c_string(entry.name, freed);
            free_u32_array(entry.cores_freq_mhz, units, freed);
            free_f32_array(entry.cores_usage, units, freed);
            assert(all.take(it.index() + 1).drop_last() =~= all.take(it.index()));
            assert(freed@ =~= old(freed)@ + each_blocks(all.take(it.index() + 1), owned));
        }
        assert(all.take(all.len() as int) =~= all);
        freed.push(Block::CpuUsageArray(len));
    }
    assert(freed@ =~= old(freed)@ + old(list).blocks());
    list.len = 0;
}

/// Frees what the GPU channels own, and empties their list.
fn free_gpu_usage_list<F>(list: &mut macmon_gpu_usage_list_t<F>, freed: &mut Vec<Block>)
    requires
        old(list).wf(),
    ensures
        final(list).ptr is None,
        final(list).len == 0,
        final(freed)@ == old(freed)@ + old(list).blocks(),
{
    let len: usize = list.len;
    if let Some(entries) = list.ptr.take() {
        let ghost all = entries@;
        let ghost owned = |g: macmon_gpu_usage_t<F>| text_blocks(g.name);
        for entry in it: entries
            invariant
                it.seq() == all,
                owned == (|g: macmon_gpu_usage_t<F>| text_blocks(g.name)),
                freed@ == old(freed)@ + each_blocks(all.take(it.index()), owned),
        {
            free_c_string(entry.name, freed);
            assert(all.take(it.index() + 1).drop_last() =~= all.take(it.index()));
            assert(freed@ =~= old(freed)@ + each_blocks(all.take(it.index() + 1), owned));
        }
        assert(all.take(all.len() as int) =~= all);
        freed.push(Block::GpuUsageArray(len));
    }
    assert(freed@ =~= old(freed)@ + old(list).blocks());
    list.len = 0;
}

/// Frees a sampler. Null is no sampler, and nothing is freed of it.
pub fn macmon_sampler_free<S>(sampler: Option<S>) -> (r: Vec<Block>)
    ensures
        r@ == (if sampler is Some {
            seq![Block::Sampler]
        } else {
            Seq::empty()
        }),
{
    let mut freed: Vec<Block> = Vec::new();
    if sampler.is_some() {
        freed.push(Block::Sampler);
    }
    freed
}

/// Frees what a measurement owns, and empties it. Tells the blocks that were
/// freed, each with the length that C code was told.
pub fn macmon_metrics_free<F: Default>(metrics: Option<&mut macmon_metrics_t<F>>) -> (r: Vec<Block>)
    requires
        metrics matches Some(m) ==> m.wf(),
    ensures
        match metrics {
            Some(m) => r@ == m.blocks() && final(m).is_empty(),
            None => r@.len() == 0,
        },
{
    let mut freed: Vec<Block> = Vec::new();
    if let Some(m) = metrics {
        let ghost before = *m;
        free_cpu_usage_list(&mut m.cpu_usage, &mut freed);
        free_gpu_usage_list(&mut m.gpu_usage, &mut freed);
        assert(freed@ =~= before.blocks());
        *m = macmon_metrics_t::default();
    }
    freed
}

/// Frees what the chip's description owns, and empties it. Tells the blocks
/// that were freed, each with the length that C code was told.
pub fn macmon_soc_info_free(info: Option<&mut macmon_soc_info_t>) -> (r: Vec<Block>)
    requires
        info matches Some(i) ==> i.wf(),
    ensures
        match info {
            Some(i) => r@ == i.blocks() && final(i).is_empty(),
            None => r@.len() == 0,
        },
{
    let mut freed: Vec<Block> = Vec::new();
    if let Some(info) = info {
        let ghost before = *info;
        let mut taken = macmon_soc_info_t::default();
        std::mem::swap(&mut taken, info);
        free_c_string(taken.mac_model, &mut freed);
        free_c_string(taken.chip_name, &mut freed);
        let ghost texts = freed@;
        if let Some(domains) = taken.cpu_domains {
            let ghost all = domains@;
            let ghost owned = |d: macmon_cpu_domain_t| d.blocks();
            for domain in it: domains
                invariant
                    it.seq() == all,
                    forall|i: int| 0 <= i < all.len() ==> (#[trigger] all[i]).wf(),
                    owned == (|d: macmon_cpu_domain_t| d.blocks()),
                    freed@ == texts + each_blocks(all.take(it.index()), owned),
            {
                free_c_string(domain.name, &mut freed);
                free_u32_array(domain.freqs_mhz, domain.freqs_len, &mut freed);
                assert(all.take(it.index() + 1).drop_last() =~= all.take(it.index()));
                assert(freed@ =~= texts + each_blocks(all.take(it.index() + 1), owned));
            }
            assert(all.take(all.len() as int) =~= all);
            freed.push(Block::CpuDomainArray(taken.cpu_domains_len));
        }
        assert(freed@ =~= texts + domain_blocks(before.cpu_domains));
        free_u32_array(taken.gpu_freqs_mhz, taken.gpu_freqs_len, &mut freed);
        assert(freed@ =~= before.blocks());
    }
    freed
}

/// The blocks that showing a CPU domain takes.
pub open spec fn cpu_allocations<F>(e: CpuUsageEntry<F>) -> Seq<Block> {
    seq![
        Block::CString,
        Block::U32Array(e.cores@.len() as usize),
        Block::F32Array(e.cores@.len() as usize),
    ]
}

/// The blocks that showing a measurement takes.
pub open spec fn metrics_allocations<F>(m: Metrics<F>) -> Seq<Block> {
    each_blocks(m.cpu_usage@, |e: CpuUsageEntry<F>| cpu_allocations(e)) + seq![
        Block::CpuUsageArray(m.cpu_usage@.len() as usize),
    ] + (each_blocks(m.gpu_usage@, |e: GpuUsageEntry<F>| seq![Block::CString]) + seq![
        Block::GpuUsageArray(m.gpu_usage@.len() as usize),
    ])
}

/// The blocks that showing the chip's description takes.
pub open spec fn soc_allocations(info: SocInfo) -> Seq<Block> {
    seq![Block::CString] + seq![Block::CString] + (each_blocks(
        info.cpu_domains@,
        |d: CpuDomainInfo| seq![Block::CString, Block::U32Array(d.freqs_mhz@.len() as usize)],
    ) + seq![Block::CpuDomainArray(info.cpu_domains@.len() as usize)]) + seq![
        Block::U32Array(info.gpu_freqs@.len() as usize),
    ]
}

/// Arrays whose elements own the same blocks own the same blocks.
proof fn same_blocks<A, B>(
    a: Seq<A>,
    f: spec_fn(A) -> Seq<Block>,
    b: Seq<B>,
    g: spec_fn(B) -> Seq<Block>,
)
    requires
        a.len() == b.len(),
        forall|i: int| 0 <= i < a.len() ==> f(#[trigger] a[i]) == g(b[i]),
    ensures
        each_blocks(a, f) == each_blocks(b, g),
    decreases a.len(),
{
    if a.len() > 0 {
        assert(f(a[a.len() - 1]) == g(b[b.len() - 1]));
        assert forall|i: int| 0 <= i < a.len() - 1 implies f(#[trigger] a.drop_last()[i]) == g(
            b.drop_last()[i],
        ) by {
            assert(f(a[i]) == g(b[i]));
        }
        same_blocks(a.drop_last(), f, b.drop_last(), g);
    }
}

/// What C code was given of a measurement is freed whole: the structure can be
/// freed, and the blocks that freeing it frees are those that showing it took,
/// each once and with its length.
pub proof fn shown_metrics_are_freed_whole<F>(c: macmon_metrics_t<F>, m: Metrics<F>)
    requires
        shows_metrics(c, m),
        forall|i: int|
            0 <= i < m.cpu_usage@.len() ==> (#[trigger] m.cpu_usage@[i]).cores@.len() <= u32::MAX,
    ensures
        c.wf(),
        c.blocks() == metrics_allocations(m),
{
    let cpus = c.cpu_usage.ptr->0@;
    let gpus = c.gpu_usage.ptr->0@;
    let cpu_owned = |x: macmon_cpu_usage_t<F>| x.blocks();
    let cpu_taken = |e: CpuUsageEntry<F>| cpu_allocations(e);
    assert forall|i: int| 0 <= i < cpus.len() implies (#[trigger] cpus[i]).wf() && cpu_owned(cpus[i])
        == cpu_taken(m.cpu_usage@[i]) by {
        let e = m.cpu_usage@[i];
        assert(shows_cpu(cpus[i], e));
        assert(e.cores@.len() <= u32::MAX);
        assert(cpus[i].blocks() =~= cpu_allocations(e));
    }
    same_blocks(cpus, cpu_owned, m.cpu_usage@, cpu_taken);
    let gpu_owned = |g: macmon_gpu_usage_t<F>| text_blocks(g.name);
    let gpu_taken = |e: GpuUsageEntry<F>| seq![Block::CString];
    assert forall|i: int| 0 <= i < gpus.len() implies gpu_owned(#[trigger] gpus[i]) == gpu_taken(
        m.gpu_usage@[i],
    ) by {
        assert(shows_gpu(gpus[i], m.gpu_usage@[i]));
    }
    same_blocks(gpus, gpu_owned, m.gpu_usage@, gpu_taken);
}

/// What C code was given of the chip is freed whole: the structure can be
/// freed, and the blocks that freeing it frees are those that showing it took,
/// each once and with its length.
pub proof fn shown_soc_is_freed_whole(c: macmon_soc_info_t, info: SocInfo)
    requires
        shows_soc(c, info),
    ensures
        c.wf(),
        c.blocks() == soc_allocations(info),
{
    let domains = c.cpu_domains->0@;
    let owned = |d: macmon_cpu_domain_t| d.blocks();
    let taken = |d: CpuDomainInfo|
        seq![Block::CString, Block::U32Array(d.freqs_mhz@.len() as usize)];
    assert forall|i: int| 0 <= i < domains.len() implies (#[trigger] domains[i]).wf() && owned(
        domains[i],
    ) == taken(info.cpu_domains@[i]) by {
        assert(shows_domain(domains[i], info.cpu_domains@[i]));
        assert(domains[i].blocks() =~= taken(info.cpu_domains@[i]));
    }
    same_blocks(domains, owned, info.cpu_domains@, taken);
}

/// Freeing a measurement or a description again frees nothing more.
pub proof fn emptied_structures_own_nothing<F: Default>(c: macmon_metrics_t<F>, s: macmon_soc_info_t)
    ensures
        c.is_empty() ==> c.wf() && c.blocks() == Seq::<Block>::empty(),
        s.is_empty() ==> s.wf() && s.blocks() == Seq::<Block>::empty(),
{
    if c.is_empty() {
        assert(c.blocks() =~= Seq::<Block>::empty());
    }
    if s.is_empty() {
        assert(s.blocks() =~= Seq::<Block>::empty());
    }
}

/// Whether a text pointer shows a text, with a space in place of each NUL.
pub open spec fn points_to_text(p: Option<CText>, s: Seq<char>) -> bool {
    &&& p is Some
    &&& p->0@.len() == s.len()
    &&& forall|i: int|
        0 <= i < s.len() ==> #[trigger] p->0@[i] == (if s[i] == '\0' {
            ' '
        } else {
            s[i]
        })
}

/// C code reads of a measurement what it holds, each reading under its own name.
/// The units of a CPU domain are the cores that reported, and its two arrays
/// hold theirs in order.
pub proof fn c_reads_the_measurement<F: Copy>(m: Metrics<F>, c: macmon_metrics_t<F>)
    requires
        call_ensures(ffi_metrics::<F>, (m,), c),
    ensures
        c.power.package == m.power.package,
        c.power.cpu == m.power.cpu,
        c.power.gpu == m.power.gpu,
        c.power.ram == m.power.ram,
        c.power.gpu_ram == m.power.gpu_ram,
        c.power.ane == m.power.ane,
        c.power.board == m.power.board,
        c.power.battery == m.power.battery,
        c.power.dc_in == m.power.dc_in,
        c.memory.ram_total == m.memory.ram_total,
        c.memory.ram_usage == m.memory.ram_usage,
        c.memory.swap_total == m.memory.swap_total,
        c.memory.swap_usage == m.memory.swap_usage,
        c.temp.cpu_avg == m.temp.cpu_avg,
        c.temp.gpu_avg == m.temp.gpu_avg,
        c.cpu_usage.ptr is Some && c.cpu_usage.ptr->0@.len() == m.cpu_usage@.len(),
        c.cpu_usage.len == m.cpu_usage@.len(),
        forall|i: int|
            0 <= i < m.cpu_usage@.len() ==> {
                let e = m.cpu_usage@[i];
                let p = #[trigger] c.cpu_usage.ptr->0@[i];
                &&& points_to_text(p.name, e.name@)
                &&& e.cores@.len() <= u32::MAX ==> p.units == e.cores@.len()
                &&& p.freq_mhz == e.freq_mhz
                &&& p.usage == e.usage
                &&& p.cores_freq_mhz is Some && p.cores_freq_mhz->0@.len() == e.cores@.len()
                &&& p.cores_usage is Some && p.cores_usage->0@.len() == e.cores@.len()
                &&& forall|j: int|
                    #![trigger e.cores@[j]]
                    0 <= j < e.cores@.len() ==> p.cores_freq_mhz->0@[j] == e.cores@[j].freq_mhz
                        && p.cores_usage->0@[j] == e.cores@[j].usage
            },
        c.gpu_usage.ptr is Some && c.gpu_usage.ptr->0@.len() == m.gpu_usage@.len(),
        c.gpu_usage.len == m.gpu_usage@.len(),
        forall|i: int|
            0 <= i < m.gpu_usage@.len() ==> {
                let e = m.gpu_usage@[i];
                let p = #[trigger] c.gpu_usage.ptr->0@[i];
                &&& points_to_text(p.name, e.name@)
                &&& p.units == e.units
                &&& p.freq_mhz == e.freq_mhz
                &&& p.usage == e.usage
            },
{
    assert forall|i: int| 0 <= i < m.cpu_usage@.len() implies {
        let e = m.cpu_usage@[i];
        let p = #[trigger] c.cpu_usage.ptr->0@[i];
        &&& points_to_text(p.name, e.name@)
        &&& e.cores@.len() <= u32::MAX ==> p.units == e.cores@.len()
        &&& p.freq_mhz == e.freq_mhz
        &&& p.usage == e.usage
        &&& p.cores_freq_mhz is Some && p.cores_freq_mhz->0@.len() == e.cores@.len()
        &&& p.cores_usage is Some && p.cores_usage->0@.len() == e.cores@.len()
        &&& forall|j: int|
            #![trigger e.cores@[j]]
            0 <= j < e.cores@.len() ==> p.cores_freq_mhz->0@[j] == e.cores@[j].freq_mhz
                && p.cores_usage->0@[j] == e.cores@[j].usage
    } by {
        assert(shows_cpu(c.cpu_usage.ptr->0@[i], m.cpu_usage@[i]));
    }
    assert forall|i: int| 0 <= i < m.gpu_usage@.len() implies {
        let e = m.gpu_usage@[i];
        let p = #[trigger] c.gpu_usage.ptr->0@[i];
        &&& points_to_text(p.name, e.name@)
        &&& p.units == e.units
        &&& p.freq_mhz == e.freq_mhz
        &&& p.usage == e.usage
    } by {
        assert(shows_gpu(c.gpu_usage.ptr->0@[i], m.gpu_usage@[i]));
    }
}

/// C code reads of the chip what it is, each field under its own name.
pub proof fn c_reads_the_chip(info: SocInfo, c: macmon_soc_info_t)
    requires
        call_ensures(ffi_soc_info, (info,), c),
    ensures
        points_to_text(c.mac_model, info.mac_model@),
        points_to_text(c.chip_name, info.chip_name@),
        c.memory_gb == info.memory_gb,
        c.gpu_cores == info.gpu_cores,
        c.gpu_freqs_len == info.gpu_freqs@.len(),
        c.gpu_freqs_mhz is Some && c.gpu_freqs_mhz->0@ == info.gpu_freqs@,
        c.cpu_domains_len == info.cpu_domains@.len(),
        c.cpu_domains is Some && c.cpu_domains->0@.len() == info.cpu_domains@.len(),
        forall|i: int|
            0 <= i < info.cpu_domains@.len() ==> {
                let d = info.cpu_domains@[i];
                let p = #[trigger] c.cpu_domains->0@[i];
                &&& points_to_text(p.name, d.name@)
                &&& p.units == d.units
                &&& p.freqs_len == d.freqs_mhz@.len()
                &&& p.freqs_mhz is Some && p.freqs_mhz->0@ == d.freqs_mhz@
            },
{
    assert forall|i: int| 0 <= i < info.cpu_domains@.len() implies {
        let d = info.cpu_domains@[i];
        let p = #[trigger] c.cpu_domains->0@[i];
        &&& points_to_text(p.name, d.name@)
        &&& p.units == d.units
        &&& p.freqs_len == d.freqs_mhz@.len()
        &&& p.freqs_mhz is Some && p.freqs_mhz->0@ == d.freqs_mhz@
    } by {
        assert(shows_domain(c.cpu_domains->0@[i], info.cpu_domains@[i]));
    }
}

/// Blocks of arrays all of whose elements own `w` blocks stand one element after
/// the other.
proof fn each_blocks_at<T>(items: Seq<T>, blocks: spec_fn(T) -> Seq<Block>, w: int)
    requires
        w > 0,
        forall|i: int| 0 <= i < items.len() ==> blocks(#[trigger] items[i]).len() == w,
    ensures
        each_blocks(items, blocks).len() == w * items.len(),
        forall|i: int, k: int|
            0 <= i < items.len() && 0 <= k < w ==> each_blocks(items, blocks)[#[trigger] (w * i
                + k)] == blocks(items[i])[k],
    decreases items.len(),
{
    if items.len() == 0 {
        assert(w * 0 == 0) by (nonlinear_arith);
    } else {
        let less = items.drop_last();
        let n = less.len() as int;
        assert forall|i: int| 0 <= i < less.len() implies blocks(#[trigger] less[i]).len() == w by {
            assert(less[i] == items[i]);
        }
        each_blocks_at(less, blocks, w);
        assert(items[n] == items.last());
        assert(blocks(items[n]).len() == w);
        assert(w * (n + 1) == w * n + w) by (nonlinear_arith);
        assert forall|i: int, k: int| 0 <= i < items.len() && 0 <= k < w implies each_blocks(
            items,
            blocks,
        )[#[trigger] (w * i + k)] == blocks(items[i])[k] by {
            if i < n {
                assert(0 <= w * i + k < w * n) by (nonlinear_arith)
                    requires
                        0 <= i < n,
                        0 <= k < w,
                ;
                assert(each_blocks(less, blocks)[w * i + k] == blocks(less[i])[k]);
            }
        }
    }
}

/// Freeing what C code was given of a measurement frees, of each CPU domain, its
/// name and its two arrays with as many elements as it has cores; then the array
/// of the domains; of each GPU channel its name; and the array of the channels.
pub proof fn measurement_is_freed_block_by_block<F: Copy + Default>(
    m: Metrics<F>,
    c: &mut macmon_metrics_t<F>,
    freed: Vec<Block>,
)
    requires
        call_ensures(ffi_metrics::<F>, (m,), *c),
        call_ensures(macmon_metrics_free::<F>, (Some(c),), freed),
        forall|i: int|
            0 <= i < m.cpu_usage@.len() ==> (#[trigger] m.cpu_usage@[i]).cores@.len() <= u32::MAX,
    ensures
        ({
            let n = m.cpu_usage@.len() as int;
            let g = m.gpu_usage@.len() as int;
            &&& freed@.len() == 3 * n + 1 + g + 1
            &&& forall|i: int|
                0 <= i < n ==> {
                    let cores = (#[trigger] m.cpu_usage@[i]).cores@.len();
                    &&& freed@[3 * i] == Block::CString
                    &&& freed@[3 * i + 1] == Block::U32Array(cores as usize)
                    &&& freed@[3 * i + 2] == Block::F32Array(cores as usize)
                }
            &&& freed@[3 * n] == Block::CpuUsageArray(n as usize)
            &&& forall|i: int|
                3 * n + 1 <= i < 3 * n + 1 + g ==> #[trigger] freed@[i] == Block::CString
            &&& freed@[3 * n + 1 + g] == Block::GpuUsageArray(g as usize)
        }),
        final(c).cpu_usage.ptr is None,
        final(c).cpu_usage.len == 0,
        final(c).gpu_usage.ptr is None,
        final(c).gpu_usage.len == 0,
{
    shown_metrics_are_freed_whole(*c, m);
    let n = m.cpu_usage@.len() as int;
    let g = m.gpu_usage@.len() as int;
    let cpu = |e: CpuUsageEntry<F>| cpu_allocations(e);
    let gpu = |e: GpuUsageEntry<F>| seq![Block::CString];
    each_blocks_at(m.cpu_usage@, cpu, 3);
    each_blocks_at(m.gpu_usage@, gpu, 1);
    let first = each_blocks(m.cpu_usage@, cpu);
    let second = each_blocks(m.gpu_usage@, gpu);
    assert(freed@ == metrics_allocations(m));
    assert forall|i: int| 0 <= i < n implies {
        let cores = (#[trigger] m.cpu_usage@[i]).cores@.len();
        &&& freed@[3 * i] == Block::CString
        &&& freed@[3 * i + 1] == Block::U32Array(cores as usize)
        &&& freed@[3 * i + 2] == Block::F32Array(cores as usize)
    } by {
        assert(first[3 * i + 0] == cpu(m.cpu_usage@[i])[0]);
        assert(first[3 * i + 1] == cpu(m.cpu_usage@[i])[1]);
        assert(first[3 * i + 2] == cpu(m.cpu_usage@[i])[2]);
    }
    assert forall|i: int| 3 * n + 1 <= i < 3 * n + 1 + g implies #[trigger] freed@[i]
        == Block::CString by {
        let k = i - 3 * n - 1;
        assert(second[1 * k + 0] == gpu(m.gpu_usage@[k])[0]);
        assert(freed@[i] == second[k]);
    }
}

/// Whether the blocks from a position on are the name and the frequencies of a
/// CPU domain.
pub open spec fn frees_domain(freed: Seq<Block>, at: int, d: CpuDomainInfo) -> bool {
    &&& freed[at] == Block::CString
    &&& freed[at + 1] == Block::U32Array(d.freqs_mhz@.len() as usize)
}

/// Freeing what C code was given of the chip frees the two texts; of each CPU
/// domain its name and its frequencies; the array of the domains; and the
/// frequencies of the GPU.
pub proof fn chip_is_freed_block_by_block(
    info: SocInfo,
    c: &mut macmon_soc_info_t,
    freed: Vec<Block>,
)
    requires
        call_ensures(ffi_soc_info, (info,), *c),
        call_ensures(macmon_soc_info_free, (Some(c),), freed),
    ensures
        freed@.len() == 2 + 2 * info.cpu_domains@.len() + 2,
        freed@[0] == Block::CString && freed@[1] == Block::CString,
        forall|i: int|
            0 <= i < info.cpu_domains@.len() ==> frees_domain(
                freed@,
                2 + 2 * i,
                #[trigger] info.cpu_domains@[i],
            ),
        freed@[freed@.len() - 2] == Block::CpuDomainArray(
            info.cpu_domains@.len() as usize,
        ),
        freed@[freed@.len() - 1] == Block::U32Array(
            info.gpu_freqs@.len() as usize,
        ),
        final(c).mac_model is None,
        final(c).chip_name is None,
        final(c).cpu_domains is None,
        final(c).cpu_domains_len == 0,
        final(c).gpu_freqs_mhz is None,
        final(c).gpu_freqs_len == 0,
{
    shown_soc_is_freed_whole(*c, info);
    let n = info.cpu_domains@.len() as int;
    let own = |d: CpuDomainInfo|
        seq![Block::CString, Block::U32Array(d.freqs_mhz@.len() as usize)];
    each_blocks_at(info.cpu_domains@, own, 2);
    let inner = each_blocks(info.cpu_domains@, own);
    let tail = seq![Block::U32Array(info.gpu_freqs@.len() as usize)];
    assert(freed@ =~= seq![Block::CString] + seq![Block::CString] + (inner
        + seq![Block::CpuDomainArray(n as usize)]) + tail);
    assert forall|i: int| 0 <= i < n implies frees_domain(
        freed@,
        2 + 2 * i,
        #[trigger] info.cpu_domains@[i],
    ) by {
        assert(inner[2 * i + 0] == own(info.cpu_domains@[i])[0]);
        assert(inner[2 * i + 1] == own(info.cpu_domains@[i])[1]);
    }
}

/// Nothing is freed of null, and of a sampler the sampler alone.
pub proof fn null_frees_nothing<F: Default, S>(
    metrics: Vec<Block>,
    info: Vec<Block>,
    none: Vec<Block>,
    sampler: S,
    one: Vec<Block>,
)
    requires
        call_ensures(macmon_metrics_free::<F>, (None::<&mut macmon_metrics_t<F>>,), metrics),
        call_ensures(macmon_soc_info_free, (None::<&mut macmon_soc_info_t>,), info),
        call_ensures(macmon_sampler_free::<S>, (None::<S>,), none),
        call_ensures(macmon_sampler_free::<S>, (Some(sampler),), one),
    ensures
        metrics@.len() == 0,
        info@.len() == 0,
        none@.len() == 0,
        one@.len() == 1 && one@[0] == Block::Sampler,
{
}

/// An empty structure shows zeros and owns nothing.
pub proof fn empty_structures_are_zeros<F: Default>(m: macmon_metrics_t<F>, s: macmon_soc_info_t)
    requires
        m.is_empty(),
        s.is_empty(),
    ensures
        m.cpu_usage.ptr is None && m.cpu_usage.len == 0,
        m.gpu_usage.ptr is None && m.gpu_usage.len == 0,
        call_ensures(F::default, (), m.power.package),
        call_ensures(F::default, (), m.power.cpu),
        call_ensures(F::default, (), m.power.gpu),
        call_ensures(F::default, (), m.power.ram),
        call_ensures(F::default, (), m.power.gpu_ram),
        call_ensures(F::default, (), m.power.ane),
        call_ensures(F::default, (), m.power.board),
        call_ensures(F::default, (), m.power.battery),
        call_ensures(F::default, (), m.power.dc_in),
        m.memory.ram_total == 0 && m.memory.ram_usage == 0,
        m.memory.swap_total == 0 && m.memory.swap_usage == 0,
        call_ensures(F::default, (), m.temp.cpu_avg),
        call_ensures(F::default, (), m.temp.gpu_avg),
        s.mac_model is None && s.chip_name is None,
        s.memory_gb == 0 && s.gpu_cores == 0,
        s.cpu_domains is None && s.cpu_domains_len == 0,
        s.gpu_freqs_mhz is None && s.gpu_freqs_len == 0,
{
}

} // verus!
