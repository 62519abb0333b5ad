//! The JSON form of a measurement.
//!
//! The real-number readings of a measurement come as JSON values; the shape of
//! the document around them, and all of the chip's description, is decided here.
use serde_json::Value;
use vstd::prelude::*;

use crate::metrics::{
    CoreUsageEntry, CpuUsageEntry, GpuUsageEntry, MemMetrics, Metrics, PowerMetrics, TempMetrics,
};
use crate::soc::{CpuDomainInfo, SocInfo};

verus! {

/// A JSON value of `serde_json`.
#[verifier::external_type_specification]
#[verifier::external_body]
pub struct ExValue(serde_json::Value);

/// The JSON number that `serde_json::Value::from` makes of an integer.
pub uninterp spec fn json_number(n: u64) -> serde_json::Value;

/// The JSON string that `serde_json::Value::from` makes of a text.
pub uninterp spec fn json_string(s: Seq<char>) -> serde_json::Value;

/// The JSON array that `serde_json::Value::from` makes of its elements.
pub uninterp spec fn json_array(items: Seq<serde_json::Value>) -> serde_json::Value;

/// The JSON object that `serde_json::Value::from_iter` makes of keys and values
/// in turn.
pub uninterp spec fn json_object(entries: Seq<(Seq<char>, serde_json::Value)>) -> serde_json::Value;

/// The text that `serde_json::to_string` makes of a value, if it succeeds.
pub uninterp spec fn json_text(doc: serde_json::Value) -> Option<Seq<char>>;

/// Calls `serde_json::Value::from` on an integer; the result is a function of
/// the integer.
#[verifier::external_body]
fn number(n: u64) -> (r: Value)
    ensures
        r == json_number(n),
{
    Value::from(n)
}

/// Calls `serde_json::Value::from` on a string; the result is a function of the
/// string's characters.
#[verifier::external_body]
fn string(s: String) -> (r: Value)
    ensures
        r == json_string(s@),
{
    Value::from(s)
}

/// Calls `serde_json::Value::from` on a vector of values; the result is a
/// function of the values in their order.
#[verifier::external_body]
fn array(items: Vec<Value>) -> (r: Value)
    ensures
        r == json_array(items@),
{
    Value::from(items)
}

/// Calls `serde_json::Value::from_iter` on pairs of a key and a value; the
/// result is a function of the pairs in their order.
#[verifier::external_body]
fn object(entries: Vec<(String, Value)>) -> (r: Value)
    ensures
        r == json_object(keyed(entries@)),
{
    Value::from_iter(entries)
}

/// Calls `serde_json::to_string` on a value; the outcome is a function of the
/// value. Where it fails, the reason is dropped.
#[verifier::external_body]
fn render(doc: &Value) -> (r: Option<String>)
    ensures
        match r {
            Some(text) => json_text(*doc) == Some(text@),
            None => json_text(*doc) is None,
        },
{
    serde_json::to_string(doc).ok()
}

/// Calls `chrono::Utc::now` and formats the time by RFC 3339. Nothing is
/// claimed of the text: it depends on the clock.
#[verifier::external_body]
fn timestamp() -> String {
    chrono::Utc::now().to_rfc3339()
}

/// Whether a text is one that the clock gave, as `timestamp` formats it.
pub closed spec fn clock_text(time: Seq<char>) -> bool {
    exists|text: String| #[trigger] call_ensures(timestamp, (), text) && text@ == time
}

/// Keys by their characters.
pub open spec fn keyed(entries: Seq<(String, Value)>) -> Seq<(Seq<char>, Value)> {
    entries.map_values(|e: (String, Value)| (e.0@, e.1))
}

/// Pairs a key with its value.
fn entry(key: &str, value: Value) -> (r: (String, Value))
    ensures
        r.0@ == key@,
        r.1 == value,
{
    (key.to_owned(), value)
}

/// The temperatures.
pub open spec fn temp_json(t: TempMetrics<Value>) -> Value {
    json_object(seq![("cpu_avg"@, t.cpu_avg), ("gpu_avg"@, t.gpu_avg)])
}

fn temp_value(t: TempMetrics<Value>) -> (r: Value)
    ensures
        r == temp_json(t),
{
    let entries = vec![entry("cpu_avg", t.cpu_avg), entry("gpu_avg", t.gpu_avg)];
    assert(keyed(entries@) =~= seq![("cpu_avg"@, t.cpu_avg), ("gpu_avg"@, t.gpu_avg)]);
    object(entries)
}

/// The memory readings.
pub open spec fn memory_json(m: MemMetrics) -> Value {
    json_object(
        seq![
            ("ram_total"@, json_number(m.ram_total)),
            ("ram_usage"@, json_number(m.ram_usage)),
            ("swap_total"@, json_number(m.swap_total)),
            ("swap_usage"@, json_number(m.swap_usage)),
        ],
    )
}

fn memory_value(m: &MemMetrics) -> (r: Value)
    ensures
        r == memory_json(*m),
{
    let entries = vec![
        entry("ram_total", number(m.ram_total)),
        entry("ram_usage", number(m.ram_usage)),
        entry("swap_total", number(m.swap_total)),
        entry("swap_usage", number(m.swap_usage)),
    ];
    assert(keyed(entries@) =~= seq![
        ("ram_total"@, json_number(m.ram_total)),
        ("ram_usage"@, json_number(m.ram_usage)),
        ("swap_total"@, json_number(m.swap_total)),
        ("swap_usage"@, json_number(m.swap_usage)),
    ]);
    object(entries)
}

/// The power readings.
pub open spec fn power_json(p: PowerMetrics<Value>) -> Value {
    json_object(
        seq![
            ("package"@, p.package),
            ("cpu"@, p.cpu),
            ("gpu"@, p.gpu),
            ("ram"@, p.ram),
            ("gpu_ram"@, p.gpu_ram),
            ("ane"@, p.ane),
            ("board"@, p.board),
            ("battery"@, p.battery),
            ("dc_in"@, p.dc_in),
        ],
    )
}

fn power_value(p: PowerMetrics<Value>) -> (r: Value)
    ensures
        r == power_json(p),
{
    let entries = vec![
        entry("package", p.package),
        entry("cpu", p.cpu),
        entry("gpu", p.gpu),
        entry("ram", p.ram),
        entry("gpu_ram", p.gpu_ram),
        entry("ane", p.ane),
        entry("board", p.board),
        entry("battery", p.battery),
        entry("dc_in", p.dc_in),
    ];
    assert(keyed(entries@) =~= seq![
        ("package"@, p.package),
        ("cpu"@, p.cpu),
        ("gpu"@, p.gpu),
        ("ram"@, p.ram),
        ("gpu_ram"@, p.gpu_ram),
        ("ane"@, p.ane),
        ("board"@, p.board),
        ("battery"@, p.battery),
        ("dc_in"@, p.dc_in),
    ]);
    object(entries)
}

/// One core: its frequency and its usage.
pub open spec fn core_json(c: CoreUsageEntry<Value>) -> Value {
    json_array(seq![json_number(c.freq_mhz as u64), c.usage])
}

/// The cores of a domain.
pub open spec fn cores_json(cores: Seq<CoreUsageEntry<Value>>) -> Value {
    json_array(cores.map_values(|c: CoreUsageEntry<Value>| core_json(c)))
}

fn cores_value(cores: Vec<CoreUsageEntry<Value>>) -> (r: Value)
    ensures
        r == cores_json(cores@),
{
    let mut items: Vec<Value> = Vec::new();
    let ghost all = cores@;
    for core in it: cores
        invariant
            it.seq() == all,
            items@ == all.take(it.index()).map_values(|c: CoreUsageEntry<Value>| core_json(c)),
    {
        let pair = vec![number(core.freq_mhz as u64), core.usage];
        assert(pair@ =~= seq![json_number(core.freq_mhz as u64), core.usage]);
        items.push(array(pair));
    }
    assert(all.take(all.len() as int) =~= all);
    array(items)
}

/// A CPU domain, under its name.
pub open spec fn cpu_json(e: CpuUsageEntry<Value>) -> (Seq<char>, Value) {
    (
        e.name@,
        json_object(
            seq![
                ("units"@, json_number(e.units as u64)),
                ("freq_mhz"@, json_number(e.freq_mhz as u64)),
                ("usage"@, e.usage),
                ("cores"@, cores_json(e.cores@)),
            ],
        ),
    )
}

fn cpu_value(list: Vec<CpuUsageEntry<Value>>) -> (r: Value)
    ensures
        r == json_object(list@.map_values(|e: CpuUsageEntry<Value>| cpu_json(e))),
{
    let mut out: Vec<(String, Value)> = Vec::new();
    let ghost all = list@;
    for e in it: list
        invariant
            it.seq() == all,
            out@.len() == it.index(),
            forall|j: int|
                0 <= j < out@.len() ==> cpu_json(all[j]) == ((#[trigger] out@[j]).0@, out@[j].1),
    {
        let entries = vec![
            entry("units", number(e.units as u64)),
            entry("freq_mhz", number(e.freq_mhz as u64)),
            entry("usage", e.usage),
            entry("cores", cores_value(e.cores)),
        ];
        assert(keyed(entries@) =~= seq![
            ("units"@, json_number(e.units as u64)),
            ("freq_mhz"@, json_number(e.freq_mhz as u64)),
            ("usage"@, e.usage),
            ("cores"@, cores_json(e.cores@)),
        ]);
        out.push((e.name, object(entries)));
    }
    assert(keyed(out@) =~= all.map_values(|e: CpuUsageEntry<Value>| cpu_json(e)));
    object(out)
}

/// A GPU channel, under its name.
pub open spec fn gpu_json(e: GpuUsageEntry<Value>) -> (Seq<char>, Value) {
    (
        e.name@,
        json_object(
            seq![
                ("units"@, json_number(e.units as u64)),
                ("freq_mhz"@, json_number(e.freq_mhz as u64)),
                ("usage"@, e.usage),
            ],
        ),
    )
}

fn gpu_value(list: Vec<GpuUsageEntry<Value>>) -> (r: Value)
    ensures
        r == json_object(list@.map_values(|e: GpuUsageEntry<Value>| gpu_json(e))),
{
    let mut out: Vec<(String, Value)> = Vec::new();
    let ghost all = list@;
    for e in it: list
        invariant
            it.seq() == all,
            out@.len() == it.index(),
            forall|j: int|
                0 <= j < out@.len() ==> gpu_json(all[j]) == ((#[trigger] out@[j]).0@, out@[j].1),
    {
        let entries = vec![
            entry("units", number(e.units as u64)),
            entry("freq_mhz", number(e.freq_mhz as u64)),
            entry("usage", e.usage),
        ];
        assert(keyed(entries@) =~= seq![
            ("units"@, json_number(e.units as u64)),
            ("freq_mhz"@, json_number(e.freq_mhz as u64)),
            ("usage"@, e.usage),
        ]);
        out.push((e.name, object(entries)));
    }
    assert(keyed(out@) =~= all.map_values(|e: GpuUsageEntry<Value>| gpu_json(e)));
    object(out)
}

/// The parts of a measurement, each under its name.
pub open spec fn metrics_entries(m: Metrics<Value>) -> Seq<(Seq<char>, Value)> {
    seq![
        ("temp"@, temp_json(m.temp)),
        ("memory"@, memory_json(m.memory)),
        (
            "cpu_usage"@,
            json_object(m.cpu_usage@.map_values(|e: CpuUsageEntry<Value>| cpu_json(e))),
        ),
        (
            "gpu_usage"@,
            json_object(m.gpu_usage@.map_values(|e: GpuUsageEntry<Value>| gpu_json(e))),
        ),
        ("power"@, power_json(m.power)),
    ]
}

fn entries_of(m: Metrics<Value>) -> (r: Vec<(String, Value)>)
    ensures
        keyed(r@) == metrics_entries(m),
{
    let entries = vec![
        entry("temp", temp_value(m.temp)),
        entry("memory", memory_value(&m.memory)),
        entry("cpu_usage", cpu_value(m.cpu_usage)),
        entry("gpu_usage", gpu_value(m.gpu_usage)),
        entry("power", power_value(m.power)),
    ];
    assert(keyed(entries@) =~= metrics_entries(m));
    entries
}

/// The JSON form of a measurement.
pub fn metrics_value(m: Metrics<Value>) -> (r: Value)
    ensures
        r == json_object(metrics_entries(m)),
{
    object(entries_of(m))
}

/// Frequencies, in order.
pub open spec fn freqs_json(freqs: Seq<u32>) -> Value {
    json_array(freqs.map_values(|f: u32| json_number(f as u64)))
}

fn freqs_value(freqs: &Vec<u32>) -> (r: Value)
    ensures
        r == freqs_json(freqs@),
{
    let mut items: Vec<Value> = Vec::new();
    let mut i: usize = 0;
    while i < freqs.len()
        invariant
            i <= freqs@.len(),
            items@ == freqs@.take(i as int).map_values(|f: u32| json_number(f as u64)),
        decreases freqs@.len() - i,
    {
        items.push(number(freqs[i] as u64));
        assert(items@ =~= freqs@.take(i + 1).map_values(|f: u32| json_number(f as u64)));
        i += 1;
    }
    assert(freqs@.take(i as int) =~= freqs@);
    array(items)
}

/// A CPU domain of the chip.
pub open spec fn domain_json(d: CpuDomainInfo) -> Value {
    json_object(
        seq![
            ("name"@, json_string(d.name@)),
            ("units"@, json_number(d.units as u64)),
            ("freqs_mhz"@, freqs_json(d.freqs_mhz@)),
        ],
    )
}

fn domain_value(d: &CpuDomainInfo) -> (r: Value)
    ensures
        r == domain_json(*d),
{
    let entries = vec![
        entry("name", string(d.name.clone())),
        entry("units", number(d.units as u64)),
        entry("freqs_mhz", freqs_value(&d.freqs_mhz)),
    ];
    assert(keyed(entries@) =~= seq![
        ("name"@, json_string(d.name@)),
        ("units"@, json_number(d.units as u64)),
        ("freqs_mhz"@, freqs_json(d.freqs_mhz@)),
    ]);
    object(entries)
}

/// The chip's description.
pub open spec fn soc_json(soc: SocInfo) -> Value {
    json_object(
        seq![
            ("mac_model"@, json_string(soc.mac_model@)),
            ("chip_name"@, json_string(soc.chip_name@)),
            ("memory_gb"@, json_number(soc.memory_gb as u64)),
            (
                "cpu_domains"@,
                json_array(soc.cpu_domains@.map_values(|d: CpuDomainInfo| domain_json(d))),
            ),
            ("gpu_cores"@, json_number(soc.gpu_cores as u64)),
            ("gpu_freqs"@, freqs_json(soc.gpu_freqs@)),
        ],
    )
}

/// The JSON form of the chip's description.
pub fn soc_value(soc: &SocInfo) -> (r: Value)
    ensures
        r == soc_json(*soc),
{
    let mut domains: Vec<Value> = Vec::new();
    let mut i: usize = 0;
    while i < soc.cpu_domains.len()
        invariant
            i <= soc.cpu_domains@.len(),
            domains@ == soc.cpu_domains@.take(i as int).map_values(
                |d: CpuDomainInfo| domain_json(d),
            ),
        decreases soc.cpu_domains@.len() - i,
    {
        domains.push(domain_value(&soc.cpu_domains[i]));
        assert(domains@ =~= soc.cpu_domains@.take(i + 1).map_values(
            |d: CpuDomainInfo| domain_json(d),
        ));
        i += 1;
    }
    assert(soc.cpu_domains@.take(i as int) =~= soc.cpu_domains@);
    let entries = vec![
        entry("mac_model", string(soc.mac_model.clone())),
        entry("chip_name", string(soc.chip_name.clone())),
        entry("memory_gb", number(soc.memory_gb as u64)),
        entry("cpu_domains", array(domains)),
        entry("gpu_cores", number(soc.gpu_cores as u64)),
        entry("gpu_freqs", freqs_value(&soc.gpu_freqs)),
    ];
    assert(keyed(entries@) =~= seq![
        ("mac_model"@, json_string(soc.mac_model@)),
        ("chip_name"@, json_string(soc.chip_name@)),
        ("memory_gb"@, json_number(soc.memory_gb as u64)),
        (
            "cpu_domains"@,
            json_array(soc.cpu_domains@.map_values(|d: CpuDomainInfo| domain_json(d))),
        ),
        ("gpu_cores"@, json_number(soc.gpu_cores as u64)),
        ("gpu_freqs"@, freqs_json(soc.gpu_freqs@)),
    ]);
    object(entries)
}

/// The document that is served: the measurement, the chip and the time.
pub open spec fn document(m: Metrics<Value>, soc: SocInfo, time: Seq<char>) -> Value {
    json_object(
        metrics_entries(m) + seq![("soc"@, soc_json(soc)), ("timestamp"@, json_string(time))],
    )
}

/// Makes the document that is served at a given time.
pub fn json_document(m: Metrics<Value>, soc: &SocInfo, time: String) -> (r: Value)
    ensures
        r == document(m, *soc, time@),
{
    let mut entries = entries_of(m);
    let ghost first = entries@;
    entries.push(entry("soc", soc_value(soc)));
    entries.push(entry("timestamp", string(time)));
    assert(keyed(entries@) =~= metrics_entries(m) + seq![
        ("soc"@, soc_json(*soc)),
        ("timestamp"@, json_string(time@)),
    ]) by {
        assert(keyed(first).len() == first.len());
        assert forall|i: int| 0 <= i < first.len() implies keyed(entries@)[i] == keyed(
            first,
        )[i] by {}
    }
    object(entries)
}

/// The text of a document, or nothing if it has none.
pub open spec fn text_or_empty(doc: Value) -> Seq<char> {
    match json_text(doc) {
        Some(text) => text,
        None => Seq::empty(),
    }
}

/// Writes the document that is served, with the present time.
pub fn to_json(m: Metrics<Value>, soc: &SocInfo) -> (r: String)
    ensures
        exists|time: Seq<char>|
            clock_text(time) && r@ == text_or_empty(#[trigger] document(m, *soc, time)),
{
    let time = timestamp();
    assert(clock_text(time@));
    let doc = json_document(m, soc, time);
    match render(&doc) {
        Some(text) => text,
        None => String::new(),
    }
}

/// Whether a value is the object that some entries make.
pub open spec fn made_of(value: Value, entries: Seq<(Seq<char>, Value)>) -> bool {
    value == json_object(entries)
}

/// The temperatures, the memory and the power are objects with each reading
/// under its own name and nothing else.
pub proof fn readings_stand_under_their_names(
    t: TempMetrics<Value>,
    m: MemMetrics,
    p: PowerMetrics<Value>,
)
    ensures
        exists|e: Seq<(Seq<char>, Value)>|
            {
                &&& #[trigger] made_of(temp_json(t), e)
                &&& e.len() == 2
                &&& e.contains(("cpu_avg"@, t.cpu_avg))
                &&& e.contains(("gpu_avg"@, t.gpu_avg))
            },
        exists|e: Seq<(Seq<char>, Value)>|
            {
                &&& #[trigger] made_of(memory_json(m), e)
                &&& e.len() == 4
                &&& e.contains(("ram_total"@, json_number(m.ram_total)))
                &&& e.contains(("ram_usage"@, json_number(m.ram_usage)))
                &&& e.contains(("swap_total"@, json_number(m.swap_total)))
                &&& e.contains(("swap_usage"@, json_number(m.swap_usage)))
            },
        exists|e: Seq<(Seq<char>, Value)>|
            {
                &&& #[trigger] made_of(power_json(p), e)
                &&& e.len() == 9
                &&& e.contains(("package"@, p.package))
                &&& e.contains(("cpu"@, p.cpu))
                &&& e.contains(("gpu"@, p.gpu))
                &&& e.contains(("ram"@, p.ram))
                &&& e.contains(("gpu_ram"@, p.gpu_ram))
                &&& e.contains(("ane"@, p.ane))
                &&& e.contains(("board"@, p.board))
                &&& e.contains(("battery"@, p.battery))
                &&& e.contains(("dc_in"@, p.dc_in))
            },
{
    let a = seq![("cpu_avg"@, t.cpu_avg), ("gpu_avg"@, t.gpu_avg)];
    assert(made_of(temp_json(t), a));
    assert(a[0] == ("cpu_avg"@, t.cpu_avg));
    assert(a[1] == ("gpu_avg"@, t.gpu_avg));
    let b = seq![
        ("ram_total"@, json_number(m.ram_total)),
        ("ram_usage"@, json_number(m.ram_usage)),
        ("swap_total"@, json_number(m.swap_total)),
        ("swap_usage"@, json_number(m.swap_usage)),
    ];
    assert(made_of(memory_json(m), b));
    assert(b[0] == ("ram_total"@, json_number(m.ram_total)));
    assert(b[1] == ("ram_usage"@, json_number(m.ram_usage)));
    assert(b[2] == ("swap_total"@, json_number(m.swap_total)));
    assert(b[3] == ("swap_usage"@, json_number(m.swap_usage)));
    let c = seq![
        ("package"@, p.package),
        ("cpu"@, p.cpu),
        ("gpu"@, p.gpu),
        ("ram"@, p.ram),
        ("gpu_ram"@, p.gpu_ram),
        ("ane"@, p.ane),
        ("board"@, p.board),
        ("battery"@, p.battery),
        ("dc_in"@, p.dc_in),
    ];
    assert(made_of(power_json(p), c));
    assert(c[0] == ("package"@, p.package));
    assert(c[1] == ("cpu"@, p.cpu));
    assert(c[2] == ("gpu"@, p.gpu));
    assert(c[3] == ("ram"@, p.ram));
    assert(c[4] == ("gpu_ram"@, p.gpu_ram));
    assert(c[5] == ("ane"@, p.ane));
    assert(c[6] == ("board"@, p.board));
    assert(c[7] == ("battery"@, p.battery));
    assert(c[8] == ("dc_in"@, p.dc_in));
}

/// A CPU domain stands under its name, with its units, frequency and usage and
/// with its cores in order, each as its frequency and its usage.
pub proof fn cpu_domain_stands_under_its_name(e: CpuUsageEntry<Value>)
    ensures
        cpu_json(e).0 == e.name@,
        exists|x: Seq<(Seq<char>, Value)>, cores: Seq<Value>|
            {
                &&& #[trigger] made_of(cpu_json(e).1, x)
                &&& x.len() == 4
                &&& x.contains(("units"@, json_number(e.units as u64)))
                &&& x.contains(("freq_mhz"@, json_number(e.freq_mhz as u64)))
                &&& x.contains(("usage"@, e.usage))
                &&& x.contains(("cores"@, #[trigger] json_array(cores)))
                &&& cores.len() == e.cores@.len()
                &&& forall|j: int|
                    0 <= j < cores.len() ==> #[trigger] cores[j] == json_array(
                        seq![json_number(e.cores@[j].freq_mhz as u64), e.cores@[j].usage],
                    )
            },
{
    let cores = e.cores@.map_values(|c: CoreUsageEntry<Value>| core_json(c));
    let x = seq![
        ("units"@, json_number(e.units as u64)),
        ("freq_mhz"@, json_number(e.freq_mhz as u64)),
        ("usage"@, e.usage),
        ("cores"@, json_array(cores)),
    ];
    assert(cores_json(e.cores@) == json_array(cores));
    assert(made_of(cpu_json(e).1, x));
    assert(x[0] == ("units"@, json_number(e.units as u64)));
    assert(x[1] == ("freq_mhz"@, json_number(e.freq_mhz as u64)));
    assert(x[2] == ("usage"@, e.usage));
    assert(x[3] == ("cores"@, json_array(cores)));
}

/// A GPU channel stands under its name, with its units, frequency and usage.
pub proof fn gpu_channel_stands_under_its_name(e: GpuUsageEntry<Value>)
    ensures
        gpu_json(e).0 == e.name@,
        exists|x: Seq<(Seq<char>, Value)>|
            {
                &&& #[trigger] made_of(gpu_json(e).1, x)
                &&& x.len() == 3
                &&& x.contains(("units"@, json_number(e.units as u64)))
                &&& x.contains(("freq_mhz"@, json_number(e.freq_mhz as u64)))
                &&& x.contains(("usage"@, e.usage))
            },
{
    let x = seq![
        ("units"@, json_number(e.units as u64)),
        ("freq_mhz"@, json_number(e.freq_mhz as u64)),
        ("usage"@, e.usage),
    ];
    assert(made_of(gpu_json(e).1, x));
    assert(x[0] == ("units"@, json_number(e.units as u64)));
    assert(x[1] == ("freq_mhz"@, json_number(e.freq_mhz as u64)));
    assert(x[2] == ("usage"@, e.usage));
}

/// Whether entries hold the five parts of a measurement.
pub open spec fn holds_parts(
    e: Seq<(Seq<char>, Value)>,
    m: Metrics<Value>,
    cpu: Seq<(Seq<char>, Value)>,
    gpu: Seq<(Seq<char>, Value)>,
) -> bool {
    &&& e.contains(("temp"@, temp_json(m.temp)))
    &&& e.contains(("memory"@, memory_json(m.memory)))
    &&& e.contains(("cpu_usage"@, json_object(cpu)))
    &&& e.contains(("gpu_usage"@, json_object(gpu)))
    &&& e.contains(("power"@, power_json(m.power)))
    &&& cpu.len() == m.cpu_usage@.len()
    &&& forall|i: int| 0 <= i < cpu.len() ==> #[trigger] cpu[i] == cpu_json(m.cpu_usage@[i])
    &&& gpu.len() == m.gpu_usage@.len()
    &&& forall|i: int| 0 <= i < gpu.len() ==> #[trigger] gpu[i] == gpu_json(m.gpu_usage@[i])
}

proof fn entries_hold_parts(m: Metrics<Value>, more: Seq<(Seq<char>, Value)>)
    ensures
        holds_parts(
            metrics_entries(m) + more,
            m,
            m.cpu_usage@.map_values(|e: CpuUsageEntry<Value>| cpu_json(e)),
            m.gpu_usage@.map_values(|e: GpuUsageEntry<Value>| gpu_json(e)),
        ),
{
    let e = metrics_entries(m) + more;
    let cpu = m.cpu_usage@.map_values(|e: CpuUsageEntry<Value>| cpu_json(e));
    let gpu = m.gpu_usage@.map_values(|e: GpuUsageEntry<Value>| gpu_json(e));
    assert(e[0] == ("temp"@, temp_json(m.temp)));
    assert(e[1] == ("memory"@, memory_json(m.memory)));
    assert(e[2] == ("cpu_usage"@, json_object(cpu)));
    assert(e[3] == ("gpu_usage"@, json_object(gpu)));
    assert(e[4] == ("power"@, power_json(m.power)));
}

/// A measurement is an object of its five parts, the CPU domains and the GPU
/// channels each being an object of theirs, in order.
pub proof fn measurement_has_five_parts(m: Metrics<Value>, r: Value)
    requires
        call_ensures(metrics_value, (m,), r),
    ensures
        exists|
            e: Seq<(Seq<char>, Value)>,
            cpu: Seq<(Seq<char>, Value)>,
            gpu: Seq<(Seq<char>, Value)>,
        |
            {
                &&& #[trigger] holds_parts(e, m, cpu, gpu)
                &&& made_of(r, e)
                &&& e.len() == 5
            },
{
    let none = Seq::<(Seq<char>, Value)>::empty();
    entries_hold_parts(m, none);
    let e = metrics_entries(m) + none;
    assert(e =~= metrics_entries(m));
    let cpu = m.cpu_usage@.map_values(|e: CpuUsageEntry<Value>| cpu_json(e));
    let gpu = m.gpu_usage@.map_values(|e: GpuUsageEntry<Value>| gpu_json(e));
    assert(holds_parts(e, m, cpu, gpu) && made_of(r, e));
}

/// The document that is served is an object of the five parts of the
/// measurement, of the chip's description and of the time.
pub proof fn document_adds_the_chip_and_the_time(
    m: Metrics<Value>,
    soc: &SocInfo,
    time: String,
    r: Value,
)
    requires
        call_ensures(json_document, (m, soc, time), r),
    ensures
        exists|
            e: Seq<(Seq<char>, Value)>,
            cpu: Seq<(Seq<char>, Value)>,
            gpu: Seq<(Seq<char>, Value)>,
        |
            {
                &&& #[trigger] holds_parts(e, m, cpu, gpu)
                &&& made_of(r, e)
                &&& e.len() == 7
                &&& e.contains(("soc"@, soc_json(*soc)))
                &&& e.contains(("timestamp"@, json_string(time@)))
            },
{
    let more = seq![("soc"@, soc_json(*soc)), ("timestamp"@, json_string(time@))];
    entries_hold_parts(m, more);
    let e = metrics_entries(m) + more;
    let cpu = m.cpu_usage@.map_values(|e: CpuUsageEntry<Value>| cpu_json(e));
    let gpu = m.gpu_usage@.map_values(|e: GpuUsageEntry<Value>| gpu_json(e));
    assert(e[5] == ("soc"@, soc_json(*soc)));
    assert(e[6] == ("timestamp"@, json_string(time@)));
    assert(holds_parts(e, m, cpu, gpu) && made_of(r, e));
}

/// What is served is the text of the document for a time that the clock gave.
pub proof fn text_is_that_of_the_document(m: Metrics<Value>, soc: &SocInfo, r: String)
    requires
        call_ensures(to_json, (m, soc), r),
    ensures
        exists|time: Seq<char>|
            {
                &&& clock_text(time)
                &&& json_text(#[trigger] document(m, *soc, time)) matches Some(text) ==> r@ == text
                &&& json_text(document(m, *soc, time)) is None ==> r@.len() == 0
            },
{
}

/// The chip's description is an object of its six fields, each under its own
/// name; its CPU domains are objects of theirs, in order.
pub proof fn chip_fields_stand_under_their_names(soc: &SocInfo, r: Value)
    requires
        call_ensures(soc_value, (soc,), r),
    ensures
        exists|e: Seq<(Seq<char>, Value)>, domains: Seq<Value>, freqs: Seq<Value>|
            {
                &&& #[trigger] made_of(r, e)
                &&& e.len() == 6
                &&& e.contains(("mac_model"@, json_string(soc.mac_model@)))
                &&& e.contains(("chip_name"@, json_string(soc.chip_name@)))
                &&& e.contains(("memory_gb"@, json_number(soc.memory_gb as u64)))
                &&& e.contains(("cpu_domains"@, #[trigger] json_array(domains)))
                &&& e.contains(("gpu_cores"@, json_number(soc.gpu_cores as u64)))
                &&& e.contains(("gpu_freqs"@, #[trigger] json_array(freqs)))
                &&& domains.len() == soc.cpu_domains@.len()
                &&& forall|i: int|
                    0 <= i < domains.len() ==> #[trigger] domains[i] == domain_json(
                        soc.cpu_domains@[i],
                    )
                &&& freqs.len() == soc.gpu_freqs@.len()
                &&& forall|i: int|
                    0 <= i < freqs.len() ==> #[trigger] freqs[i] == json_number(
                        soc.gpu_freqs@[i] as u64,
                    )
            },
{
    let domains = soc.cpu_domains@.map_values(|d: CpuDomainInfo| domain_json(d));
    let freqs = soc.gpu_freqs@.map_values(|f: u32| json_number(f as u64));
    let e = seq![
        ("mac_model"@, json_string(soc.mac_model@)),
        ("chip_name"@, json_string(soc.chip_name@)),
        ("memory_gb"@, json_number(soc.memory_gb as u64)),
        ("cpu_domains"@, json_array(domains)),
        ("gpu_cores"@, json_number(soc.gpu_cores as u64)),
        ("gpu_freqs"@, json_array(freqs)),
    ];
    assert(freqs_json(soc.gpu_freqs@) == json_array(freqs));
    assert(made_of(r, e));
    assert(e[0] == ("mac_model"@, json_string(soc.mac_model@)));
    assert(e[1] == ("chip_name"@, json_string(soc.chip_name@)));
    assert(e[2] == ("memory_gb"@, json_number(soc.memory_gb as u64)));
    assert(e[3] == ("cpu_domains"@, json_array(domains)));
    assert(e[4] == ("gpu_cores"@, json_number(soc.gpu_cores as u64)));
    assert(e[5] == ("gpu_freqs"@, json_array(freqs)));
}

/// A CPU domain of the chip is an object of its three fields.
pub proof fn domain_fields_stand_under_their_names(d: CpuDomainInfo)
    ensures
        exists|e: Seq<(Seq<char>, Value)>, freqs: Seq<Value>|
            {
                &&& #[trigger] made_of(domain_json(d), e)
                &&& e.len() == 3
                &&& e.contains(("name"@, json_string(d.name@)))
                &&& e.contains(("units"@, json_number(d.units as u64)))
                &&& e.contains(("freqs_mhz"@, #[trigger] json_array(freqs)))
                &&& freqs.len() == d.freqs_mhz@.len()
                &&& forall|i: int|
                    0 <= i < freqs.len() ==> #[trigger] freqs[i] == json_number(
                        d.freqs_mhz@[i] as u64,
                    )
            },
{
    let freqs = d.freqs_mhz@.map_values(|f: u32| json_number(f as u64));
    let e = seq![
        ("name"@, json_string(d.name@)),
        ("units"@, json_number(d.units as u64)),
        ("freqs_mhz"@, json_array(freqs)),
    ];
    assert(freqs_json(d.freqs_mhz@) == json_array(freqs));
    assert(made_of(domain_json(d), e));
    assert(e[0] == ("name"@, json_string(d.name@)));
    assert(e[1] == ("units"@, json_number(d.units as u64)));
    assert(e[2] == ("freqs_mhz"@, json_array(freqs)));
}

} // verus!
