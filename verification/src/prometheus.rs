//! The Prometheus form of a measurement.
//!
//! The real-number readings of a measurement come as the texts to show.
use vstd::prelude::*;
use vstd::string::*;

use crate::metrics::{CpuUsageEntry, GpuUsageEntry, Metrics, PowerMetrics};
use crate::soc::SocInfo;
use crate::text::decimal_text;

verus! {

/// One gauge: its help, its type, and its value under some labels.
pub open spec fn gauge_text(
    name: Seq<char>,
    help: Seq<char>,
    labels: Seq<char>,
    value: Seq<char>,
) -> Seq<char> {
    "# HELP "@ + name + " "@ + help + "\n# TYPE "@ + name + " gauge\n"@ + name + "{"@ + labels
        + "} "@ + value + "\n\n"@
}

/// Appends a gauge.
fn gauge(out: &mut String, name: &str, help: &str, labels: &str, value: &str)
    ensures
        final(out)@ == old(out)@ + gauge_text(name@, help@, labels@, value@),
{
    let mut text = String::new();
    text.append("# HELP ");
    text.append(name);
    text.append(" ");
    text.append(help);
    text.append("\n# TYPE ");
    text.append(name);
    text.append(" gauge\n");
    text.append(name);
    text.append("{");
    text.append(labels);
    text.append("} ");
    text.append(value);
    text.append("\n\n");
    assert(text@ =~= gauge_text(name@, help@, labels@, value@));
    out.append(text.as_str());
}

/// The label that names the chip.
pub open spec fn chip_label(chip: Seq<char>) -> Seq<char> {
    "chip=\""@ + chip + "\""@
}

fn chip_text(chip: &str) -> (r: String)
    ensures
        r@ == chip_label(chip@),
{
    let mut out = String::new();
    out.append("chip=\"");
    out.append(chip);
    out.append("\"");
    assert(out@ =~= chip_label(chip@));
    out
}

/// The labels that name the chip and one of its domains.
pub open spec fn domain_labels(chip: Seq<char>, domain: Seq<char>) -> Seq<char> {
    "chip=\""@ + chip + "\",domain=\""@ + domain + "\""@
}

fn domain_text(chip: &str, domain: &str) -> (r: String)
    ensures
        r@ == domain_labels(chip@, domain@),
{
    let mut out = String::new();
    out.append("chip=\"");
    out.append(chip);
    out.append("\",domain=\"");
    out.append(domain);
    out.append("\"");
    assert(out@ =~= domain_labels(chip@, domain@));
    out
}

/// The temperature and memory gauges.
pub open spec fn base_gauges(m: Metrics<String>, l: Seq<char>) -> Seq<char> {
    gauge_text(
        "macmon_cpu_temp_celsius"@,
        "Average CPU temperature in Celsius"@,
        l,
        m.temp.cpu_avg@,
    ) + gauge_text(
        "macmon_gpu_temp_celsius"@,
        "Average GPU temperature in Celsius"@,
        l,
        m.temp.gpu_avg@,
    ) + gauge_text(
        "macmon_memory_ram_total_bytes"@,
        "Total RAM in bytes"@,
        l,
        crate::text::decimal(m.memory.ram_total as nat),
    ) + gauge_text(
        "macmon_memory_ram_used_bytes"@,
        "Used RAM in bytes"@,
        l,
        crate::text::decimal(m.memory.ram_usage as nat),
    ) + gauge_text(
        "macmon_memory_swap_total_bytes"@,
        "Total swap in bytes"@,
        l,
        crate::text::decimal(m.memory.swap_total as nat),
    ) + gauge_text(
        "macmon_memory_swap_used_bytes"@,
        "Used swap in bytes"@,
        l,
        crate::text::decimal(m.memory.swap_usage as nat),
    )
}

/// The two gauges of a CPU domain.
pub open spec fn cpu_gauges(e: CpuUsageEntry<String>, chip: Seq<char>) -> Seq<char> {
    gauge_text(
        "macmon_cpu_usage_freq_mhz"@,
        "CPU domain frequency in MHz"@,
        domain_labels(chip, e.name@),
        crate::text::decimal(e.freq_mhz as nat),
    ) + gauge_text(
        "macmon_cpu_usage_ratio"@,
        "CPU domain utilization (0–1)"@,
        domain_labels(chip, e.name@),
        e.usage@,
    )
}

/// The gauges of some CPU domains, in order.
pub open spec fn all_cpu_gauges(list: Seq<CpuUsageEntry<String>>, chip: Seq<char>) -> Seq<char>
    decreases list.len(),
{
    if list.len() == 0 {
        Seq::empty()
    } else {
        all_cpu_gauges(list.drop_last(), chip) + cpu_gauges(list.last(), chip)
    }
}

/// The two gauges of a GPU channel.
pub open spec fn gpu_gauges(e: GpuUsageEntry<String>, chip: Seq<char>) -> Seq<char> {
    gauge_text(
        "macmon_gpu_usage_freq_mhz"@,
        "GPU domain frequency in MHz"@,
        domain_labels(chip, e.name@),
        crate::text::decimal(e.freq_mhz as nat),
    ) + gauge_text(
        "macmon_gpu_usage_ratio"@,
        "GPU domain utilization (0–1)"@,
        domain_labels(chip, e.name@),
        e.usage@,
    )
}

/// The gauges of some GPU channels, in order.
pub open spec fn all_gpu_gauges(list: Seq<GpuUsageEntry<String>>, chip: Seq<char>) -> Seq<char>
    decreases list.len(),
{
    if list.len() == 0 {
        Seq::empty()
    } else {
        all_gpu_gauges(list.drop_last(), chip) + gpu_gauges(list.last(), chip)
    }
}

/// The power gauges.
pub open spec fn power_gauges(p: PowerMetrics<String>, l: Seq<char>) -> Seq<char> {
    gauge_text(
        "macmon_power_package_watts"@,
        "SoC/package power consumption in Watts"@,
        l,
        p.package@,
    ) + gauge_text("macmon_power_cpu_watts"@, "CPU power consumption in Watts"@, l, p.cpu@)
        + gauge_text("macmon_power_gpu_watts"@, "GPU power consumption in Watts"@, l, p.gpu@)
        + gauge_text("macmon_power_ram_watts"@, "RAM power consumption in Watts"@, l, p.ram@)
        + gauge_text(
        "macmon_power_gpu_ram_watts"@,
        "GPU RAM power consumption in Watts"@,
        l,
        p.gpu_ram@,
    ) + gauge_text(
        "macmon_power_ane_watts"@,
        "Apple Neural Engine power consumption in Watts"@,
        l,
        p.ane@,
    ) + gauge_text(
        "macmon_power_board_watts"@,
        "Total system power consumption in Watts"@,
        l,
        p.board@,
    ) + gauge_text("macmon_power_battery_watts"@, "Battery rail power in Watts"@, l, p.battery@)
        + gauge_text("macmon_power_dc_in_watts"@, "External DC input power in Watts"@, l, p.dc_in@)
}

/// A whole measurement.
pub open spec fn prometheus_text(m: Metrics<String>, chip: Seq<char>) -> Seq<char> {
    base_gauges(m, chip_label(chip)) + all_cpu_gauges(m.cpu_usage@, chip) + all_gpu_gauges(
        m.gpu_usage@,
        chip,
    ) + power_gauges(m.power, chip_label(chip))
}

/// Writes a measurement for Prometheus.
pub fn to_prometheus(m: &Metrics<String>, soc: &SocInfo) -> (r: String)
    ensures
        r@ == prometheus_text(*m, soc.chip_name@),
{
    let chip = soc.chip_name.as_str();
    let label = chip_text(chip);
    let l = label.as_str();
    let mut out = String::new();
    write_base(&mut out, m, l);
    assert(out@ =~= base_gauges(*m, l@));
    let ghost start = out@;
    let mut i: usize = 0;
    while i < m.cpu_usage.len()
        invariant
            i <= m.cpu_usage@.len(),
            out@ == start + all_cpu_gauges(m.cpu_usage@.take(i as int), chip@),
        decreases m.cpu_usage@.len() - i,
    {
        let e = &m.cpu_usage[i];
        let labels = domain_text(chip, e.name.as_str());
        let ghost before = out@;
        gauge(
            &mut out,
            "macmon_cpu_usage_freq_mhz",
            "CPU domain frequency in MHz",
            labels.as_str(),
            decimal_text(e.freq_mhz as u64).as_str(),
        );
        gauge(
            &mut out,
            "macmon_cpu_usage_ratio",
            "CPU domain utilization (0–1)",
            labels.as_str(),
            e.usage.as_str(),
        );
        assert(out@ =~= before + cpu_gauges(*e, chip@));
        assert(m.cpu_usage@.take(i + 1).drop_last() =~= m.cpu_usage@.take(i as int));
        assert(out@ =~= start + all_cpu_gauges(m.cpu_usage@.take(i + 1), chip@));
        i += 1;
    }
    assert(m.cpu_usage@.take(i as int) =~= m.cpu_usage@);
    let ghost middle = out@;
    let mut k: usize = 0;
    while k < m.gpu_usage.len()
        invariant
            k <= m.gpu_usage@.len(),
            out@ == middle + all_gpu_gauges(m.gpu_usage@.take(k as int), chip@),
        decreases m.gpu_usage@.len() - k,
    {
        let e = &m.gpu_usage[k];
        let labels = domain_text(chip, e.name.as_str());
        let ghost before = out@;
        gauge(
            &mut out,
            "macmon_gpu_usage_freq_mhz",
            "GPU domain frequency in MHz",
            labels.as_str(),
            decimal_text(e.freq_mhz as u64).as_str(),
        );
        gauge(
            &mut out,
            "macmon_gpu_usage_ratio",
            "GPU domain utilization (0–1)",
            labels.as_str(),
            e.usage.as_str(),
        );
        assert(out@ =~= before + gpu_gauges(*e, chip@));
        assert(m.gpu_usage@.take(k + 1).drop_last() =~= m.gpu_usage@.take(k as int));
        assert(out@ =~= middle + all_gpu_gauges(m.gpu_usage@.take(k + 1), chip@));
        k += 1;
    }
    assert(m.gpu_usage@.take(k as int) =~= m.gpu_usage@);
    write_power(&mut out, &m.power, l);
    out
}

/// Appends the temperature and memory gauges.
fn write_base(out: &mut String, m: &Metrics<String>, l: &str)
    ensures
        final(out)@ == old(out)@ + base_gauges(*m, l@),
{
    gauge(
        out,
        "macmon_cpu_temp_celsius",
        "Average CPU temperature in Celsius",
        l,
        m.temp.cpu_avg.as_str(),
    );
    gauge(
        out,
        "macmon_gpu_temp_celsius",
        "Average GPU temperature in Celsius",
        l,
        m.temp.gpu_avg.as_str(),
    );
    gauge(
        out,
        "macmon_memory_ram_total_bytes",
        "Total RAM in bytes",
        l,
        decimal_text(m.memory.ram_total).as_str(),
    );
    gauge(
        out,
        "macmon_memory_ram_used_bytes",
        "Used RAM in bytes",
        l,
        decimal_text(m.memory.ram_usage).as_str(),
    );
    gauge(
        out,
        "macmon_memory_swap_total_bytes",
        "Total swap in bytes",
        l,
        decimal_text(m.memory.swap_total).as_str(),
    );
    gauge(
        out,
        "macmon_memory_swap_used_bytes",
        "Used swap in bytes",
        l,
        decimal_text(m.memory.swap_usage).as_str(),
    );
    assert(out@ =~= old(out)@ + base_gauges(*m, l@));
}

/// Appends the power gauges.
fn write_power(out: &mut String, p: &PowerMetrics<String>, l: &str)
    ensures
        final(out)@ == old(out)@ + power_gauges(*p, l@),
{
    gauge(
        out,
        "macmon_power_package_watts",
        "SoC/package power consumption in Watts",
        l,
        p.package.as_str(),
    );
    gauge(out, "macmon_power_cpu_watts", "CPU power consumption in Watts", l, p.cpu.as_str());
    gauge(out, "macmon_power_gpu_watts", "GPU power consumption in Watts", l, p.gpu.as_str());
    gauge(out, "macmon_power_ram_watts", "RAM power consumption in Watts", l, p.ram.as_str());
    gauge(
        out,
        "macmon_power_gpu_ram_watts",
        "GPU RAM power consumption in Watts",
        l,
        p.gpu_ram.as_str(),
    );
    gauge(
        out,
        "macmon_power_ane_watts",
        "Apple Neural Engine power consumption in Watts",
        l,
        p.ane.as_str(),
    );
    gauge(
        out,
        "macmon_power_board_watts",
        "Total system power consumption in Watts",
        l,
        p.board.as_str(),
    );
    gauge(out, "macmon_power_battery_watts", "Battery rail power in Watts", l, p.battery.as_str());
    gauge(out, "macmon_power_dc_in_watts", "External DC input power in Watts", l, p.dc_in.as_str());
    assert(out@ =~= old(out)@ + power_gauges(*p, l@));
}

/// A row of the exposition: a gauge's name, its help, its labels and its value.
pub type Row = (Seq<char>, Seq<char>, Seq<char>, Seq<char>);

/// The text that shows some gauges, one after the other.
#[verifier::opaque]
pub open spec fn exposition(rows: Seq<Row>) -> Seq<char>
    decreases rows.len(),
{
    if rows.len() == 0 {
        Seq::empty()
    } else {
        let (name, help, labels, value) = rows.last();
        exposition(rows.drop_last()) + ("# HELP "@ + name + " "@ + help + "\n# TYPE "@ + name
            + " gauge\n"@ + name + "{"@ + labels + "} "@ + value + "\n\n"@)
    }
}

proof fn exposition_push(rows: Seq<Row>, row: Row)
    ensures
        exposition(rows.push(row)) == exposition(rows) + gauge_text(row.0, row.1, row.2, row.3),
{
    reveal(exposition);
    assert(rows.push(row).drop_last() =~= rows);
}

proof fn exposition_adds(a: Seq<Row>, b: Seq<Row>)
    ensures
        exposition(a + b) == exposition(a) + exposition(b),
    decreases b.len(),
{
    reveal(exposition);
    if b.len() == 0 {
        assert(a + b =~= a);
        assert(exposition(a) + exposition(b) =~= exposition(a));
    } else {
        exposition_adds(a, b.drop_last());
        assert((a + b).drop_last() =~= a + b.drop_last());
        assert((a + b).last() == b.last());
        let (name, help, labels, value) = b.last();
        let block = "# HELP "@ + name + " "@ + help + "\n# TYPE "@ + name + " gauge\n"@ + name
            + "{"@ + labels + "} "@ + value + "\n\n"@;
        let (x, y) = (exposition(a), exposition(b.drop_last()));
        assert((x + y) + block =~= x + (y + block));
    }
}

/// The rows of the CPU domains, two for each.
pub open spec fn cpu_rows(list: Seq<CpuUsageEntry<String>>, chip: Seq<char>) -> Seq<Row> {
    Seq::new(
        2 * list.len(),
        |i: int|
            {
                let e = list[i / 2];
                let l = "chip=\""@ + chip + "\",domain=\""@ + e.name@ + "\""@;
                if i % 2 == 0 {
                    (
                        "macmon_cpu_usage_freq_mhz"@,
                        "CPU domain frequency in MHz"@,
                        l,
                        crate::text::decimal(e.freq_mhz as nat),
                    )
                } else {
                    ("macmon_cpu_usage_ratio"@, "CPU domain utilization (0–1)"@, l, e.usage@)
                }
            },
    )
}

proof fn cpu_exposed(list: Seq<CpuUsageEntry<String>>, chip: Seq<char>)
    ensures
        exposition(cpu_rows(list, chip)) == all_cpu_gauges(list, chip),
    decreases list.len(),
{
    reveal(exposition);
    let rows = cpu_rows(list, chip);
    if list.len() > 0 {
        let less = list.drop_last();
        let n = less.len() as int;
        cpu_exposed(less, chip);
        let (a, b) = (rows[2 * n], rows[2 * n + 1]);
        let before = cpu_rows(less, chip);
        assert(rows =~= before.push(a).push(b));
        exposition_push(before, a);
        exposition_push(before.push(a), b);
        let (x, y, z) = (
            exposition(before),
            gauge_text(a.0, a.1, a.2, a.3),
            gauge_text(b.0, b.1, b.2, b.3),
        );
        assert(x + y + z =~= x + (y + z));
    }
}

/// The rows of the GPU channels, two for each.
pub open spec fn gpu_rows(list: Seq<GpuUsageEntry<String>>, chip: Seq<char>) -> Seq<Row> {
    Seq::new(
        2 * list.len(),
        |i: int|
            {
                let e = list[i / 2];
                let l = "chip=\""@ + chip + "\",domain=\""@ + e.name@ + "\""@;
                if i % 2 == 0 {
                    (
                        "macmon_gpu_usage_freq_mhz"@,
                        "GPU domain frequency in MHz"@,
                        l,
                        crate::text::decimal(e.freq_mhz as nat),
                    )
                } else {
                    ("macmon_gpu_usage_ratio"@, "GPU domain utilization (0–1)"@, l, e.usage@)
                }
            },
    )
}

proof fn gpu_exposed(list: Seq<GpuUsageEntry<String>>, chip: Seq<char>)
    ensures
        exposition(gpu_rows(list, chip)) == all_gpu_gauges(list, chip),
    decreases list.len(),
{
    reveal(exposition);
    let rows = gpu_rows(list, chip);
    if list.len() > 0 {
        let less = list.drop_last();
        let n = less.len() as int;
        gpu_exposed(less, chip);
        let (a, b) = (rows[2 * n], rows[2 * n + 1]);
        let before = gpu_rows(less, chip);
        assert(rows =~= before.push(a).push(b));
        exposition_push(before, a);
        exposition_push(before.push(a), b);
        let (x, y, z) = (
            exposition(before),
            gauge_text(a.0, a.1, a.2, a.3),
            gauge_text(b.0, b.1, b.2, b.3),
        );
        assert(x + y + z =~= x + (y + z));
    }
}

/// The rows of the temperatures and the memory.
pub open spec fn base_rows(m: Metrics<String>, l: Seq<char>) -> Seq<Row> {
    seq![
        ("macmon_cpu_temp_celsius"@, "Average CPU temperature in Celsius"@, l, m.temp.cpu_avg@),
        ("macmon_gpu_temp_celsius"@, "Average GPU temperature in Celsius"@, l, m.temp.gpu_avg@),
        (
            "macmon_memory_ram_total_bytes"@,
            "Total RAM in bytes"@,
            l,
            crate::text::decimal(m.memory.ram_total as nat),
        ),
        (
            "macmon_memory_ram_used_bytes"@,
            "Used RAM in bytes"@,
            l,
            crate::text::decimal(m.memory.ram_usage as nat),
        ),
        (
            "macmon_memory_swap_total_bytes"@,
            "Total swap in bytes"@,
            l,
            crate::text::decimal(m.memory.swap_total as nat),
        ),
        (
            "macmon_memory_swap_used_bytes"@,
            "Used swap in bytes"@,
            l,
            crate::text::decimal(m.memory.swap_usage as nat),
        ),
    ]
}

/// The rows of the power.
pub open spec fn power_rows(m: Metrics<String>, l: Seq<char>) -> Seq<Row> {
    seq![
        (
            "macmon_power_package_watts"@,
            "SoC/package power consumption in Watts"@,
            l,
            m.power.package@,
        ),
        ("macmon_power_cpu_watts"@, "CPU power consumption in Watts"@, l, m.power.cpu@),
        ("macmon_power_gpu_watts"@, "GPU power consumption in Watts"@, l, m.power.gpu@),
        ("macmon_power_ram_watts"@, "RAM power consumption in Watts"@, l, m.power.ram@),
        (
            "macmon_power_gpu_ram_watts"@,
            "GPU RAM power consumption in Watts"@,
            l,
            m.power.gpu_ram@,
        ),
        (
            "macmon_power_ane_watts"@,
            "Apple Neural Engine power consumption in Watts"@,
            l,
            m.power.ane@,
        ),
        (
            "macmon_power_board_watts"@,
            "Total system power consumption in Watts"@,
            l,
            m.power.board@,
        ),
        ("macmon_power_battery_watts"@, "Battery rail power in Watts"@, l, m.power.battery@),
        ("macmon_power_dc_in_watts"@, "External DC input power in Watts"@, l, m.power.dc_in@),
    ]
}

proof fn base_exposed(m: Metrics<String>, l: Seq<char>)
    ensures
        exposition(base_rows(m, l)) == base_gauges(m, l),
{
    let r0 = (
        "macmon_cpu_temp_celsius"@,
        "Average CPU temperature in Celsius"@,
        l,
        m.temp.cpu_avg@,
    );
    let r1 = (
        "macmon_gpu_temp_celsius"@,
        "Average GPU temperature in Celsius"@,
        l,
        m.temp.gpu_avg@,
    );
    let r2 = (
        "macmon_memory_ram_total_bytes"@,
        "Total RAM in bytes"@,
        l,
        crate::text::decimal(m.memory.ram_total as nat),
    );
    let r3 = (
        "macmon_memory_ram_used_bytes"@,
        "Used RAM in bytes"@,
        l,
        crate::text::decimal(m.memory.ram_usage as nat),
    );
    let r4 = (
        "macmon_memory_swap_total_bytes"@,
        "Total swap in bytes"@,
        l,
        crate::text::decimal(m.memory.swap_total as nat),
    );
    let r5 = (
        "macmon_memory_swap_used_bytes"@,
        "Used swap in bytes"@,
        l,
        crate::text::decimal(m.memory.swap_usage as nat),
    );
    let s0 = Seq::<Row>::empty();
    let s1 = s0.push(r0);
    exposition_push(s0, r0);
    let s2 = s1.push(r1);
    exposition_push(s1, r1);
    let s3 = s2.push(r2);
    exposition_push(s2, r2);
    let s4 = s3.push(r3);
    exposition_push(s3, r3);
    let s5 = s4.push(r4);
    exposition_push(s4, r4);
    let s6 = s5.push(r5);
    exposition_push(s5, r5);
    assert(s6 =~= base_rows(m, l));
    assert(exposition(s0) =~= Seq::empty()) by {
        reveal(exposition);
    }
    let g0 = gauge_text(r0.0, r0.1, r0.2, r0.3);
    assert(Seq::empty() + g0 =~= g0);
}

proof fn power_exposed(m: Metrics<String>, l: Seq<char>)
    ensures
        exposition(power_rows(m, l)) == power_gauges(m.power, l),
{
    let r0 = (
        "macmon_power_package_watts"@,
        "SoC/package power consumption in Watts"@,
        l,
        m.power.package@,
    );
    let r1 = (
        "macmon_power_cpu_watts"@,
        "CPU power consumption in Watts"@,
        l,
        m.power.cpu@,
    );
    let r2 = (
        "macmon_power_gpu_watts"@,
        "GPU power consumption in Watts"@,
        l,
        m.power.gpu@,
    );
    let r3 = (
        "macmon_power_ram_watts"@,
        "RAM power consumption in Watts"@,
        l,
        m.power.ram@,
    );
    let r4 = (
        "macmon_power_gpu_ram_watts"@,
        "GPU RAM power consumption in Watts"@,
        l,
        m.power.gpu_ram@,
    );
    let r5 = (
        "macmon_power_ane_watts"@,
        "Apple Neural Engine power consumption in Watts"@,
        l,
        m.power.ane@,
    );
    let r6 = (
        "macmon_power_board_watts"@,
        "Total system power consumption in Watts"@,
        l,
        m.power.board@,
    );
    let r7 = (
        "macmon_power_battery_watts"@,
        "Battery rail power in Watts"@,
        l,
        m.power.battery@,
    );
    let r8 = (
        "macmon_power_dc_in_watts"@,
        "External DC input power in Watts"@,
        l,
        m.power.dc_in@,
    );
    let s0 = Seq::<Row>::empty();
    let s1 = s0.push(r0);
    exposition_push(s0, r0);
    let s2 = s1.push(r1);
    exposition_push(s1, r1);
    let s3 = s2.push(r2);
    exposition_push(s2, r2);
    let s4 = s3.push(r3);
    exposition_push(s3, r3);
    let s5 = s4.push(r4);
    exposition_push(s4, r4);
    let s6 = s5.push(r5);
    exposition_push(s5, r5);
    let s7 = s6.push(r6);
    exposition_push(s6, r6);
    let s8 = s7.push(r7);
    exposition_push(s7, r7);
    let s9 = s8.push(r8);
    exposition_push(s8, r8);
    assert(s9 =~= power_rows(m, l));
    assert(exposition(s0) =~= Seq::empty()) by {
        reveal(exposition);
    }
    let g0 = gauge_text(r0.0, r0.1, r0.2, r0.3);
    assert(Seq::empty() + g0 =~= g0);
}

proof fn four_parts(a: Seq<Row>, b: Seq<Row>, c: Seq<Row>, d: Seq<Row>)
    ensures
        exposition(a + b + c + d) == exposition(a) + exposition(b) + exposition(c) + exposition(d),
{
    exposition_adds(a, b);
    exposition_adds(a + b, c);
    exposition_adds(a + b + c, d);
}

/// All rows of a measurement.
pub open spec fn all_rows(m: Metrics<String>, chip: Seq<char>) -> Seq<Row> {
    let l = "chip=\""@ + chip + "\""@;
    base_rows(m, l) + cpu_rows(m.cpu_usage@, chip) + gpu_rows(m.gpu_usage@, chip) + power_rows(m, l)
}

/// Every reading is shown as a gauge under its own name: the temperatures and
/// the memory, two gauges for each CPU domain and each GPU channel, and the
/// power, with nothing else around them.
pub proof fn every_reading_is_shown_under_its_name(m: &Metrics<String>, soc: &SocInfo, r: String)
    requires
        call_ensures(to_prometheus, (m, soc), r),
    ensures
        r@ == exposition(all_rows(*m, soc.chip_name@)),
{
    let chip = soc.chip_name@;
    let l = chip_label(chip);
    base_exposed(*m, l);
    cpu_exposed(m.cpu_usage@, chip);
    gpu_exposed(m.gpu_usage@, chip);
    power_exposed(*m, l);
    four_parts(
        base_rows(*m, l),
        cpu_rows(m.cpu_usage@, chip),
        gpu_rows(m.gpu_usage@, chip),
        power_rows(*m, l),
    );
}

/// Whether a text shows a gauge: its help, its type, and its value under some
/// labels.
pub open spec fn shows(
    text: Seq<char>,
    name: Seq<char>,
    help: Seq<char>,
    labels: Seq<char>,
    value: Seq<char>,
) -> bool {
    exists|before: Seq<char>, after: Seq<char>|
        text == #[trigger] (before + ("# HELP "@ + name + " "@ + help + "\n# TYPE "@ + name
            + " gauge\n"@ + name + "{"@ + labels + "} "@ + value + "\n\n"@) + after)
}

proof fn row_stands_between(rows: Seq<Row>, k: int)
    requires
        0 <= k < rows.len(),
    ensures
        exposition(rows) == exposition(rows.take(k)) + gauge_text(
            rows[k].0,
            rows[k].1,
            rows[k].2,
            rows[k].3,
        ) + exposition(rows.skip(k + 1)),
{
    exposition_push(rows.take(k), rows[k]);
    exposition_adds(rows.take(k).push(rows[k]), rows.skip(k + 1));
    assert(rows.take(k).push(rows[k]) + rows.skip(k + 1) =~= rows);
}

proof fn row_shows(rows: Seq<Row>, k: int)
    requires
        0 <= k < rows.len(),
    ensures
        shows(exposition(rows), rows[k].0, rows[k].1, rows[k].2, rows[k].3),
{
    row_stands_between(rows, k);
}

proof fn rows_show(m: Metrics<String>, chip: Seq<char>, text: Seq<char>)
    requires
        text == exposition(all_rows(m, chip)),
    ensures
        shows(
            text,
            "macmon_cpu_temp_celsius"@,
            "Average CPU temperature in Celsius"@,
            "chip=\""@ + chip + "\""@,
            m.temp.cpu_avg@,
        ),
        shows(
            text,
            "macmon_gpu_temp_celsius"@,
            "Average GPU temperature in Celsius"@,
            "chip=\""@ + chip + "\""@,
            m.temp.gpu_avg@,
        ),
        shows(
            text,
            "macmon_memory_ram_total_bytes"@,
            "Total RAM in bytes"@,
            "chip=\""@ + chip + "\""@,
            crate::text::decimal(m.memory.ram_total as nat),
        ),
        shows(
            text,
            "macmon_memory_ram_used_bytes"@,
            "Used RAM in bytes"@,
            "chip=\""@ + chip + "\""@,
            crate::text::decimal(m.memory.ram_usage as nat),
        ),
        shows(
            text,
            "macmon_memory_swap_total_bytes"@,
            "Total swap in bytes"@,
            "chip=\""@ + chip + "\""@,
            crate::text::decimal(m.memory.swap_total as nat),
        ),
        shows(
            text,
            "macmon_memory_swap_used_bytes"@,
            "Used swap in bytes"@,
            "chip=\""@ + chip + "\""@,
            crate::text::decimal(m.memory.swap_usage as nat),
        ),
        shows(
            text,
            "macmon_power_package_watts"@,
            "SoC/package power consumption in Watts"@,
            "chip=\""@ + chip + "\""@,
            m.power.package@,
        ),
        shows(
            text,
            "macmon_power_cpu_watts"@,
            "CPU power consumption in Watts"@,
            "chip=\""@ + chip + "\""@,
            m.power.cpu@,
        ),
        shows(
            text,
            "macmon_power_gpu_watts"@,
            "GPU power consumption in Watts"@,
            "chip=\""@ + chip + "\""@,
            m.power.gpu@,
        ),
        shows(
            text,
            "macmon_power_ram_watts"@,
            "RAM power consumption in Watts"@,
            "chip=\""@ + chip + "\""@,
            m.power.ram@,
        ),
        shows(
            text,
            "macmon_power_gpu_ram_watts"@,
            "GPU RAM power consumption in Watts"@,
            "chip=\""@ + chip + "\""@,
            m.power.gpu_ram@,
        ),
        shows(
            text,
            "macmon_power_ane_watts"@,
            "Apple Neural Engine power consumption in Watts"@,
            "chip=\""@ + chip + "\""@,
            m.power.ane@,
        ),
        shows(
            text,
            "macmon_power_board_watts"@,
            "Total system power consumption in Watts"@,
            "chip=\""@ + chip + "\""@,
            m.power.board@,
        ),
        shows(
            text,
            "macmon_power_battery_watts"@,
            "Battery rail power in Watts"@,
            "chip=\""@ + chip + "\""@,
            m.power.battery@,
        ),
        shows(
            text,
            "macmon_power_dc_in_watts"@,
            "External DC input power in Watts"@,
            "chip=\""@ + chip + "\""@,
            m.power.dc_in@,
        ),
        forall|i: int|
            0 <= i < m.cpu_usage@.len() ==> shows(
                text,
                "macmon_cpu_usage_freq_mhz"@,
                "CPU domain frequency in MHz"@,
                "chip=\""@ + chip + "\",domain=\""@ + (#[trigger] m.cpu_usage@[i]).name@ + "\""@,
                crate::text::decimal(m.cpu_usage@[i].freq_mhz as nat),
            ) && shows(
                text,
                "macmon_cpu_usage_ratio"@,
                "CPU domain utilization (0–1)"@,
                "chip=\""@ + chip + "\",domain=\""@ + m.cpu_usage@[i].name@ + "\""@,
                m.cpu_usage@[i].usage@,
            ),
        forall|i: int|
            0 <= i < m.gpu_usage@.len() ==> shows(
                text,
                "macmon_gpu_usage_freq_mhz"@,
                "GPU domain frequency in MHz"@,
                "chip=\""@ + chip + "\",domain=\""@ + (#[trigger] m.gpu_usage@[i]).name@ + "\""@,
                crate::text::decimal(m.gpu_usage@[i].freq_mhz as nat),
            ) && shows(
                text,
                "macmon_gpu_usage_ratio"@,
                "GPU domain utilization (0–1)"@,
                "chip=\""@ + chip + "\",domain=\""@ + m.gpu_usage@[i].name@ + "\""@,
                m.gpu_usage@[i].usage@,
            ),
{
    let l = "chip=\""@ + chip + "\""@;
    let rows = all_rows(m, chip);
    let (base, power) = (base_rows(m, l), power_rows(m, l));
    let (cpu, gpu) = (cpu_rows(m.cpu_usage@, chip), gpu_rows(m.gpu_usage@, chip));
    let n = rows.len() - 9;
    assert(rows[0] == base[0]);
    row_shows(rows, 0);
    assert(rows[1] == base[1]);
    row_shows(rows, 1);
    assert(rows[2] == base[2]);
    row_shows(rows, 2);
    assert(rows[3] == base[3]);
    row_shows(rows, 3);
    assert(rows[4] == base[4]);
    row_shows(rows, 4);
    assert(rows[5] == base[5]);
    row_shows(rows, 5);
    assert(rows[n + 0] == power[0]);
    row_shows(rows, n + 0);
    assert(rows[n + 1] == power[1]);
    row_shows(rows, n + 1);
    assert(rows[n + 2] == power[2]);
    row_shows(rows, n + 2);
    assert(rows[n + 3] == power[3]);
    row_shows(rows, n + 3);
    assert(rows[n + 4] == power[4]);
    row_shows(rows, n + 4);
    assert(rows[n + 5] == power[5]);
    row_shows(rows, n + 5);
    assert(rows[n + 6] == power[6]);
    row_shows(rows, n + 6);
    assert(rows[n + 7] == power[7]);
    row_shows(rows, n + 7);
    assert(rows[n + 8] == power[8]);
    row_shows(rows, n + 8);
    assert forall|i: int| 0 <= i < m.cpu_usage@.len() implies shows(
        text,
        "macmon_cpu_usage_freq_mhz"@,
        "CPU domain frequency in MHz"@,
        "chip=\""@ + chip + "\",domain=\""@ + (#[trigger] m.cpu_usage@[i]).name@ + "\""@,
        crate::text::decimal(m.cpu_usage@[i].freq_mhz as nat),
    ) && shows(
        text,
        "macmon_cpu_usage_ratio"@,
        "CPU domain utilization (0–1)"@,
        "chip=\""@ + chip + "\",domain=\""@ + m.cpu_usage@[i].name@ + "\""@,
        m.cpu_usage@[i].usage@,
    ) by {
        let k = 6 + 2 * i;
        assert(rows[k] == cpu[2 * i]);
        assert(rows[k + 1] == cpu[2 * i + 1]);
        row_shows(rows, k);
        row_shows(rows, k + 1);
    }
    assert forall|i: int| 0 <= i < m.gpu_usage@.len() implies shows(
        text,
        "macmon_gpu_usage_freq_mhz"@,
        "GPU domain frequency in MHz"@,
        "chip=\""@ + chip + "\",domain=\""@ + (#[trigger] m.gpu_usage@[i]).name@ + "\""@,
        crate::text::decimal(m.gpu_usage@[i].freq_mhz as nat),
    ) && shows(
        text,
        "macmon_gpu_usage_ratio"@,
        "GPU domain utilization (0–1)"@,
        "chip=\""@ + chip + "\",domain=\""@ + m.gpu_usage@[i].name@ + "\""@,
        m.gpu_usage@[i].usage@,
    ) by {
        let k = 6 + cpu.len() + 2 * i;
        assert(rows[k] == gpu[2 * i]);
        assert(rows[k + 1] == gpu[2 * i + 1]);
        row_shows(rows, k);
        row_shows(rows, k + 1);
    }
}

/// Reading the text back by a gauge's name gives the reading that the name
/// stands for, with its help; those of a CPU domain or a GPU channel are
/// labelled with its name.
pub proof fn readings_are_read_back_by_name(m: &Metrics<String>, soc: &SocInfo, r: String)
    requires
        call_ensures(to_prometheus, (m, soc), r),
    ensures
        shows(
            r@,
            "macmon_cpu_temp_celsius"@,
            "Average CPU temperature in Celsius"@,
            "chip=\""@ + soc.chip_name@ + "\""@,
            m.temp.cpu_avg@,
        ),
        shows(
            r@,
            "macmon_gpu_temp_celsius"@,
            "Average GPU temperature in Celsius"@,
            "chip=\""@ + soc.chip_name@ + "\""@,
            m.temp.gpu_avg@,
        ),
        shows(
            r@,
            "macmon_memory_ram_total_bytes"@,
            "Total RAM in bytes"@,
            "chip=\""@ + soc.chip_name@ + "\""@,
            crate::text::decimal(m.memory.ram_total as nat),
        ),
        shows(
            r@,
            "macmon_memory_ram_used_bytes"@,
            "Used RAM in bytes"@,
            "chip=\""@ + soc.chip_name@ + "\""@,
            crate::text::decimal(m.memory.ram_usage as nat),
        ),
        shows(
            r@,
            "macmon_memory_swap_total_bytes"@,
            "Total swap in bytes"@,
            "chip=\""@ + soc.chip_name@ + "\""@,
            crate::text::decimal(m.memory.swap_total as nat),
        ),
        shows(
            r@,
            "macmon_memory_swap_used_bytes"@,
            "Used swap in bytes"@,
            "chip=\""@ + soc.chip_name@ + "\""@,
            crate::text::decimal(m.memory.swap_usage as nat),
        ),
        shows(
            r@,
            "macmon_power_package_watts"@,
            "SoC/package power consumption in Watts"@,
            "chip=\""@ + soc.chip_name@ + "\""@,
            m.power.package@,
        ),
        shows(
            r@,
            "macmon_power_cpu_watts"@,
            "CPU power consumption in Watts"@,
            "chip=\""@ + soc.chip_name@ + "\""@,
            m.power.cpu@,
        ),
        shows(
            r@,
            "macmon_power_gpu_watts"@,
            "GPU power consumption in Watts"@,
            "chip=\""@ + soc.chip_name@ + "\""@,
            m.power.gpu@,
        ),
        shows(
            r@,
            "macmon_power_ram_watts"@,
            "RAM power consumption in Watts"@,
            "chip=\""@ + soc.chip_name@ + "\""@,
            m.power.ram@,
        ),
        shows(
            r@,
            "macmon_power_gpu_ram_watts"@,
            "GPU RAM power consumption in Watts"@,
            "chip=\""@ + soc.chip_name@ + "\""@,
            m.power.gpu_ram@,
        ),
        shows(
            r@,
            "macmon_power_ane_watts"@,
            "Apple Neural Engine power consumption in Watts"@,
            "chip=\""@ + soc.chip_name@ + "\""@,
            m.power.ane@,
        ),
        shows(
            r@,
            "macmon_power_board_watts"@,
            "Total system power consumption in Watts"@,
            "chip=\""@ + soc.chip_name@ + "\""@,
            m.power.board@,
        ),
        shows(
            r@,
            "macmon_power_battery_watts"@,
            "Battery rail power in Watts"@,
            "chip=\""@ + soc.chip_name@ + "\""@,
            m.power.battery@,
        ),
        shows(
            r@,
            "macmon_power_dc_in_watts"@,
            "External DC input power in Watts"@,
            "chip=\""@ + soc.chip_name@ + "\""@,
            m.power.dc_in@,
        ),
        forall|i: int|
            0 <= i < m.cpu_usage@.len() ==> shows(
                r@,
                "macmon_cpu_usage_freq_mhz"@,
                "CPU domain frequency in MHz"@,
                "chip=\""@ + soc.chip_name@ + "\",domain=\""@ + (#[trigger] m.cpu_usage@[i]).name@ + "\""@,
                crate::text::decimal(m.cpu_usage@[i].freq_mhz as nat),
            ) && shows(
                r@,
                "macmon_cpu_usage_ratio"@,
                "CPU domain utilization (0–1)"@,
                "chip=\""@ + soc.chip_name@ + "\",domain=\""@ + m.cpu_usage@[i].name@ + "\""@,
                m.cpu_usage@[i].usage@,
            ),
        forall|i: int|
            0 <= i < m.gpu_usage@.len() ==> shows(
                r@,
                "macmon_gpu_usage_freq_mhz"@,
                "GPU domain frequency in MHz"@,
                "chip=\""@ + soc.chip_name@ + "\",domain=\""@ + (#[trigger] m.gpu_usage@[i]).name@ + "\""@,
                crate::text::decimal(m.gpu_usage@[i].freq_mhz as nat),
            ) && shows(
                r@,
                "macmon_gpu_usage_ratio"@,
                "GPU domain utilization (0–1)"@,
                "chip=\""@ + soc.chip_name@ + "\",domain=\""@ + m.gpu_usage@[i].name@ + "\""@,
                m.gpu_usage@[i].usage@,
            ),
{
    every_reading_is_shown_under_its_name(m, soc, r);
    rows_show(*m, soc.chip_name@, r@);
}

proof fn cpu_line(
    front: Seq<char>,
    help: Seq<char>,
    chip: Seq<char>,
    value: Seq<char>,
    back: Seq<char>,
)
    ensures
        front + gauge_text("macmon_power_cpu_watts"@, help, chip_label(chip), value) + back == (
        front + ("# HELP "@ + "macmon_power_cpu_watts"@ + " "@ + help + "\n# TYPE "@
            + "macmon_power_cpu_watts"@ + " gauge\n"@)) + "macmon_power_cpu_watts{chip=\""@ + chip
            + "\"} "@ + value + ("\n\n"@ + back),
{
    reveal_strlit("{");
    reveal_strlit("} ");
    reveal_strlit("chip=\"");
    reveal_strlit("\"");
    reveal_strlit("\"} ");
    reveal_strlit("macmon_power_cpu_watts");
    reveal_strlit("macmon_power_cpu_watts{chip=\"");
    let name = "macmon_power_cpu_watts"@;
    assert("macmon_power_cpu_watts{chip=\""@ =~= name + "{"@ + "chip=\""@);
    assert("\"} "@ =~= "\""@ + "} "@);
    assert(front + gauge_text(name, help, chip_label(chip), value) + back =~= (front + ("# HELP "@
        + name + " "@ + help + "\n# TYPE "@ + name + " gauge\n"@)) + (name + "{"@ + "chip=\""@)
        + chip + ("\""@ + "} "@) + value + ("\n\n"@ + back));
}

proof fn cpu_framed(rows: Seq<Row>, k: int, chip: Seq<char>, value: Seq<char>) -> (frame: (
    Seq<char>,
    Seq<char>,
))
    requires
        0 <= k < rows.len(),
        rows[k] == (
            "macmon_power_cpu_watts"@,
            "CPU power consumption in Watts"@,
            chip_label(chip),
            value,
        ),
    ensures
        exposition(rows) == frame.0 + "macmon_power_cpu_watts{chip=\""@ + chip + "\"} "@ + value
            + frame.1,
        frame.0 == exposition(rows.take(k)) + ("# HELP "@ + "macmon_power_cpu_watts"@ + " "@
            + "CPU power consumption in Watts"@ + "\n# TYPE "@ + "macmon_power_cpu_watts"@
            + " gauge\n"@),
        frame.1 == "\n\n"@ + exposition(rows.skip(k + 1)),
{
    row_stands_between(rows, k);
    let (x, y) = (exposition(rows.take(k)), exposition(rows.skip(k + 1)));
    let help = "CPU power consumption in Watts"@;
    cpu_line(x, help, chip, value, y);
    (
        x + ("# HELP "@ + "macmon_power_cpu_watts"@ + " "@ + help + "\n# TYPE "@
            + "macmon_power_cpu_watts"@ + " gauge\n"@),
        "\n\n"@ + y,
    )
}

proof fn cpu_differs(
    a: Metrics<String>,
    b: Metrics<String>,
    chip: Seq<char>,
    r: Seq<char>,
    s: Seq<char>,
)
    requires
        a.temp == b.temp,
        a.memory == b.memory,
        a.cpu_usage == b.cpu_usage,
        a.gpu_usage == b.gpu_usage,
        a.power == (PowerMetrics { cpu: a.power.cpu, ..b.power }),
        r == exposition(all_rows(a, chip)),
        s == exposition(all_rows(b, chip)),
    ensures
        exists|before: Seq<char>, after: Seq<char>|
            {
                &&& r == #[trigger] (before + "macmon_power_cpu_watts{chip=\""@ + chip + "\"} "@
                    + a.power.cpu@ + after)
                &&& s == before + "macmon_power_cpu_watts{chip=\""@ + chip + "\"} "@
                    + b.power.cpu@ + after
            },
{
    let l = chip_label(chip);
    let (p, q) = (all_rows(a, chip), all_rows(b, chip));
    let k = p.len() - 8;
    assert(p[k] == power_rows(a, l)[1]);
    assert(q[k] == power_rows(b, l)[1]);
    assert(p.take(k) =~= q.take(k));
    assert(p.skip(k + 1) =~= q.skip(k + 1));
    let (before, after) = cpu_framed(p, k, chip, a.power.cpu@);
    let other = cpu_framed(q, k, chip, b.power.cpu@);
    assert(other == (before, after));
    assert(r == before + "macmon_power_cpu_watts{chip=\""@ + chip + "\"} "@ + a.power.cpu@ + after);
}

/// Two measurements that differ in the power of the CPU alone are shown alike but
/// for the line of that gauge.
pub proof fn one_reading_changes_its_own_line(
    a: &Metrics<String>,
    b: &Metrics<String>,
    soc: &SocInfo,
    r: String,
    s: String,
)
    requires
        a.temp == b.temp,
        a.memory == b.memory,
        a.cpu_usage == b.cpu_usage,
        a.gpu_usage == b.gpu_usage,
        a.power == (PowerMetrics { cpu: a.power.cpu, ..b.power }),
        call_ensures(to_prometheus, (a, soc), r),
        call_ensures(to_prometheus, (b, soc), s),
    ensures
        exists|before: Seq<char>, after: Seq<char>|
            {
                &&& r@ == #[trigger] (before + "macmon_power_cpu_watts{chip=\""@ + soc.chip_name@
                    + "\"} "@ + a.power.cpu@ + after)
                &&& s@ == before + "macmon_power_cpu_watts{chip=\""@ + soc.chip_name@ + "\"} "@
                    + b.power.cpu@ + after
            },
{
    every_reading_is_shown_under_its_name(a, soc, r);
    every_reading_is_shown_under_its_name(b, soc, s);
    cpu_differs(*a, *b, soc.chip_name@, r@, s@);
}

} // verus!
