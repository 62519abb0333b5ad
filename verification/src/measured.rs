//! What a measurement holds, in terms of what was read.
use vstd::prelude::*;

use crate::arith::{Real, WideReal};
use crate::metrics::{ChannelRoute, MemMetrics, Metrics, PowerRail, TempMetrics};
use crate::sampler::{Rails, Reading, Readings, Sample, Sampler, SensorKind, TempSource};
use crate::soc::{CpuDomainInfo, SocInfo};

verus! {

/// The temperatures come from the SMC exactly if it has a CPU sensor.
pub proof fn smc_is_read_if_it_has_cpu_sensors(sampler: &Sampler, r: TempSource)
    requires
        call_ensures(Sampler::get_temp, (sampler,), r),
    ensures
        r == TempSource::Hid <==> sampler.smc_cpu_keys@.len() == 0,
{
}

/// The mean of the plausible ones among some temperatures.
proof fn exact_plausible<F: Real>(values: Seq<F>, avg: F, v: spec_fn(F) -> real)
    requires
        crate::exact::exact(v),
        values.len() <= usize::MAX,
        crate::sampler::plausible_mean(values, avg),
    ensures
        ({
            let warm = values.filter(|x: F| 0real < v(x) <= 150real);
            &&& v(avg) * (warm.len() as int) as real == crate::exact::real_sum(warm.map_values(v))
            &&& warm.len() == 0 ==> v(avg) == 0real
        }),
{
    let p = |x: F| 0real < v(x) <= 150real;
    let keep = choose|keep: Seq<bool>| #[trigger]
        crate::sampler::tested(values, keep) && crate::arith::mean_is(
            crate::sampler::picked(values, keep),
            avg,
        );
    assert forall|i: int| 0 <= i < values.len() implies keep[i] == p(#[trigger] values[i]) by {
        assert(crate::metrics::valid_temp(values[i], keep[i]));
    }
    crate::names::picked_is_filtered(values, keep, p);
    values.lemma_filter_len(p);
    crate::exact::exact_mean(values.filter(p), avg, v);
}

/// The first failure is one that nothing failed before.
proof fn first_error_is_first<T>(readings: Seq<Result<T, String>>)
    ensures
        match crate::sampler::first_error(readings) {
            Some(e) => exists|i: int|
                0 <= i < readings.len() && #[trigger] readings[i] == Err::<T, String>(e) && forall|
                    j: int,
                | 0 <= j < i ==> #[trigger] readings[j] is Ok,
            None => forall|i: int| 0 <= i < readings.len() ==> #[trigger] readings[i] is Ok,
        },
    decreases readings.len(),
{
    if readings.len() > 0 {
        let rest = readings.drop_first();
        first_error_is_first(rest);
        match readings[0] {
            Err(e) => {
                assert(readings[0] == Err::<T, String>(e));
            },
            Ok(_) => match crate::sampler::first_error(rest) {
                Some(e) => {
                    let i = choose|i: int|
                        0 <= i < rest.len() && #[trigger] rest[i] == Err::<T, String>(e) && forall|
                            j: int,
                        | 0 <= j < i ==> #[trigger] rest[j] is Ok;
                    assert(readings[i + 1] == Err::<T, String>(e));
                    assert forall|j: int| 0 <= j < i + 1 implies #[trigger] readings[j] is Ok by {
                        if j > 0 {
                            assert(rest[j - 1] is Ok);
                        }
                    }
                },
                None => {
                    assert forall|j: int| 0 <= j < readings.len() implies #[trigger] readings[j] is Ok by {
                        if j > 0 {
                            assert(rest[j - 1] is Ok);
                        }
                    }
                },
            },
        }
    }
}

/// The readings of the SMC fail with the first key that could not be read, the
/// CPU keys coming first, and with no other.
pub proof fn smc_temperatures_fail_with_first_key<F: Real>(
    cpu: &[Result<F, String>],
    gpu: &[Result<F, String>],
    r: Result<TempMetrics<F>, String>,
)
    requires
        call_ensures(Sampler::get_temp_smc::<F>, (cpu, gpu), r),
    ensures
        r is Ok <==> forall|i: int|
            0 <= i < (cpu@ + gpu@).len() ==> #[trigger] (cpu@ + gpu@)[i] is Ok,
        r matches Err(e) ==> exists|i: int|
            0 <= i < (cpu@ + gpu@).len() && #[trigger] (cpu@ + gpu@)[i] == Err::<F, String>(e)
                && forall|j: int| 0 <= j < i ==> #[trigger] (cpu@ + gpu@)[j] is Ok,
{
    let (c, g) = (cpu@, gpu@);
    let all = c + g;
    let n = c.len() as int;
    first_error_is_first(c);
    first_error_is_first(g);
    match (crate::sampler::first_error(c), crate::sampler::first_error(g)) {
        (Some(e), _) => {
            let i = choose|i: int|
                0 <= i < c.len() && #[trigger] c[i] == Err::<F, String>(e) && forall|j: int|
                    0 <= j < i ==> #[trigger] c[j] is Ok;
            assert(all[i] == Err::<F, String>(e));
            assert forall|j: int| 0 <= j < i implies #[trigger] all[j] is Ok by {
                assert(c[j] is Ok);
            }
        },
        (None, Some(e)) => {
            let i = choose|i: int|
                0 <= i < g.len() && #[trigger] g[i] == Err::<F, String>(e) && forall|j: int|
                    0 <= j < i ==> #[trigger] g[j] is Ok;
            assert(all[i + n] == Err::<F, String>(e));
            assert forall|j: int| 0 <= j < i + n implies #[trigger] all[j] is Ok by {
                if j < n {
                    assert(c[j] is Ok);
                } else {
                    assert(g[j - n] is Ok);
                }
            }
        },
        (None, None) => {
            assert forall|j: int| 0 <= j < all.len() implies #[trigger] all[j] is Ok by {
                if j < n {
                    assert(c[j] is Ok);
                } else {
                    assert(g[j - n] is Ok);
                }
            }
        },
    }
}

/// The temperatures of the SMC are the means of its readings above 0 and up to
/// 150 degrees: times the number of these, they are their sums.
pub proof fn smc_temperatures_are_means<F: Real>(
    cpu: &[Result<F, String>],
    gpu: &[Result<F, String>],
    t: TempMetrics<F>,
    v: spec_fn(F) -> real,
)
    requires
        crate::exact::exact(v),
        call_ensures(
            Sampler::get_temp_smc::<F>,
            (cpu, gpu),
            Ok::<TempMetrics<F>, String>(t),
        ),
    ensures
        ({
            let warm = |x: F| 0real < v(x) <= 150real;
            let value = |x: Result<F, String>| x->Ok_0;
            let c = cpu@.map_values(value).filter(warm);
            let g = gpu@.map_values(value).filter(warm);
            &&& v(t.cpu_avg) * (c.len() as int) as real == crate::exact::real_sum(c.map_values(v))
            &&& c.len() == 0 ==> v(t.cpu_avg) == 0real
            &&& v(t.gpu_avg) * (g.len() as int) as real == crate::exact::real_sum(g.map_values(v))
            &&& g.len() == 0 ==> v(t.gpu_avg) == 0real
        }),
{
    assert(cpu.len() == cpu@.len());
    assert(gpu.len() == gpu@.len());
    let value = |x: Result<F, String>| x->Ok_0;
    assert(crate::sampler::values_of(cpu@) =~= cpu@.map_values(value));
    assert(crate::sampler::values_of(gpu@) =~= gpu@.map_values(value));
    exact_plausible(cpu@.map_values(value), t.cpu_avg, v);
    exact_plausible(gpu@.map_values(value), t.gpu_avg, v);
}

proof fn picked_maps<A, B>(items: Seq<A>, keep: Seq<bool>, f: spec_fn(A) -> B)
    requires
        keep.len() == items.len(),
    ensures
        crate::sampler::picked(items.map_values(f), keep) == crate::sampler::picked(
            items,
            keep,
        ).map_values(f),
    decreases items.len(),
{
    let mapped = items.map_values(f);
    if items.len() > 0 {
        picked_maps(items.drop_last(), keep.drop_last(), f);
        assert(mapped.drop_last() =~= items.drop_last().map_values(f));
    }
    assert(crate::sampler::picked(mapped, keep) =~= crate::sampler::picked(items, keep).map_values(
        f,
    ));
}

proof fn exact_sensors<F: Real>(
    sensors: Seq<(String, F)>,
    kind: SensorKind,
    named: spec_fn(Seq<char>) -> bool,
    avg: F,
    v: spec_fn(F) -> real,
)
    requires
        crate::exact::exact(v),
        sensors.len() <= usize::MAX,
        forall|name: Seq<char>| #[trigger]
            named(name) == (crate::sampler::hid_kind_of(name) == Some(kind)),
        crate::sampler::sensor_mean(sensors, kind, avg),
    ensures
        ({
            let warm = sensors.filter(|s: (String, F)| named(s.0@) && 0real < v(s.1) <= 150real);
            &&& v(avg) * (warm.len() as int) as real == crate::exact::real_sum(
                warm.map_values(|s: (String, F)| v(s.1)),
            )
            &&& warm.len() == 0 ==> v(avg) == 0real
        }),
{
    let p = |s: (String, F)| named(s.0@) && 0real < v(s.1) <= 150real;
    let second = |s: (String, F)| s.1;
    let keep = choose|keep: Seq<bool>| #[trigger]
        crate::sampler::tested_sensors(sensors, kind, keep) && crate::arith::mean_is(
            crate::sampler::picked(crate::sampler::sensor_values(sensors), keep),
            avg,
        );
    assert forall|i: int| 0 <= i < sensors.len() implies keep[i] == p(#[trigger] sensors[i]) by {
        assert(named(sensors[i].0@) == (crate::sampler::hid_kind_of(sensors[i].0@) == Some(kind)));
        assert(keep[i] == keep[i]);
    }
    crate::names::picked_is_filtered(sensors, keep, p);
    assert(crate::sampler::sensor_values(sensors) =~= sensors.map_values(second));
    picked_maps(sensors, keep, second);
    let warm = sensors.filter(p);
    sensors.lemma_filter_len(p);
    crate::exact::exact_mean(warm.map_values(second), avg, v);
    assert(warm.map_values(second).map_values(v) =~= warm.map_values(|s: (String, F)| v(s.1)));
}

/// The temperatures of the HID sensors are the means of the readings above 0 and
/// up to 150 degrees of all sensors that are named as the CPU's and as the
/// GPU's: times the number of these, they are their sums.
pub proof fn hid_temperatures_are_means<F: Real>(
    sensors: &[(String, F)],
    t: TempMetrics<F>,
    v: spec_fn(F) -> real,
)
    requires
        crate::exact::exact(v),
        call_ensures(Sampler::get_temp_hid::<F>, (sensors,), t),
    ensures
        ({
            let c = sensors@.filter(
                |s: (String, F)|
                    ("pACC MTR Temp Sensor"@.is_prefix_of(s.0@)
                        || "eACC MTR Temp Sensor"@.is_prefix_of(s.0@)) && 0real < v(s.1) <= 150real,
            );
            let g = sensors@.filter(
                |s: (String, F)|
                    "GPU MTR Temp Sensor"@.is_prefix_of(s.0@) && 0real < v(s.1) <= 150real,
            );
            let value = |s: (String, F)| v(s.1);
            &&& v(t.cpu_avg) * (c.len() as int) as real == crate::exact::real_sum(
                c.map_values(value),
            )
            &&& c.len() == 0 ==> v(t.cpu_avg) == 0real
            &&& v(t.gpu_avg) * (g.len() as int) as real == crate::exact::real_sum(
                g.map_values(value),
            )
            &&& g.len() == 0 ==> v(t.gpu_avg) == 0real
        }),
{
    assert(sensors.len() == sensors@.len());
    let cpu = |n: Seq<char>|
        "pACC MTR Temp Sensor"@.is_prefix_of(n) || "eACC MTR Temp Sensor"@.is_prefix_of(n);
    let gpu = |n: Seq<char>| "GPU MTR Temp Sensor"@.is_prefix_of(n);
    assert forall|n: Seq<char>| #[trigger]
        cpu(n) == (crate::sampler::hid_kind_of(n) == Some(SensorKind::Cpu)) by {
        crate::names::hid_names(n);
    }
    assert forall|n: Seq<char>| #[trigger]
        gpu(n) == (crate::sampler::hid_kind_of(n) == Some(SensorKind::Gpu)) by {
        crate::names::hid_names(n);
    }
    exact_sensors(sensors@, SensorKind::Cpu, cpu, t.cpu_avg, v);
    exact_sensors(sensors@, SensorKind::Gpu, gpu, t.gpu_avg, v);
    crate::names::same_filter(
        sensors@,
        |s: (String, F)| cpu(s.0@) && 0real < v(s.1) <= 150real,
        |s: (String, F)|
            ("pACC MTR Temp Sensor"@.is_prefix_of(s.0@)
                || "eACC MTR Temp Sensor"@.is_prefix_of(s.0@)) && 0real < v(s.1) <= 150real,
    );
    crate::names::same_filter(
        sensors@,
        |s: (String, F)| gpu(s.0@) && 0real < v(s.1) <= 150real,
        |s: (String, F)| "GPU MTR Temp Sensor"@.is_prefix_of(s.0@) && 0real < v(s.1) <= 150real,
    );
}

/// The memory readings go where they belong, and the first that failed is the
/// failure.
pub proof fn memory_is_usage_and_total(
    ram: Result<(u64, u64), String>,
    swap: Result<(u64, u64), String>,
    r: Result<MemMetrics, String>,
)
    requires
        call_ensures(Sampler::get_mem, (ram, swap), r),
    ensures
        ram matches Err(e) ==> r == Err::<MemMetrics, String>(e),
        ram is Ok && swap is Err ==> r == Err::<MemMetrics, String>(swap->Err_0),
        ram is Ok && swap is Ok ==> r is Ok && ram->Ok_0 == (r->Ok_0.ram_usage, r->Ok_0.ram_total)
            && swap->Ok_0 == (r->Ok_0.swap_usage, r->Ok_0.swap_total),
{
}

/// Whether a sample is a power reading that counts and failed.
pub open spec fn fails<F>(x: Sample<F>) -> bool {
    &&& x.group@ == "Energy Model"@
    &&& x.channel@ == "GPU Energy"@ || "CPU Energy"@.is_suffix_of(x.channel@)
        || "ANE"@.is_prefix_of(x.channel@) || "DRAM"@.is_prefix_of(x.channel@)
        || "GPU SRAM"@.is_prefix_of(x.channel@)
    &&& x.reading matches Reading::Watts(Err(_))
}

proof fn failing_route<F>(x: Sample<F>, domains: Seq<CpuDomainInfo>)
    requires
        domains.len() <= usize::MAX,
    ensures
        fails(x) <==> x.route(domains) is Power && (x.reading matches Reading::Watts(Err(_))),
{
    crate::names::route_names(x.group@, x.subgroup@, x.channel@, domains);
    if let ChannelRoute::Power(rail) = x.route(domains) {
        match rail {
            PowerRail::Gpu => {},
            PowerRail::Cpu => {},
            PowerRail::Ane => {},
            PowerRail::Ram => {},
            PowerRail::GpuRam => {},
        }
    }
}

proof fn failure_is_first<F>(samples: Seq<Sample<F>>, domains: Seq<CpuDomainInfo>)
    requires
        domains.len() <= usize::MAX,
    ensures
        match crate::sampler::failure_of(samples, domains) {
            Some(e) => exists|i: int|
                0 <= i < samples.len() && fails(#[trigger] samples[i]) && samples[i].reading
                    == Reading::<F>::Watts(Err(e)) && forall|j: int|
                    0 <= j < i ==> !fails(#[trigger] samples[j]),
            None => forall|i: int| 0 <= i < samples.len() ==> !fails(#[trigger] samples[i]),
        },
    decreases samples.len(),
{
    if samples.len() > 0 {
        let less = samples.drop_last();
        let n = less.len() as int;
        failure_is_first(less, domains);
        failing_route(samples.last(), domains);
        assert(samples[n] == samples.last());
        match crate::sampler::failure_of(less, domains) {
            Some(e) => {
                let i = choose|i: int|
                    0 <= i < less.len() && fails(#[trigger] less[i]) && less[i].reading
                        == Reading::<F>::Watts(Err(e)) && forall|j: int|
                        0 <= j < i ==> !fails(#[trigger] less[j]);
                assert(samples[i] == less[i]);
                assert forall|j: int| 0 <= j < i implies !fails(#[trigger] samples[j]) by {
                    assert(!fails(less[j]));
                }
            },
            None => {
                assert forall|j: int| 0 <= j < n implies !fails(#[trigger] samples[j]) by {
                    assert(!fails(less[j]));
                }
            },
        }
    }
}

/// A measurement fails with the first power reading that counts and failed; if
/// there is none, with the failure of the memory; and if there is none either,
/// with that of the temperatures.
pub proof fn measurement_fails_in_order<F: Real, W: WideReal<F>>(
    sampler: &Sampler,
    samples: &[Sample<F>],
    memory: Result<MemMetrics, String>,
    temp: Result<TempMetrics<F>, String>,
    rails: Rails<F>,
    r: Result<Metrics<F>, String>,
)
    requires
        call_ensures(
            Sampler::get_metrics::<F, W>,
            (sampler, samples, memory, temp, rails),
            r,
        ),
    ensures
        forall|i: int|
            0 <= i < samples@.len() && fails(#[trigger] samples@[i]) && (forall|j: int|
                0 <= j < i ==> !fails(#[trigger] samples@[j])) ==> r is Err
                && samples@[i].reading == Reading::<F>::Watts(Err(r->Err_0)),
        (forall|i: int| 0 <= i < samples@.len() ==> !fails(#[trigger] samples@[i])) ==> match (
            memory,
            temp,
        ) {
            (Err(e), _) => r == Err::<Metrics<F>, String>(e),
            (Ok(_), Err(e)) => r == Err::<Metrics<F>, String>(e),
            (Ok(m), Ok(t)) => r is Ok && r->Ok_0.memory == m && r->Ok_0.temp == t,
        },
{
    let domains = sampler.soc.cpu_domains@;
    assert(sampler.soc.cpu_domains.len() == domains.len());
    failure_is_first(samples@, domains);
    assert(crate::sampler::outcome_is::<F, W>(
        samples@,
        sampler.soc,
        memory,
        temp,
        rails,
        r,
    ));
    if let Some(e) = crate::sampler::failure_of(samples@, domains) {
        let k = choose|k: int|
            0 <= k < samples@.len() && fails(#[trigger] samples@[k]) && samples@[k].reading
                == Reading::<F>::Watts(Err(e)) && forall|j: int|
                0 <= j < k ==> !fails(#[trigger] samples@[j]);
        assert forall|i: int|
            0 <= i < samples@.len() && fails(#[trigger] samples@[i]) && (forall|j: int|
                0 <= j < i ==> !fails(#[trigger] samples@[j])) implies i == k by {
            assert(fails(samples@[k]));
        }
    }
}

/// The power readings of the channels of the energy model that `named` accepts,
/// added up.
pub open spec fn rail_power<F>(
    samples: Seq<Sample<F>>,
    v: spec_fn(F) -> real,
    named: spec_fn(Seq<char>) -> bool,
) -> real {
    crate::exact::real_sum(
        samples.filter(
            |x: Sample<F>|
                x.group@ == "Energy Model"@ && named(x.channel@) && (x.reading matches Reading::Watts(
                    Ok(_),
                )),
        ).map_values(|x: Sample<F>| v(x.reading->Watts_0->Ok_0)),
    )
}

proof fn watts_filtered<F>(
    samples: Seq<Sample<F>>,
    domains: Seq<CpuDomainInfo>,
    rail: PowerRail,
    named: spec_fn(Seq<char>) -> bool,
)
    requires
        domains.len() <= usize::MAX,
        forall|x: Sample<F>| #[trigger]
            x.route(domains) == ChannelRoute::Power(rail) <==> x.group@ == "Energy Model"@ && named(
                x.channel@,
            ),
    ensures
        crate::sampler::watts_of(samples, domains, rail) == samples.filter(
            |x: Sample<F>|
                x.group@ == "Energy Model"@ && named(x.channel@) && (x.reading matches Reading::Watts(
                    Ok(_),
                )),
        ).map_values(|x: Sample<F>| x.reading->Watts_0->Ok_0),
    decreases samples.len(),
{
    reveal(Seq::filter);
    let p = |x: Sample<F>|
        x.group@ == "Energy Model"@ && named(x.channel@) && (x.reading matches Reading::Watts(Ok(_)));
    let f = |x: Sample<F>| x.reading->Watts_0->Ok_0;
    if samples.len() > 0 {
        let less = samples.drop_last();
        let x = samples.last();
        watts_filtered(less, domains, rail, named);
        assert(x.route(domains) == ChannelRoute::Power(rail) <==> x.group@ == "Energy Model"@
            && named(x.channel@));
    }
    assert(crate::sampler::watts_of(samples, domains, rail) =~= samples.filter(p).map_values(f));
}

proof fn exact_rail<F: Real>(
    samples: Seq<Sample<F>>,
    domains: Seq<CpuDomainInfo>,
    rail: PowerRail,
    named: spec_fn(Seq<char>) -> bool,
    sum: F,
    v: spec_fn(F) -> real,
)
    requires
        crate::exact::exact(v),
        domains.len() <= usize::MAX,
        forall|c: Seq<char>| #[trigger]
            named(c) <==> crate::metrics::rail_of(c) == Some(rail),
        crate::arith::sum_is(crate::sampler::watts_of(samples, domains, rail), sum),
    ensures
        v(sum) == rail_power(samples, v, named),
{
    assert forall|x: Sample<F>| #[trigger]
        x.route(domains) == ChannelRoute::Power(rail) <==> x.group@ == "Energy Model"@ && named(
            x.channel@,
        ) by {
        crate::names::route_names(x.group@, x.subgroup@, x.channel@, domains);
        crate::names::rail_names(x.channel@);
        assert(named(x.channel@) <==> crate::metrics::rail_of(x.channel@) == Some(rail));
    }
    watts_filtered(samples, domains, rail, named);
    let p = |x: Sample<F>|
        x.group@ == "Energy Model"@ && named(x.channel@) && (x.reading matches Reading::Watts(Ok(_)));
    let f = |x: Sample<F>| x.reading->Watts_0->Ok_0;
    crate::exact::exact_sum(crate::sampler::watts_of(samples, domains, rail), sum, v);
    assert(samples.filter(p).map_values(f).map_values(v) =~= samples.filter(p).map_values(
        |x: Sample<F>| v(x.reading->Watts_0->Ok_0),
    ));
}

/// The power of each rail is what the channels that are named after it report,
/// added up, and the power of the package is what the five rails make together.
/// The other three are what was read, or zero.
pub proof fn power_is_what_the_rails_report<F: Real, W: WideReal<F>>(
    sampler: &Sampler,
    samples: &[Sample<F>],
    memory: Result<MemMetrics, String>,
    temp: Result<TempMetrics<F>, String>,
    rails: Rails<F>,
    m: Metrics<F>,
    v: spec_fn(F) -> real,
)
    requires
        crate::exact::exact(v),
        call_ensures(
            Sampler::get_metrics::<F, W>,
            (sampler, samples, memory, temp, rails),
            Ok::<Metrics<F>, String>(m),
        ),
    ensures
        v(m.power.gpu) == rail_power(samples@, v, |c: Seq<char>| c == "GPU Energy"@),
        v(m.power.cpu) == rail_power(samples@, v, |c: Seq<char>| "CPU Energy"@.is_suffix_of(c)),
        v(m.power.ane) == rail_power(
            samples@,
            v,
            |c: Seq<char>| "ANE"@.is_prefix_of(c) && !"CPU Energy"@.is_suffix_of(c),
        ),
        v(m.power.ram) == rail_power(
            samples@,
            v,
            |c: Seq<char>| "DRAM"@.is_prefix_of(c) && !"CPU Energy"@.is_suffix_of(c),
        ),
        v(m.power.gpu_ram) == rail_power(
            samples@,
            v,
            |c: Seq<char>| "GPU SRAM"@.is_prefix_of(c) && !"CPU Energy"@.is_suffix_of(c),
        ),
        v(m.power.package) == v(m.power.cpu) + v(m.power.gpu) + v(m.power.ane) + v(m.power.ram) + v(
            m.power.gpu_ram,
        ),
        v(m.power.board) == (if rails.board is Some {
            v(rails.board->0)
        } else {
            0real
        }),
        v(m.power.battery) == (if rails.battery is Some {
            v(rails.battery->0)
        } else {
            0real
        }),
        v(m.power.dc_in) == (if rails.dc_in is Some {
            v(rails.dc_in->0)
        } else {
            0real
        }),
{
    let soc = sampler.soc;
    let domains = soc.cpu_domains@;
    assert(soc.cpu_domains.len() == domains.len());
    assert(crate::sampler::outcome_is::<F, W>(
        samples@,
        soc,
        memory,
        temp,
        rails,
        Ok::<Metrics<F>, String>(m),
    ));
    let x = choose|x: Readings<F>| #[trigger]
        crate::sampler::readings_are::<F, W>(x, samples@, soc) && crate::sampler::measures(
            m,
            x,
            memory->Ok_0,
            temp->Ok_0,
            rails,
        );
    let gpu = |c: Seq<char>| c == "GPU Energy"@;
    let cpu = |c: Seq<char>| "CPU Energy"@.is_suffix_of(c);
    let ane = |c: Seq<char>| "ANE"@.is_prefix_of(c) && !"CPU Energy"@.is_suffix_of(c);
    let ram = |c: Seq<char>| "DRAM"@.is_prefix_of(c) && !"CPU Energy"@.is_suffix_of(c);
    let gpu_ram = |c: Seq<char>| "GPU SRAM"@.is_prefix_of(c) && !"CPU Energy"@.is_suffix_of(c);
    assert forall|c: Seq<char>| #[trigger]
        gpu(c) <==> crate::metrics::rail_of(c) == Some(PowerRail::Gpu) by {
        crate::names::rail_names(c);
    }
    assert forall|c: Seq<char>| #[trigger]
        cpu(c) <==> crate::metrics::rail_of(c) == Some(PowerRail::Cpu) by {
        crate::names::rail_names(c);
    }
    assert forall|c: Seq<char>| #[trigger]
        ane(c) <==> crate::metrics::rail_of(c) == Some(PowerRail::Ane) by {
        crate::names::rail_names(c);
    }
    assert forall|c: Seq<char>| #[trigger]
        ram(c) <==> crate::metrics::rail_of(c) == Some(PowerRail::Ram) by {
        crate::names::rail_names(c);
    }
    assert forall|c: Seq<char>| #[trigger]
        gpu_ram(c) <==> crate::metrics::rail_of(c) == Some(PowerRail::GpuRam) by {
        crate::names::rail_names(c);
    }
    exact_rail(samples@, domains, PowerRail::Gpu, gpu, m.power.gpu, v);
    exact_rail(samples@, domains, PowerRail::Cpu, cpu, m.power.cpu, v);
    exact_rail(samples@, domains, PowerRail::Ane, ane, m.power.ane, v);
    exact_rail(samples@, domains, PowerRail::Ram, ram, m.power.ram, v);
    exact_rail(samples@, domains, PowerRail::GpuRam, gpu_ram, m.power.gpu_ram, v);
    assert(crate::sampler::package_is(m.power));
}

/// The samples that report the states of the cores of a domain.
pub open spec fn core_samples<F>(
    samples: Seq<Sample<F>>,
    domains: Seq<CpuDomainInfo>,
    d: int,
) -> Seq<Sample<F>> {
    samples.filter(
        |x: Sample<F>|
            x.group@ == "CPU Stats"@ && x.subgroup@ == "CPU Core Performance States"@
                && crate::names::is_first_of(x.channel@, domains, d) && x.reading is States,
    )
}

/// The samples that report the states of the GPU.
pub open spec fn gpu_samples<F>(samples: Seq<Sample<F>>) -> Seq<Sample<F>> {
    samples.filter(
        |x: Sample<F>|
            x.group@ == "GPU Stats"@ && x.subgroup@ == "GPU Performance States"@ && x.channel@
                == "GPUPH"@ && x.reading is States,
    )
}

proof fn acts_less<F, W: WideReal<F>>(
    samples: Seq<Sample<F>>,
    soc: SocInfo,
    acts: Seq<(u32, F)>,
)
    requires
        samples.len() > 0,
        crate::sampler::acts_are::<F, W>(samples, soc, acts),
    ensures
        crate::sampler::acts_are::<F, W>(samples.drop_last(), soc, acts.drop_last()),
        crate::sampler::act_is::<F, W>(samples.last(), soc, acts.last()),
{
    let (s, a) = (samples.drop_last(), acts.drop_last());
    assert forall|i: int| 0 <= i < s.len() implies crate::sampler::act_is::<F, W>(
        s[i],
        soc,
        #[trigger] a[i],
    ) by {
        assert(a[i] == acts[i]);
    }
    assert(acts[acts.len() - 1] == acts.last());
}

proof fn cores_sampled<F, W: WideReal<F>>(
    samples: Seq<Sample<F>>,
    soc: SocInfo,
    acts: Seq<(u32, F)>,
    d: int,
)
    requires
        soc.cpu_domains@.len() <= usize::MAX,
        0 <= d < soc.cpu_domains@.len(),
        crate::sampler::acts_are::<F, W>(samples, soc, acts),
    ensures
        ({
            let cores = crate::sampler::cores_of(samples, acts, soc.cpu_domains@, d);
            let of = core_samples(samples, soc.cpu_domains@, d);
            &&& cores.len() == of.len()
            &&& forall|j: int|
                0 <= j < of.len() ==> crate::metrics::activity_is::<F, W>(
                    of[j].reading->States_0@,
                    soc.cpu_domains@[d].freqs_mhz@,
                    ((#[trigger] cores[j]).freq_mhz, cores[j].usage),
                )
        }),
    decreases samples.len(),
{
    reveal(Seq::filter);
    let domains = soc.cpu_domains@;
    if samples.len() > 0 {
        let (less, fewer) = (samples.drop_last(), acts.drop_last());
        let x = samples.last();
        acts_less::<F, W>(samples, soc, acts);
        cores_sampled::<F, W>(less, soc, fewer, d);
        crate::names::route_names(x.group@, x.subgroup@, x.channel@, domains);
        assert(crate::names::is_first_of(x.channel@, domains, (d as usize) as int)
            == crate::names::is_first_of(x.channel@, domains, d));
        let cores = crate::sampler::cores_of(samples, acts, domains, d);
        let rest = crate::sampler::cores_of(less, fewer, domains, d);
        let of = core_samples(samples, domains, d);
        let before = core_samples(less, domains, d);
        assert forall|j: int| 0 <= j < of.len() implies crate::metrics::activity_is::<F, W>(
            of[j].reading->States_0@,
            domains[d].freqs_mhz@,
            ((#[trigger] cores[j]).freq_mhz, cores[j].usage),
        ) by {
            if j < before.len() {
                assert(cores[j] == rest[j]);
                assert(of[j] == before[j]);
            }
        }
    }
}

proof fn gpu_sampled<F, W: WideReal<F>>(
    samples: Seq<Sample<F>>,
    soc: SocInfo,
    acts: Seq<(u32, F)>,
)
    requires
        soc.cpu_domains@.len() <= usize::MAX,
        crate::sampler::acts_are::<F, W>(samples, soc, acts),
    ensures
        ({
            let entries = crate::sampler::gpu_of(samples, acts, soc);
            let of = gpu_samples(samples);
            &&& entries.len() == of.len()
            &&& forall|j: int|
                0 <= j < of.len() ==> crate::metrics::activity_is::<F, W>(
                    of[j].reading->States_0@,
                    soc.gpu_freqs@.skip(1),
                    ((#[trigger] entries[j]).freq_mhz, entries[j].usage),
                ) && entries[j].name@ == "GPUPH"@ && entries[j].units == soc.gpu_cores
        }),
    decreases samples.len(),
{
    reveal(Seq::filter);
    if samples.len() > 0 {
        let (less, fewer) = (samples.drop_last(), acts.drop_last());
        let x = samples.last();
        acts_less::<F, W>(samples, soc, acts);
        gpu_sampled::<F, W>(less, soc, fewer);
        crate::names::route_names(x.group@, x.subgroup@, x.channel@, soc.cpu_domains@);
        let entries = crate::sampler::gpu_of(samples, acts, soc);
        let rest = crate::sampler::gpu_of(less, fewer, soc);
        let of = gpu_samples(samples);
        let before = gpu_samples(less);
        assert forall|j: int| 0 <= j < of.len() implies crate::metrics::activity_is::<F, W>(
            of[j].reading->States_0@,
            soc.gpu_freqs@.skip(1),
            ((#[trigger] entries[j]).freq_mhz, entries[j].usage),
        ) && entries[j].name@ == "GPUPH"@ && entries[j].units == soc.gpu_cores by {
            if j < before.len() {
                assert(entries[j] == rest[j]);
                assert(of[j] == before[j]);
            }
        }
    }
}

/// The GPU entries are what the `GPUPH` channel of the GPU states reported, each
/// read against the GPU's frequencies but the first, with the chip's GPU cores.
pub proof fn gpu_entries_are_what_the_gpu_reported<F: Real, W: WideReal<F>>(
    sampler: &Sampler,
    samples: &[Sample<F>],
    memory: Result<MemMetrics, String>,
    temp: Result<TempMetrics<F>, String>,
    rails: Rails<F>,
    m: Metrics<F>,
)
    requires
        call_ensures(
            Sampler::get_metrics::<F, W>,
            (sampler, samples, memory, temp, rails),
            Ok::<Metrics<F>, String>(m),
        ),
    ensures
        m.gpu_usage@.len() == gpu_samples(samples@).len(),
        forall|j: int|
            0 <= j < m.gpu_usage@.len() ==> crate::metrics::activity_is::<F, W>(
                gpu_samples(samples@)[j].reading->States_0@,
                sampler.soc.gpu_freqs@.skip(1),
                ((#[trigger] m.gpu_usage@[j]).freq_mhz, m.gpu_usage@[j].usage),
            ) && m.gpu_usage@[j].name@ == "GPUPH"@ && m.gpu_usage@[j].units
                == sampler.soc.gpu_cores,
{
    let soc = sampler.soc;
    assert(soc.cpu_domains.len() == soc.cpu_domains@.len());
    assert(crate::sampler::outcome_is::<F, W>(
        samples@,
        soc,
        memory,
        temp,
        rails,
        Ok::<Metrics<F>, String>(m),
    ));
    let x = choose|x: Readings<F>| #[trigger]
        crate::sampler::readings_are::<F, W>(x, samples@, soc) && crate::sampler::measures(
            m,
            x,
            memory->Ok_0,
            temp->Ok_0,
            rails,
        );
    let acts = choose|acts: Seq<(u32, F)>| #[trigger]
        crate::sampler::acts_are::<F, W>(samples@, soc, acts) && crate::sampler::sorted_by_use(
            x,
            samples@,
            acts,
            soc,
        );
    gpu_sampled::<F, W>(samples@, soc, acts);
}

proof fn reporting_sampled<F, W: WideReal<F>>(
    samples: Seq<Sample<F>>,
    soc: SocInfo,
    acts: Seq<(u32, F)>,
    n: nat,
)
    requires
        soc.cpu_domains@.len() <= usize::MAX,
        n <= soc.cpu_domains@.len(),
        crate::sampler::acts_are::<F, W>(samples, soc, acts),
    ensures
        crate::sampler::reporting(samples, acts, soc.cpu_domains@, n as int)
            == crate::names::positions(n).filter(
            |d: int| core_samples(samples, soc.cpu_domains@, d).len() > 0,
        ),
    decreases n,
{
    reveal(Seq::filter);
    let domains = soc.cpu_domains@;
    let p = |d: int| core_samples(samples, domains, d).len() > 0;
    let all = crate::names::positions(n);
    if n > 0 {
        let less = (n - 1) as nat;
        reporting_sampled::<F, W>(samples, soc, acts, less);
        cores_sampled::<F, W>(samples, soc, acts, n - 1);
        assert(all.drop_last() =~= crate::names::positions(less));
        assert(all.last() == n - 1);
    }
    assert(crate::sampler::reporting(samples, acts, domains, n as int) =~= all.filter(p));
}

/// The CPU entries are the domains of which any core reported, in the order of
/// the chip, under their names and with their units. Each holds its cores in the
/// order in which they reported, each core read against the domain's
/// frequencies, and is at the frequency and usage of its cores together.
pub proof fn cpu_entries_are_what_the_cores_reported<F: Real, W: WideReal<F>>(
    sampler: &Sampler,
    samples: &[Sample<F>],
    memory: Result<MemMetrics, String>,
    temp: Result<TempMetrics<F>, String>,
    rails: Rails<F>,
    m: Metrics<F>,
    v: spec_fn(F) -> real,
)
    requires
        crate::exact::exact(v),
        call_ensures(
            Sampler::get_metrics::<F, W>,
            (sampler, samples, memory, temp, rails),
            Ok::<Metrics<F>, String>(m),
        ),
    ensures
        ({
            let domains = sampler.soc.cpu_domains@;
            let at = crate::names::positions(domains.len()).filter(
                |d: int| core_samples(samples@, domains, d).len() > 0,
            );
            &&& m.cpu_usage@.len() == at.len()
            &&& forall|k: int|
                0 <= k < at.len() ==> {
                    let e = #[trigger] m.cpu_usage@[k];
                    let of = core_samples(samples@, domains, at[k]);
                    &&& e.name == domains[at[k]].name
                    &&& e.units == domains[at[k]].units
                    &&& e.cores@.len() == of.len()
                    &&& forall|j: int|
                        0 <= j < of.len() ==> crate::metrics::activity_is::<F, W>(
                            of[j].reading->States_0@,
                            domains[at[k]].freqs_mhz@,
                            ((#[trigger] e.cores@[j]).freq_mhz, e.cores@[j].usage),
                        )
                    &&& forall|j: int|
                        0 <= j < of.len() && v((#[trigger] e.cores@[j]).usage) > 0real
                            ==> e.cores@[j].freq_mhz <= e.freq_mhz
                    &&& v(e.usage) * ((of.len() as int) as real * (e.freq_mhz as int) as real) == (
                    if e.freq_mhz == 0 {
                        0real
                    } else {
                        crate::exact::core_work(e.cores@, v)
                    })
                }
        }),
{
    let soc = sampler.soc;
    let domains = soc.cpu_domains@;
    assert(soc.cpu_domains.len() == domains.len());
    assert(crate::sampler::outcome_is::<F, W>(
        samples@,
        soc,
        memory,
        temp,
        rails,
        Ok::<Metrics<F>, String>(m),
    ));
    let x = choose|x: Readings<F>| #[trigger]
        crate::sampler::readings_are::<F, W>(x, samples@, soc) && crate::sampler::measures(
            m,
            x,
            memory->Ok_0,
            temp->Ok_0,
            rails,
        );
    let acts = choose|acts: Seq<(u32, F)>| #[trigger]
        crate::sampler::acts_are::<F, W>(samples@, soc, acts) && crate::sampler::sorted_by_use(
            x,
            samples@,
            acts,
            soc,
        );
    reporting_sampled::<F, W>(samples@, soc, acts, domains.len());
    let p = |d: int| core_samples(samples@, domains, d).len() > 0;
    let all = crate::names::positions(domains.len());
    let at = all.filter(p);
    assert forall|k: int| 0 <= k < at.len() implies {
        let e = #[trigger] m.cpu_usage@[k];
        let of = core_samples(samples@, domains, at[k]);
        &&& e.name == domains[at[k]].name
        &&& e.units == domains[at[k]].units
        &&& e.cores@.len() == of.len()
        &&& forall|j: int|
            0 <= j < of.len() ==> crate::metrics::activity_is::<F, W>(
                of[j].reading->States_0@,
                domains[at[k]].freqs_mhz@,
                ((#[trigger] e.cores@[j]).freq_mhz, e.cores@[j].usage),
            )
        &&& forall|j: int|
            0 <= j < of.len() && v((#[trigger] e.cores@[j]).usage) > 0real
                ==> e.cores@[j].freq_mhz <= e.freq_mhz
        &&& v(e.usage) * ((of.len() as int) as real * (e.freq_mhz as int) as real) == (if e.freq_mhz
            == 0 {
            0real
        } else {
            crate::exact::core_work(e.cores@, v)
        })
    } by {
        let e = m.cpu_usage@[k];
        assert(at.contains(at[k]));
        all.lemma_filter_contains_rev(p, at[k]);
        let i = choose|i: int| 0 <= i < all.len() && all[i] == at[k];
        assert(crate::sampler::holds_domain(x.cpu@[k], samples@, acts, domains, at[k]));
        assert(crate::sampler::summarizes(e, x.cpu@[k]));
        cores_sampled::<F, W>(samples@, soc, acts, at[k]);
        assert(e.cores.len() == e.cores@.len());
        crate::exact::exact_cluster(e.cores@, (e.freq_mhz, e.usage), v);
        let n = (e.cores@.len() as int) as real;
        if e.freq_mhz == 0 {
            assert(v(e.usage) * (n * 0real) == 0real) by (nonlinear_arith)
                requires
                    v(e.usage) == 0real,
            ;
        }
    }
}

/// A sample can be measured if it holds what its channel reports: of a core or
/// the GPU, states of which those from the first working one on are at least as
/// many as the frequencies that they stand for; of a rail, its power. A channel
/// that is not used may hold anything.
pub proof fn samples_can_be_read_if_they_fit<F>(
    sampler: &Sampler,
    x: &Sample<F>,
    idle: Seq<(String, i64)>,
    work: Seq<(String, i64)>,
    d: int,
    r: bool,
)
    requires
        x.reading matches Reading::States(items) ==> items@ == idle + work && (work.len() > 0
            ==> crate::exact::splits(items@, idle, work)) && forall|i: int|
            0 <= i < idle.len() ==> crate::exact::idles(#[trigger] idle[i].0@),
        call_ensures(Sampler::can_read::<F>, (sampler, x), r),
    ensures
        x.group@ == "CPU Stats"@ && x.subgroup@ == "CPU Core Performance States"@
            && crate::names::is_first_of(x.channel@, sampler.soc.cpu_domains@, d) ==> r == (
        x.reading is States && work.len() > 0 && sampler.soc.cpu_domains@[d].freqs_mhz@.len()
            <= work.len()),
        x.group@ == "GPU Stats"@ && x.subgroup@ == "GPU Performance States"@ && x.channel@
            == "GPUPH"@ ==> r == (x.reading is States && work.len() > 0
            && sampler.soc.gpu_freqs@.len() > 0 && sampler.soc.gpu_freqs@.len() - 1 <= work.len()),
        x.group@ == "Energy Model"@ && (x.channel@ == "GPU Energy"@
            || "CPU Energy"@.is_suffix_of(x.channel@) || "ANE"@.is_prefix_of(x.channel@)
            || "DRAM"@.is_prefix_of(x.channel@) || "GPU SRAM"@.is_prefix_of(x.channel@)) ==> r
            == x.reading is Watts,
        x.group@ != "CPU Stats"@ && x.group@ != "GPU Stats"@ && x.group@ != "Energy Model"@ ==> r,
{
    let soc = sampler.soc;
    let domains = soc.cpu_domains@;
    assert(soc.cpu_domains.len() == domains.len());
    crate::names::route_names(x.group@, x.subgroup@, x.channel@, domains);
    assert(r == crate::sampler::legible(*x, soc));
    if 0 <= d < domains.len() {
        assert(crate::names::is_first_of(x.channel@, domains, (d as usize) as int)
            == crate::names::is_first_of(x.channel@, domains, d));
    }
    if let Reading::States(items) = x.reading {
        covers_split(items@, idle, work, soc.gpu_freqs@.len() as int - 1);
        if 0 <= d < domains.len() {
            covers_split(items@, idle, work, domains[d].freqs_mhz@.len() as int);
        }
    }
    if let ChannelRoute::Power(rail) = x.route(domains) {
        match rail {
            PowerRail::Gpu => {},
            PowerRail::Cpu => {},
            PowerRail::Ane => {},
            PowerRail::Ram => {},
            PowerRail::GpuRam => {},
        }
    }
}

proof fn covers_split(
    items: Seq<(String, i64)>,
    idle: Seq<(String, i64)>,
    work: Seq<(String, i64)>,
    n: int,
)
    requires
        items == idle + work,
        work.len() > 0 ==> !crate::exact::idles(work[0].0@),
        forall|i: int| 0 <= i < idle.len() ==> crate::exact::idles(#[trigger] idle[i].0@),
    ensures
        n >= 0 ==> (crate::metrics::covers(items, n as nat) <==> work.len() > 0 && n <= work.len()),
{
    let k = idle.len() as int;
    assert forall|i: int| 0 <= i < k implies !crate::metrics::active_state(
        #[trigger] items[i].0@,
    ) by {
        assert(items[i] == idle[i]);
        assert(crate::exact::idles(idle[i].0@));
    }
    if work.len() > 0 {
        assert(items[k] == work[0]);
        assert(crate::metrics::first_active(items, k));
    }
    if n >= 0 && crate::metrics::covers(items, n as nat) {
        let at = choose|at: int| #[trigger]
            crate::metrics::first_active(items, at) && at + n <= items.len();
        assert(crate::metrics::active_state(items[at].0@));
        if at > k {
            assert(!crate::metrics::active_state(items[k].0@));
        }
    }
}

} // verus!
