//! What the names that the hardware gives its states, sensors and channels say.
use vstd::prelude::*;

use crate::metrics::{ChannelRoute, PowerRail};
use crate::sampler::{SensorKind, SmcScan};
use crate::soc::CpuDomainInfo;

verus! {

/// A unit works in every state but `IDLE`, `DOWN` and `OFF`.
pub proof fn three_states_are_idle(name: &str, r: bool)
    requires
        call_ensures(crate::metrics::is_active_state, (name,), r),
    ensures
        !r <==> name@ == "IDLE"@ || name@ == "DOWN"@ || name@ == "OFF"@,
{
}

/// The first working state is the one after all the leading idle ones.
pub proof fn work_starts_after_leading_idle_states(
    items: &[(String, i64)],
    idle: Seq<(String, i64)>,
    work: Seq<(String, i64)>,
    freqs: &[u32],
    at: Option<usize>,
    covered: bool,
)
    requires
        items@ == idle + work,
        forall|i: int|
            0 <= i < idle.len() ==> #[trigger] idle[i].0@ == "IDLE"@ || idle[i].0@ == "DOWN"@
                || idle[i].0@ == "OFF"@,
        work.len() > 0 ==> work[0].0@ != "IDLE"@ && work[0].0@ != "DOWN"@ && work[0].0@ != "OFF"@,
        call_ensures(crate::metrics::active_offset, (items,), at),
        call_ensures(crate::metrics::states_cover, (items, freqs), covered),
    ensures
        work.len() == 0 ==> at is None && !covered,
        work.len() > 0 ==> at == Some(idle.len() as usize) && covered == (freqs@.len()
            <= work.len()),
{
    assert(items.len() == items@.len());
    assert forall|i: int| 0 <= i < idle.len() implies !crate::metrics::active_state(
        #[trigger] items@[i].0@,
    ) by {
        assert(items@[i] == idle[i]);
        assert(idle[i].0@ == "IDLE"@ || idle[i].0@ == "DOWN"@ || idle[i].0@ == "OFF"@);
    }
    let n = idle.len() as int;
    if work.len() > 0 {
        assert(items@[n] == work[0]);
        assert(crate::metrics::active_state(items@[n].0@));
        assert(crate::metrics::first_active(items@, n));
        if let Some(k) = at {
            assert(crate::metrics::active_state(items@[k as int].0@));
            if k > n {
                assert(!crate::metrics::active_state(items@[n].0@));
            }
            assert(k == n);
        }
        if at is None {
            assert(crate::metrics::never_active(items@));
            assert(!crate::metrics::active_state(items@[n].0@));
        }
    }
    if crate::metrics::covers(items@, freqs@.len()) {
        let k = choose|k: int| #[trigger]
            crate::metrics::first_active(items@, k) && k + freqs@.len() <= items@.len();
        assert(crate::metrics::active_state(items@[k].0@));
        if k > n {
            assert(!crate::metrics::active_state(items@[n].0@));
        }
        assert(work.len() > 0 && k == n);
    }
}

/// Whether a CPU channel is of a domain: the domain's name stands in the
/// channel's, with anything on either side.
pub open spec fn is_of(channel: Seq<char>, domain: CpuDomainInfo) -> bool {
    exists|a: Seq<char>, b: Seq<char>| channel == #[trigger] (a + domain.name@ + b)
}

/// Whether a CPU channel is of the domain at a position, and of none before it.
pub open spec fn is_first_of(channel: Seq<char>, domains: Seq<CpuDomainInfo>, d: int) -> bool {
    &&& 0 <= d < domains.len()
    &&& is_of(channel, domains[d])
    &&& forall|i: int| 0 <= i < d ==> !is_of(channel, #[trigger] domains[i])
}

/// What `domain_of` finds.
pub(crate) proof fn domain_found(channel: Seq<char>, domains: Seq<CpuDomainInfo>)
    requires
        domains.len() <= usize::MAX,
    ensures
        match crate::metrics::domain_of(channel, domains) {
            Some(at) => is_first_of(channel, domains, at as int),
            None => forall|i: int| 0 <= i < domains.len() ==> !is_of(channel, #[trigger] domains[i]),
        },
    decreases domains.len(),
{
    if domains.len() > 0 {
        let less = domains.drop_last();
        domain_found(channel, less);
        crate::text::part_has_two_sides(channel, domains.last().name@);
        let n = less.len() as int;
        assert(domains[n] == domains.last());
        match crate::metrics::domain_of(channel, less) {
            Some(at) => {
                assert(less[at as int] == domains[at as int]);
                assert forall|i: int| 0 <= i < at implies !is_of(channel, #[trigger] domains[i]) by {
                    assert(less[i] == domains[i]);
                }
            },
            None => {
                assert forall|i: int| 0 <= i < n implies !is_of(channel, #[trigger] domains[i]) by {
                    assert(less[i] == domains[i]);
                }
            },
        }
    }
}

/// A CPU channel is of the first domain whose name stands anywhere in its own.
pub proof fn channel_is_of_the_first_domain_named(
    channel: &str,
    domains: &[CpuDomainInfo],
    r: Option<usize>,
)
    requires
        call_ensures(crate::metrics::cpu_channel_domain_index, (channel, domains), r),
    ensures
        forall|d: int| #[trigger]
            is_first_of(channel@, domains@, d) <==> r is Some && r->0 == d,
        r is None <==> forall|i: int| 0 <= i < domains@.len() ==> !is_of(channel@, #[trigger] domains@[i]),
{
    assert(domains.len() == domains@.len());
    domain_found(channel@, domains@);
    if let Some(at) = r {
        assert(is_of(channel@, domains@[at as int]));
        assert forall|d: int| #[trigger] is_first_of(channel@, domains@, d) implies d == at by {
            assert(is_of(channel@, domains@[d]));
        }
    }
}

proof fn spelled()
    ensures
        "GPU Energy"@.len() == 10 && "GPU Energy"@[0] == 'G' && "GPU Energy"@[4] == 'E',
        "CPU Energy"@.len() == 10 && "CPU Energy"@[0] == 'C',
        "ANE"@.len() == 3 && "ANE"@[0] == 'A',
        "DRAM"@.len() == 4 && "DRAM"@[0] == 'D',
        "GPU SRAM"@.len() == 8 && "GPU SRAM"@[0] == 'G' && "GPU SRAM"@[4] == 'S',
{
    reveal_strlit("GPU Energy");
    reveal_strlit("CPU Energy");
    reveal_strlit("ANE");
    reveal_strlit("DRAM");
    reveal_strlit("GPU SRAM");
}

/// The rails by the names of the channels of the energy model.
pub(crate) proof fn rail_names(channel: Seq<char>)
    ensures
        crate::metrics::rail_of(channel) == Some(PowerRail::Gpu) <==> channel == "GPU Energy"@,
        crate::metrics::rail_of(channel) == Some(PowerRail::Cpu) <==> "CPU Energy"@.is_suffix_of(
            channel,
        ),
        crate::metrics::rail_of(channel) == Some(PowerRail::Ane) <==> "ANE"@.is_prefix_of(channel)
            && !"CPU Energy"@.is_suffix_of(channel),
        crate::metrics::rail_of(channel) == Some(PowerRail::Ram) <==> "DRAM"@.is_prefix_of(channel)
            && !"CPU Energy"@.is_suffix_of(channel),
        crate::metrics::rail_of(channel) == Some(PowerRail::GpuRam) <==> "GPU SRAM"@.is_prefix_of(
            channel,
        ) && !"CPU Energy"@.is_suffix_of(channel),
{
    spelled();
    crate::text::suffix_comes_last(channel, "CPU Energy"@);
    crate::text::prefix_comes_first(channel, "ANE"@);
    crate::text::prefix_comes_first(channel, "DRAM"@);
    crate::text::prefix_comes_first(channel, "GPU SRAM"@);
    if "CPU Energy"@.is_suffix_of(channel) && channel == "GPU Energy"@ {
        assert(channel.subrange(0, 10)[0] == channel[0]);
        assert(channel[0] == 'C');
    }
    if "ANE"@.is_prefix_of(channel) {
        assert(channel.subrange(0, 3)[0] == channel[0]);
    }
    if "DRAM"@.is_prefix_of(channel) {
        assert(channel.subrange(0, 4)[0] == channel[0]);
    }
    if "GPU SRAM"@.is_prefix_of(channel) {
        assert(channel.subrange(0, 8)[0] == channel[0]);
        assert(channel.subrange(0, 8)[4] == channel[4]);
    }
}

proof fn three_groups()
    ensures
        "CPU Stats"@ != "GPU Stats"@,
        "CPU Stats"@ != "Energy Model"@,
        "GPU Stats"@ != "Energy Model"@,
{
    reveal_strlit("CPU Stats");
    reveal_strlit("GPU Stats");
    reveal_strlit("Energy Model");
    assert("CPU Stats"@[0] == 'C');
    assert("GPU Stats"@[0] == 'G');
    assert("Energy Model"@[0] == 'E');
}

/// What every channel is used for, by its names.
pub(crate) proof fn route_names(
    group: Seq<char>,
    subgroup: Seq<char>,
    channel: Seq<char>,
    domains: Seq<CpuDomainInfo>,
)
    requires
        domains.len() <= usize::MAX,
    ensures
        ({
            let r = crate::metrics::route_of(group, subgroup, channel, domains);
            let power = group == "Energy Model"@;
            let other = !"CPU Energy"@.is_suffix_of(channel);
            &&& forall|d: usize|
                #![trigger is_first_of(channel, domains, d as int)]
                r == ChannelRoute::CpuCore(d) <==> group == "CPU Stats"@ && subgroup
                    == "CPU Core Performance States"@ && is_first_of(channel, domains, d as int)
            &&& r matches ChannelRoute::CpuCore(d) ==> is_first_of(channel, domains, d as int)
            &&& r == ChannelRoute::Gpu <==> group == "GPU Stats"@ && subgroup
                == "GPU Performance States"@ && channel == "GPUPH"@
            &&& r == ChannelRoute::Power(PowerRail::Gpu) <==> power && channel == "GPU Energy"@
            &&& r == ChannelRoute::Power(PowerRail::Cpu) <==> power && !other
            &&& r == ChannelRoute::Power(PowerRail::Ane) <==> power && other
                && "ANE"@.is_prefix_of(channel)
            &&& r == ChannelRoute::Power(PowerRail::Ram) <==> power && other
                && "DRAM"@.is_prefix_of(channel)
            &&& r == ChannelRoute::Power(PowerRail::GpuRam) <==> power && other
                && "GPU SRAM"@.is_prefix_of(channel)
        }),
{
    three_groups();
    rail_names(channel);
    domain_found(channel, domains);
    let r = crate::metrics::route_of(group, subgroup, channel, domains);
    assert forall|d: usize|
        #![trigger is_first_of(channel, domains, d as int)]
        r == ChannelRoute::CpuCore(d) <==> group == "CPU Stats"@ && subgroup
            == "CPU Core Performance States"@ && is_first_of(channel, domains, d as int) by {
        if is_first_of(channel, domains, d as int) {
            assert(is_of(channel, domains[d as int]));
            if let Some(at) = crate::metrics::domain_of(channel, domains) {
                assert(is_of(channel, domains[at as int]));
            }
        }
    }
}

/// What every channel is used for: a channel of the core states reports a core
/// of the first domain that it names, `GPUPH` of the GPU states reports the GPU,
/// and the channels of the energy model report the rails that they name.
pub proof fn channels_are_used_as_named(
    group: &str,
    subgroup: &str,
    channel: &str,
    domains: &[CpuDomainInfo],
    r: ChannelRoute,
)
    requires
        call_ensures(crate::metrics::channel_route, (group, subgroup, channel, domains), r),
    ensures
        forall|d: usize|
            #![trigger is_first_of(channel@, domains@, d as int)]
            r == ChannelRoute::CpuCore(d) <==> group@ == "CPU Stats"@ && subgroup@
                == "CPU Core Performance States"@ && is_first_of(channel@, domains@, d as int),
        r matches ChannelRoute::CpuCore(d) ==> is_first_of(channel@, domains@, d as int),
        r == ChannelRoute::Gpu <==> group@ == "GPU Stats"@ && subgroup@
            == "GPU Performance States"@ && channel@ == "GPUPH"@,
        r == ChannelRoute::Power(PowerRail::Gpu) <==> group@ == "Energy Model"@ && channel@
            == "GPU Energy"@,
        r == ChannelRoute::Power(PowerRail::Cpu) <==> group@ == "Energy Model"@
            && "CPU Energy"@.is_suffix_of(channel@),
        r == ChannelRoute::Power(PowerRail::Ane) <==> group@ == "Energy Model"@
            && "ANE"@.is_prefix_of(channel@) && !"CPU Energy"@.is_suffix_of(channel@),
        r == ChannelRoute::Power(PowerRail::Ram) <==> group@ == "Energy Model"@
            && "DRAM"@.is_prefix_of(channel@) && !"CPU Energy"@.is_suffix_of(channel@),
        r == ChannelRoute::Power(PowerRail::GpuRam) <==> group@ == "Energy Model"@
            && "GPU SRAM"@.is_prefix_of(channel@) && !"CPU Energy"@.is_suffix_of(channel@),
{
    assert(domains.len() == domains@.len());
    route_names(group@, subgroup@, channel@, domains@);
}

/// The channels that are subscribed to: the five rails of the energy model, the
/// core states and the GPU states. The unit does not count.
pub proof fn filter_selects_by_name(
    group: &str,
    subgroup: &str,
    channel: &str,
    unit: &str,
    r: bool,
)
    requires
        call_ensures(
            crate::metrics::ioreport_channels_filter,
            (group, subgroup, channel, unit),
            r,
        ),
    ensures
        group@ == "Energy Model"@ ==> r == (channel@ == "GPU Energy"@
            || "CPU Energy"@.is_suffix_of(channel@) || "ANE"@.is_prefix_of(channel@)
            || "DRAM"@.is_prefix_of(channel@) || "GPU SRAM"@.is_prefix_of(channel@)),
        group@ == "CPU Stats"@ ==> r == (subgroup@ == "CPU Core Performance States"@),
        group@ == "GPU Stats"@ ==> r == (subgroup@ == "GPU Performance States"@),
        group@ != "Energy Model"@ && group@ != "CPU Stats"@ && group@ != "GPU Stats"@ ==> !r,
{
    three_groups();
    rail_names(channel@);
}

/// An SMC key is a CPU sensor if it starts with `Tp`, `Te` or `Ts`, a GPU sensor
/// if it starts with `Tg`, and else no temperature sensor.
pub proof fn key_names_tell_the_sensor(name: Seq<char>)
    ensures
        crate::sampler::kind_of(name) == Some(SensorKind::Cpu) <==> "Tp"@.is_prefix_of(name)
            || "Te"@.is_prefix_of(name) || "Ts"@.is_prefix_of(name),
        crate::sampler::kind_of(name) == Some(SensorKind::Gpu) <==> "Tg"@.is_prefix_of(name),
{
    reveal_strlit("Tp");
    reveal_strlit("Te");
    reveal_strlit("Ts");
    reveal_strlit("Tg");
    crate::text::prefix_comes_first(name, "Tp"@);
    crate::text::prefix_comes_first(name, "Te"@);
    crate::text::prefix_comes_first(name, "Ts"@);
    crate::text::prefix_comes_first(name, "Tg"@);
    if name.len() >= 2 {
        assert(name.subrange(0, 2)[1] == name[1]);
    }
}

/// An HID sensor is a CPU sensor if its name is `pACC MTR Temp Sensor` or
/// `eACC MTR Temp Sensor` with anything after it, a GPU sensor if it is
/// `GPU MTR Temp Sensor` with anything after it, and else neither.
pub proof fn hid_names_tell_the_sensor(name: Seq<char>, t: Seq<char>)
    ensures
        crate::sampler::hid_kind_of("pACC MTR Temp Sensor"@ + t) == Some(SensorKind::Cpu),
        crate::sampler::hid_kind_of("eACC MTR Temp Sensor"@ + t) == Some(SensorKind::Cpu),
        crate::sampler::hid_kind_of("GPU MTR Temp Sensor"@ + t) == Some(SensorKind::Gpu),
        crate::sampler::hid_kind_of(name) == Some(SensorKind::Cpu)
            <==> "pACC MTR Temp Sensor"@.is_prefix_of(name)
            || "eACC MTR Temp Sensor"@.is_prefix_of(name),
        crate::sampler::hid_kind_of(name) == Some(SensorKind::Gpu)
            <==> "GPU MTR Temp Sensor"@.is_prefix_of(name),
{
    hid_names(name);
    let (p, e, g) = ("pACC MTR Temp Sensor"@, "eACC MTR Temp Sensor"@, "GPU MTR Temp Sensor"@);
    hid_names(p + t);
    hid_names(e + t);
    hid_names(g + t);
    crate::text::prefix_comes_first(p + t, p);
    crate::text::prefix_comes_first(e + t, e);
    crate::text::prefix_comes_first(g + t, g);
}

pub(crate) proof fn hid_names(name: Seq<char>)
    ensures
        crate::sampler::hid_kind_of(name) == Some(SensorKind::Cpu)
            <==> "pACC MTR Temp Sensor"@.is_prefix_of(name)
            || "eACC MTR Temp Sensor"@.is_prefix_of(name),
        crate::sampler::hid_kind_of(name) == Some(SensorKind::Gpu)
            <==> "GPU MTR Temp Sensor"@.is_prefix_of(name),
{
    reveal_strlit("pACC MTR Temp Sensor");
    reveal_strlit("eACC MTR Temp Sensor");
    reveal_strlit("GPU MTR Temp Sensor");
    let (p, e, g) = ("pACC MTR Temp Sensor"@, "eACC MTR Temp Sensor"@, "GPU MTR Temp Sensor"@);
    crate::text::prefix_comes_first(name, p);
    crate::text::prefix_comes_first(name, e);
    crate::text::prefix_comes_first(name, g);
    if g.is_prefix_of(name) {
        assert(name.subrange(0, g.len() as int)[0] == name[0]);
    }
    if p.is_prefix_of(name) {
        assert(name.subrange(0, p.len() as int)[0] == name[0]);
    }
    if e.is_prefix_of(name) {
        assert(name.subrange(0, e.len() as int)[0] == name[0]);
    }
}

/// The positions `0..n`.
pub open spec fn positions(n: nat) -> Seq<int> {
    Seq::new(n, |i: int| i)
}

/// What is picked is what stands at the marked positions, in order.
pub proof fn picked_stands_at_the_marks<T>(items: Seq<T>, keep: Seq<bool>)
    requires
        keep.len() == items.len(),
    ensures
        crate::sampler::picked(items, keep) == positions(items.len()).filter(
            |i: int| keep[i],
        ).map_values(|i: int| items[i]),
    decreases items.len(),
{
    reveal(Seq::filter);
    let all = positions(items.len());
    let marked = |i: int| keep[i];
    let at = |i: int| items[i];
    if items.len() > 0 {
        let (less, fewer) = (items.drop_last(), keep.drop_last());
        let rest = positions(less.len());
        picked_stands_at_the_marks(less, fewer);
        assert(all.drop_last() =~= rest);
        same_filter(rest, |i: int| fewer[i], marked);
        assert forall|k: int| 0 <= k < rest.filter(marked).len() implies less[rest.filter(
            marked,
        )[k]] == #[trigger] items[rest.filter(marked)[k]] by {
            rest.lemma_filter_contains_rev(marked, rest.filter(marked)[k]);
        }
        assert(rest.filter(marked).map_values(|i: int| less[i]) =~= rest.filter(marked).map_values(
            at,
        ));
        assert(crate::sampler::picked(items, keep) =~= all.filter(marked).map_values(at));
    } else {
        assert(all.filter(marked).map_values(at) =~= Seq::empty());
    }
}

/// Predicates that agree on the elements select the same.
pub(crate) proof fn same_filter<T>(items: Seq<T>, p: spec_fn(T) -> bool, q: spec_fn(T) -> bool)
    requires
        forall|i: int| 0 <= i < items.len() ==> p(#[trigger] items[i]) == q(items[i]),
    ensures
        items.filter(p) == items.filter(q),
    decreases items.len(),
{
    reveal(Seq::filter);
    if items.len() > 0 {
        let less = items.drop_last();
        assert forall|i: int| 0 <= i < less.len() implies p(#[trigger] less[i]) == q(less[i]) by {
            assert(less[i] == items[i]);
        }
        same_filter(less, p, q);
        assert(items[items.len() - 1] == items.last());
    }
}

/// Picking by a test is filtering by it.
pub(crate) proof fn picked_is_filtered<T>(items: Seq<T>, keep: Seq<bool>, p: spec_fn(T) -> bool)
    requires
        keep.len() == items.len(),
        forall|i: int| 0 <= i < items.len() ==> keep[i] == p(#[trigger] items[i]),
    ensures
        crate::sampler::picked(items, keep) == items.filter(p),
    decreases items.len(),
{
    reveal(Seq::filter);
    if items.len() > 0 {
        let (less, fewer) = (items.drop_last(), keep.drop_last());
        assert forall|i: int| 0 <= i < less.len() implies fewer[i] == p(#[trigger] less[i]) by {
            assert(less[i] == items[i]);
        }
        picked_is_filtered(less, fewer, p);
        assert(items[items.len() - 1] == items.last());
    }
}

/// The keys that a search tries are those whose names say that they are
/// temperature sensors, in the order of the list.
pub proof fn search_tries_the_sensor_keys(names: Option<Vec<String>>, scan: SmcScan)
    requires
        call_ensures(crate::sampler::init_smc, (names,), scan),
    ensures
        scan.readable().len() == 0,
        names is None ==> scan.keys().len() == 0,
        names matches Some(list) ==> scan.keys() == list@.filter(
            |n: String|
                "Tp"@.is_prefix_of(n@) || "Te"@.is_prefix_of(n@) || "Ts"@.is_prefix_of(n@)
                    || "Tg"@.is_prefix_of(n@),
        ),
{
    if let Some(list) = names {
        let p = |n: String|
            "Tp"@.is_prefix_of(n@) || "Te"@.is_prefix_of(n@) || "Ts"@.is_prefix_of(n@)
                || "Tg"@.is_prefix_of(n@);
        let keep = crate::sampler::sensor_marks(list@);
        assert forall|i: int| 0 <= i < list@.len() implies keep[i] == p(#[trigger] list@[i]) by {
            key_names_tell_the_sensor(list@[i]@);
            match crate::sampler::kind_of(list@[i]@) {
                Some(SensorKind::Cpu) => {},
                Some(SensorKind::Gpu) => {},
                None => {},
            }
        }
        picked_is_filtered(list@, keep, p);
    }
}

/// A finished search found the keys that could be read, in the order in which
/// they were tried: those named as CPU sensors, and those named as GPU sensors.
pub proof fn search_finds_the_readable_keys(scan: SmcScan, r: (Vec<String>, Vec<String>))
    requires
        scan.readable().len() == scan.keys().len(),
        call_ensures(SmcScan::finish, (scan,), r),
    ensures
        r.0@ == positions(scan.keys().len()).filter(
            |i: int|
                scan.readable()[i] && ("Tp"@.is_prefix_of(scan.keys()[i]@)
                    || "Te"@.is_prefix_of(scan.keys()[i]@)
                    || "Ts"@.is_prefix_of(scan.keys()[i]@)),
        ).map_values(|i: int| scan.keys()[i]),
        r.1@ == positions(scan.keys().len()).filter(
            |i: int| scan.readable()[i] && "Tg"@.is_prefix_of(scan.keys()[i]@),
        ).map_values(|i: int| scan.keys()[i]),
{
    found_keys(scan.keys(), scan.readable());
}

pub(crate) proof fn found_keys(keys: Seq<String>, readable: Seq<bool>)
    requires
        readable.len() == keys.len(),
    ensures
        crate::sampler::picked(
            keys,
            crate::sampler::kept_marks(keys, readable, SensorKind::Cpu),
        ) == positions(keys.len()).filter(
            |i: int|
                readable[i] && ("Tp"@.is_prefix_of(keys[i]@) || "Te"@.is_prefix_of(keys[i]@)
                    || "Ts"@.is_prefix_of(keys[i]@)),
        ).map_values(|i: int| keys[i]),
        crate::sampler::picked(
            keys,
            crate::sampler::kept_marks(keys, readable, SensorKind::Gpu),
        ) == positions(keys.len()).filter(
            |i: int| readable[i] && "Tg"@.is_prefix_of(keys[i]@),
        ).map_values(|i: int| keys[i]),
{
    let all = positions(keys.len());
    let cpu = crate::sampler::kept_marks(keys, readable, SensorKind::Cpu);
    let gpu = crate::sampler::kept_marks(keys, readable, SensorKind::Gpu);
    picked_stands_at_the_marks(keys, cpu);
    picked_stands_at_the_marks(keys, gpu);
    let p = |i: int|
        readable[i] && ("Tp"@.is_prefix_of(keys[i]@) || "Te"@.is_prefix_of(keys[i]@)
            || "Ts"@.is_prefix_of(keys[i]@));
    let q = |i: int| readable[i] && "Tg"@.is_prefix_of(keys[i]@);
    assert forall|k: int| 0 <= k < all.len() implies cpu[#[trigger] all[k]] == p(all[k])
        && gpu[all[k]] == q(all[k]) by {
        key_names_tell_the_sensor(keys[k]@);
    }
    same_filter(all, |i: int| cpu[i], p);
    same_filter(all, |i: int| gpu[i], q);
}

/// A search tries its keys one by one, in order, and is over when every one was
/// tried.
pub proof fn search_tries_the_keys_in_order(scan: &SmcScan, r: Option<&String>)
    requires
        scan.readable().len() <= scan.keys().len(),
        call_ensures(SmcScan::pending, (scan,), r),
    ensures
        r is None <==> scan.readable().len() == scan.keys().len(),
        r matches Some(key) ==> *key == scan.keys()[scan.readable().len() as int],
{
}

} // verus!
