//! What a sampler knows once its sources are open.
use vstd::prelude::*;

use crate::sampler::{Opened, Sampler, Startup};
use crate::soc::SocInfo;

verus! {

/// The outcomes of trying the keys, among the first `n` steps of a startup.
pub open spec fn probes(states: Seq<Startup>, events: Seq<Opened>, n: int) -> Seq<bool>
    decreases n,
{
    if n <= 0 {
        Seq::empty()
    } else {
        match (states[n - 1], events[n - 1]) {
            (Startup::Probe(..), Opened::Probe(ok)) => probes(states, events, n - 1).push(ok),
            _ => probes(states, events, n - 1),
        }
    }
}

/// Whether step `i` read this description of the chip.
pub open spec fn read_chip(states: Seq<Startup>, events: Seq<Opened>, i: int, soc: SocInfo) -> bool {
    &&& 0 <= i < events.len()
    &&& states[i] is Soc
    &&& events[i] == Opened::Soc(Ok(soc))
}

/// Whether step `i` opened the SMC, and `keys` are the temperature sensors among
/// the keys that it listed, if it could list them.
pub open spec fn listed_keys(
    states: Seq<Startup>,
    events: Seq<Opened>,
    i: int,
    keys: Seq<String>,
) -> bool {
    &&& 0 <= i < events.len()
    &&& states[i] is Smc
    &&& match events[i] {
        Opened::Smc(Ok(Some(names))) => keys == names@.filter(
            |n: String|
                "Tp"@.is_prefix_of(n@) || "Te"@.is_prefix_of(n@) || "Ts"@.is_prefix_of(n@)
                    || "Tg"@.is_prefix_of(n@),
        ),
        Opened::Smc(Ok(None)) => keys.len() == 0,
        _ => false,
    }
}

/// Whether the keys of a sampler are those that could be read.
pub open spec fn keys_found(keys: Seq<String>, readable: Seq<bool>, sampler: Sampler) -> bool {
    let all = crate::names::positions(keys.len());
    &&& readable.len() == keys.len()
    &&& sampler.smc_cpu_keys@ == all.filter(
        |i: int|
            readable[i] && ("Tp"@.is_prefix_of(keys[i]@) || "Te"@.is_prefix_of(keys[i]@)
                || "Ts"@.is_prefix_of(keys[i]@)),
    ).map_values(|i: int| keys[i])
    &&& sampler.smc_gpu_keys@ == all.filter(
        |i: int| readable[i] && "Tg"@.is_prefix_of(keys[i]@),
    ).map_values(|i: int| keys[i])
}

spec fn chip_known(states: Seq<Startup>, events: Seq<Opened>, soc: SocInfo) -> bool {
    exists|i: int| read_chip(states, events, i, soc)
}

spec fn keys_listed(states: Seq<Startup>, events: Seq<Opened>, keys: Seq<String>) -> bool {
    exists|i: int| listed_keys(states, events, i, keys)
}

spec fn keys_known(
    states: Seq<Startup>,
    events: Seq<Opened>,
    tried: Seq<bool>,
    s: Sampler,
) -> bool {
    exists|i: int, keys: Seq<String>| #[trigger]
        listed_keys(states, events, i, keys) && crate::sampler::scanned(keys, tried, s)
}

/// What the steps so far have found.
spec fn found(states: Seq<Startup>, events: Seq<Opened>, n: int) -> bool {
    let tried = probes(states, events, n);
    match states[n] {
        Startup::Soc => tried.len() == 0,
        Startup::Hid(soc) => tried.len() == 0 && chip_known(states, events, soc),
        Startup::Smc(soc) => tried.len() == 0 && chip_known(states, events, soc),
        Startup::Probe(soc, scan) => {
            &&& chip_known(states, events, soc)
            &&& keys_listed(states, events, scan.keys())
            &&& scan.readable() == tried
        },
        Startup::IoReport(s) => {
            &&& chip_known(states, events, s.soc)
            &&& keys_known(states, events, tried, s)
        },
        Startup::Ready(s) => {
            &&& chip_known(states, events, s.soc)
            &&& keys_known(states, events, tried, s)
        },
        Startup::Failed(_) => true,
    }
}

proof fn listing(names: Seq<String>)
    ensures
        crate::sampler::picked(names, crate::sampler::sensor_marks(names)) == names.filter(
            |n: String|
                "Tp"@.is_prefix_of(n@) || "Te"@.is_prefix_of(n@) || "Ts"@.is_prefix_of(n@)
                    || "Tg"@.is_prefix_of(n@),
        ),
{
    let p = |n: String|
        "Tp"@.is_prefix_of(n@) || "Te"@.is_prefix_of(n@) || "Ts"@.is_prefix_of(n@)
            || "Tg"@.is_prefix_of(n@);
    let keep = crate::sampler::sensor_marks(names);
    assert forall|i: int| 0 <= i < names.len() implies keep[i] == p(#[trigger] names[i]) by {
        crate::names::key_names_tell_the_sensor(names[i]@);
        match crate::sampler::kind_of(names[i]@) {
            Some(crate::sampler::SensorKind::Cpu) => {},
            Some(crate::sampler::SensorKind::Gpu) => {},
            None => {},
        }
    }
    crate::names::picked_is_filtered(names, keep, p);
}

proof fn finds(states: Seq<Startup>, events: Seq<Opened>, n: int)
    requires
        crate::sampler::startup_run(states, events),
        0 <= n <= events.len(),
    ensures
        found(states, events, n),
    decreases n,
{
    if n > 0 {
        let k = n - 1;
        finds(states, events, k);
        assert(crate::sampler::startup_step(states, events, k));
        assert(states[k].leads_to(events[k], states[n]));
        match (states[k], events[k]) {
            (Startup::Soc, Opened::Soc(Ok(soc))) => {
                assert(read_chip(states, events, k, soc));
                assert(states[n] == Startup::Hid(soc));
            },
            (Startup::Hid(soc), Opened::Hid(Ok(_))) => {
                assert(states[n] == Startup::Smc(soc));
            },
            (Startup::Smc(_), Opened::Smc(Ok(names))) => {
                if let Some(list) = names {
                    listing(list@);
                }
                let keys = match names {
                    Some(list) => crate::sampler::picked(
                        list@,
                        crate::sampler::sensor_marks(list@),
                    ),
                    None => Seq::empty(),
                };
                assert(listed_keys(states, events, k, keys));
                assert(probes(states, events, n) =~= Seq::empty());
            },
            (Startup::Probe(_, scan), Opened::Probe(ok)) => {
                let i = choose|i: int| listed_keys(states, events, i, scan.keys());
                assert(listed_keys(states, events, i, scan.keys()));
            },
            (Startup::IoReport(s), Opened::IoReport(Ok(_))) => {
                assert(states[n] == Startup::Ready(s));
            },
            _ => {},
        }
    }
}

/// A startup that gets ready knows the chip that was described, and as its
/// sensors the keys that the SMC listed, that are named as sensors and that could
/// be read when they were tried, in their order.
pub proof fn ready_sampler_knows_what_was_found(
    states: Seq<Startup>,
    events: Seq<Opened>,
    sampler: Sampler,
)
    requires
        crate::sampler::startup_run(states, events),
        states.last() == Startup::Ready(sampler),
    ensures
        exists|i: int| read_chip(states, events, i, sampler.soc),
        exists|i: int, keys: Seq<String>| #[trigger]
            listed_keys(states, events, i, keys) && keys_found(
                keys,
                probes(states, events, events.len() as int),
                sampler,
            ),
{
    let n = events.len() as int;
    finds(states, events, n);
    let tried = probes(states, events, n);
    let (i, keys) = choose|i: int, keys: Seq<String>| #[trigger]
        listed_keys(states, events, i, keys) && crate::sampler::scanned(keys, tried, sampler);
    crate::names::found_keys(keys, tried);
    assert(listed_keys(states, events, i, keys) && keys_found(keys, tried, sampler));
}

} // verus!
