//! When two measurements agree: what a measurement does not depend on, and that
//! it is determined by what was read.
use vstd::prelude::*;

use crate::arith::{Real, WideReal};
use crate::metrics::{
    ChannelRoute, CoreUsageEntry, CpuUsageEntry, MemMetrics, Metrics, PowerMetrics, PowerRail,
    TempMetrics,
};
use crate::sampler::{Rails, Reading, Readings, Sample};
use crate::soc::{CpuDomainInfo, SocInfo};

verus! {

/// The samples of the channels that are subscribed to, in order.
pub open spec fn kept<F>(samples: Seq<Sample<F>>) -> Seq<Sample<F>> {
    crate::sampler::picked(samples, crate::sampler::subscribed_marks(samples))
}

/// A sample that is not subscribed to is not used.
proof fn rejected_is_ignored<F>(x: Sample<F>, domains: Seq<CpuDomainInfo>)
    ensures
        !crate::metrics::subscribed(x.group@, x.subgroup@, x.channel@) ==> x.route(domains)
            == ChannelRoute::Ignored,
{
    crate::metrics::used_channels_are_subscribed(x.group@, x.subgroup@, x.channel@, domains);
}

/// The elements of `part` at the marked positions, and `fill` at the others.
spec fn spread<T>(part: Seq<T>, marks: Seq<bool>, fill: T) -> Seq<T>
    decreases marks.len(),
{
    if marks.len() == 0 {
        Seq::empty()
    } else if marks.last() {
        spread(part.drop_last(), marks.drop_last(), fill).push(part.last())
    } else {
        spread(part, marks.drop_last(), fill).push(fill)
    }
}

/// Picking is as long as what is picked along with it.
proof fn picked_alike<A, B>(a: Seq<A>, b: Seq<B>, marks: Seq<bool>)
    requires
        a.len() == marks.len(),
        b.len() == marks.len(),
    ensures
        crate::sampler::picked(a, marks).len() == crate::sampler::picked(b, marks).len(),
    decreases marks.len(),
{
    if marks.len() > 0 {
        picked_alike(a.drop_last(), b.drop_last(), marks.drop_last());
    }
}

/// Frequencies and usages of the kept samples, spread out, are some of all
/// samples.
proof fn spread_acts<F, W: WideReal<F>>(
    samples: Seq<Sample<F>>,
    soc: SocInfo,
    part: Seq<(u32, F)>,
    fill: (u32, F),
)
    requires
        crate::sampler::acts_are::<F, W>(kept(samples), soc, part),
    ensures
        ({
            let marks = crate::sampler::subscribed_marks(samples);
            let acts = spread(part, marks, fill);
            &&& crate::sampler::acts_are::<F, W>(samples, soc, acts)
            &&& crate::sampler::picked(acts, marks) == part
        }),
    decreases samples.len(),
{
    let marks = crate::sampler::subscribed_marks(samples);
    let acts = spread(part, marks, fill);
    if samples.len() == 0 {
        assert(part =~= Seq::empty());
    } else {
        let less = samples.drop_last();
        let x = samples.last();
        assert(marks.drop_last() =~= crate::sampler::subscribed_marks(less));
        rejected_is_ignored(x, soc.cpu_domains@);
        if marks.last() {
            let rest = part.drop_last();
            assert(kept(samples) =~= kept(less).push(x));
            assert forall|i: int| 0 <= i < kept(less).len() implies crate::sampler::act_is::<F, W>(
                kept(less)[i],
                soc,
                #[trigger] rest[i],
            ) by {
                assert(kept(samples)[i] == kept(less)[i]);
                assert(rest[i] == part[i]);
            }
            spread_acts::<F, W>(less, soc, rest, fill);
            assert(kept(samples)[part.len() - 1] == x);
            assert(crate::sampler::act_is::<F, W>(x, soc, part[part.len() - 1]));
            assert(acts.drop_last() =~= spread(rest, marks.drop_last(), fill));
            assert(crate::sampler::picked(acts, marks) =~= part);
        } else {
            assert(kept(samples) =~= kept(less));
            spread_acts::<F, W>(less, soc, part, fill);
            assert(acts.drop_last() =~= spread(part, marks.drop_last(), fill));
        }
        let before = acts.drop_last();
        assert forall|i: int| 0 <= i < samples.len() implies crate::sampler::act_is::<F, W>(
            samples[i],
            soc,
            #[trigger] acts[i],
        ) by {
            if i < less.len() {
                assert(before[i] == acts[i]);
                assert(less[i] == samples[i]);
            }
        }
    }
}

/// Frequencies and usages of all samples are, for the kept ones, theirs.
proof fn picked_acts<F, W: WideReal<F>>(samples: Seq<Sample<F>>, soc: SocInfo, acts: Seq<(u32, F)>)
    requires
        crate::sampler::acts_are::<F, W>(samples, soc, acts),
    ensures
        crate::sampler::acts_are::<F, W>(
            kept(samples),
            soc,
            crate::sampler::picked(acts, crate::sampler::subscribed_marks(samples)),
        ),
    decreases samples.len(),
{
    let marks = crate::sampler::subscribed_marks(samples);
    picked_alike(samples, acts, marks);
    if samples.len() > 0 {
        let less = samples.drop_last();
        let before = acts.drop_last();
        assert(marks.drop_last() =~= crate::sampler::subscribed_marks(less));
        assert forall|i: int| 0 <= i < less.len() implies crate::sampler::act_is::<F, W>(
            less[i],
            soc,
            #[trigger] before[i],
        ) by {
            assert(before[i] == acts[i]);
        }
        picked_acts::<F, W>(less, soc, before);
        assert(crate::sampler::act_is::<F, W>(samples.last(), soc, acts[acts.len() - 1]));
        let part = crate::sampler::picked(acts, marks);
        let rest = crate::sampler::picked(before, marks.drop_last());
        assert forall|i: int| 0 <= i < kept(samples).len() implies crate::sampler::act_is::<F, W>(
            kept(samples)[i],
            soc,
            #[trigger] part[i],
        ) by {
            if i < kept(less).len() {
                assert(rest[i] == part[i]);
            }
        }
    }
}

/// Sorting by use comes to the same where the cores of each domain, the GPU and
/// the power readings do.
proof fn sorted_alike<F>(
    x: Readings<F>,
    samples: Seq<Sample<F>>,
    acts: Seq<(u32, F)>,
    others: Seq<Sample<F>>,
    other_acts: Seq<(u32, F)>,
    soc: SocInfo,
)
    requires
        crate::sampler::sorted_by_use(x, samples, acts, soc),
        forall|d: int|
            crate::sampler::cores_of(samples, acts, soc.cpu_domains@, d)
                == #[trigger] crate::sampler::cores_of(others, other_acts, soc.cpu_domains@, d),
        crate::sampler::gpu_of(samples, acts, soc) == crate::sampler::gpu_of(
            others,
            other_acts,
            soc,
        ),
        forall|rail: PowerRail|
            crate::sampler::watts_of(samples, soc.cpu_domains@, rail)
                == #[trigger] crate::sampler::watts_of(others, soc.cpu_domains@, rail),
    ensures
        crate::sampler::sorted_by_use(x, others, other_acts, soc),
{
    let domains = soc.cpu_domains@;
    let n = domains.len() as int;
    reporting_alike(samples, acts, others, other_acts, domains, n);
    let at = crate::sampler::reporting(samples, acts, domains, n);
    assert forall|k: int| 0 <= k < at.len() implies crate::sampler::holds_domain(
        #[trigger] x.cpu@[k],
        others,
        other_acts,
        domains,
        at[k],
    ) by {
        assert(crate::sampler::holds_domain(x.cpu@[k], samples, acts, domains, at[k]));
        assert(crate::sampler::cores_of(samples, acts, domains, at[k]) == crate::sampler::cores_of(
            others,
            other_acts,
            domains,
            at[k],
        ));
    }
}

/// The same domains report where their cores are the same.
proof fn reporting_alike<F>(
    samples: Seq<Sample<F>>,
    acts: Seq<(u32, F)>,
    others: Seq<Sample<F>>,
    other_acts: Seq<(u32, F)>,
    domains: Seq<CpuDomainInfo>,
    n: int,
)
    requires
        forall|d: int|
            crate::sampler::cores_of(samples, acts, domains, d)
                == #[trigger] crate::sampler::cores_of(others, other_acts, domains, d),
    ensures
        crate::sampler::reporting(samples, acts, domains, n) == crate::sampler::reporting(
            others,
            other_acts,
            domains,
            n,
        ),
    decreases n,
{
    if n > 0 {
        reporting_alike(samples, acts, others, other_acts, domains, n - 1);
        assert(crate::sampler::cores_of(samples, acts, domains, n - 1) == crate::sampler::cores_of(
            others,
            other_acts,
            domains,
            n - 1,
        ));
    }
}

/// What the law on single readings says, for every domain and rail.
proof fn kept_parts<F>(samples: Seq<Sample<F>>, acts: Seq<(u32, F)>, soc: SocInfo)
    requires
        acts.len() == samples.len(),
    ensures
        ({
            let part = crate::sampler::picked(acts, crate::sampler::subscribed_marks(samples));
            let domains = soc.cpu_domains@;
            &&& forall|d: int| #[trigger]
                crate::sampler::cores_of(kept(samples), part, domains, d)
                    == crate::sampler::cores_of(samples, acts, domains, d)
            &&& forall|d: int|
                crate::sampler::cores_of(kept(samples), part, domains, d)
                    == #[trigger] crate::sampler::cores_of(samples, acts, domains, d)
            &&& crate::sampler::gpu_of(kept(samples), part, soc) == crate::sampler::gpu_of(
                samples,
                acts,
                soc,
            )
            &&& forall|rail: PowerRail| #[trigger]
                crate::sampler::watts_of(kept(samples), domains, rail)
                    == crate::sampler::watts_of(samples, domains, rail)
            &&& forall|rail: PowerRail|
                crate::sampler::watts_of(kept(samples), domains, rail)
                    == #[trigger] crate::sampler::watts_of(samples, domains, rail)
            &&& crate::sampler::failure_of(kept(samples), domains) == crate::sampler::failure_of(
                samples,
                domains,
            )
        }),
{
    let part = crate::sampler::picked(acts, crate::sampler::subscribed_marks(samples));
    let domains = soc.cpu_domains@;
    crate::sampler::subscription_loses_nothing(samples, acts, soc, 0, PowerRail::Cpu);
    assert forall|d: int| #[trigger]
        crate::sampler::cores_of(kept(samples), part, domains, d) == crate::sampler::cores_of(
            samples,
            acts,
            domains,
            d,
        ) by {
        crate::sampler::subscription_loses_nothing(samples, acts, soc, d, PowerRail::Cpu);
    }
    assert forall|d: int|
        crate::sampler::cores_of(kept(samples), part, domains, d)
            == #[trigger] crate::sampler::cores_of(samples, acts, domains, d) by {
        assert(crate::sampler::cores_of(kept(samples), part, domains, d)
            == crate::sampler::cores_of(samples, acts, domains, d));
    }
    assert forall|rail: PowerRail| #[trigger]
        crate::sampler::watts_of(kept(samples), domains, rail) == crate::sampler::watts_of(
            samples,
            domains,
            rail,
        ) by {
        crate::sampler::subscription_loses_nothing(samples, acts, soc, 0, rail);
    }
    assert forall|rail: PowerRail|
        crate::sampler::watts_of(kept(samples), domains, rail)
            == #[trigger] crate::sampler::watts_of(samples, domains, rail) by {
        assert(crate::sampler::watts_of(kept(samples), domains, rail)
            == crate::sampler::watts_of(samples, domains, rail));
    }
}

/// The samples of the channels that are not subscribed to change nothing of a
/// sorted counter sample: what the kept samples sort into is what all do.
pub proof fn rejected_samples_sort_into_nothing<F, W: WideReal<F>>(
    x: Readings<F>,
    samples: Seq<Sample<F>>,
    soc: SocInfo,
)
    ensures
        crate::sampler::readings_are::<F, W>(x, kept(samples), soc)
            <==> crate::sampler::readings_are::<F, W>(x, samples, soc),
{
    let marks = crate::sampler::subscribed_marks(samples);
    if crate::sampler::readings_are::<F, W>(x, kept(samples), soc) {
        let part = choose|part: Seq<(u32, F)>| #[trigger]
            crate::sampler::acts_are::<F, W>(kept(samples), soc, part)
                && crate::sampler::sorted_by_use(x, kept(samples), part, soc);
        let fill: (u32, F) = arbitrary();
        let acts = spread(part, marks, fill);
        spread_acts::<F, W>(samples, soc, part, fill);
        kept_parts(samples, acts, soc);
        sorted_alike(x, kept(samples), part, samples, acts, soc);
        assert(crate::sampler::readings_are::<F, W>(x, samples, soc));
    }
    if crate::sampler::readings_are::<F, W>(x, samples, soc) {
        let acts = choose|acts: Seq<(u32, F)>| #[trigger]
            crate::sampler::acts_are::<F, W>(samples, soc, acts) && crate::sampler::sorted_by_use(
                x,
                samples,
                acts,
                soc,
            );
        let part = crate::sampler::picked(acts, marks);
        picked_acts::<F, W>(samples, soc, acts);
        kept_parts(samples, acts, soc);
        sorted_alike(x, samples, acts, kept(samples), part, soc);
        assert(crate::sampler::readings_are::<F, W>(x, kept(samples), soc));
    }
}

/// Being legible goes on sample by sample.
proof fn legible_by_last<F>(samples: Seq<Sample<F>>, soc: SocInfo)
    requires
        samples.len() > 0,
    ensures
        crate::sampler::legible_to_failure(samples, soc) <==> {
            &&& crate::sampler::legible_to_failure(samples.drop_last(), soc)
            &&& crate::sampler::failure_of(samples.drop_last(), soc.cpu_domains@) is None
                ==> crate::sampler::legible(samples.last(), soc)
        },
{
    let less = samples.drop_last();
    let n = less.len() as int;
    assert(samples.take(n) =~= less);
    if crate::sampler::legible_to_failure(samples, soc) {
        assert forall|i: int|
            0 <= i < n && crate::sampler::failure_of(
                #[trigger] less.take(i),
                soc.cpu_domains@,
            ) is None implies crate::sampler::legible(less[i], soc) by {
            assert(samples.take(i) =~= less.take(i));
            assert(less[i] == samples[i]);
        }
        assert(samples[n] == samples.last());
    }
    if crate::sampler::legible_to_failure(less, soc) && (crate::sampler::failure_of(
        less,
        soc.cpu_domains@,
    ) is None ==> crate::sampler::legible(samples.last(), soc)) {
        assert forall|i: int|
            0 <= i < samples.len() && crate::sampler::failure_of(
                #[trigger] samples.take(i),
                soc.cpu_domains@,
            ) is None implies crate::sampler::legible(samples[i], soc) by {
            if i < n {
                assert(samples.take(i) =~= less.take(i));
                assert(less[i] == samples[i]);
            }
        }
    }
}

/// The kept samples can be measured exactly if all can.
proof fn kept_are_legible<F>(samples: Seq<Sample<F>>, soc: SocInfo)
    ensures
        crate::sampler::legible_to_failure(kept(samples), soc)
            <==> crate::sampler::legible_to_failure(samples, soc),
    decreases samples.len(),
{
    if samples.len() > 0 {
        let less = samples.drop_last();
        let x = samples.last();
        let marks = crate::sampler::subscribed_marks(samples);
        assert(marks.drop_last() =~= crate::sampler::subscribed_marks(less));
        kept_are_legible(less, soc);
        legible_by_last(samples, soc);
        rejected_is_ignored(x, soc.cpu_domains@);
        let none: Seq<(u32, F)> = Seq::new(less.len(), |i: int| arbitrary());
        kept_parts(less, none, soc);
        if marks.last() {
            assert(kept(samples).drop_last() =~= kept(less));
            legible_by_last(kept(samples), soc);
        }
    }
}

/// The samples of the channels that are not subscribed to change nothing of a
/// measurement: without them it can be taken exactly if it can with them, and
/// what it may come to is the same.
pub proof fn rejected_samples_change_nothing<F: Real, W: WideReal<F>>(
    samples: Seq<Sample<F>>,
    soc: SocInfo,
    memory: Result<MemMetrics, String>,
    temp: Result<TempMetrics<F>, String>,
    rails: Rails<F>,
    r: Result<Metrics<F>, String>,
)
    ensures
        crate::sampler::legible_to_failure(kept(samples), soc)
            <==> crate::sampler::legible_to_failure(samples, soc),
        crate::sampler::outcome_is::<F, W>(kept(samples), soc, memory, temp, rails, r)
            <==> crate::sampler::outcome_is::<F, W>(samples, soc, memory, temp, rails, r),
{
    kept_are_legible(samples, soc);
    let none: Seq<(u32, F)> = Seq::new(samples.len(), |i: int| arbitrary());
    kept_parts(samples, none, soc);
    assert forall|x: Readings<F>| #[trigger]
        crate::sampler::readings_are::<F, W>(x, kept(samples), soc)
            <==> crate::sampler::readings_are::<F, W>(x, samples, soc) by {
        rejected_samples_sort_into_nothing::<F, W>(x, samples, soc);
    }
    assert forall|x: Readings<F>|
        crate::sampler::readings_are::<F, W>(x, kept(samples), soc)
            <==> #[trigger] crate::sampler::readings_are::<F, W>(x, samples, soc) by {
        rejected_samples_sort_into_nothing::<F, W>(x, samples, soc);
    }
}

/// Whether each operation on real numbers that a measurement makes gives one
/// result on the same numbers.
pub open spec fn functional<F: Real>() -> bool {
    &&& forall|a: F, b: F|
        #![trigger call_ensures(F::default, (), a), call_ensures(F::default, (), b)]
        call_ensures(F::default, (), a) && call_ensures(F::default, (), b) ==> a == b
    &&& forall|x: F, y: F, a: bool, b: bool|
        #![trigger call_ensures(F::eq, (&x, &y), a), call_ensures(F::eq, (&x, &y), b)]
        call_ensures(F::eq, (&x, &y), a) && call_ensures(F::eq, (&x, &y), b) ==> a == b
    &&& forall|x: F, y: F, a: bool, b: bool|
        #![trigger call_ensures(F::gt, (&x, &y), a), call_ensures(F::gt, (&x, &y), b)]
        call_ensures(F::gt, (&x, &y), a) && call_ensures(F::gt, (&x, &y), b) ==> a == b
    &&& forall|x: F, y: F, a: F, b: F|
        #![trigger call_ensures(F::plus, (x, y), a), call_ensures(F::plus, (x, y), b)]
        call_ensures(F::plus, (x, y), a) && call_ensures(F::plus, (x, y), b) ==> a == b
    &&& forall|x: F, y: F, a: F, b: F|
        #![trigger call_ensures(F::times, (x, y), a), call_ensures(F::times, (x, y), b)]
        call_ensures(F::times, (x, y), a) && call_ensures(F::times, (x, y), b) ==> a == b
    &&& forall|x: F, y: F, a: F, b: F|
        #![trigger call_ensures(F::over, (x, y), a), call_ensures(F::over, (x, y), b)]
        call_ensures(F::over, (x, y), a) && call_ensures(F::over, (x, y), b) ==> a == b
    &&& forall|n: u32, a: F, b: F|
        #![trigger call_ensures(F::of_u32, (n,), a), call_ensures(F::of_u32, (n,), b)]
        call_ensures(F::of_u32, (n,), a) && call_ensures(F::of_u32, (n,), b) ==> a == b
    &&& forall|n: usize, a: F, b: F|
        #![trigger call_ensures(F::of_usize, (n,), a), call_ensures(F::of_usize, (n,), b)]
        call_ensures(F::of_usize, (n,), a) && call_ensures(F::of_usize, (n,), b) ==> a == b
    &&& forall|x: F, a: u32, b: u32|
        #![trigger call_ensures(F::to_u32, (x,), a), call_ensures(F::to_u32, (x,), b)]
        call_ensures(F::to_u32, (x,), a) && call_ensures(F::to_u32, (x,), b) ==> a == b
}

/// The same of the type that sums are computed in.
pub open spec fn wide_functional<F, W: WideReal<F>>() -> bool {
    &&& functional::<W>()
    &&& forall|n: i64, a: W, b: W|
        #![trigger call_ensures(W::of_i64, (n,), a), call_ensures(W::of_i64, (n,), b)]
        call_ensures(W::of_i64, (n,), a) && call_ensures(W::of_i64, (n,), b) ==> a == b
    &&& forall|x: W, a: F, b: F|
        #![trigger call_ensures(W::narrow, (x,), a), call_ensures(W::narrow, (x,), b)]
        call_ensures(W::narrow, (x,), a) && call_ensures(W::narrow, (x,), b) ==> a == b
}

proof fn one_quotient<F: Real>(a: F, b: F, p: F, q: F)
    requires
        functional::<F>(),
        crate::arith::quotient_is(a, b, p),
        crate::arith::quotient_is(a, b, q),
    ensures
        p == q,
{
}

proof fn one_sum<F: Real>(values: Seq<F>, p: F, q: F)
    requires
        functional::<F>(),
        crate::arith::sum_is(values, p),
        crate::arith::sum_is(values, q),
    ensures
        p == q,
    decreases values.len(),
{
    if values.len() > 0 {
        let less = values.drop_last();
        let a = choose|a: F|
            crate::arith::sum_is(less, a) && #[trigger] call_ensures(
                F::plus,
                (a, values.last()),
                p,
            );
        let b = choose|b: F|
            crate::arith::sum_is(less, b) && #[trigger] call_ensures(
                F::plus,
                (b, values.last()),
                q,
            );
        one_sum(less, a, b);
    }
}

proof fn one_mean<F: Real>(values: Seq<F>, p: F, q: F)
    requires
        functional::<F>(),
        crate::arith::mean_is(values, p),
        crate::arith::mean_is(values, q),
    ensures
        p == q,
{
    let n = values.len() as usize;
    let (s, c) = choose|s: F, c: F|
        #[trigger] crate::arith::sum_is(values, s) && #[trigger] call_ensures(F::of_usize, (n,), c)
            && crate::arith::quotient_is(s, c, p);
    let (t, d) = choose|t: F, d: F|
        #[trigger] crate::arith::sum_is(values, t) && #[trigger] call_ensures(F::of_usize, (n,), d)
            && crate::arith::quotient_is(t, d, q);
    one_sum(values, s, t);
    one_quotient(s, c, p, q);
}

proof fn one_mean_freq<W: Real>(active: Seq<W>, usage: W, freqs: Seq<u32>, p: W, q: W)
    requires
        functional::<W>(),
        crate::metrics::mean_freq_is(active, usage, freqs, p),
        crate::metrics::mean_freq_is(active, usage, freqs, q),
    ensures
        p == q,
    decreases freqs.len(),
{
    if freqs.len() > 0 {
        let less = freqs.drop_last();
        let time = active[freqs.len() - 1];
        let (part, weight, freq, term) = choose|part: W, weight: W, freq: W, term: W|
            {
                &&& crate::metrics::mean_freq_is(active, usage, less, part)
                &&& crate::arith::quotient_is(time, usage, weight)
                &&& call_ensures(W::of_u32, (freqs.last(),), freq)
                &&& #[trigger] call_ensures(W::times, (weight, freq), term)
                &&& #[trigger] call_ensures(W::plus, (part, term), p)
            };
        let (part2, weight2, freq2, term2) = choose|part: W, weight: W, freq: W, term: W|
            {
                &&& crate::metrics::mean_freq_is(active, usage, less, part)
                &&& crate::arith::quotient_is(time, usage, weight)
                &&& call_ensures(W::of_u32, (freqs.last(),), freq)
                &&& #[trigger] call_ensures(W::times, (weight, freq), term)
                &&& #[trigger] call_ensures(W::plus, (part, term), q)
            };
        one_mean_freq(active, usage, less, part, part2);
        one_quotient(time, usage, weight, weight2);
        assert(freq == freq2);
        assert(term == term2);
    }
}

proof fn one_activity<F, W: WideReal<F>>(
    items: Seq<(String, i64)>,
    freqs: Seq<u32>,
    p: (u32, F),
    q: (u32, F),
)
    requires
        wide_functional::<F, W>(),
        crate::metrics::activity_is::<F, W>(items, freqs, p),
        crate::metrics::activity_is::<F, W>(items, freqs, q),
    ensures
        p == q,
{
    let (at, times, usage, total, avg, ratio) = choose|
        at: int,
        times: Seq<W>,
        usage: W,
        total: W,
        avg: W,
        ratio: W,
    | #[trigger]
        crate::metrics::activity_by::<F, W>(items, freqs, at, times, usage, total, avg, ratio, p);
    let (at2, times2, usage2, total2, avg2, ratio2) = choose|
        at: int,
        times: Seq<W>,
        usage: W,
        total: W,
        avg: W,
        ratio: W,
    | #[trigger]
        crate::metrics::activity_by::<F, W>(items, freqs, at, times, usage, total, avg, ratio, q);
    assert(at == at2) by {
        if at < at2 {
            assert(crate::metrics::active_state(items[at].0@));
        } else if at2 < at {
            assert(crate::metrics::active_state(items[at2].0@));
        }
    }
    assert forall|i: int| 0 <= i < times.len() implies times[i] == times2[i] by {
        assert(call_ensures(W::of_i64, (items[i].1,), times[i]));
        assert(call_ensures(W::of_i64, (items[i].1,), times2[i]));
    }
    assert(times =~= times2);
    one_sum(times.skip(at), usage, usage2);
    one_sum(times, total, total2);
    one_mean_freq(times.skip(at), usage, freqs, avg, avg2);
    one_quotient(usage, total, ratio, ratio2);
}

proof fn one_share<F: Real>(c: CoreUsageEntry<F>, top: F, p: F, q: F)
    requires
        functional::<F>(),
        crate::metrics::share_is(c, top, p),
        crate::metrics::share_is(c, top, q),
    ensures
        p == q,
{
}

proof fn one_busy<F: Real>(cores: Seq<CoreUsageEntry<F>>, a: Seq<bool>, b: Seq<bool>)
    requires
        functional::<F>(),
        crate::metrics::marks_busy(cores, a),
        crate::metrics::marks_busy(cores, b),
    ensures
        a == b,
{
    assert forall|i: int| 0 <= i < cores.len() implies a[i] == b[i] by {}
    assert(a =~= b);
}

proof fn one_cluster<F: Real>(cores: Seq<CoreUsageEntry<F>>, p: (u32, F), q: (u32, F))
    requires
        functional::<F>(),
        crate::metrics::cluster_is(cores, p),
        crate::metrics::cluster_is(cores, q),
    ensures
        p == q,
{
    let (busy, top, shares) = choose|busy: Seq<bool>, top: F, shares: Seq<F>| #[trigger]
        crate::metrics::cluster_by(cores, busy, top, shares, p);
    let (busy2, top2, shares2) = choose|busy: Seq<bool>, top: F, shares: Seq<F>| #[trigger]
        crate::metrics::cluster_by(cores, busy, top, shares, q);
    one_busy(cores, busy, busy2);
    if crate::metrics::peak(crate::metrics::core_freqs(cores), busy) != 0 {
        assert(top == top2);
        assert forall|i: int| 0 <= i < cores.len() implies shares[i] == shares2[i] by {
            one_share(cores[i], top, shares[i], shares2[i]);
        }
        assert(shares =~= shares2);
        one_mean(shares, p.1, q.1);
    }
}

proof fn one_package<F: Real>(p: PowerMetrics<F>, q: PowerMetrics<F>)
    requires
        functional::<F>(),
        crate::sampler::package_is(p),
        crate::sampler::package_is(q),
        p.cpu == q.cpu,
        p.gpu == q.gpu,
        p.ane == q.ane,
        p.ram == q.ram,
        p.gpu_ram == q.gpu_ram,
    ensures
        p.package == q.package,
{
}

/// The same samples give the same cores and GPU, whatever stands for the
/// samples that report neither.
proof fn one_sorting<F, W: WideReal<F>>(
    samples: Seq<Sample<F>>,
    soc: SocInfo,
    a: Seq<(u32, F)>,
    b: Seq<(u32, F)>,
    d: int,
)
    requires
        wide_functional::<F, W>(),
        crate::sampler::acts_are::<F, W>(samples, soc, a),
        crate::sampler::acts_are::<F, W>(samples, soc, b),
    ensures
        crate::sampler::cores_of(samples, a, soc.cpu_domains@, d) == crate::sampler::cores_of(
            samples,
            b,
            soc.cpu_domains@,
            d,
        ),
        crate::sampler::gpu_of(samples, a, soc) == crate::sampler::gpu_of(samples, b, soc),
    decreases samples.len(),
{
    if samples.len() > 0 {
        let less = samples.drop_last();
        let a1 = a.drop_last();
        let b1 = b.drop_last();
        assert forall|i: int| 0 <= i < less.len() implies crate::sampler::act_is::<F, W>(
            less[i],
            soc,
            #[trigger] a1[i],
        ) by {
            assert(a1[i] == a[i]);
        }
        assert forall|i: int| 0 <= i < less.len() implies crate::sampler::act_is::<F, W>(
            less[i],
            soc,
            #[trigger] b1[i],
        ) by {
            assert(b1[i] == b[i]);
        }
        one_sorting::<F, W>(less, soc, a1, b1, d);
        let x = samples.last();
        let n = samples.len() - 1;
        assert(crate::sampler::act_is::<F, W>(x, soc, a[n]));
        assert(crate::sampler::act_is::<F, W>(x, soc, b[n]));
        match (x.route(soc.cpu_domains@), x.reading) {
            (ChannelRoute::CpuCore(at), Reading::States(items)) => {
                one_activity::<F, W>(
                    items@,
                    soc.cpu_domains@[at as int].freqs_mhz@,
                    a.last(),
                    b.last(),
                );
            },
            (ChannelRoute::Gpu, Reading::States(items)) => {
                one_activity::<F, W>(items@, soc.gpu_freqs@.skip(1), a.last(), b.last());
            },
            _ => {},
        }
    }
}

/// Whether two entries hold the same.
pub open spec fn same_cpu<F>(a: CpuUsageEntry<F>, b: CpuUsageEntry<F>) -> bool {
    &&& a.name == b.name
    &&& a.units == b.units
    &&& a.freq_mhz == b.freq_mhz
    &&& a.usage == b.usage
    &&& a.cores@ == b.cores@
}

/// Whether two measurements hold the same.
pub open spec fn same_metrics<F>(a: Metrics<F>, b: Metrics<F>) -> bool {
    &&& a.temp == b.temp
    &&& a.memory == b.memory
    &&& a.cpu_usage@.len() == b.cpu_usage@.len()
    &&& forall|k: int|
        0 <= k < a.cpu_usage@.len() ==> same_cpu(#[trigger] a.cpu_usage@[k], b.cpu_usage@[k])
    &&& a.gpu_usage@ == b.gpu_usage@
    &&& a.power == b.power
}

/// Whether two measurements came to the same: both failed with the same error,
/// or both hold the same.
pub open spec fn same_outcome<F>(
    a: Result<Metrics<F>, String>,
    b: Result<Metrics<F>, String>,
) -> bool {
    match (a, b) {
        (Ok(a), Ok(b)) => same_metrics(a, b),
        (Err(a), Err(b)) => a == b,
        _ => false,
    }
}

/// A measurement is determined by what was read, where the operations on real
/// numbers are.
pub proof fn readings_determine_measurement<F: Real, W: WideReal<F>>(
    samples: Seq<Sample<F>>,
    soc: SocInfo,
    memory: Result<MemMetrics, String>,
    temp: Result<TempMetrics<F>, String>,
    rails: Rails<F>,
    a: Result<Metrics<F>, String>,
    b: Result<Metrics<F>, String>,
)
    requires
        functional::<F>(),
        wide_functional::<F, W>(),
        crate::sampler::outcome_is::<F, W>(samples, soc, memory, temp, rails, a),
        crate::sampler::outcome_is::<F, W>(samples, soc, memory, temp, rails, b),
    ensures
        same_outcome(a, b),
{
    if a is Ok {
        let (m, n) = (a->Ok_0, b->Ok_0);
        let (mem, tmp) = (memory->Ok_0, temp->Ok_0);
        let x = choose|x: Readings<F>| #[trigger]
            crate::sampler::readings_are::<F, W>(x, samples, soc) && crate::sampler::measures(
                m,
                x,
                mem,
                tmp,
                rails,
            );
        let y = choose|y: Readings<F>| #[trigger]
            crate::sampler::readings_are::<F, W>(y, samples, soc) && crate::sampler::measures(
                n,
                y,
                mem,
                tmp,
                rails,
            );
        let p = choose|p: Seq<(u32, F)>| #[trigger]
            crate::sampler::acts_are::<F, W>(samples, soc, p) && crate::sampler::sorted_by_use(
                x,
                samples,
                p,
                soc,
            );
        let q = choose|q: Seq<(u32, F)>| #[trigger]
            crate::sampler::acts_are::<F, W>(samples, soc, q) && crate::sampler::sorted_by_use(
                y,
                samples,
                q,
                soc,
            );
        let domains = soc.cpu_domains@;
        one_sorting::<F, W>(samples, soc, p, q, 0);
        assert forall|d: int|
            crate::sampler::cores_of(samples, p, domains, d)
                == #[trigger] crate::sampler::cores_of(samples, q, domains, d) by {
            one_sorting::<F, W>(samples, soc, p, q, d);
        }
        sorted_alike(x, samples, p, samples, q, soc);
        let at = crate::sampler::reporting(samples, q, domains, domains.len() as int);
        assert forall|k: int| 0 <= k < m.cpu_usage@.len() implies same_cpu(
            #[trigger] m.cpu_usage@[k],
            n.cpu_usage@[k],
        ) by {
            assert(crate::sampler::holds_domain(x.cpu@[k], samples, q, domains, at[k]));
            assert(crate::sampler::holds_domain(y.cpu@[k], samples, q, domains, at[k]));
            let (c, d) = (m.cpu_usage@[k], n.cpu_usage@[k]);
            assert(crate::sampler::summarizes(c, x.cpu@[k]));
            assert(crate::sampler::summarizes(d, y.cpu@[k]));
            one_cluster(x.cpu@[k].cores@, (c.freq_mhz, c.usage), (d.freq_mhz, d.usage));
        }
        one_sum(x.power.cpu@, m.power.cpu, n.power.cpu);
        one_sum(x.power.gpu@, m.power.gpu, n.power.gpu);
        one_sum(x.power.ane@, m.power.ane, n.power.ane);
        one_sum(x.power.ram@, m.power.ram, n.power.ram);
        one_sum(x.power.gpu_ram@, m.power.gpu_ram, n.power.gpu_ram);
        one_package(m.power, n.power);
        assert(m.power.board == n.power.board);
        assert(m.power.battery == n.power.battery);
        assert(m.power.dc_in == n.power.dc_in);
    }
}

/// Two measurements that differ only in that the second is taken without the
/// samples of the channels that are not subscribed to come to the same, where
/// the operations on real numbers are determined.
pub proof fn measurement_needs_no_rejected_samples<F: Real, W: WideReal<F>>(
    samples: Seq<Sample<F>>,
    soc: SocInfo,
    memory: Result<MemMetrics, String>,
    temp: Result<TempMetrics<F>, String>,
    rails: Rails<F>,
    a: Result<Metrics<F>, String>,
    b: Result<Metrics<F>, String>,
)
    requires
        functional::<F>(),
        wide_functional::<F, W>(),
        crate::sampler::outcome_is::<F, W>(samples, soc, memory, temp, rails, a),
        crate::sampler::outcome_is::<F, W>(kept(samples), soc, memory, temp, rails, b),
    ensures
        same_outcome(a, b),
{
    rejected_samples_change_nothing::<F, W>(samples, soc, memory, temp, rails, b);
    readings_determine_measurement::<F, W>(samples, soc, memory, temp, rails, a, b);
}

} // verus!
