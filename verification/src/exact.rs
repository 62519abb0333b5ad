//! What the computations on readings come to where arithmetic is exact.
//!
//! Arithmetic on readings may round. These laws take a reading type whose
//! operations do not: each value stands for a real number, and every operation
//! gives what it gives on the real numbers.
use vstd::prelude::*;

use crate::arith::{Real, WideReal};
use crate::metrics::CoreUsageEntry;

verus! {

/// Whether the operations are exact when each value `x` stands for `v(x)`.
pub open spec fn exact<F: Real>(v: spec_fn(F) -> real) -> bool {
    &&& forall|x: F| #[trigger] call_ensures(F::default, (), x) ==> v(x) == 0real
    &&& forall|n: u8, x: F| #[trigger]
        call_ensures(F::from, (n,), x) ==> v(x) == (n as int) as real
    &&& forall|x: F, y: F, r: bool| #[trigger]
        call_ensures(F::eq, (&x, &y), r) ==> r == (v(x) == v(y))
    &&& forall|x: F, y: F, r: bool| #[trigger]
        call_ensures(F::gt, (&x, &y), r) ==> r == (v(x) > v(y))
    &&& forall|x: F, y: F, r: bool| #[trigger]
        call_ensures(F::le, (&x, &y), r) ==> r == (v(x) <= v(y))
    &&& forall|x: F, y: F, r: F| #[trigger]
        call_ensures(F::plus, (x, y), r) ==> v(r) == v(x) + v(y)
    &&& forall|x: F, y: F, r: F| #[trigger]
        call_ensures(F::times, (x, y), r) ==> v(r) == v(x) * v(y)
    &&& forall|x: F, y: F, r: F| #[trigger]
        call_ensures(F::over, (x, y), r) && v(y) != 0real ==> v(r) * v(y) == v(x)
    &&& forall|n: u32, x: F| #[trigger]
        call_ensures(F::of_u32, (n,), x) ==> v(x) == (n as int) as real
    &&& forall|n: usize, x: F| #[trigger]
        call_ensures(F::of_usize, (n,), x) ==> v(x) == (n as int) as real
    &&& forall|x: F, n: u32| #[trigger]
        call_ensures(F::to_u32, (x,), n) && 0real <= v(x) <= (u32::MAX as int) as real ==> (
        n as int) as real <= v(x) < (n + 1) as real
}

/// The same of a wider type `W` along with `F`.
pub open spec fn exact_wide<F, W: WideReal<F>>(
    v: spec_fn(F) -> real,
    w: spec_fn(W) -> real,
) -> bool {
    &&& exact(w)
    &&& forall|n: i64, x: W| #[trigger]
        call_ensures(W::of_i64, (n,), x) ==> w(x) == (n as int) as real
    &&& forall|x: W, r: F| #[trigger] call_ensures(W::narrow, (x,), r) ==> v(r) == w(x)
}

/// The sum of some numbers.
pub open spec fn real_sum(values: Seq<real>) -> real
    decreases values.len(),
{
    if values.len() == 0 {
        0real
    } else {
        real_sum(values.drop_last()) + values.last()
    }
}

/// A quotient is what gives the dividend back, or zero if the divisor is.
pub proof fn quotient_gives_the_dividend_back<F: Real>(a: F, b: F, q: F, v: spec_fn(F) -> real)
    requires
        exact(v),
        call_ensures(crate::arith::quotient::<F>, (a, b), q),
    ensures
        v(b) == 0real ==> v(q) == 0real,
        v(b) != 0real ==> v(q) * v(b) == v(a),
{
    exact_quotient(a, b, q, v);
}

proof fn exact_quotient<F: Real>(a: F, b: F, q: F, v: spec_fn(F) -> real)
    requires
        exact(v),
        crate::arith::quotient_is(a, b, q),
    ensures
        v(b) == 0real ==> v(q) == 0real,
        v(b) != 0real ==> v(q) * v(b) == v(a),
{
}

/// Division by zero gives zero, and by any other number the quotient.
pub proof fn zero_div_divides(a: u64, b: u64, r: u64)
    requires
        call_ensures(crate::metrics::zero_div::<u64>, (a, b), r),
    ensures
        b == 0 ==> r == 0,
        b != 0 ==> r * b <= a < (r + 1) * b,
{
    if b != 0 {
        let (x, y, q) = (a as int, b as int, (a / b) as int);
        assert(q * y <= x < (q + 1) * y) by (nonlinear_arith)
            requires
                y > 0,
                x >= 0,
                q == x / y,
        ;
    }
}

/// A total is the sum.
pub proof fn total_is_the_sum<F: Real>(values: &[F], s: F, v: spec_fn(F) -> real)
    requires
        exact(v),
        call_ensures(crate::arith::total::<F>, (values,), s),
    ensures
        v(s) == real_sum(values@.map_values(v)),
{
    exact_sum(values@, s, v);
}

pub(crate) proof fn exact_sum<F: Real>(values: Seq<F>, s: F, v: spec_fn(F) -> real)
    requires
        exact(v),
        crate::arith::sum_is(values, s),
    ensures
        v(s) == real_sum(values.map_values(v)),
    decreases values.len(),
{
    if values.len() > 0 {
        let less = values.drop_last();
        let part = choose|part: F|
            crate::arith::sum_is(less, part) && #[trigger] call_ensures(
                F::plus,
                (part, values.last()),
                s,
            );
        exact_sum(less, part, v);
        assert(values.map_values(v).drop_last() =~= less.map_values(v));
    }
}

/// A mean times the number of values is their sum; the mean of none is zero.
pub proof fn mean_times_count_is_the_sum<F: Real>(values: &[F], avg: F, v: spec_fn(F) -> real)
    requires
        exact(v),
        call_ensures(crate::arith::mean::<F>, (values,), avg),
    ensures
        v(avg) * (values@.len() as int) as real == real_sum(values@.map_values(v)),
        values@.len() == 0 ==> v(avg) == 0real,
{
    assert(values.len() == values@.len());
    exact_mean(values@, avg, v);
}

pub(crate) proof fn exact_mean<F: Real>(values: Seq<F>, avg: F, v: spec_fn(F) -> real)
    requires
        exact(v),
        values.len() <= usize::MAX,
        crate::arith::mean_is(values, avg),
    ensures
        v(avg) * (values.len() as int) as real == real_sum(values.map_values(v)),
        values.len() == 0 ==> v(avg) == 0real,
{
    let n = values.len() as usize;
    let (s, c) = choose|s: F, c: F|
        #[trigger] crate::arith::sum_is(values, s) && #[trigger] call_ensures(F::of_usize, (n,), c)
            && crate::arith::quotient_is(s, c, avg);
    exact_sum(values, s, v);
    exact_quotient(s, c, avg, v);
}

/// The whole time spent in some states.
pub open spec fn time_in(items: Seq<(String, i64)>) -> int
    decreases items.len(),
{
    if items.len() == 0 {
        0
    } else {
        time_in(items.drop_last()) + items.last().1
    }
}

/// The time in each of the first states times the frequency that stands for it,
/// added up.
pub open spec fn cycles(work: Seq<(String, i64)>, freqs: Seq<u32>) -> real
    decreases freqs.len(),
{
    if freqs.len() == 0 {
        0real
    } else {
        cycles(work, freqs.drop_last()) + (work[freqs.len() - 1].1 as int) as real * (
        freqs.last() as int) as real
    }
}

/// Whether a state is one of those in which a unit does not work.
pub open spec fn idles(name: Seq<char>) -> bool {
    name == "IDLE"@ || name == "DOWN"@ || name == "OFF"@
}

/// Whether `items` is some idle states followed by `work`, which starts with a
/// working state.
pub open spec fn splits(
    items: Seq<(String, i64)>,
    idle: Seq<(String, i64)>,
    work: Seq<(String, i64)>,
) -> bool {
    &&& items == idle + work
    &&& work.len() > 0
    &&& !idles(work[0].0@)
    &&& forall|i: int| 0 <= i < idle.len() ==> idles(#[trigger] idle[i].0@)
}

/// Whether no time is negative.
pub open spec fn elapsed(items: Seq<(String, i64)>) -> bool {
    forall|i: int| 0 <= i < items.len() ==> (#[trigger] items[i]).1 >= 0
}

proof fn exact_times<F, W: WideReal<F>>(
    items: Seq<(String, i64)>,
    times: Seq<W>,
    s: W,
    v: spec_fn(F) -> real,
    w: spec_fn(W) -> real,
)
    requires
        exact_wide(v, w),
        crate::metrics::times_are::<F, W>(items, times),
        crate::arith::sum_is(times, s),
    ensures
        w(s) == time_in(items) as real,
    decreases items.len(),
{
    if items.len() > 0 {
        let less = times.drop_last();
        let part = choose|part: W|
            crate::arith::sum_is(less, part) && #[trigger] call_ensures(
                W::plus,
                (part, times.last()),
                s,
            );
        let fewer = items.drop_last();
        assert forall|i: int| 0 <= i < fewer.len() implies call_ensures(
            W::of_i64,
            (fewer[i].1,),
            #[trigger] less[i],
        ) by {
            assert(less[i] == times[i]);
        }
        exact_times::<F, W>(fewer, less, part, v, w);
        assert(call_ensures(W::of_i64, (items[items.len() - 1].1,), times[items.len() - 1]));
    }
}

proof fn time_adds(a: Seq<(String, i64)>, b: Seq<(String, i64)>)
    ensures
        time_in(a + b) == time_in(a) + time_in(b),
    decreases b.len(),
{
    if b.len() == 0 {
        assert(a + b =~= a);
    } else {
        time_adds(a, b.drop_last());
        assert((a + b).drop_last() =~= a + b.drop_last());
    }
}

proof fn time_elapsed(items: Seq<(String, i64)>)
    requires
        elapsed(items),
    ensures
        time_in(items) >= 0,
    decreases items.len(),
{
    if items.len() > 0 {
        assert(items[items.len() - 1].1 >= 0);
        assert forall|i: int| 0 <= i < items.drop_last().len() implies (
        #[trigger] items.drop_last()[i]).1 >= 0 by {
            assert(items[i].1 >= 0);
        }
        time_elapsed(items.drop_last());
    }
}

proof fn exact_mean_freq<F, W: WideReal<F>>(
    work: Seq<(String, i64)>,
    active: Seq<W>,
    usage: W,
    freqs: Seq<u32>,
    avg: W,
    v: spec_fn(F) -> real,
    w: spec_fn(W) -> real,
)
    requires
        exact_wide(v, w),
        crate::metrics::times_are::<F, W>(work, active),
        freqs.len() <= work.len(),
        crate::metrics::mean_freq_is(active, usage, freqs, avg),
    ensures
        w(usage) == 0real ==> w(avg) == 0real,
        w(usage) != 0real ==> w(avg) * w(usage) == cycles(work, freqs),
    decreases freqs.len(),
{
    if freqs.len() == 0 {
        assert(w(avg) == 0real);
        assert(w(avg) * w(usage) == 0real) by (nonlinear_arith)
            requires
                w(avg) == 0real,
        ;
    } else {
        let less = freqs.drop_last();
        let k = freqs.len() - 1;
        let (part, weight, freq, term) = choose|part: W, weight: W, freq: W, term: W|
            {
                &&& crate::metrics::mean_freq_is(active, usage, less, part)
                &&& crate::arith::quotient_is(active[k], usage, weight)
                &&& call_ensures(W::of_u32, (freqs.last(),), freq)
                &&& #[trigger] call_ensures(W::times, (weight, freq), term)
                &&& #[trigger] call_ensures(W::plus, (part, term), avg)
            };
        exact_mean_freq::<F, W>(work, active, usage, less, part, v, w);
        exact_quotient(active[k], usage, weight, w);
        assert(call_ensures(W::of_i64, (work[k].1,), active[k]));
        let (p, g, f, u, t) = (w(part), w(weight), w(freq), w(usage), w(active[k]));
        assert(w(avg) == p + g * f);
        if u == 0real {
            assert(g * f == 0real) by (nonlinear_arith)
                requires
                    g == 0real,
            ;
        } else {
            assert((p + g * f) * u == p * u + t * f) by (nonlinear_arith)
                requires
                    g * u == t,
            ;
        }
    }
}

/// What the contract of the computation says of states that are split.
proof fn exact_activity<F, W: WideReal<F>>(
    items: Seq<(String, i64)>,
    idle: Seq<(String, i64)>,
    work: Seq<(String, i64)>,
    freqs: Seq<u32>,
    r: (u32, F),
    v: spec_fn(F) -> real,
    w: spec_fn(W) -> real,
) -> (avg: real)
    requires
        exact_wide(v, w),
        splits(items, idle, work),
        freqs.len() <= work.len(),
        crate::metrics::activity_is::<F, W>(items, freqs, r),
    ensures
        time_in(items) == 0 ==> v(r.1) == 0real,
        time_in(items) != 0 ==> v(r.1) * time_in(items) as real == time_in(work) as real,
        time_in(work) == 0 ==> avg == 0real,
        time_in(work) != 0 ==> avg * time_in(work) as real == cycles(work, freqs),
        0real <= avg <= (u32::MAX as int) as real ==> (r.0 as int) as real <= avg < (r.0
            + 1) as real,
        time_in(items) == time_in(idle) + time_in(work),
{
    let (at, times, usage, total, avg, ratio) = choose|
        at: int,
        times: Seq<W>,
        usage: W,
        total: W,
        avg: W,
        ratio: W,
    | #[trigger]
        crate::metrics::activity_by::<F, W>(items, freqs, at, times, usage, total, avg, ratio, r);
    assert(at == idle.len()) by {
        if at < idle.len() {
            assert(items[at] == idle[at]);
            assert(idles(idle[at].0@));
        } else if at > idle.len() {
            assert(items[idle.len() as int] == work[0]);
            assert(!crate::metrics::active_state(items[idle.len() as int].0@));
        }
    }
    let active = times.skip(at);
    assert forall|i: int| 0 <= i < work.len() implies call_ensures(
        W::of_i64,
        (work[i].1,),
        #[trigger] active[i],
    ) by {
        assert(active[i] == times[i + at]);
        assert(items[i + at] == work[i]);
        assert(call_ensures(W::of_i64, (items[i + at].1,), times[i + at]));
    }
    assert(active.len() == work.len());
    exact_times::<F, W>(items, times, total, v, w);
    exact_times::<F, W>(work, active, usage, v, w);
    exact_mean_freq::<F, W>(work, active, usage, freqs, avg, v, w);
    exact_quotient(usage, total, ratio, w);
    time_adds(idle, work);
    w(avg)
}

/// The usage of a unit is the part of the whole time that it spent in the states
/// from the first working one on, and so lies between 0 and 1.
pub proof fn usage_is_the_part_at_work<F, W: WideReal<F>>(
    items: &[(String, i64)],
    idle: Seq<(String, i64)>,
    work: Seq<(String, i64)>,
    freqs: &[u32],
    r: (u32, F),
    v: spec_fn(F) -> real,
    w: spec_fn(W) -> real,
)
    requires
        exact_wide(v, w),
        splits(items@, idle, work),
        freqs@.len() <= work.len(),
        call_ensures(
            crate::metrics::calc_freq_from_residencies::<F, W>,
            (items, freqs),
            r,
        ),
    ensures
        time_in(idle) + time_in(work) == 0 ==> v(r.1) == 0real,
        time_in(idle) + time_in(work) != 0 ==> v(r.1) * (time_in(idle) + time_in(work)) as real
            == time_in(work) as real,
        elapsed(items@) ==> 0real <= v(r.1) <= 1real,
{
    exact_activity::<F, W>(items@, idle, work, freqs@, r, v, w);
    if elapsed(items@) {
        assert forall|i: int| 0 <= i < idle.len() implies (#[trigger] idle[i]).1 >= 0 by {
            assert(items@[i] == idle[i]);
        }
        assert forall|i: int| 0 <= i < work.len() implies (#[trigger] work[i]).1 >= 0 by {
            assert(items@[i + idle.len()] == work[i]);
        }
        time_elapsed(idle);
        time_elapsed(work);
        let (u, t, all) = (v(r.1), time_in(work) as real, (time_in(idle) + time_in(work)) as real);
        if time_in(idle) + time_in(work) != 0 {
            assert(0real <= u <= 1real) by (nonlinear_arith)
                requires
                    u * all == t,
                    0real <= t <= all,
                    all > 0real,
            ;
        }
    }
}

proof fn cycles_bounded(work: Seq<(String, i64)>, freqs: Seq<u32>)
    requires
        elapsed(work),
        freqs.len() <= work.len(),
    ensures
        0real <= cycles(work, freqs) <= time_in(work.take(freqs.len() as int)) as real * (
        u32::MAX as int) as real,
    decreases freqs.len(),
{
    let n = freqs.len() as int;
    let top = (u32::MAX as int) as real;
    if n == 0 {
        assert(work.take(0) =~= Seq::empty());
        assert(0real * top == 0real) by (nonlinear_arith);
    } else {
        cycles_bounded(work, freqs.drop_last());
        assert(work.take(n).drop_last() =~= work.take(n - 1));
        assert(work[n - 1].1 >= 0);
        let (t, f) = ((work[n - 1].1 as int) as real, (freqs.last() as int) as real);
        let before = time_in(work.take(n - 1)) as real;
        assert(0real <= t * f <= t * top) by (nonlinear_arith)
            requires
                0real <= t,
                0real <= f <= top,
        ;
        assert((before + t) * top == before * top + t * top) by (nonlinear_arith);
    }
}

/// The frequency of a unit is the mean over its time at work, rounded down: the
/// frequency times that time is what the time in each state times its frequency
/// adds up to, but for less than one MHz. A unit that did not work is at 0.
pub proof fn frequency_is_the_mean_at_work<F, W: WideReal<F>>(
    items: &[(String, i64)],
    idle: Seq<(String, i64)>,
    work: Seq<(String, i64)>,
    freqs: &[u32],
    r: (u32, F),
    v: spec_fn(F) -> real,
    w: spec_fn(W) -> real,
)
    requires
        exact_wide(v, w),
        splits(items@, idle, work),
        elapsed(work),
        freqs@.len() <= work.len(),
        call_ensures(
            crate::metrics::calc_freq_from_residencies::<F, W>,
            (items, freqs),
            r,
        ),
    ensures
        time_in(work) == 0 ==> r.0 == 0,
        time_in(work) > 0 ==> (r.0 as int) as real * time_in(work) as real <= cycles(work, freqs@)
            < (r.0 + 1) as real * time_in(work) as real,
{
    let avg = exact_activity::<F, W>(items@, idle, work, freqs@, r, v, w);
    time_elapsed(work);
    if time_in(work) > 0 {
        let n = freqs@.len() as int;
        cycles_bounded(work, freqs@);
        let (a, b) = (work.take(n), work.skip(n));
        assert(a + b =~= work);
        time_adds(a, b);
        assert forall|i: int| 0 <= i < b.len() implies (#[trigger] b[i]).1 >= 0 by {
            assert(work[i + n] == b[i]);
        }
        time_elapsed(b);
        let (t, c, top) = (time_in(work) as real, cycles(work, freqs@), (u32::MAX as int) as real);
        let part = time_in(a) as real;
        assert(0real <= avg <= top) by (nonlinear_arith)
            requires
                avg * t == c,
                0real <= c <= part * top,
                part <= t,
                t > 0real,
                top >= 0real,
        ;
        let (low, high) = ((r.0 as int) as real, (r.0 + 1) as real);
        assert(low * t <= avg * t < high * t) by (nonlinear_arith)
            requires
                low <= avg < high,
                t > 0real,
        ;
    }
}

proof fn time_scales(a: Seq<(String, i64)>, b: Seq<(String, i64)>, k: int)
    requires
        a.len() == b.len(),
        forall|i: int| 0 <= i < a.len() ==> (#[trigger] b[i]).1 == k * a[i].1,
    ensures
        time_in(b) == k * time_in(a),
    decreases a.len(),
{
    if a.len() > 0 {
        let (c, d) = (a.drop_last(), b.drop_last());
        assert forall|i: int| 0 <= i < c.len() implies (#[trigger] d[i]).1 == k * c[i].1 by {
            assert(b[i].1 == k * a[i].1);
        }
        time_scales(c, d, k);
        assert(b[b.len() - 1].1 == k * a[a.len() - 1].1);
        let (x, y) = (time_in(c), a.last().1 as int);
        assert(k * x + k * y == k * (x + y)) by (nonlinear_arith);
    } else {
        assert(k * 0 == 0) by (nonlinear_arith);
    }
}

proof fn cycles_scale(a: Seq<(String, i64)>, b: Seq<(String, i64)>, freqs: Seq<u32>, k: int)
    requires
        a.len() == b.len(),
        freqs.len() <= a.len(),
        forall|i: int| 0 <= i < a.len() ==> (#[trigger] b[i]).1 == k * a[i].1,
    ensures
        cycles(b, freqs) == k as real * cycles(a, freqs),
    decreases freqs.len(),
{
    let x = k as real;
    if freqs.len() > 0 {
        cycles_scale(a, b, freqs.drop_last(), k);
        let i = freqs.len() - 1;
        assert(b[i].1 == k * a[i].1);
        let (t, f, c) = (
            (a[i].1 as int) as real,
            (freqs.last() as int) as real,
            cycles(a, freqs.drop_last()),
        );
        product_of_reals(k, a[i].1 as int);
        assert((x * t) * f == x * (t * f)) by (nonlinear_arith);
        assert(x * c + x * (t * f) == x * (c + t * f)) by (nonlinear_arith);
    } else {
        assert(x * 0real == 0real) by (nonlinear_arith);
    }
}

/// Products of integers are products of the numbers that they are.
proof fn product_of_reals(a: int, b: int)
    ensures
        (a * b) as real == a as real * b as real,
{
    assert((a * b) as real == a as real * b as real) by (nonlinear_arith);
}

/// Only the proportions of the times count: multiplying every one by the same
/// positive number changes neither the frequency nor the usage.
pub proof fn only_proportions_of_time_count<F, W: WideReal<F>>(
    items: &[(String, i64)],
    idle: Seq<(String, i64)>,
    work: Seq<(String, i64)>,
    scaled: &[(String, i64)],
    freqs: &[u32],
    k: int,
    r: (u32, F),
    s: (u32, F),
    v: spec_fn(F) -> real,
    w: spec_fn(W) -> real,
)
    requires
        exact_wide(v, w),
        splits(items@, idle, work),
        freqs@.len() <= work.len(),
        elapsed(items@),
        k > 0,
        scaled@.len() == items@.len(),
        forall|i: int|
            0 <= i < items@.len() ==> (#[trigger] scaled@[i]).0 == items@[i].0 && scaled@[i].1 == k
                * items@[i].1,
        call_ensures(
            crate::metrics::calc_freq_from_residencies::<F, W>,
            (items, freqs),
            r,
        ),
        call_ensures(
            crate::metrics::calc_freq_from_residencies::<F, W>,
            (scaled, freqs),
            s,
        ),
    ensures
        s.0 == r.0,
        v(s.1) == v(r.1),
{
    let n = idle.len() as int;
    let (idle2, work2) = (scaled@.take(n), scaled@.skip(n));
    assert(scaled@ =~= idle2 + work2);
    assert forall|i: int| 0 <= i < idle.len() implies (#[trigger] idle2[i]).1 == k * idle[i].1
        && idle2[i].0 == idle[i].0 by {
        assert(items@[i] == idle[i]);
        assert(scaled@[i].1 == k * items@[i].1);
    }
    assert forall|i: int| 0 <= i < work.len() implies (#[trigger] work2[i]).1 == k * work[i].1
        && work2[i].0 == work[i].0 && work[i].1 >= 0 by {
        assert(items@[i + n] == work[i]);
        assert(scaled@[i + n].1 == k * items@[i + n].1);
    }
    assert(work2[0].0 == work[0].0);
    assert forall|i: int| 0 <= i < idle2.len() implies idles(#[trigger] idle2[i].0@) by {
        assert(idle2[i].0 == idle[i].0);
    }
    assert forall|i: int| 0 <= i < work2.len() implies (#[trigger] work2[i]).1 >= 0 by {
        let t = work[i].1 as int;
        assert(work2[i].1 == k * t && t >= 0);
        assert(k * t >= 0) by (nonlinear_arith)
            requires
                k > 0,
                t >= 0,
        ;
    }
    assert(elapsed(work)) by {
        assert forall|i: int| 0 <= i < work.len() implies (#[trigger] work[i]).1 >= 0 by {
            assert(work2[i].1 == k * work[i].1);
        }
    }
    assert forall|i: int| 0 <= i < idle.len() implies (#[trigger] idle[i]).1 >= 0 by {
        assert(items@[i] == idle[i]);
    }
    time_elapsed(idle);
    time_elapsed(work);
    time_scales(idle, idle2, k);
    time_scales(work, work2, k);
    cycles_scale(work, work2, freqs@, k);
    usage_is_the_part_at_work::<F, W>(items, idle, work, freqs, r, v, w);
    usage_is_the_part_at_work::<F, W>(scaled, idle2, work2, freqs, s, v, w);
    frequency_is_the_mean_at_work::<F, W>(items, idle, work, freqs, r, v, w);
    frequency_is_the_mean_at_work::<F, W>(scaled, idle2, work2, freqs, s, v, w);
    let (a, b) = (time_in(idle), time_in(work));
    assert(k * a + k * b == k * (a + b)) by (nonlinear_arith);
    product_of_reals(k, a + b);
    product_of_reals(k, b);
    let (x, all, t) = (k as real, (a + b) as real, b as real);
    let (p, q) = (v(r.1), v(s.1));
    if a + b == 0 {
        assert(k * 0 == 0) by (nonlinear_arith);
    } else {
        assert(k * (a + b) != 0) by (nonlinear_arith)
            requires
                k > 0,
                a + b != 0,
        ;
        assert(p == q) by (nonlinear_arith)
            requires
                p * all == t,
                q * (x * all) == x * t,
                x > 0real,
                all != 0real,
        ;
    }
    if b == 0 {
        assert(k * 0 == 0) by (nonlinear_arith);
    } else {
        assert(k * b > 0) by (nonlinear_arith)
            requires
                k > 0,
                b > 0,
        ;
        let c = cycles(work, freqs@);
        let (f, f1) = ((r.0 as int) as real, (r.0 + 1) as real);
        let (g, g1) = ((s.0 as int) as real, (s.0 + 1) as real);
        assert(f < g1 && g < f1) by (nonlinear_arith)
            requires
                f * t <= c < f1 * t,
                g * (x * t) <= x * c < g1 * (x * t),
                x > 0real,
                t > 0real,
        ;
    }
}

/// The peak is the highest frequency of the marked cores: none of them is above
/// it, and it is that of one of them unless it is 0.
pub proof fn peak_is_the_highest_marked(freqs: Seq<u32>, marked: Seq<bool>)
    requires
        marked.len() == freqs.len(),
    ensures
        forall|i: int|
            0 <= i < freqs.len() && marked[i] ==> #[trigger] freqs[i] <= crate::metrics::peak(
                freqs,
                marked,
            ),
        crate::metrics::peak(freqs, marked) != 0 ==> exists|i: int|
            0 <= i < freqs.len() && marked[i] && #[trigger] freqs[i] == crate::metrics::peak(
                freqs,
                marked,
            ),
    decreases freqs.len(),
{
    if freqs.len() > 0 {
        let (f, m) = (freqs.drop_last(), marked.drop_last());
        peak_is_the_highest_marked(f, m);
        let rest = crate::metrics::peak(f, m);
        let top = crate::metrics::peak(freqs, marked);
        let n = freqs.len() - 1;
        assert forall|i: int| 0 <= i < freqs.len() && marked[i] implies #[trigger] freqs[i] <= top by {
            if i < n {
                assert(f[i] == freqs[i] && m[i] == marked[i]);
            }
        }
        if top != 0 {
            if top == rest {
                let i = choose|i: int| 0 <= i < f.len() && m[i] && #[trigger] f[i] == rest;
                assert(freqs[i] == top && marked[i]);
            } else {
                assert(freqs[n] == top && marked[n]);
            }
        }
    }
}

/// What the cores did, each usage times its frequency, added up.
pub open spec fn core_work<F>(cores: Seq<CoreUsageEntry<F>>, v: spec_fn(F) -> real) -> real
    decreases cores.len(),
{
    if cores.len() == 0 {
        0real
    } else {
        core_work(cores.drop_last(), v) + v(cores.last().usage) * (cores.last().freq_mhz as int) as real
    }
}

proof fn exact_shares<F: Real>(
    cores: Seq<CoreUsageEntry<F>>,
    shares: Seq<F>,
    top: F,
    v: spec_fn(F) -> real,
)
    requires
        exact(v),
        v(top) != 0real,
        shares.len() == cores.len(),
        forall|i: int|
            0 <= i < cores.len() ==> crate::metrics::share_is(cores[i], top, #[trigger] shares[i]),
    ensures
        real_sum(shares.map_values(v)) * v(top) == core_work(cores, v),
    decreases cores.len(),
{
    if cores.len() == 0 {
        assert(0real * v(top) == 0real) by (nonlinear_arith);
    } else {
        let (c, s) = (cores.drop_last(), shares.drop_last());
        let n = cores.len() - 1;
        assert forall|i: int| 0 <= i < c.len() implies crate::metrics::share_is(
            c[i],
            top,
            #[trigger] s[i],
        ) by {
            assert(s[i] == shares[i]);
        }
        exact_shares(c, s, top, v);
        assert(shares.map_values(v).drop_last() =~= s.map_values(v));
        assert(crate::metrics::share_is(cores[n], top, shares[n]));
        let (a, b, t) = (real_sum(s.map_values(v)), v(shares[n]), v(top));
        assert((a + b) * t == a * t + b * t) by (nonlinear_arith);
    }
}

pub(crate) proof fn exact_cluster<F: Real>(
    cores: Seq<CoreUsageEntry<F>>,
    r: (u32, F),
    v: spec_fn(F) -> real,
)
    requires
        exact(v),
        cores.len() <= usize::MAX,
        crate::metrics::cluster_is(cores, r),
    ensures
        forall|i: int|
            0 <= i < cores.len() && v((#[trigger] cores[i]).usage) > 0real ==> cores[i].freq_mhz
                <= r.0,
        r.0 != 0 ==> exists|i: int|
            0 <= i < cores.len() && v((#[trigger] cores[i]).usage) > 0real && cores[i].freq_mhz
                == r.0,
        r.0 == 0 ==> v(r.1) == 0real,
        r.0 != 0 ==> v(r.1) * ((cores.len() as int) as real * (r.0 as int) as real) == core_work(
            cores,
            v,
        ),
{
    let (busy, top, shares) = choose|busy: Seq<bool>, top: F, shares: Seq<F>| #[trigger]
        crate::metrics::cluster_by(cores, busy, top, shares, r);
    let freqs = crate::metrics::core_freqs(cores);
    let best = crate::metrics::peak(freqs, busy);
    peak_is_the_highest_marked(freqs, busy);
    assert forall|i: int| 0 <= i < cores.len() implies busy[i] == (v(
        (#[trigger] cores[i]).usage,
    ) > 0real) && freqs[i] == cores[i].freq_mhz by {
        assert(busy[i] == busy[i]);
    }
    if best != 0 {
        let x = (best as int) as real;
        assert(v(top) == x);
        assert(r.0 == best);
        exact_shares(cores, shares, top, v);
        exact_mean(shares, r.1, v);
        let (u, n, s) = (v(r.1), (cores.len() as int) as real, real_sum(shares.map_values(v)));
        assert(u * (n * x) == s * x) by (nonlinear_arith)
            requires
                u * n == s,
        ;
        let i = choose|i: int| 0 <= i < freqs.len() && busy[i] && #[trigger] freqs[i] == best;
        assert(v(cores[i].usage) > 0real && cores[i].freq_mhz == r.0);
    }
}

/// A cluster is at the highest frequency of its cores that did any work, and at
/// 0 if none did. Its usage is the part of what all its cores could do at that
/// frequency: times their number and the frequency, it is what they did.
pub proof fn cluster_is_at_its_busiest_core<F: Real>(
    cores: &[CoreUsageEntry<F>],
    r: (u32, F),
    v: spec_fn(F) -> real,
)
    requires
        exact(v),
        call_ensures(crate::metrics::calc_cluster_usage_at_peak_freq::<F>, (cores,), r),
    ensures
        forall|i: int|
            0 <= i < cores@.len() && v((#[trigger] cores@[i]).usage) > 0real ==> cores@[i].freq_mhz
                <= r.0,
        r.0 != 0 ==> exists|i: int|
            0 <= i < cores@.len() && v((#[trigger] cores@[i]).usage) > 0real && cores@[i].freq_mhz
                == r.0,
        r.0 == 0 ==> v(r.1) == 0real,
        r.0 != 0 ==> v(r.1) * ((cores@.len() as int) as real * (r.0 as int) as real) == core_work(
            cores@,
            v,
        ),
{
    assert(cores.len() == cores@.len());
    exact_cluster(cores@, r, v);
}

/// A temperature is plausible above 0 and up to 150 degrees.
pub proof fn plausible_is_above_0_up_to_150<F: Real>(x: &F, r: bool, v: spec_fn(F) -> real)
    requires
        exact(v),
        call_ensures(crate::metrics::is_valid_temp::<F>, (x,), r),
    ensures
        r == (0real < v(*x) <= 150real),
{
}

} // verus!
