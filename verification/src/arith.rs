//! Arithmetic on real-number readings.
//!
//! The readings are of a floating-point type that is a parameter. Nothing is
//! assumed of its operations, which may round: what is stated of a computation
//! is which operations it makes, on what, and in which order.
use vstd::prelude::*;

verus! {

/// A floating-point type that readings are computed in.
pub trait Real: Copy + Default + PartialEq + PartialOrd + From<u8> {
    /// The sum.
    fn plus(self, other: Self) -> Self;

    /// The product.
    fn times(self, other: Self) -> Self;

    /// The quotient.
    fn over(self, other: Self) -> Self;

    /// The number nearest to an integer.
    fn of_u32(n: u32) -> Self;

    /// The number nearest to a count.
    fn of_usize(n: usize) -> Self;

    /// The integer part, or the nearest integer that there is.
    fn to_u32(self) -> u32;
}

/// A type that sums of many readings are computed in, to be given in `F`.
pub trait WideReal<F>: Real {
    /// The number nearest to an integer.
    fn of_i64(n: i64) -> Self;

    /// The number nearest to this one in the narrower type.
    fn narrow(self) -> F;
}

/// Whether `q` is a quotient of `a` by `b`, the quotient by zero being zero.
pub open spec fn quotient_is<F: Real>(a: F, b: F, q: F) -> bool {
    exists|zero: F, same: bool|
        {
            &&& #[trigger] call_ensures(F::default, (), zero)
            &&& #[trigger] call_ensures(F::eq, (&b, &zero), same)
            &&& if same {
                q == zero
            } else {
                call_ensures(F::over, (a, b), q)
            }
        }
}

/// Divides, taking the quotient by zero to be zero.
pub fn quotient<F: Real>(a: F, b: F) -> (q: F)
    ensures
        quotient_is(a, b, q),
{
    let zero: F = F::default();
    if b == zero {
        zero
    } else {
        a.over(b)
    }
}

/// Whether `sum` is what adding `values` to zero one by one gives.
pub open spec fn sum_is<F: Real>(values: Seq<F>, sum: F) -> bool
    decreases values.len(),
{
    if values.len() == 0 {
        call_ensures(F::default, (), sum)
    } else {
        exists|part: F|
            sum_is(values.drop_last(), part) && #[trigger] call_ensures(
                F::plus,
                (part, values.last()),
                sum,
            )
    }
}

/// Adds values up.
pub fn total<F: Real>(values: &[F]) -> (sum: F)
    ensures
        sum_is(values@, sum),
{
    let mut sum: F = F::default();
    let mut i: usize = 0;
    while i < values.len()
        invariant
            i <= values@.len(),
            sum_is(values@.take(i as int), sum),
        decreases values@.len() - i,
    {
        let ghost part = sum;
        sum = sum.plus(values[i]);
        assert(sum_is(values@.take(i + 1), sum)) by {
            assert(values@.take(i + 1).drop_last() =~= values@.take(i as int));
            assert(values@.take(i + 1).last() == values@[i as int]);
            assert(call_ensures(F::plus, (part, values@[i as int]), sum));
        }
        i += 1;
    }
    assert(values@.take(i as int) =~= values@);
    sum
}

/// Whether `avg` is the mean of `values`; that of none is zero.
pub open spec fn mean_is<F: Real>(values: Seq<F>, avg: F) -> bool {
    exists|sum: F, count: F|
        {
            &&& #[trigger] sum_is(values, sum)
            &&& #[trigger] call_ensures(F::of_usize, (values.len() as usize,), count)
            &&& quotient_is(sum, count, avg)
        }
}

/// Averages values.
pub fn mean<F: Real>(values: &[F]) -> (avg: F)
    ensures
        mean_is(values@, avg),
{
    let sum = total(values);
    let count = F::of_usize(values.len());
    assert(call_ensures(F::of_usize, (values@.len() as usize,), count));
    quotient(sum, count)
}

} // verus!
