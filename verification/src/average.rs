//! The mean of a run of values.

use vstd::prelude::*;

verus! {

/// Anything that can be added up and scaled down by a count. What the
/// operations compute is for the type to say; the average only fixes in which
/// order they are applied.
pub trait Scalable: Sized {
    /// The sum of no values.
    fn zero() -> Self;

    /// The sum of `self` and `other`.
    fn plus(&self, other: &Self) -> Self;

    /// `self` divided by `count`.
    fn scale(&self, count: usize) -> Self;
}

/// Whether `total` can be what comes of adding up `values` from the first to
/// the last, starting from zero.
pub open spec fn sums_to<T: Scalable>(values: Seq<T>, total: T) -> bool
    decreases values.len(),
{
    if values.len() == 0 {
        call_ensures(T::zero, (), total)
    } else {
        exists|before: T|
            sums_to(values.drop_last(), before) && #[trigger] call_ensures(
                T::plus,
                (&before, &values.last()),
                total,
            )
    }
}

/// Whether `mean` can be the average of `values`: their sum, scaled down by
/// their number.
pub open spec fn averages_to<T: Scalable>(values: Seq<T>, mean: T) -> bool {
    exists|total: T| #[trigger]
        sums_to(values, total) && call_ensures(T::scale, (&total, values.len() as usize), mean)
}

/// Consumes values and yields their average.
pub struct Average<T> {
    v: Vec<T>,
}

impl<T> View for Average<T> {
    type V = Seq<T>;

    /// The values pushed so far, the first one first.
    closed spec fn view(&self) -> Seq<T> {
        self.v@
    }
}

impl<T> Average<T> {
    /// Get a new Average with no values.
    pub fn new() -> (average: Self)
        ensures
            average@ == Seq::<T>::empty(),
    {
        Average { v: Vec::new() }
    }
}

impl<T: Scalable> Average<T> {
    /// Take a value and add it to the average
    pub fn push(&mut self, t: T)
        ensures
            final(self)@ == old(self)@.push(t),
    {
        self.v.push(t)
    }

    /// Get the average of all previously-pushed values.
    pub fn average(self) -> (avg: T)
        ensures
            averages_to(self@, avg),
    {
        let n = self.v.len();
        let mut total = T::zero();
        let mut i: usize = 0;
        while i < n
            invariant
                i <= n,
                n == self.v.len(),
                sums_to(self.v@.take(i as int), total),
            decreases n - i,
        {
            let sum = total.plus(&self.v[i]);
            proof {
                let next = self.v@.take(i + 1);
                assert(next.drop_last() =~= self.v@.take(i as int));
                assert(next.last() == self.v@[i as int]);
                assert(sums_to(next.drop_last(), total) && call_ensures(
                    T::plus,
                    (&total, &next.last()),
                    sum,
                ));
                assert(sums_to(next, sum));
            }
            total = sum;
            i += 1;
        }
        assert(self.v@.take(n as int) =~= self.v@);
        let avg = total.scale(n);
        assert(sums_to(self@, total) && call_ensures(T::scale, (&total, self@.len() as usize), avg));
        avg
    }
}

} // verus!
