//! Sampling rate and aggregation intervals.

use crate::clock::{Duration, Quanta, Tick, QUANTA_PER_HOUR, QUANTA_PER_MINUTE, QUANTA_PER_SECOND};
use crate::statistic::{InterpolationState, Statistic};
use core::marker::PhantomData;
use vstd::prelude::*;

verus! {

/// An interval that has elapsed during a [`Tick`].
#[derive(Clone, Copy, Debug, Eq, Hash, PartialEq)]
pub struct ElapsedInterval {
    /// The number of fill (interpolated) samples required prior to computing the aggregation of
    /// the interval.
    pub fill_sample_count: usize,
}

/// What filling a statistic for an elapsed interval and taking its
/// aggregation amounts to: the statistic and the interpolation that are left,
/// and the result. A fill that fails stops there, with its error. After the
/// fill the aggregation is taken, and where there is one it is folded into
/// the interpolation.
pub open spec fn elapsed_outcome<F, P>(fill_sample_count: usize, statistic: F, interpolation: P) -> (
    F,
    P,
    Result<Option<F::Aggregation>, F::Error>,
) where F: Statistic, P: InterpolationState<F::Aggregation, FillSample = F::Sample> {
    let (filled, fill_result) = statistic.fill_spec(interpolation.sample_spec(), fill_sample_count);
    match fill_result {
        Err(error) => (filled, interpolation, Err(error)),
        Ok(_) => {
            let (aggregated, aggregation) = filled.aggregation_spec();
            match aggregation {
                Some(value) => (
                    aggregated,
                    interpolation.fold_aggregation_spec(value),
                    Ok(aggregation),
                ),
                None => (aggregated, interpolation, Ok(aggregation)),
            }
        },
    }
}

impl ElapsedInterval {
    /// Fills the given [`Statistic`] with interpolated samples using the given
    /// interpolation and then computes the aggregation for the interval.
    pub fn interpolate_and_get_aggregation<F, P>(
        self,
        statistic: &mut F,
        interpolation: &mut P,
    ) -> (r: Result<Option<F::Aggregation>, F::Error>) where
        F: Statistic,
        F::Aggregation: Copy,
        P: InterpolationState<F::Aggregation, FillSample = F::Sample>,

        ensures
            (*final(statistic), *final(interpolation), r) == elapsed_outcome(
                self.fill_sample_count,
                *old(statistic),
                *old(interpolation),
            ),
    {
        let ElapsedInterval { fill_sample_count } = self;
        let fill = interpolation.sample();

        match statistic.fill(fill, fill_sample_count) {
            Err(error) => Err(error),
            Ok(_) => {
                let aggregation = statistic.aggregation();
                if let Some(value) = aggregation {
                    interpolation.fold_aggregation(value);
                }
                Ok(aggregation)
            },
        }
    }
}

/// An interval that has been reached but **not** elapsed by a [`Tick`].
#[derive(Clone, Copy, Debug, Eq, Hash, PartialEq)]
pub struct PendingInterval<T> {
    /// The number of fill (interpolated) samples required prior to folding the observed sample.
    pub fill_sample_count: usize,
    /// The sample observed during the tick.
    pub sample: T,
}

/// What filling a statistic for a pending interval and folding the observed
/// sample amounts to: the statistic and the interpolation that are left, and
/// the result. A fill or a fold that fails stops there, with its error. A
/// sample that the statistic took is folded into the interpolation too.
pub open spec fn pending_outcome<F, P>(
    fill_sample_count: usize,
    sample: F::Sample,
    statistic: F,
    interpolation: P,
) -> (F, P, Result<(), F::Error>) where
    F: Statistic,
    P: InterpolationState<F::Aggregation, FillSample = F::Sample>,
 {
    let (filled, fill_result) = statistic.fill_spec(interpolation.sample_spec(), fill_sample_count);
    match fill_result {
        Err(error) => (filled, interpolation, Err(error)),
        Ok(_) => {
            let (folded, fold_result) = filled.fold_spec(sample);
            match fold_result {
                Err(error) => (folded, interpolation, Err(error)),
                Ok(_) => (folded, interpolation.fold_sample_spec(sample), Ok(())),
            }
        },
    }
}

impl<T> PendingInterval<T> {
    /// Folds the observed sample into the given [`Statistic`] using the given
    /// interpolation.
    pub fn fold<F, P>(self, statistic: &mut F, interpolation: &mut P) -> (r: Result<(), F::Error>)
        where
            T: Copy,
            F: Statistic<Sample = T>,
            P: InterpolationState<F::Aggregation, FillSample = T>,

        ensures
            (*final(statistic), *final(interpolation), r) == pending_outcome(
                self.fill_sample_count,
                self.sample,
                *old(statistic),
                *old(interpolation),
            ),
    {
        let PendingInterval { fill_sample_count, sample } = self;
        let fill = interpolation.sample();

        match statistic.fill(fill, fill_sample_count) {
            Err(error) => Err(error),
            Ok(_) => match statistic.fold(sample) {
                Err(error) => Err(error),
                Ok(_) => {
                    interpolation.fold_sample(sample);
                    Ok(())
                },
            },
        }
    }
}

// A pending interval has no observed sample (`PhantomData<T>` instead of `T`) when an
// interpolation (rather than a fold) is requested.
impl<T> PendingInterval<PhantomData<T>> {
    /// Fills the given [`Statistic`] with interpolated samples using the given
    /// interpolation.
    pub fn interpolate<F, P>(self, statistic: &mut F, interpolation: &mut P) -> (r: Result<
        (),
        F::Error,
    >) where F: Statistic<Sample = T>, P: InterpolationState<F::Aggregation, FillSample = T>
        ensures
            (*final(statistic), r) == old(statistic).fill_spec(
                old(interpolation).sample_spec(),
                self.fill_sample_count,
            ),
            *final(interpolation) == *old(interpolation),
    {
        let PendingInterval { fill_sample_count, .. } = self;
        let fill = interpolation.sample();

        statistic.fill(fill, fill_sample_count)
    }
}

/// The expiration of [`SamplingInterval`]s intersected by a [`Tick`].
#[derive(Clone, Copy, Debug, Eq, Hash, PartialEq)]
pub enum IntervalExpiration<T> {
    /// The interval has elapsed.
    Elapsed(ElapsedInterval),
    /// The interval is reached and not elapsed.
    Pending(PendingInterval<T>),
}

impl<T> IntervalExpiration<T> {
    /// Fills the statistic for the interval. For an elapsed interval the
    /// aggregation is taken and returned; for the pending one the observed
    /// sample is folded in and there is no aggregation yet.
    pub fn fold_and_get_aggregation<F, P>(self, statistic: &mut F, interpolation: &mut P) -> (r:
        Result<Option<F::Aggregation>, F::Error>) where
        T: Copy,
        F: Statistic<Sample = T>,
        F::Aggregation: Copy,
        P: InterpolationState<F::Aggregation, FillSample = T>,

        ensures
            self matches IntervalExpiration::Elapsed(elapsed) ==> (
                *final(statistic),
                *final(interpolation),
                r,
            ) == elapsed_outcome(elapsed.fill_sample_count, *old(statistic), *old(interpolation)),
            self matches IntervalExpiration::Pending(pending) ==> {
                let (folded, interpolated, result) = pending_outcome(
                    pending.fill_sample_count,
                    pending.sample,
                    *old(statistic),
                    *old(interpolation),
                );
                &&& *final(statistic) == folded
                &&& *final(interpolation) == interpolated
                &&& r == match result {
                    Ok(_) => Ok(None::<F::Aggregation>),
                    Err(error) => Err(error),
                }
            },
    {
        match self {
            IntervalExpiration::Elapsed(elapsed) => {
                elapsed.interpolate_and_get_aggregation(statistic, interpolation)
            },
            IntervalExpiration::Pending(pending) => {
                match pending.fold(statistic, interpolation) {
                    Ok(_) => Ok(None),
                    Err(error) => Err(error),
                }
            },
        }
    }
}

impl<T> IntervalExpiration<PhantomData<T>> {
    /// Fills the statistic for the interval. For an elapsed interval the
    /// aggregation is taken and returned; for the pending one there is no
    /// aggregation yet.
    pub fn interpolate_and_get_aggregation<F, P>(
        self,
        statistic: &mut F,
        interpolation: &mut P,
    ) -> (r: Result<Option<F::Aggregation>, F::Error>) where
        F: Statistic<Sample = T>,
        F::Aggregation: Copy,
        P: InterpolationState<F::Aggregation, FillSample = T>,

        ensures
            self matches IntervalExpiration::Elapsed(elapsed) ==> (
                *final(statistic),
                *final(interpolation),
                r,
            ) == elapsed_outcome(elapsed.fill_sample_count, *old(statistic), *old(interpolation)),
            self matches IntervalExpiration::Pending(pending) ==> {
                let (filled, result) = old(statistic).fill_spec(
                    old(interpolation).sample_spec(),
                    pending.fill_sample_count,
                );
                &&& *final(statistic) == filled
                &&& *final(interpolation) == *old(interpolation)
                &&& r == match result {
                    Ok(_) => Ok(None::<F::Aggregation>),
                    Err(error) => Err(error),
                }
            },
    {
        match self {
            IntervalExpiration::Elapsed(elapsed) => {
                elapsed.interpolate_and_get_aggregation(statistic, interpolation)
            },
            IntervalExpiration::Pending(pending) => {
                match pending.interpolate(statistic, interpolation) {
                    Ok(_) => Ok(None),
                    Err(error) => Err(error),
                }
            },
        }
    }
}

/// The quotient of `x` by `y`, rounded toward positive infinity.
pub open spec fn ceil_quotient(x: int, y: int) -> int {
    if y > 0 {
        (x + y - 1) / y
    } else {
        (-x - y - 1) / (-y)
    }
}

/// `num::Integer::div_ceil` on `i64`: the quotient rounded toward positive
/// infinity, whatever the signs. The divisor is not zero and the quotient
/// fits, as the division underneath asks.
#[verifier::external_body]
fn div_ceil(x: i64, y: i64) -> (q: i64)
    requires
        y != 0,
        !(x == i64::MIN && y == -1),
    ensures
        q == ceil_quotient(x as int, y as int),
{
    num::Integer::div_ceil(&x, &y)
}

/// A count of samples or intervals as a tick's arithmetic gives it: a count
/// that is negative, or that the machine cannot hold, is no count and stands
/// for none.
pub open spec fn count_of(n: int) -> usize {
    if 0 <= n <= usize::MAX {
        n as usize
    } else {
        0
    }
}

/// What a sampling interval is made of, as plain values.
pub struct SamplingIntervalView {
    /// How many intervals are kept.
    pub capacity: u32,
    /// How many sampling periods make up one interval.
    pub sampling_period_count: u32,
    /// The longest time in which a sample must be observed, in quanta.
    pub max_sampling_period: Quanta,
}

impl SamplingIntervalView {
    /// Each of the three quantities is at least one.
    pub open spec fn wf(self) -> bool {
        &&& self.capacity >= 1
        &&& self.sampling_period_count >= 1
        &&& self.max_sampling_period >= 1
    }

    /// The duration of one interval, in quanta.
    pub open spec fn interval(self) -> int {
        self.max_sampling_period * self.sampling_period_count
    }

    /// Whether the interval that was pending when a tick started at `start`
    /// has elapsed when it ends at `end`.
    pub open spec fn resumed_has_elapsed(self, start: int, end: int) -> bool {
        end / self.interval() > start / self.interval()
    }

    /// The fill samples of the interval that was pending when a tick started
    /// at `start` and has elapsed since: one for each sampling period that was
    /// left of the interval, but for the period of the start where that has
    /// its sample.
    pub open spec fn resumed_fill_sample_count(self, start: int, start_has_sample: bool) -> usize {
        let remaining = self.interval() - start % self.interval();
        count_of(
            ceil_quotient(remaining, self.max_sampling_period as int) - if start_has_sample {
                1int
            } else {
                0int
            },
        )
    }

    /// How many intervals a tick from `start` to `end` passes over whole.
    pub open spec fn skipped_interval_count(self, start: int, end: int) -> usize {
        count_of(end / self.interval() - ceil_quotient(start, self.interval()))
    }

    /// The fill samples of the interval in which a tick from `start` to `end`
    /// ends. In an interval that the tick entered, one for each sampling
    /// period before that of the end. In the interval in which the tick
    /// started, one for each sampling period that the tick entered, but for
    /// the period of the start where that has its sample.
    pub open spec fn pending_fill_sample_count(self, start: int, end: int, start_has_sample: bool)
        -> usize {
        if self.resumed_has_elapsed(start, end) {
            count_of((end % self.interval()) / (self.max_sampling_period as int))
        } else {
            count_of(
                end / (self.max_sampling_period as int) - start / (self.max_sampling_period as int)
                    - if start_has_sample {
                    1int
                } else {
                    0int
                },
            )
        }
    }

    /// The expirations of the intervals that a tick from `start` to `end`
    /// intersects, in order: the interval that was pending and has elapsed,
    /// if there is one; the intervals that were passed over whole, each
    /// filled with a sample for every sampling period; and the interval in
    /// which the tick ends, which takes the observed sample.
    pub open spec fn expirations<T>(self, start: int, end: int, start_has_sample: bool, sample: T)
        -> Seq<IntervalExpiration<T>> {
        let resumed = if self.resumed_has_elapsed(start, end) {
            seq![
                IntervalExpiration::Elapsed(
                    ElapsedInterval {
                        fill_sample_count: self.resumed_fill_sample_count(start, start_has_sample),
                    },
                ),
            ]
        } else {
            Seq::empty()
        };
        let skipped = Seq::new(
            self.skipped_interval_count(start, end) as nat,
            |i: int|
                IntervalExpiration::Elapsed(
                    ElapsedInterval { fill_sample_count: self.sampling_period_count as usize },
                ),
        );
        let pending = seq![
            IntervalExpiration::Pending(
                PendingInterval {
                    fill_sample_count: self.pending_fill_sample_count(
                        start,
                        end,
                        start_has_sample,
                    ),
                    sample,
                },
            ),
        ];
        resumed + skipped + pending
    }
}

/// For a positive divisor, the quotient and the remainder of a number that
/// lies between two multiples of the divisor.
proof fn lemma_quotient_bounds(x: int, d: int, lo: int, hi: int)
    requires
        d > 0,
        lo * d <= x < hi * d,
    ensures
        lo <= x / d < hi,
        0 <= x % d < d,
        x == d * (x / d) + x % d,
{
    vstd::arithmetic::div_mod::lemma_fundamental_div_mod(x, d);
    vstd::arithmetic::div_mod::lemma_mod_bound(x, d);
    let q = x / d;
    assert(lo <= q) by (nonlinear_arith)
        requires
            d > 0,
            lo * d <= x,
            x == d * q + x % d,
            0 <= x % d < d,
    ;
    assert(q < hi) by (nonlinear_arith)
        requires
            d > 0,
            x < hi * d,
            x == d * q + x % d,
            0 <= x % d < d,
    ;
}

/// No interval is filled with more samples than it has sampling periods: the
/// interval that has elapsed with at most one for each, and the pending one,
/// which takes the observed sample besides, with fewer. A tick that ends in
/// the interval in which it starts brings about the pending expiration alone.
pub proof fn lemma_fill_sample_counts<T>(
    interval: SamplingIntervalView,
    start: int,
    end: int,
    start_has_sample: bool,
    sample: T,
)
    requires
        interval.wf(),
        0 <= start <= end,
    ensures
        interval.resumed_fill_sample_count(start, start_has_sample)
            <= interval.sampling_period_count,
        interval.pending_fill_sample_count(start, end, start_has_sample)
            < interval.sampling_period_count,
        !interval.resumed_has_elapsed(start, end) ==> interval.expirations(
            start,
            end,
            start_has_sample,
            sample,
        ) == seq![
            IntervalExpiration::Pending(
                PendingInterval {
                    fill_sample_count: interval.pending_fill_sample_count(
                        start,
                        end,
                        start_has_sample,
                    ),
                    sample,
                },
            ),
        ],
{
    let period = interval.max_sampling_period as int;
    let count = interval.sampling_period_count as int;
    let whole = interval.interval();
    assert(whole == period * count);
    assert(whole >= period && whole >= 1) by (nonlinear_arith)
        requires
            whole == period * count,
            period >= 1,
            count >= 1,
    ;
    // The interval in which the tick starts, and the one in which it ends.
    let first = start / whole;
    let last = end / whole;
    vstd::arithmetic::div_mod::lemma_fundamental_div_mod(start, whole);
    vstd::arithmetic::div_mod::lemma_mod_bound(start, whole);
    vstd::arithmetic::div_mod::lemma_fundamental_div_mod(end, whole);
    vstd::arithmetic::div_mod::lemma_mod_bound(end, whole);
    vstd::arithmetic::div_mod::lemma_div_is_ordered(start, end, whole);
    assert(first <= last);

    // The resumed interval: what is left of it is at most the whole of it.
    let remaining = whole - start % whole;
    assert(1 <= remaining <= whole);
    assert(0 * period <= remaining + period - 1 < (count + 1) * period) by (nonlinear_arith)
        requires
            1 <= remaining <= whole,
            whole == period * count,
            period >= 1,
    ;
    lemma_quotient_bounds(remaining + period - 1, period, 0, count + 1);
    assert(ceil_quotient(remaining, period) <= count);

    // The pending interval, where the tick entered it.
    assert(0 * period <= end % whole < count * period) by (nonlinear_arith)
        requires
            0 <= end % whole < whole,
            whole == period * count,
    ;
    lemma_quotient_bounds(end % whole, period, 0, count);

    if !interval.resumed_has_elapsed(start, end) {
        assert(first == last);
        // Both ends of the tick lie in one interval.
        assert((first * count) * period <= start) by (nonlinear_arith)
            requires
                start == whole * first + start % whole,
                0 <= start % whole,
                whole == period * count,
        ;
        assert(start < ((first + 1) * count) * period) by (nonlinear_arith)
            requires
                start == whole * first + start % whole,
                start % whole < whole,
                whole == period * count,
        ;
        assert((first * count) * period <= end < ((first + 1) * count) * period)
            by (nonlinear_arith)
            requires
                end == whole * first + end % whole,
                0 <= end % whole < whole,
                whole == period * count,
        ;
        lemma_quotient_bounds(start, period, first * count, (first + 1) * count);
        lemma_quotient_bounds(end, period, first * count, (first + 1) * count);
        assert((first + 1) * count == first * count + count) by (nonlinear_arith);
        assert(end / period - start / period < count);

        // No interval lies between the two ends.
        assert(first * whole <= start + whole - 1) by (nonlinear_arith)
            requires
                start == whole * first + start % whole,
                0 <= start % whole,
                whole >= 1,
        ;
        assert(start + whole - 1 < (first + 2) * whole) by (nonlinear_arith)
            requires
                start == whole * first + start % whole,
                start % whole < whole,
                whole >= 1,
        ;
        lemma_quotient_bounds(start + whole - 1, whole, first, first + 2);
        assert(ceil_quotient(start, whole) >= first);
        assert(interval.skipped_interval_count(start, end) == 0);
        assert(interval.expirations(start, end, start_has_sample, sample) =~= seq![
            IntervalExpiration::Pending(
                PendingInterval {
                    fill_sample_count: interval.pending_fill_sample_count(
                        start,
                        end,
                        start_has_sample,
                    ),
                    sample,
                },
            ),
        ]);
    }
}

/// The expirations that a tick brings about, handed out one after the other.
#[derive(Clone, Copy, Debug)]
pub struct Expirations<T> {
    resumed: Option<ElapsedInterval>,
    skipped: usize,
    skipped_fill_sample_count: usize,
    pending: Option<PendingInterval<T>>,
}

impl<T> View for Expirations<T> {
    type V = Seq<IntervalExpiration<T>>;

    /// The expirations that are still to come, in order.
    closed spec fn view(&self) -> Seq<IntervalExpiration<T>> {
        let resumed = match self.resumed {
            Some(elapsed) => seq![IntervalExpiration::Elapsed(elapsed)],
            None => Seq::empty(),
        };
        let skipped = Seq::new(
            self.skipped as nat,
            |i: int|
                IntervalExpiration::Elapsed(
                    ElapsedInterval { fill_sample_count: self.skipped_fill_sample_count },
                ),
        );
        let pending = match self.pending {
            Some(pending) => seq![IntervalExpiration::Pending(pending)],
            None => Seq::empty(),
        };
        resumed + skipped + pending
    }
}

impl<T: Copy> Expirations<T> {
    /// Hands out the next expiration, if any is left.
    pub fn next(&mut self) -> (r: Option<IntervalExpiration<T>>)
        ensures
            old(self)@.len() == 0 ==> r is None && final(self)@ == old(self)@,
            old(self)@.len() > 0 ==> r == Some(old(self)@[0]) && final(self)@ == old(self)@.skip(1),
    {
        if let Some(elapsed) = self.resumed {
            self.resumed = None;
            assert(self@ =~= old(self)@.skip(1));
            Some(IntervalExpiration::Elapsed(elapsed))
        } else if self.skipped > 0 {
            self.skipped = self.skipped - 1;
            assert(self@ =~= old(self)@.skip(1));
            Some(
                IntervalExpiration::Elapsed(
                    ElapsedInterval { fill_sample_count: self.skipped_fill_sample_count },
                ),
            )
        } else if let Some(pending) = self.pending {
            self.pending = None;
            assert(self@ =~= old(self)@.skip(1));
            Some(IntervalExpiration::Pending(pending))
        } else {
            assert(self@ =~= Seq::empty());
            None
        }
    }
}

/// A time interval in which samples are folded into an aggregation.
///
/// Sampling intervals determine the timing of aggregations and interpolation in time series and
/// are defined by the following quantities:
///
///   1. **Maximum sampling period.** This is the basic unit of time that defines the sampling
///      interval and represents the maximum duration in which a sample must be observed. For any
///      such duration in which no sample is observed, an interpolated sample is used instead. This
///      can also be thought of as its inverse: the minimum sampling frequency.
///   2. **Sampling period count.** This is the number of sampling periods that form the sampling
///      interval. This determines the minimum number of samples (interpolated or otherwise) folded
///      into the aggregation for the sampling interval.
///   3. **Capacity.** This affects the number of sampling intervals (and therefore aggregations)
///      that are stored to represent an aggregated series. The number of sampling intervals that
///      are stored are dependent on the buffer implementation and the compression ratio. This
///      quantity is somewhat extrinsic to the time interval itself.
///
/// These quantities are concatenated into a shorthand to describe sampling intervals, formatted
/// as `capacity x sampling_period_count x maximum_sampling_period`. For example, a 10x2x5s
/// sampling interval persists 10 intervals formed from two maximum sampling period of 5s. In such
/// an interval, there is at least one sample every 5s, an aggregation every 10s, and at most 10
/// aggregations that represent a 100s period.
#[derive(Clone, Copy, Debug, Eq, Hash, PartialEq)]
pub struct SamplingInterval {
    capacity: u32,
    sampling_period_count: u32,
    max_sampling_period: Quanta,
}

impl View for SamplingInterval {
    type V = SamplingIntervalView;

    /// The three quantities of the interval.
    closed spec fn view(&self) -> SamplingIntervalView {
        SamplingIntervalView {
            capacity: self.capacity,
            sampling_period_count: self.sampling_period_count,
            max_sampling_period: self.max_sampling_period,
        }
    }
}

impl SamplingInterval {
    /// What holds of every sampling interval that the program holds.
    #[verifier::type_invariant]
    closed spec fn positive(self) -> bool {
        self@.wf()
    }

    /// An interval of `sampling_period_count` sampling periods of
    /// `max_sampling_period` each, of which `capacity` are kept. A quantity
    /// below one counts as one, and a negative period as its length.
    pub fn new(capacity: u32, sampling_period_count: u32, max_sampling_period: Duration) -> (r:
        Self)
        requires
            max_sampling_period@ > i64::MIN,
        ensures
            r@.capacity == if capacity < 1 { 1 } else { capacity },
            r@.sampling_period_count == if sampling_period_count < 1 { 1 } else {
                sampling_period_count
            },
            r@.max_sampling_period == if -1 <= max_sampling_period@ <= 1 {
                1
            } else if max_sampling_period@ < 0 {
                -max_sampling_period@
            } else {
                max_sampling_period@
            },
            r@.wf(),
    {
        let quanta: Quanta = max_sampling_period.into_quanta();
        let length: Quanta = if quanta < 0 {
            -quanta
        } else {
            quanta
        };
        SamplingInterval {
            capacity: if capacity < 1 {
                1
            } else {
                capacity
            },
            sampling_period_count: if sampling_period_count < 1 {
                1
            } else {
                sampling_period_count
            },
            max_sampling_period: if length < 1 {
                1
            } else {
                length
            },
        }
    }

    /// How many intervals are kept.
    pub fn capacity(&self) -> (capacity: u32)
        ensures
            capacity == self@.capacity,
            self@.wf(),
    {
        proof {
            use_type_invariant(self);
        }
        self.capacity
    }

    /// How many sampling periods make up the interval.
    pub fn sampling_period_count(&self) -> (count: u32)
        ensures
            count == self@.sampling_period_count,
            self@.wf(),
    {
        proof {
            use_type_invariant(self);
        }
        self.sampling_period_count
    }

    /// Gets the duration of the interval (also known as the aggregation
    /// period), which fits in the quanta of a duration.
    pub fn duration(&self) -> (d: Duration)
        requires
            self@.interval() <= i64::MAX,
        ensures
            d@ == self@.interval(),
    {
        proof {
            use_type_invariant(self);
        }
        self.max_sampling_period().times(self.sampling_period_count)
    }

    /// Gets the maximum sampling period of the interval.
    pub fn max_sampling_period(&self) -> (d: Duration)
        ensures
            d@ == self@.max_sampling_period,
            self@.wf(),
    {
        proof {
            use_type_invariant(self);
        }
        Duration::from_quanta(self.max_sampling_period)
    }

    /// Gets the expirations of intervals intersected by the given [`Tick`].
    ///
    /// The given sample is always folded into exactly one pending interval that terminates the
    /// sequence.
    ///
    /// The tick starts at or after time zero, and the duration of the
    /// interval fits in the quanta of a duration.
    pub fn fold_and_get_expirations<T>(&self, tick: Tick, sample: T) -> (r: Expirations<T>) where
        T: Copy,

        requires
            0 <= tick.start(),
            self@.interval() <= i64::MAX,
        ensures
            r@ == self@.expirations(
                tick.start(),
                tick.end(),
                Tick::period_has_sample(
                    tick.start(),
                    tick.last_sample(),
                    self@.max_sampling_period as int,
                ),
                sample,
            ),
            r@.len() >= 1,
            r@.last() matches IntervalExpiration::Pending(pending) && pending.sample == sample,
            forall|i: int| 0 <= i < r@.len() - 1 ==> #[trigger] r@[i] is Elapsed,
    {
        proof {
            use_type_invariant(self);
        }
        assert(self.max_sampling_period * self.sampling_period_count >= self.max_sampling_period)
            by (nonlinear_arith)
            requires
                self.max_sampling_period >= 1,
                self.sampling_period_count >= 1,
        ;
        let interval: Quanta = self.max_sampling_period * (self.sampling_period_count as i64);
        let (start, end) = tick.quantize();
        let start_has_sample: bool = tick.start_has_sample(self.max_sampling_period);
        let has_sample: i64 = if start_has_sample {
            1
        } else {
            0
        };

        // The intervals intersected by this `Tick` are constructed from three groups:
        //
        //   - Zero or one _resumed_ intervals. Such an interval was previously the _pending_
        //     interval (see below), but has been elapsed by this `Tick`.
        //   - Zero or more _skipped_ intervals. Such intervals were never previously intersected,
        //     but are elapsed by this `Tick`.
        //   - Exactly one _pending_ interval. This is the interval intersected by the end
        //     timestamp of this `Tick`. There is always such an interval and this interval may
        //     have been pending previously.
        //
        // Note that all quantities here are technically periods or durations: start and end
        // timestamps are durations from zero, for example. Divisions yield unitless quantities
        // (counts).
        //
        // About the below calculation: Buckets are always aligned, so we can simply divide
        // timestamps by an `interval` or `max_sampling_period` to find out whether they fall into
        // the same interval or max_sampling_period.
        //
        // For example, if the interval is 60s, timestamps at 1s and 30s marks would both into
        // the [0, 60) interval. OTOH, timestamp at 61s mark would fall into the [60, 120) interval.
        // We see that `1 / 60 == 30 / 60` (integer division), whereas `1 / 60 != 61 / 60`.
        let resumed_interval_has_elapsed: bool = (end / interval) > (start / interval);
        let num_skipped_intervals: i64 = (end / interval) - div_ceil(start, interval);

        let pending_interval_fill_sample_count: i64 = if resumed_interval_has_elapsed {
            // If the pending interval is a new one, simply calculate how many sampling periods
            // it covers.
            (end % interval) / self.max_sampling_period
        } else {
            // If the pending interval is an existing one, check how many sampling periods exist
            // between start and end.
            let num_elapsed_sampling_periods: i64 = (end / self.max_sampling_period) - (start
                / self.max_sampling_period);
            // Adjust the result based on whether the sampling period for the start timestamp
            // already had a sample.
            // This calculation can yield negative number if `start` and `end` are in the same
            // sampling period, but it counts as none.
            num_elapsed_sampling_periods - has_sample
        };
        let resumed: Option<ElapsedInterval> = if resumed_interval_has_elapsed {
            // Calculate how many sampling periods the remaining duration of the resumed
            // interval covers. Adjust the result based on whether the sampling period for
            // the start timestamp already had a sample.
            let resumed_interval_remaining: i64 = interval - (start % interval);
            let resumed_interval_fill_sample_count: i64 = div_ceil(
                resumed_interval_remaining,
                self.max_sampling_period,
            ) - has_sample;
            Some(ElapsedInterval { fill_sample_count: to_count(resumed_interval_fill_sample_count) })
        } else {
            None
        };
        let r = Expirations {
            resumed,
            skipped: to_count(num_skipped_intervals),
            skipped_fill_sample_count: self.sampling_period_count as usize,
            // The pending interval falls on the end timestamp and so includes the associated
            // sample.
            pending: Some(
                PendingInterval {
                    fill_sample_count: to_count(pending_interval_fill_sample_count),
                    sample,
                },
            ),
        };
        assert(r@ =~= self@.expirations(
            tick.start(),
            tick.end(),
            Tick::period_has_sample(
                tick.start(),
                tick.last_sample(),
                self@.max_sampling_period as int,
            ),
            sample,
        ));
        r
    }
}

/// The count that `n` stands for: `n` itself where it is one that the
/// machine can hold, and none otherwise.
fn to_count(n: i64) -> (count: usize)
    ensures
        count == count_of(n as int),
{
    if n < 0 {
        0
    } else if n as u64 > usize::MAX as u64 {
        0
    } else {
        n as usize
    }
}

/// One or more cooperative [`SamplingInterval`]s.
#[derive(Debug)]
pub struct SamplingProfile(Vec<SamplingInterval>);

impl Clone for SamplingProfile {
    /// A profile of the same intervals.
    fn clone(&self) -> (r: Self)
        ensures
            r@ == self@,
    {
        proof {
            use_type_invariant(self);
        }
        let mut intervals: Vec<SamplingInterval> = Vec::new();
        let mut i: usize = 0;
        while i < self.0.len()
            invariant
                i <= self.0@.len(),
                intervals@ == self.0@.take(i as int),
            decreases self.0@.len() - i,
        {
            intervals.push(self.0[i]);
            assert(intervals@ =~= self.0@.take(i + 1));
            i += 1;
        }
        assert(intervals@ =~= self.0@);
        SamplingProfile(intervals)
    }
}

impl View for SamplingProfile {
    type V = Seq<SamplingIntervalView>;

    /// The intervals of the profile, in order.
    closed spec fn view(&self) -> Seq<SamplingIntervalView> {
        self.0@.map_values(|interval: SamplingInterval| interval@)
    }
}

/// A sampling interval of which 120 are kept, of one sampling period of
/// `max_sampling_period` quanta.
pub open spec fn one_period_interval(max_sampling_period: Quanta) -> SamplingIntervalView {
    SamplingIntervalView { capacity: 120, sampling_period_count: 1, max_sampling_period }
}

impl SamplingProfile {
    /// A profile has at least one interval.
    #[verifier::type_invariant]
    closed spec fn not_empty(self) -> bool {
        self.0@.len() >= 1
    }

    /// A profile of the given intervals, of which there is at least one.
    pub fn from_sampling_intervals(intervals: Vec<SamplingInterval>) -> (r: Self)
        requires
            intervals@.len() >= 1,
        ensures
            r@ == intervals@.map_values(|interval: SamplingInterval| interval@),
    {
        SamplingProfile(intervals)
    }

    /// Constructs a granular sampling profile with high fidelity but low durability.
    ///
    /// The minimum granularity is 1s and the maximum durability is 20m.
    pub fn granular() -> (r: Self)
        ensures
            r@ == seq![
                one_period_interval((10 * QUANTA_PER_SECOND) as i64),
                one_period_interval(QUANTA_PER_SECOND),
            ],
    {
        let mut intervals: Vec<SamplingInterval> = Vec::new();
        // 120x1x10s
        intervals.push(SamplingInterval::new(120, 1, Duration::from_seconds(10)));
        // 120x1x1s
        intervals.push(SamplingInterval::new(120, 1, Duration::from_seconds(1)));
        let r = SamplingProfile::from_sampling_intervals(intervals);
        assert(r@ =~= seq![
            one_period_interval((10 * QUANTA_PER_SECOND) as i64),
            one_period_interval(QUANTA_PER_SECOND),
        ]);
        r
    }

    /// Constructs a sampling profile with fidelity and durability that is applicable to most
    /// metrics.
    ///
    /// The minimum granularity is 10s and the maximum durability is 5d.
    pub fn balanced() -> (r: Self)
        ensures
            r@ == seq![
                one_period_interval(QUANTA_PER_HOUR),
                one_period_interval((10 * QUANTA_PER_MINUTE) as i64),
                one_period_interval(QUANTA_PER_MINUTE),
                one_period_interval((10 * QUANTA_PER_SECOND) as i64),
            ],
    {
        let mut intervals: Vec<SamplingInterval> = Vec::new();
        // 120x1x1h
        intervals.push(SamplingInterval::new(120, 1, Duration::from_hours(1)));
        // 120x1x10m
        intervals.push(SamplingInterval::new(120, 1, Duration::from_minutes(10)));
        // 120x1x1m
        intervals.push(SamplingInterval::new(120, 1, Duration::from_minutes(1)));
        // 120x1x10s
        intervals.push(SamplingInterval::new(120, 1, Duration::from_seconds(10)));
        let r = SamplingProfile::from_sampling_intervals(intervals);
        assert(r@ =~= seq![
            one_period_interval(QUANTA_PER_HOUR),
            one_period_interval((10 * QUANTA_PER_MINUTE) as i64),
            one_period_interval(QUANTA_PER_MINUTE),
            one_period_interval((10 * QUANTA_PER_SECOND) as i64),
        ]);
        r
    }

    /// Constructs a durable sampling profile with high historical longevity but low fidelity.
    ///
    /// The minimum granularity is 1h and the maximum durability is 60d.
    pub fn durable() -> (r: Self)
        ensures
            r@ == seq![
                one_period_interval((12 * QUANTA_PER_HOUR) as i64),
                one_period_interval(QUANTA_PER_HOUR),
            ],
    {
        let mut intervals: Vec<SamplingInterval> = Vec::new();
        // 120x1x12h
        intervals.push(SamplingInterval::new(120, 1, Duration::from_hours(12)));
        // 120x1x1h
        intervals.push(SamplingInterval::new(120, 1, Duration::from_hours(1)));
        let r = SamplingProfile::from_sampling_intervals(intervals);
        assert(r@ =~= seq![
            one_period_interval((12 * QUANTA_PER_HOUR) as i64),
            one_period_interval(QUANTA_PER_HOUR),
        ]);
        r
    }

    /// Gets the minimum granularity of the profile: the shortest of the
    /// maximum sampling periods of its intervals.
    pub fn granularity(&self) -> (d: Duration)
        ensures
            self@.len() >= 1,
            forall|i: int| 0 <= i < self@.len() ==> d@ <= (#[trigger] self@[i]).max_sampling_period,
            exists|i: int| 0 <= i < self@.len() && d@ == (#[trigger] self@[i]).max_sampling_period,
    {
        proof {
            use_type_invariant(self);
        }
        let mut shortest: Duration = self.0[0].max_sampling_period();
        let ghost mut at: int = 0;
        let mut i: usize = 1;
        while i < self.0.len()
            invariant
                1 <= i <= self.0@.len(),
                self@.len() == self.0@.len(),
                0 <= at < i,
                shortest@ == self@[at].max_sampling_period,
                forall|k: int| 0 <= k < i ==> shortest@ <= (#[trigger] self@[k]).max_sampling_period,
            decreases self.0@.len() - i,
        {
            let period: Duration = self.0[i].max_sampling_period();
            if period.into_quanta() < shortest.into_quanta() {
                shortest = period;
                proof {
                    at = i as int;
                }
            }
            i += 1;
        }
        shortest
    }

    /// The intervals of the profile.
    pub fn into_sampling_intervals(self) -> (intervals: Vec<SamplingInterval>)
        ensures
            intervals@.len() >= 1,
            intervals@.map_values(|interval: SamplingInterval| interval@) == self@,
    {
        proof {
            use_type_invariant(&self);
        }
        self.0
    }
}

impl Default for SamplingProfile {
    /// The balanced profile.
    fn default() -> (r: Self)
        ensures
            r@ == seq![
                one_period_interval(QUANTA_PER_HOUR),
                one_period_interval((10 * QUANTA_PER_MINUTE) as i64),
                one_period_interval(QUANTA_PER_MINUTE),
                one_period_interval((10 * QUANTA_PER_SECOND) as i64),
            ],
    {
        SamplingProfile::balanced()
    }
}

impl From<SamplingInterval> for SamplingProfile {
    /// The profile of one interval.
    fn from(interval: SamplingInterval) -> (r: Self)
        ensures
            r@ == seq![interval@],
    {
        let mut intervals: Vec<SamplingInterval> = Vec::new();
        intervals.push(interval);
        let r = SamplingProfile(intervals);
        assert(r@ =~= seq![interval@]);
        r
    }
}

/// What the conversion returns is stated by `from` itself, over the view of
/// the profile.
impl vstd::std_specs::convert::FromSpecImpl<SamplingInterval> for SamplingProfile {
    open spec fn obeys_from_spec() -> bool {
        false
    }

    open spec fn from_spec(interval: SamplingInterval) -> Self {
        arbitrary()
    }
}

} // verus!
