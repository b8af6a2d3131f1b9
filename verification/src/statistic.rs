//! What an interval needs of a statistic and of an interpolation: each is a
//! state that samples are folded into.

use vstd::prelude::*;

verus! {

/// A statistic over the samples of one sampling interval.
///
/// What a statistic does to its state is its own business. For each method
/// the trait names what it leaves behind, as a function of the state and the
/// arguments, so that a caller can say what a sequence of calls amounts to.
/// An implementation says what these functions are; by itself the trait says
/// nothing of them.
pub trait Statistic: Sized {
    /// The type of the samples.
    type Sample;

    /// The type of the aggregation of an interval's samples.
    type Aggregation;

    /// What can go wrong when a sample is folded in.
    type Error;

    /// The state after `n` copies of `sample` were folded in, and whether
    /// that went well.
    open spec fn fill_spec(&self, sample: Self::Sample, n: usize) -> (Self, Result<(), Self::Error>) {
        arbitrary()
    }

    /// The state after `sample` was folded in, and whether that went well.
    open spec fn fold_spec(&self, sample: Self::Sample) -> (Self, Result<(), Self::Error>) {
        arbitrary()
    }

    /// The state after the aggregation was taken, and the aggregation, if
    /// the interval has one.
    open spec fn aggregation_spec(&self) -> (Self, Option<Self::Aggregation>) {
        arbitrary()
    }

    /// Folds `n` copies of an interpolated sample into the statistic.
    fn fill(&mut self, sample: Self::Sample, n: usize) -> (r: Result<(), Self::Error>)
        ensures
            (*final(self), r) == old(self).fill_spec(sample, n),
    ;

    /// Folds an observed sample into the statistic.
    fn fold(&mut self, sample: Self::Sample) -> (r: Result<(), Self::Error>)
        ensures
            (*final(self), r) == old(self).fold_spec(sample),
    ;

    /// Takes the aggregation of the interval and starts the next one.
    fn aggregation(&mut self) -> (r: Option<Self::Aggregation>)
        ensures
            (*final(self), r) == old(self).aggregation_spec(),
    ;
}

/// The state from which samples are interpolated for the sampling periods in
/// which none was observed.
pub trait InterpolationState<A>: Sized {
    /// The type of the interpolated samples.
    type FillSample;

    /// The sample that stands in for a missing one.
    open spec fn sample_spec(&self) -> Self::FillSample {
        arbitrary()
    }

    /// The state after an observed sample was folded in.
    open spec fn fold_sample_spec(&self, sample: Self::FillSample) -> Self {
        arbitrary()
    }

    /// The state after the aggregation of an interval was folded in.
    open spec fn fold_aggregation_spec(&self, aggregation: A) -> Self {
        arbitrary()
    }

    /// Returns the sample that stands in for a missing one.
    fn sample(&self) -> (sample: Self::FillSample)
        ensures
            sample == self.sample_spec(),
    ;

    /// Folds an observed sample into the state.
    fn fold_sample(&mut self, sample: Self::FillSample)
        ensures
            *final(self) == old(self).fold_sample_spec(sample),
    ;

    /// Folds the aggregation of an interval into the state.
    fn fold_aggregation(&mut self, aggregation: A)
        ensures
            *final(self) == old(self).fold_aggregation_spec(aggregation),
    ;
}

} // verus!
