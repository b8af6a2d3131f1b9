//! Time as the sampling intervals see it: whole quanta since time zero.

use vstd::prelude::*;

verus! {

/// The smallest unit of time: one nanosecond.
pub type Quanta = i64;

/// The quanta in one second.
pub const QUANTA_PER_SECOND: i64 = 1_000_000_000;

/// The quanta in one minute.
pub const QUANTA_PER_MINUTE: i64 = 60_000_000_000;

/// The quanta in one hour.
pub const QUANTA_PER_HOUR: i64 = 3_600_000_000_000;

/// The quotient of `a` by a positive `b`, rounded toward zero, as the
/// machine's division of signed integers gives it.
pub open spec fn quotient(a: int, b: int) -> int {
    if a >= 0 {
        a / b
    } else {
        -((-a) / b)
    }
}

/// A span of time.
#[derive(Debug, PartialEq, Eq, Clone, Copy, Hash, Structural)]
pub struct Duration {
    quanta: Quanta,
}

impl View for Duration {
    type V = int;

    /// The duration in quanta.
    closed spec fn view(&self) -> int {
        self.quanta as int
    }
}

impl Duration {
    /// A duration of so many quanta.
    pub fn from_quanta(quanta: Quanta) -> (d: Self)
        ensures
            d@ == quanta,
    {
        Duration { quanta }
    }

    /// The duration in quanta.
    pub fn into_quanta(self) -> (quanta: Quanta)
        ensures
            quanta == self@,
    {
        self.quanta
    }

    /// A duration of so many seconds.
    pub fn from_seconds(seconds: u32) -> (d: Self)
        ensures
            d@ == seconds * QUANTA_PER_SECOND,
    {
        Duration { quanta: seconds as i64 * QUANTA_PER_SECOND }
    }

    /// A duration of so many minutes, which fits in the quanta of a
    /// duration.
    pub fn from_minutes(minutes: u32) -> (d: Self)
        requires
            minutes * QUANTA_PER_MINUTE <= i64::MAX,
        ensures
            d@ == minutes * QUANTA_PER_MINUTE,
    {
        Duration { quanta: minutes as i64 * QUANTA_PER_MINUTE }
    }

    /// A duration of so many hours, which fits in the quanta of a duration.
    pub fn from_hours(hours: u32) -> (d: Self)
        requires
            hours * QUANTA_PER_HOUR <= i64::MAX,
        ensures
            d@ == hours * QUANTA_PER_HOUR,
    {
        Duration { quanta: hours as i64 * QUANTA_PER_HOUR }
    }

    /// This duration `count` times over.
    pub fn times(self, count: u32) -> (d: Self)
        requires
            i64::MIN <= self@ * count <= i64::MAX,
        ensures
            d@ == self@ * count,
    {
        Duration { quanta: self.quanta * (count as i64) }
    }
}

/// A point in time.
#[derive(Debug, PartialEq, Eq, Clone, Copy, Hash, Structural)]
pub struct Timestamp {
    quanta: Quanta,
}

impl View for Timestamp {
    type V = int;

    /// The quanta since time zero.
    closed spec fn view(&self) -> int {
        self.quanta as int
    }
}

impl Timestamp {
    /// The point so many nanoseconds after time zero.
    pub fn from_nanos(nanos: i64) -> (t: Self)
        ensures
            t@ == nanos,
    {
        Timestamp { quanta: nanos }
    }

    /// The point in whole quanta after time zero.
    pub fn quantize(self) -> (quanta: Quanta)
        ensures
            quanta == self@,
    {
        self.quanta
    }
}

/// The step from one observation to the next.
#[derive(Debug, PartialEq, Eq, Clone, Copy)]
pub struct Tick {
    start: Timestamp,
    end: Timestamp,
    last_sample_timestamp: Timestamp,
}

impl Tick {
    /// A tick does not end before it starts.
    #[verifier::type_invariant]
    pub closed spec fn wf(self) -> bool {
        self.start@ <= self.end@
    }

    /// When the tick starts, in quanta.
    pub closed spec fn start(self) -> int {
        self.start@
    }

    /// When the tick ends, in quanta.
    pub closed spec fn end(self) -> int {
        self.end@
    }

    /// When a sample was last observed before the tick's end, in quanta.
    pub closed spec fn last_sample(self) -> int {
        self.last_sample_timestamp@
    }

    /// Whether a sample was observed in the sampling period in which a tick
    /// from `start` starts: the last sample at `last_sample` lies in the
    /// same period of `max_sampling_period` quanta.
    pub open spec fn period_has_sample(start: int, last_sample: int, max_sampling_period: int)
        -> bool {
        quotient(start, max_sampling_period) == quotient(last_sample, max_sampling_period)
    }

    /// The start and the end of the tick, in quanta.
    pub fn quantize(self) -> (r: (Quanta, Quanta))
        ensures
            r.0 == self.start(),
            r.1 == self.end(),
            r.0 <= r.1,
    {
        proof {
            use_type_invariant(&self);
        }
        (self.start.quantize(), self.end.quantize())
    }

    /// Whether the sampling period in which the tick starts already has a
    /// sample.
    pub fn start_has_sample(&self, max_sampling_period: Quanta) -> (b: bool)
        requires
            max_sampling_period > 0,
        ensures
            b == Self::period_has_sample(
                self.start(),
                self.last_sample(),
                max_sampling_period as int,
            ),
    {
        self.start.quantize() / max_sampling_period == self.last_sample_timestamp.quantize()
            / max_sampling_period
    }
}

/// Time ran backwards: an observation came with a timestamp before the last
/// one.
#[derive(Debug, PartialEq, Eq, Clone, Copy)]
pub struct MonotonicityError;

/// When a series was last updated, and when it last took a sample.
#[derive(Debug, PartialEq, Eq, Clone, Copy)]
pub struct ObservationTime {
    /// The time of the last observation.
    pub last_update_timestamp: Timestamp,
    /// The time of the last observation that carried a sample.
    pub last_sample_timestamp: Timestamp,
}

impl ObservationTime {
    /// Moves on to an observation at `timestamp` and returns the tick from
    /// the last observation to this one. An observation before the last one
    /// is refused and changes nothing. `has_sample` says whether the
    /// observation carries a sample.
    pub fn tick(&mut self, timestamp: Timestamp, has_sample: bool) -> (r: Result<
        Tick,
        MonotonicityError,
    >)
        ensures
            r is Ok <==> old(self).last_update_timestamp@ <= timestamp@,
            r is Err ==> *final(self) == *old(self),
            r matches Ok(tick) ==> {
                &&& tick.wf()
                &&& tick.start() == old(self).last_update_timestamp@
                &&& tick.end() == timestamp@
                &&& tick.last_sample() == old(self).last_sample_timestamp@
                &&& final(self).last_update_timestamp == timestamp
                &&& final(self).last_sample_timestamp == if has_sample {
                    timestamp
                } else {
                    old(self).last_sample_timestamp
                }
            },
    {
        let start = self.last_update_timestamp;
        if timestamp.quantize() < start.quantize() {
            return Err(MonotonicityError);
        }
        let tick = Tick { start, end: timestamp, last_sample_timestamp: self.last_sample_timestamp };
        self.last_update_timestamp = timestamp;
        if has_sample {
            self.last_sample_timestamp = timestamp;
        }
        Ok(tick)
    }
}

} // verus!
