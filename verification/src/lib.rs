//! Two building blocks of a network stack, each a set of values and of
//! functions from values to values.
//!
//! The first is the in-memory model of a TCP segment: sequence numbers that
//! wrap around ([`seqnum`]), control flags ([`base`]), options and their
//! codec ([`options`]), what a segment needs of its payload ([`payload`]),
//! the segment itself with the constructors that keep it from taking up more
//! than half of the sequence space and the trimming of an incoming segment
//! to the part that the receive window accepts ([`segment`]), and the
//! conversion of a segment that was parsed off the wire ([`wire`]).
//!
//! The second is the timing of a time series of statistics: the intervals
//! in which samples are aggregated, and which of them a step in time brings
//! to an end ([`interval`]), over a clock in whole quanta ([`clock`]) and a
//! statistic that samples are folded into ([`statistic`]).

pub mod base;
pub mod clock;
pub mod interval;
pub mod options;
pub mod payload;
pub mod segment;
pub mod seqnum;
pub mod statistic;
pub mod wire;
