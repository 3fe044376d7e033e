//! The responder's concurrency strategies, and the rule by which the dynamic
//! strategy adjusts its level of concurrency to the time a response took.
use vstd::prelude::*;

use std::time::Duration;

use crate::duration::{duration_as_nanos, nanos_of};

verus! {

/// The number of requests that `process_requests` handles at once.
pub const DEFAULT_CONCURRENCY: usize = 16;

/// A response that took less than this many nanoseconds (10 ms) is fast.
pub const FAST_RESPONSE_NANOS: u128 = 10_000_000;

/// A response that took at least this many nanoseconds (100 ms) is slow.
pub const SLOW_RESPONSE_NANOS: u128 = 100_000_000;

/// Represents the concurrency strategy for processing requests.
///
/// - `Fixed`: A fixed number of concurrent requests.
/// - `Dynamic`: Dynamically adjusts the concurrency based on response times;
///   its fields are the initial and the maximum level.
#[derive(Debug, Clone, Copy)]
pub enum ConcurrencyStrategy {
    Fixed(usize),
    Dynamic(usize, usize),
}

/// The maximum of the dynamic strategy: the given maximum, or one when it is zero.
pub open spec fn effective_max(max: usize) -> usize {
    if max >= 1 { max } else { 1 }
}

/// The level at which the dynamic strategy starts: the initial level, kept
/// between one and the (effective) maximum.
pub open spec fn initial_level(initial: usize, max: usize) -> usize {
    if initial < 1 {
        1
    } else if initial > effective_max(max) {
        effective_max(max)
    } else {
        initial
    }
}

/// The level of concurrency that the dynamic strategy moves to from `current`
/// after a response that took `elapsed` nanoseconds:
/// - fast (under 10 ms): below `max` it grows by a quarter (at least one), capped at `max`;
/// - medium (under 100 ms): above one it shrinks by one;
/// - slow: it shrinks by a quarter (at least two), but not below one.
pub open spec fn next_concurrency_spec(current: usize, max: usize, elapsed: u128) -> usize {
    if elapsed < FAST_RESPONSE_NANOS {
        if current < max {
            let increment: int = if current / 4 > 1 { (current / 4) as int } else { 1 };
            if current + increment < max { (current + increment) as usize } else { max }
        } else {
            current
        }
    } else if elapsed < SLOW_RESPONSE_NANOS {
        if current > 1 { (current - 1) as usize } else { current }
    } else {
        let decrement: int = if current / 4 > 2 { (current / 4) as int } else { 2 };
        if current - decrement > 1 { (current - decrement) as usize } else { 1 }
    }
}

/// Computes the next level of concurrency of the dynamic strategy.
pub fn next_concurrency(current: usize, max: usize, elapsed_nanos: u128) -> (next: usize)
    ensures
        next == next_concurrency_spec(current, max, elapsed_nanos),
{
    if elapsed_nanos < FAST_RESPONSE_NANOS {
        if current < max {
            let quarter: usize = current / 4;
            let increment: usize = if quarter > 1 { quarter } else { 1 };
            let raised: usize = current.saturating_add(increment);
            if raised < max { raised } else { max }
        } else {
            current
        }
    } else if elapsed_nanos < SLOW_RESPONSE_NANOS {
        if current > 1 { current - 1 } else { current }
    } else {
        let quarter: usize = current / 4;
        let decrement: usize = if quarter > 2 { quarter } else { 2 };
        let lowered: usize = current.saturating_sub(decrement);
        if lowered > 1 { lowered } else { 1 }
    }
}

/// The state of the dynamic strategy: the current level, which is the
/// number of requests the responder handles at once, and its maximum.
pub struct DynamicConcurrency {
    current: usize,
    max: usize,
}

impl DynamicConcurrency {
    /// The current level.
    pub closed spec fn level(&self) -> usize {
        self.current
    }

    /// The maximum level.
    pub closed spec fn maximum(&self) -> usize {
        self.max
    }

    /// The level is always at least one and at most the maximum.
    #[verifier::type_invariant]
    closed spec fn level_within_bounds(&self) -> bool {
        1 <= self.current <= self.max
    }

    /// Starts the dynamic strategy: the maximum is kept at one or more, and
    /// the initial level between one and the maximum.
    pub fn new(initial: usize, max: usize) -> (state: Self)
        ensures
            state.level() == initial_level(initial, max),
            state.maximum() == effective_max(max),
    {
        let max: usize = if max >= 1 { max } else { 1 };
        let current: usize = if initial < 1 {
            1
        } else if initial > max {
            max
        } else {
            initial
        };
        DynamicConcurrency { current, max }
    }

    /// The current level.
    pub fn current(&self) -> (level: usize)
        ensures
            level == self.level(),
            1 <= level <= self.maximum(),
    {
        proof {
            use_type_invariant(self);
        }
        self.current
    }

    /// The maximum level.
    pub fn max(&self) -> (max: usize)
        ensures
            max == self.maximum(),
            1 <= self.level() <= max,
    {
        proof {
            use_type_invariant(self);
        }
        self.max
    }

    /// Whether the responder may start handling one more request while
    /// `in_flight` requests are being handled: only below the current level.
    pub fn admits(&self, in_flight: usize) -> (admitted: bool)
        ensures
            admitted == (in_flight < self.level()),
            1 <= self.level() <= self.maximum(),
    {
        proof {
            use_type_invariant(self);
        }
        in_flight < self.current
    }

    /// Adjusts the level after a response that took `elapsed`.
    pub fn record_response(&mut self, elapsed: Duration)
        ensures
            final(self).maximum() == old(self).maximum(),
            final(self).level() == next_concurrency_spec(
                old(self).level(),
                old(self).maximum(),
                nanos_of(elapsed),
            ),
            1 <= final(self).level() <= final(self).maximum(),
    {
        proof {
            use_type_invariant(&*self);
            lemma_adjustment_stays_within_bounds(self.current, self.max, nanos_of(elapsed));
        }
        let nanos = duration_as_nanos(elapsed);
        self.current = next_concurrency(self.current, self.max, nanos);
    }
}

impl ConcurrencyStrategy {
    /// The strategy of `process_requests`: a fixed concurrency of 16.
    pub fn default_strategy() -> (strategy: Self)
        ensures
            strategy == ConcurrencyStrategy::Fixed(16),
    {
        ConcurrencyStrategy::Fixed(DEFAULT_CONCURRENCY)
    }

    /// The number of requests that the responder handles at once when it
    /// starts: the fixed level, or the dynamic strategy's initial level kept
    /// between one and its maximum.
    pub fn initial_concurrency(&self) -> (limit: usize)
        ensures
            limit == match *self {
                ConcurrencyStrategy::Fixed(c) => c,
                ConcurrencyStrategy::Dynamic(initial, max) => initial_level(initial, max),
            },
    {
        match self {
            ConcurrencyStrategy::Fixed(c) => *c,
            ConcurrencyStrategy::Dynamic(initial, max) => {
                let state = DynamicConcurrency::new(*initial, *max);
                state.current()
            },
        }
    }

    /// The state that adjusts the level, for the dynamic strategy only.
    pub fn adjuster(&self) -> (state: Option<DynamicConcurrency>)
        ensures
            match *self {
                ConcurrencyStrategy::Fixed(_) => state is None,
                ConcurrencyStrategy::Dynamic(initial, max) => state matches Some(s)
                    && s.level() == initial_level(initial, max) && s.maximum() == effective_max(max),
            },
    {
        match self {
            ConcurrencyStrategy::Fixed(_) => None,
            ConcurrencyStrategy::Dynamic(initial, max) => Some(DynamicConcurrency::new(*initial, *max)),
        }
    }
}

/// The dynamic strategy keeps its level between one and its maximum: from a
/// level in that range, every adjustment stays in it, so the responder never
/// stops taking requests and never handles more than the maximum at once.
pub proof fn lemma_adjustment_stays_within_bounds(current: usize, max: usize, elapsed: u128)
    ensures
        1 <= current <= max ==> 1 <= next_concurrency_spec(current, max, elapsed) <= max,
{
}

/// A fast response never lowers the level; a response that is not fast never
/// raises a level of one or more.
pub proof fn lemma_adjustment_follows_response_time(current: usize, max: usize, elapsed: u128)
    ensures
        elapsed < FAST_RESPONSE_NANOS ==> next_concurrency_spec(current, max, elapsed) >= current,
        elapsed >= FAST_RESPONSE_NANOS && current >= 1 ==> next_concurrency_spec(current, max, elapsed)
            <= current,
{
}

/// A slow response lowers every level above one, and never below one.
pub proof fn lemma_slow_response_lowers_level(current: usize, max: usize, elapsed: u128)
    requires
        elapsed >= SLOW_RESPONSE_NANOS,
    ensures
        next_concurrency_spec(current, max, elapsed) >= 1,
        current > 1 ==> next_concurrency_spec(current, max, elapsed) < current,
{
}

/// The responder admits a request only while fewer than the level are in
/// flight, so the number in flight never exceeds the maximum.
pub proof fn lemma_admission_respects_max(state: DynamicConcurrency, in_flight: usize)
    requires
        1 <= state.level() <= state.maximum(),
        in_flight < state.level(),
    ensures
        in_flight + 1 <= state.maximum(),
{
}

/// A fast response (under 10 ms) raises a level below the maximum by a
/// quarter, at least one, but not above the maximum; at or above the maximum
/// it leaves the level as it is.
pub proof fn lemma_fast_response_raises_level(current: usize, max: usize, elapsed: u128)
    requires
        elapsed < 10_000_000,
    ensures
        current < max ==> {
            let step: int = if current / 4 >= 1 { (current / 4) as int } else { 1 };
            &&& next_concurrency_spec(current, max, elapsed) > current
            &&& next_concurrency_spec(current, max, elapsed) == if current + step <= max {
                current + step
            } else {
                max as int
            }
        },
        current >= max ==> next_concurrency_spec(current, max, elapsed) == current,
{
}

/// A medium response (from 10 ms up to 100 ms) lowers every level above one,
/// the maximum included, by exactly one, and leaves a level of one or zero.
pub proof fn lemma_medium_response_lowers_by_one(current: usize, max: usize, elapsed: u128)
    requires
        10_000_000 <= elapsed < 100_000_000,
    ensures
        current > 1 ==> next_concurrency_spec(current, max, elapsed) == current - 1,
        current <= 1 ==> next_concurrency_spec(current, max, elapsed) == current,
{
}

/// A slow response (100 ms or more) lowers the level by a quarter, at least
/// two, but leaves it at one or more.
pub proof fn lemma_slow_response_lowers_by_a_quarter(current: usize, max: usize, elapsed: u128)
    requires
        elapsed >= 100_000_000,
    ensures
        ({
            let step: int = if current / 4 >= 2 { (current / 4) as int } else { 2 };
            next_concurrency_spec(current, max, elapsed) == if current - step >= 1 {
                current - step
            } else {
                1
            }
        }),
{
}

/// The dynamic strategy starts at the initial level asked for whenever it
/// lies between one and the maximum; a level above the maximum starts at the
/// maximum, and a level of zero at one.
pub proof fn lemma_initial_level_is_the_one_asked_for(initial: usize, max: usize)
    ensures
        1 <= initial <= max ==> initial_level(initial, max) == initial,
        1 <= max < initial ==> initial_level(initial, max) == max,
        initial == 0 ==> initial_level(initial, max) == 1,
        max == 0 ==> initial_level(initial, max) == 1 && effective_max(max) == 1,
        max >= 1 ==> effective_max(max) == max,
{
}

} // verus!
