use vstd::prelude::*;

use crate::clock::duration_since_epoch;
use crate::measurement::Measurement;
use crate::pulse::{drained_at, speed_since, WindSpeedData};

verus! {

/// The manufacturer's rotor constant, 2.25 mph per pulse per second, in
/// thousandths.
pub const ROTOR_CONSTANT_MILLI: u128 = 2250;

/// One mile per hour in micrometres per second (0.44704 m/s).
pub const MPH_IN_UM_PER_S: u128 = 447_040;

/// Microseconds in one millisecond: turns the thousandths of the rotor
/// constant and the microseconds of the elapsed time into whole seconds.
pub const MICROS_PER_MILLI: u128 = 1000;

/// Default sanity ceiling: 30 m/s, in micrometres per second.
pub const DEFAULT_SPEED_CEILING: u64 = 30_000_000;

/// Wind speed in micrometres per second for `count` pulses over `elapsed`
/// microseconds: `count * (2.25 / elapsed_seconds) * 0.44704` m/s, rounded
/// down.
pub open spec fn speed_of(count: int, elapsed: int) -> int {
    count * ROTOR_CONSTANT_MILLI * MPH_IN_UM_PER_S * MICROS_PER_MILLI / elapsed
}

/// Computes [`speed_of`] without overflow.
pub fn wind_speed(count: u64, elapsed: u64) -> (speed: u128)
    requires
        elapsed > 0,
    ensures
        speed == speed_of(count as int, elapsed as int),
{
    proof {
        assert(count * ROTOR_CONSTANT_MILLI * MPH_IN_UM_PER_S * MICROS_PER_MILLI <= u128::MAX)
            by (nonlinear_arith)
            requires
                count <= u64::MAX,
        ;
    }
    (count as u128) * ROTOR_CONSTANT_MILLI * MPH_IN_UM_PER_S * MICROS_PER_MILLI / (elapsed as u128)
}

/// What one sampling tick does with its speed.
#[derive(Clone, Copy, Debug, PartialEq, Eq, Structural)]
pub enum SampleOutcome {
    /// No elapsed time to measure against: the first tick after start-up,
    /// or a clock that did not move forward. Nothing is stored.
    Skipped,
    /// The speed, in micrometres per second, exceeds the sanity ceiling and
    /// is dropped.
    Rejected(u128),
    /// The measurement to store.
    Store(Measurement),
}

/// The outcome of a tick at `now` whose speed is `speed`, under `ceiling`.
pub open spec fn outcome_of(speed: Option<int>, now: int, ceiling: int) -> SampleOutcome {
    match speed {
        None => SampleOutcome::Skipped,
        Some(v) => if v > ceiling {
            SampleOutcome::Rejected(v as u128)
        } else {
            SampleOutcome::Store(Measurement { ts: now as u64, vel: v as u64, direction: 0 })
        },
    }
}

/// Turns the pulses counted over each sampling period into a wind speed.
#[derive(Clone, Copy, Debug, PartialEq, Eq, Structural)]
pub struct RateSampler {
    /// Highest plausible wind speed, in micrometres per second.
    pub ceiling: u64,
}

impl RateSampler {
    /// A sampler with the default ceiling of 30 m/s.
    pub fn new() -> (r: RateSampler)
        ensures
            r.ceiling == DEFAULT_SPEED_CEILING,
    {
        RateSampler { ceiling: DEFAULT_SPEED_CEILING }
    }

    /// A sampler with the given ceiling, in micrometres per second.
    pub fn with_ceiling(ceiling: u64) -> (r: RateSampler)
        ensures
            r.ceiling == ceiling,
    {
        RateSampler { ceiling }
    }

    /// Applies the sanity ceiling to the speed of one tick at `now`.
    pub fn filter(&self, speed: Option<u128>, now: u64) -> (r: SampleOutcome)
        ensures
            r == outcome_of(
                match speed {
                    Some(v) => Some(v as int),
                    None => None,
                },
                now as int,
                self.ceiling as int,
            ),
    {
        match speed {
            None => SampleOutcome::Skipped,
            Some(v) => if v > self.ceiling as u128 {
                SampleOutcome::Rejected(v)
            } else {
                SampleOutcome::Store(Measurement { ts: now, vel: v as u64, direction: 0 })
            },
        }
    }

    /// One sampling tick at `now`: drains the counter, turns the pulses into
    /// a speed over the time since the previous tick, and filters it.
    pub fn tick(&self, data: &mut WindSpeedData, now: u64) -> (r: SampleOutcome)
        ensures
            final(data)@ == drained_at(old(data)@, now as int),
            r == outcome_of(speed_since(old(data)@, now as int), now as int, self.ceiling as int),
    {
        let speed = data.get_speed(now);
        self.filter(speed, now)
    }

    /// One sampling tick at the current time.
    pub fn tick_now(&self, data: &mut WindSpeedData) -> (r: SampleOutcome)
        ensures
            exists|now: u64|
                final(data)@ == drained_at(old(data)@, now as int) && r == outcome_of(
                    speed_since(old(data)@, now as int),
                    now as int,
                    self.ceiling as int,
                ),
    {
        let now = duration_since_epoch();
        self.tick(data, now)
    }
}

} // verus!
