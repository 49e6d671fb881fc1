use vstd::prelude::*;

use crate::text::{millionths, millionths_text};

verus! {

/// One wind sample.
///
/// `ts` is the time of the sample in microseconds since the Unix epoch,
/// `vel` the wind speed in micrometres per second and `direction` the
/// wind direction in whole degrees.
#[derive(Clone, Copy, Debug, PartialEq, Eq, Structural)]
pub struct Measurement {
    pub ts: u64,
    pub vel: u64,
    pub direction: u16,
}

/// Number of degrees in a full turn: directions lie in `[0, FULL_TURN)`.
pub const FULL_TURN: u16 = 360;

/// Microseconds in one second.
pub const MICROS_PER_SECOND: u64 = 1_000_000;

/// Age beyond which the latest stored sample no longer counts as the
/// current wind: one minute.
pub const CURRENT_WIND_MAX_AGE: u64 = 60 * MICROS_PER_SECOND;

/// Why a measurement could not be produced.
#[derive(Clone, Copy, Debug, PartialEq, Eq, Structural)]
pub enum WindError {
    /// The store holds nothing for the requested window, or nothing recent.
    NoDataAvailable,
    /// A stored row lacks a field or holds a value out of range.
    MalformedRow,
}

impl Measurement {
    /// A measurement is well formed when its direction is a proper angle.
    pub open spec fn wf(self) -> bool {
        self.direction < FULL_TURN
    }

    /// One line that shows the measurement, with `time` as the text of its
    /// timestamp and the speed in metres per second.
    pub fn pretty_with_time(&self, time: &str) -> (r: String)
        ensures
            r@ == pretty_line(*self, time@),
    {
        let mut r = String::from_str("Measurement(ts: ");
        r.append(time);
        r.append(", vel: ");
        let vel = millionths(self.vel);
        r.append(vel.as_str());
        r.append("m/s)");
        r
    }

    /// One line that shows the measurement, its timestamp as an RFC 3339
    /// date in UTC; a timestamp beyond the calendar's range is shown in
    /// seconds since the epoch.
    pub fn pretty_str(&self) -> (r: String)
        ensures
            r@ == pretty_line(*self, rfc3339_of_micros(self.ts as int)) || r@ == pretty_line(
                *self,
                epoch_seconds_text(self.ts),
            ),
            self.ts > i64::MAX ==> r@ == pretty_line(*self, epoch_seconds_text(self.ts)),
    {
        let date = if self.ts <= i64::MAX as u64 {
            rfc3339(self.ts as i64)
        } else {
            None
        };
        match date {
            Some(text) => self.pretty_with_time(text.as_str()),
            None => {
                let mut seconds = millionths(self.ts);
                seconds.append("s");
                self.pretty_with_time(seconds.as_str())
            },
        }
    }
}

/// The line that shows `m` with `time` as the text of its timestamp.
pub open spec fn pretty_line(m: Measurement, time: Seq<char>) -> Seq<char> {
    "Measurement(ts: "@ + time + ", vel: "@ + millionths_text(m.vel as nat) + "m/s)"@
}

/// A timestamp written in seconds since the epoch.
pub open spec fn epoch_seconds_text(ts: u64) -> Seq<char> {
    millionths_text(ts as nat) + "s"@
}

/// The RFC 3339 text, in UTC, of the instant `micros` microseconds after the
/// Unix epoch.
pub uninterp spec fn rfc3339_of_micros(micros: int) -> Seq<char>;

/// Relies on chrono's `DateTime::<Utc>::from_timestamp_micros`, which gives
/// `None` outside chrono's date range, and on `DateTime::to_rfc3339` for the
/// text of the instant.
#[verifier::external_body]
fn rfc3339(micros: i64) -> (r: Option<String>)
    ensures
        r matches Some(text) ==> text@ == rfc3339_of_micros(micros as int),
{
    match chrono::DateTime::<chrono::Utc>::from_timestamp_micros(micros) {
        Some(d) => Some(d.to_rfc3339()),
        None => None,
    }
}

/// Whether `m`, taken at `now`, is recent enough to stand for the current wind.
pub open spec fn is_current(m: Measurement, now: int) -> bool {
    now - m.ts < CURRENT_WIND_MAX_AGE
}

/// Picks the latest stored sample as the current wind, or reports that no
/// recent data exists.
pub fn current_wind(latest: Measurement, now: u64) -> (r: Result<Measurement, WindError>)
    ensures
        is_current(latest, now as int) ==> r == Ok::<Measurement, WindError>(latest),
        !is_current(latest, now as int) ==> r == Err::<Measurement, WindError>(
            WindError::NoDataAvailable,
        ),
{
    if now < latest.ts || now - latest.ts < CURRENT_WIND_MAX_AGE {
        Ok(latest)
    } else {
        Err(WindError::NoDataAvailable)
    }
}

/// The measurement that a stored row describes, when every field is present
/// and the direction fits.
pub open spec fn row_measurement(ts: Option<u64>, vel: Option<u64>, direction: Option<i64>) -> Option<
    Measurement,
> {
    match (ts, vel, direction) {
        (Some(t), Some(v), Some(d)) => if 0 <= d <= u16::MAX {
            Some(Measurement { ts: t, vel: v, direction: d as u16 })
        } else {
            None
        },
        _ => None,
    }
}

/// Builds a measurement from the columns of a stored row.
pub fn from_row(ts: Option<u64>, vel: Option<u64>, direction: Option<i64>) -> (r: Result<
    Measurement,
    WindError,
>)
    ensures
        r matches Ok(m) ==> row_measurement(ts, vel, direction) == Some(m),
        r is Err <==> row_measurement(ts, vel, direction) is None,
        r matches Err(e) ==> e == WindError::MalformedRow,
{
    match (ts, vel, direction) {
        (Some(t), Some(v), Some(d)) => {
            if 0 <= d && d <= u16::MAX as i64 {
                Ok(Measurement { ts: t, vel: v, direction: d as u16 })
            } else {
                Err(WindError::MalformedRow)
            }
        },
        _ => Err(WindError::MalformedRow),
    }
}

} // verus!
