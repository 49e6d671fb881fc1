use davis_rpi::clock::duration_since_epoch;
use davis_rpi::measurement::{current_wind, from_row, Measurement, WindError};

#[test]
fn recent_sample_is_current() {
    let latest = Measurement { ts: 100_000_000, vel: 3_000_000, direction: 0 };
    assert_eq!(current_wind(latest, 159_999_999), Ok(latest));
}

#[test]
fn sample_a_minute_old_is_not_current() {
    let latest = Measurement { ts: 100_000_000, vel: 3_000_000, direction: 0 };
    assert_eq!(current_wind(latest, 160_000_000), Err(WindError::NoDataAvailable));
}

#[test]
fn row_with_all_fields_converts() {
    assert_eq!(
        from_row(Some(5), Some(6), Some(270)),
        Ok(Measurement { ts: 5, vel: 6, direction: 270 })
    );
}

#[test]
fn row_with_missing_field_is_malformed() {
    assert_eq!(from_row(None, Some(6), Some(7)), Err(WindError::MalformedRow));
    assert_eq!(from_row(Some(5), None, Some(7)), Err(WindError::MalformedRow));
    assert_eq!(from_row(Some(5), Some(6), None), Err(WindError::MalformedRow));
}

#[test]
fn row_with_direction_out_of_range_is_malformed() {
    assert_eq!(from_row(Some(5), Some(6), Some(-1)), Err(WindError::MalformedRow));
    assert_eq!(from_row(Some(5), Some(6), Some(65_536)), Err(WindError::MalformedRow));
    assert_eq!(
        from_row(Some(5), Some(6), Some(65_535)),
        Ok(Measurement { ts: 5, vel: 6, direction: 65_535 })
    );
}

#[test]
fn clock_reads_after_2020() {
    // 2020-01-01T00:00:00Z in microseconds
    assert!(duration_since_epoch() > 1_577_836_800_000_000);
}

#[test]
fn pretty_line_shows_speed_in_metres_per_second() {
    let m = Measurement { ts: 0, vel: 4_470_400, direction: 0 };
    assert_eq!(m.pretty_with_time("T"), "Measurement(ts: T, vel: 4.4704m/s)");
    let m = Measurement { ts: 0, vel: 5_000_000, direction: 0 };
    assert_eq!(m.pretty_with_time("T"), "Measurement(ts: T, vel: 5m/s)");
    let m = Measurement { ts: 0, vel: 1, direction: 0 };
    assert_eq!(m.pretty_with_time("T"), "Measurement(ts: T, vel: 0.000001m/s)");
}

#[test]
fn pretty_str_shows_utc_date() {
    let m = Measurement { ts: 0, vel: 5_000_000, direction: 0 };
    assert_eq!(m.pretty_str(), "Measurement(ts: 1970-01-01T00:00:00+00:00, vel: 5m/s)");
    let m = Measurement { ts: 1_700_000_000_000_000, vel: 250_000, direction: 0 };
    assert_eq!(m.pretty_str(), "Measurement(ts: 2023-11-14T22:13:20+00:00, vel: 0.25m/s)");
}

#[test]
fn pretty_str_beyond_calendar_shows_seconds() {
    let m = Measurement { ts: u64::MAX, vel: 0, direction: 0 };
    assert_eq!(
        m.pretty_str(),
        "Measurement(ts: 18446744073709.551615s, vel: 0m/s)"
    );
}
