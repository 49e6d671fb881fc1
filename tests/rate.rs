use davis_rpi::measurement::Measurement;
use davis_rpi::pulse::WindSpeedData;
use davis_rpi::rate::{wind_speed, RateSampler, SampleOutcome, DEFAULT_SPEED_CEILING};

#[test]
fn rate_formula_ten_pulses_over_rotor_period() {
    // 10 * (2.25 / 2.25) * 0.44704 m/s = 4.4704 m/s
    assert_eq!(wind_speed(10, 2_250_000), 4_470_400);
}

#[test]
fn rate_formula_one_pulse_per_second() {
    // 2.25 mph = 1.00584 m/s
    assert_eq!(wind_speed(1, 1_000_000), 1_005_840);
    assert_eq!(wind_speed(0, 1_000_000), 0);
}

#[test]
fn rate_formula_rounds_down() {
    // 1.00584e12 / 3 = 335_280_000_000 exactly; over 7 us it is not exact.
    assert_eq!(wind_speed(1, 3), 335_280_000_000);
    assert_eq!(wind_speed(1, 7), 143_691_428_571);
}

#[test]
fn rate_formula_largest_count() {
    assert_eq!(
        wind_speed(u64::MAX, 1),
        (u64::MAX as u128) * 1_005_840_000_000
    );
}

#[test]
fn sanity_filter_drops_35_keeps_29_9() {
    let sampler = RateSampler::with_ceiling(30_000_000);
    assert_eq!(
        sampler.filter(Some(35_000_000), 10),
        SampleOutcome::Rejected(35_000_000)
    );
    assert_eq!(
        sampler.filter(Some(29_900_000), 10),
        SampleOutcome::Store(Measurement { ts: 10, vel: 29_900_000, direction: 0 })
    );
}

#[test]
fn sanity_filter_keeps_the_ceiling_itself() {
    let sampler = RateSampler::new();
    assert_eq!(sampler.ceiling, DEFAULT_SPEED_CEILING);
    assert_eq!(
        sampler.filter(Some(30_000_000), 5),
        SampleOutcome::Store(Measurement { ts: 5, vel: 30_000_000, direction: 0 })
    );
    assert_eq!(sampler.filter(Some(30_000_001), 5), SampleOutcome::Rejected(30_000_001));
    assert_eq!(sampler.filter(None, 5), SampleOutcome::Skipped);
}

#[test]
fn first_tick_is_discarded() {
    let sampler = RateSampler::new();
    let mut data = WindSpeedData::new();
    data.increase();
    assert_eq!(sampler.tick(&mut data, 1_000_000), SampleOutcome::Skipped);
    assert_eq!(data.count(), 0);
}

#[test]
fn second_tick_stores_the_speed() {
    let sampler = RateSampler::new();
    let mut data = WindSpeedData::with_debounce_window(2_000);
    assert_eq!(sampler.tick(&mut data, 1_000_000), SampleOutcome::Skipped);
    for i in 0..10u64 {
        data.register_edge(1_000_000 + i * 200_000);
    }
    assert_eq!(
        sampler.tick(&mut data, 3_250_000),
        SampleOutcome::Store(Measurement { ts: 3_250_000, vel: 4_470_400, direction: 0 })
    );
}

#[test]
fn tick_above_ceiling_is_rejected() {
    let sampler = RateSampler::new();
    let mut data = WindSpeedData::with_debounce_window(1);
    assert_eq!(sampler.tick(&mut data, 0), SampleOutcome::Skipped);
    for i in 0..40u64 {
        data.register_edge(10 + i * 10);
    }
    // 40 pulses in one second: 40.2336 m/s
    assert_eq!(sampler.tick(&mut data, 1_000_000), SampleOutcome::Rejected(40_233_600));
    assert_eq!(data.count(), 0);
}

#[test]
fn tick_now_drains_the_counter() {
    let sampler = RateSampler::new();
    let mut data = WindSpeedData::new();
    data.increase();
    assert_eq!(sampler.tick_now(&mut data), SampleOutcome::Skipped);
    assert_eq!(data.count(), 0);
}
