use gamescope::refresh_rate::{
    hertz_to_millihertz, millihertz_to_hertz, millihertz_to_refresh_cycle,
    refresh_cycle_to_millihertz,
};

#[test]
fn integer_rate_conversions_match_gamescope() {
    assert_eq!(hertz_to_millihertz(60), 60_000);
    assert_eq!(millihertz_to_hertz(60_001), 60);
    assert_eq!(millihertz_to_hertz(143_990), 144);
}

#[test]
fn cycle_conversion_round_trips_common_rates() {
    for rate in [24_000, 30_000, 59_940, 60_000, 90_000, 120_000, 144_000] {
        let cycle = millihertz_to_refresh_cycle(rate).unwrap();
        assert_eq!(refresh_cycle_to_millihertz(cycle), Some(rate));
    }
}

#[test]
fn zero_has_no_finite_cycle() {
    assert_eq!(refresh_cycle_to_millihertz(0), None);
    assert_eq!(millihertz_to_refresh_cycle(0), None);
}

#[test]
fn hertz_come_back_from_millihertz() {
    for rate in [1, 24, 60, 75, 144, 4_294_966] {
        assert_eq!(millihertz_to_hertz(hertz_to_millihertz(rate)), rate);
    }
    assert_eq!(millihertz_to_hertz(500), 0);
    assert_eq!(millihertz_to_hertz(501), 1);
}

#[test]
fn cycles_are_rounded() {
    assert_eq!(millihertz_to_refresh_cycle(60_000), Some(16_666_667));
    assert_eq!(millihertz_to_refresh_cycle(59_940), Some(16_683_350));
    assert_eq!(refresh_cycle_to_millihertz(16_666_667), Some(60_000));
}
