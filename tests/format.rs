use fight_simulator::format::{abbreviate_number, ratio, seconds_to_mm_ss, NO_SUFFIX, RATIO_SCALE};
use fight_simulator::models::Dps;

#[test]
fn abbreviate_zero_has_no_suffix() {
    let a = abbreviate_number(0);
    assert_eq!(a.magnitude as f64 / a.scale as f64, 0.0);
    assert_eq!(a.unit, NO_SUFFIX);
}

#[test]
fn abbreviate_fifteen_hundred_is_one_and_a_half_k() {
    let a = abbreviate_number(1500);
    assert_eq!(a.magnitude as f64 / a.scale as f64, 1.5);
    assert_eq!(a.unit, 'k');
}

#[test]
fn abbreviate_picks_each_bracket() {
    assert_eq!(abbreviate_number(999).unit, NO_SUFFIX);
    assert_eq!(abbreviate_number(999).scale, 1);
    assert_eq!(abbreviate_number(1_000).unit, 'k');
    assert_eq!(abbreviate_number(2_500_000).unit, 'm');
    assert_eq!(abbreviate_number(2_500_000).scale, 1_000_000);
    assert_eq!(abbreviate_number(7_000_000_000).unit, 'b');
    assert_eq!(abbreviate_number(3_000_000_000_000).unit, 't');
    assert_eq!(abbreviate_number(3_000_000_000_000).scale, 1_000_000_000_000);
}

#[test]
fn dps_over_zero_seconds_is_the_zero_value() {
    let d = Dps::new(123_456, 0);
    assert_eq!(d, Dps::default());
    assert_eq!(d.raw, 0);
    assert_eq!(d.raw as f64 / d.scale as f64, 0.0);
    assert_eq!(d.unit, NO_SUFFIX);
}

#[test]
fn dps_divides_and_abbreviates() {
    let d = Dps::new(3_000, 2);
    assert_eq!(d.raw, 1_500);
    assert_eq!(d.scale, 1_000);
    assert_eq!(d.unit, 'k');
    let d = Dps::new(7, 2);
    assert_eq!(d.raw, 3);
    assert_eq!(d.unit, NO_SUFFIX);
}

#[test]
fn mm_ss_rendering() {
    assert_eq!(seconds_to_mm_ss(0), "00:00");
    assert_eq!(seconds_to_mm_ss(65), "01:05");
    assert_eq!(seconds_to_mm_ss(3_659), "60:59");
    assert_eq!(seconds_to_mm_ss(3_660), "\u{221e}");
    assert_eq!(seconds_to_mm_ss(100_000), "\u{221e}");
}

#[test]
fn ratio_is_in_millionths() {
    assert_eq!(ratio(0, 0), 0);
    assert_eq!(ratio(1, 2), RATIO_SCALE / 2);
    assert_eq!(ratio(1, 3), 333_333);
    assert_eq!(ratio(5, 5), RATIO_SCALE);
}
