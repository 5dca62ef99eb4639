use overhead_sat::units::AngleUnit;
use overhead_sat::units::Degrees;
use overhead_sat::units::LengthUnit;
use overhead_sat::units::Radians;
use overhead_sat::units::Inner;

#[test]
fn km_to_m_is_exact() {
    let one_km = LengthUnit::Km(1_000_000_000);
    let in_m = one_km.m();
    assert_eq!(in_m, LengthUnit::M(1_000_000_000_000));
    assert_eq!(in_m.inner(), 1_000_000_000_000);
}

#[test]
fn m_to_km_rounds_to_nearest() {
    let m = LengthUnit::M(1_234_567_890_000);
    assert_eq!(m.km(), LengthUnit::Km(1_234_567_890));
    let odd = LengthUnit::M(1_499);
    assert_eq!(odd.km(), LengthUnit::Km(1));
}

#[test]
fn length_round_trip_km_m_km() {
    let v = LengthUnit::Km(6_878_137_000_000);
    assert_eq!(v.m().km(), v);
}

#[test]
fn length_round_trip_m_km_m_on_multiples() {
    let v = LengthUnit::M(42_000_000_000_000);
    assert_eq!(v.km().m(), v);
}

#[test]
fn degrees_to_radians_exact_value() {
    let forty_five = AngleUnit::Degrees(Degrees(45_000_000_000_000));
    let rad = forty_five.as_radians();
    assert_eq!(rad, Radians(785_398_163_397));
}

#[test]
fn angle_round_trip_within_tolerance() {
    let x: i64 = 45_000_000_000_000;
    let rad = AngleUnit::Degrees(Degrees(x)).as_radians();
    let back = AngleUnit::Radians(rad).as_degrees();
    let err = (back.0 - x).abs();
    assert!(err <= 29, "round trip error {} pico-degrees", err);
}

#[test]
fn radian_round_trip_is_exact() {
    let x: i64 = 1_234_567_890_123;
    let deg = AngleUnit::Radians(Radians(x)).as_degrees();
    let back = AngleUnit::Degrees(deg).as_radians();
    assert_eq!(back.0, x);
}

#[test]
fn radian_to_degrees_rejects_degree_input() {
    let d = AngleUnit::Degrees(Degrees(10));
    let r = d.radian_to_degrees();
    assert_eq!(r.unwrap_err(), "Data is not in radian");
    let ok = AngleUnit::Radians(Radians(0)).radian_to_degrees();
    assert_eq!(ok.unwrap(), Degrees(0));
}

#[test]
fn degrees_to_radian_rejects_radian_input() {
    let r = AngleUnit::Radians(Radians(10));
    assert_eq!(r.degrees_to_radian().unwrap_err(), "Data is not in degrees");
}

#[test]
fn value_reads_current_unit() {
    assert_eq!(AngleUnit::Degrees(Degrees(7)).value(), 7);
    assert_eq!(AngleUnit::Radians(Radians(-7)).value(), -7);
    assert_eq!(Degrees(3).inner(), 3);
    assert_eq!(Radians(-3).inner(), -3);
}
