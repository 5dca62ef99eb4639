use overhead_sat::geolocation::get_user_geolocation;
use overhead_sat::geolocation::parse_decimal_pico;
use overhead_sat::geolocation::GeolocationError;
use overhead_sat::geolocation::Ip;
use overhead_sat::units::AngleUnit;
use overhead_sat::units::Degrees;

#[test]
fn parse_decimal_pico_reads_plain_and_fractional_numbers() {
    assert_eq!(parse_decimal_pico("0"), Some(0));
    assert_eq!(parse_decimal_pico("12.5"), Some(12_500_000_000_000));
    assert_eq!(parse_decimal_pico("-0.25"), Some(-250_000_000_000));
    assert_eq!(parse_decimal_pico("51.5074"), Some(51_507_400_000_000));
    assert_eq!(parse_decimal_pico("180"), Some(180_000_000_000_000));
}

#[test]
fn parse_decimal_pico_truncates_past_twelve_fraction_digits() {
    assert_eq!(parse_decimal_pico("12.3456789012345"), Some(12_345_678_901_234));
}

#[test]
fn parse_decimal_pico_rejects_malformed_text() {
    assert_eq!(parse_decimal_pico(""), None);
    assert_eq!(parse_decimal_pico("."), None);
    assert_eq!(parse_decimal_pico(".5"), None);
    assert_eq!(parse_decimal_pico("5."), None);
    assert_eq!(parse_decimal_pico("1e5"), None);
    assert_eq!(parse_decimal_pico("12a"), None);
    assert_eq!(parse_decimal_pico("--1"), None);
    assert_eq!(parse_decimal_pico("1234567"), None);
    assert_eq!(parse_decimal_pico("1.2.3"), None);
}

#[test]
fn geolocation_answer_is_read_into_a_location() {
    let body = "{\"lat\":51.5074,\"lon\":-0.1278,\"city\":\"London\",\"country\":\"United Kingdom\"}";
    let loc = get_user_geolocation(body).unwrap();
    assert_eq!(loc.latitude, AngleUnit::Degrees(Degrees(51_507_400_000_000)));
    assert_eq!(loc.longitude, AngleUnit::Degrees(Degrees(-127_800_000_000)));
    // the service fields are kept as their JSON renderings
    assert_eq!(loc.city, "\"London\"");
    assert_eq!(loc.country, "\"United Kingdom\"");
}

#[test]
fn non_json_answer_is_an_invalid_response() {
    let r = get_user_geolocation("not json at all");
    assert_eq!(r.unwrap_err(), GeolocationError::InvalidResponse);
}

#[test]
fn non_decimal_coordinate_is_invalid() {
    let body = "{\"lat\":true,\"lon\":2.0,\"city\":\"X\",\"country\":\"Y\"}";
    let r = get_user_geolocation(body);
    assert_eq!(r.unwrap_err(), GeolocationError::InvalidCoordinate);
}

#[test]
fn missing_fields_render_as_null_and_fail_the_decimal_read() {
    let body = "{\"city\":\"X\"}";
    let r = get_user_geolocation(body);
    assert_eq!(r.unwrap_err(), GeolocationError::InvalidCoordinate);
}

#[test]
fn ip_wrapper_keeps_the_text() {
    let ip = Ip::new("203.0.113.7");
    assert_eq!(ip.inner(), "203.0.113.7");
}
