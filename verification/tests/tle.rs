use overhead_sat::tle::get_url;
use overhead_sat::tle::parse_tle_data;
use overhead_sat::tle::PredictionAtMinute;
use overhead_sat::calculate::CartesianCoordinates;
use overhead_sat::units::LengthUnit;

const ISS_3LE: &str = "ISS (ZARYA)\n1 25544U 98067A   08264.51782528 -.00002182  00000-0 -11606-4 0  2927\n2 25544  51.6416 247.4627 0006703 130.5360 325.0288 15.72125391563537\n";

#[test]
fn station_listing_url() {
    assert_eq!(get_url(), "https://celestrak.org/NORAD/elements/gp.php?GROUP=stations");
}

#[test]
fn a_three_line_element_set_parses() {
    let tles = parse_tle_data(ISS_3LE).unwrap();
    assert_eq!(tles.len(), 1);
    assert_eq!(tles[0].inner().inner().norad_id, 25544);
    assert_eq!(
        tles[0].inner().inner().object_name.as_deref(),
        Some("ISS (ZARYA)")
    );
}

#[test]
fn element_sets_can_be_cloned() {
    let tles = parse_tle_data(ISS_3LE).unwrap();
    let copy = tles[0].inner().clone();
    assert_eq!(copy.inner().norad_id, 25544);
    assert_eq!(copy.inner().element_set_number, 292);
}

#[test]
fn garbled_element_text_is_refused() {
    let r = parse_tle_data("NAME\ngarbage line one\ngarbage line two\n");
    assert!(r.is_err());
}

#[test]
fn prediction_sample_carries_its_fields() {
    let position = CartesianCoordinates {
        x: LengthUnit::Km(1),
        y: LengthUnit::Km(2),
        z: LengthUnit::Km(3),
    };
    let p = PredictionAtMinute::new("SAT", 42, position);
    assert_eq!(p.satellite_name, "SAT");
    assert_eq!(p.minute, 42);
    assert_eq!(p.prediction.x, LengthUnit::Km(1));
}
