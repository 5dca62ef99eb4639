use overhead_sat::calculate::calculate_overhead_satellites;
use overhead_sat::calculate::CartesianCoordinates;
use overhead_sat::calculate::OverheadError;
use overhead_sat::calculate::VisibilityRecord;
use overhead_sat::geolocation::Location;
use overhead_sat::tle::PredictionAtMinute;
use overhead_sat::units::AngleUnit;
use overhead_sat::units::Degrees;
use overhead_sat::units::LengthUnit;
use overhead_sat::units::Radians;

fn observer_at_origin() -> Location {
    Location {
        latitude: AngleUnit::Degrees(Degrees(0)),
        longitude: AngleUnit::Degrees(Degrees(0)),
        city: String::from("Gulf of Guinea"),
        country: String::from("High Seas"),
    }
}

fn km_sample(name: &str, minute: u32, x: i64, y: i64, z: i64) -> PredictionAtMinute {
    let position = CartesianCoordinates {
        x: LengthUnit::Km(x),
        y: LengthUnit::Km(y),
        z: LengthUnit::Km(z),
    };
    PredictionAtMinute::new(name, minute, position)
}

fn records_equal(a: &VisibilityRecord, b: &VisibilityRecord) -> bool {
    a.distance == b.distance
        && a.object_name == b.object_name
        && a.elevation == b.elevation
        && a.sub_point_latitude == b.sub_point_latitude
        && a.sub_point_longitude == b.sub_point_longitude
        && a.observer.latitude == b.observer.latitude
        && a.observer.longitude == b.observer.longitude
        && a.observer.city == b.observer.city
        && a.observer.country == b.observer.country
}

#[test]
fn overhead_sample_is_included_and_far_side_excluded() {
    // 500 km over the observer, and the same height on the far side
    let data = vec![
        km_sample("STATION A", 0, 6_878_137_000_000, 0, 0),
        km_sample("STATION A", 1, -6_878_137_000_000, 0, 0),
    ];
    let observer = observer_at_origin();
    let records = calculate_overhead_satellites(data, &observer).unwrap();
    assert_eq!(records.len(), 1);
    let r = &records[0];
    assert_eq!(r.object_name, "STATION A");
    assert_eq!(r.elevation, Degrees(90_000_000_000_000));
    assert_eq!(r.distance, LengthUnit::M(0));
    assert_eq!(r.sub_point_latitude, Degrees(0));
    assert_eq!(r.sub_point_longitude, Degrees(0));
    assert_eq!(r.observer.city, "Gulf of Guinea");
    assert_eq!(r.observer.country, "High Seas");
}

#[test]
fn pipeline_is_deterministic() {
    let build = || {
        vec![
            km_sample("ONE", 0, 6_878_137_000_000, 0, 0),
            km_sample("TWO", 1, 0, 6_900_000_000_000, 0),
            km_sample("THREE", 2, 4_000_000_000_000, 4_000_000_000_000, 2_000_000_000_000),
        ]
    };
    let first = calculate_overhead_satellites(build(), &observer_at_origin()).unwrap();
    let second = calculate_overhead_satellites(build(), &observer_at_origin()).unwrap();
    assert_eq!(first.len(), second.len());
    for (a, b) in first.iter().zip(second.iter()) {
        assert!(records_equal(a, b));
    }
}

#[test]
fn order_of_records_follows_input_order() {
    let data = vec![
        km_sample("LOW", 0, -6_878_137_000_000, 0, 0),
        km_sample("FIRST", 1, 6_878_137_000_000, 0, 0),
        km_sample("SECOND", 2, 6_500_000_000_000, 0, 0),
    ];
    let records = calculate_overhead_satellites(data, &observer_at_origin()).unwrap();
    assert_eq!(records.len(), 2);
    assert_eq!(records[0].object_name, "FIRST");
    assert_eq!(records[1].object_name, "SECOND");
}

#[test]
fn radian_tagged_observer_is_malformed() {
    let observer = Location {
        latitude: AngleUnit::Radians(Radians(0)),
        longitude: AngleUnit::Degrees(Degrees(0)),
        city: String::new(),
        country: String::new(),
    };
    let r = calculate_overhead_satellites(Vec::new(), &observer);
    assert_eq!(r.unwrap_err(), OverheadError::MalformedObserver);
}

#[test]
fn out_of_range_observer_is_malformed() {
    let observer = Location {
        latitude: AngleUnit::Degrees(Degrees(91_000_000_000_000)),
        longitude: AngleUnit::Degrees(Degrees(0)),
        city: String::new(),
        country: String::new(),
    };
    let r = calculate_overhead_satellites(Vec::new(), &observer);
    assert_eq!(r.unwrap_err(), OverheadError::MalformedObserver);
}

#[test]
fn meter_tagged_sample_is_malformed() {
    let position = CartesianCoordinates {
        x: LengthUnit::M(1),
        y: LengthUnit::M(2),
        z: LengthUnit::M(3),
    };
    let data = vec![PredictionAtMinute::new("BAD", 0, position)];
    let r = calculate_overhead_satellites(data, &observer_at_origin());
    assert_eq!(r.unwrap_err(), OverheadError::MalformedSample);
}

#[test]
fn oversized_sample_is_malformed() {
    let data = vec![km_sample("FAR", 0, 200_000_000_000_000, 0, 0)];
    let r = calculate_overhead_satellites(data, &observer_at_origin());
    assert_eq!(r.unwrap_err(), OverheadError::MalformedSample);
}

#[test]
fn empty_batch_yields_no_records() {
    let r = calculate_overhead_satellites(Vec::new(), &observer_at_origin()).unwrap();
    assert!(r.is_empty());
}
