use overhead_sat::calculate::BowringsMethod;
use overhead_sat::calculate::CartesianCoordinates;
use overhead_sat::calculate::determine_overhead;
use overhead_sat::calculate::earth_radius;
use overhead_sat::calculate::elevation_angle;
use overhead_sat::calculate::flattening;
use overhead_sat::calculate::get_eccentricity_squared;
use overhead_sat::calculate::haversine_great_distance;
use overhead_sat::units::AngleUnit;
use overhead_sat::units::Degrees;
use overhead_sat::units::LengthUnit;
use overhead_sat::units::Radians;

fn meters(x: i64, y: i64, z: i64) -> CartesianCoordinates {
    CartesianCoordinates { x: LengthUnit::M(x), y: LengthUnit::M(y), z: LengthUnit::M(z) }
}

#[test]
fn constants_match_wgs84() {
    assert_eq!(earth_radius(), LengthUnit::M(6_378_137_000_000_000));
    assert_eq!(flattening(), 335_281_055);
    assert_eq!(get_eccentricity_squared(), 66_943_797_614_158_086_975i128);
}

#[test]
fn equator_surface_point_is_zero_zero_zero() {
    let p = meters(6_378_137_000_000_000, 0, 0);
    let g = BowringsMethod::to_geodetic(&p);
    assert_eq!(g.longitude, AngleUnit::Radians(Radians(0)));
    assert_eq!(g.latitude, AngleUnit::Radians(Radians(0)));
    assert_eq!(g.altitude, LengthUnit::M(0));
}

#[test]
fn polar_radius_point_has_near_polar_latitude() {
    let p = meters(0, 0, 6_356_752_314_245_000);
    let g = BowringsMethod::to_geodetic(&p);
    let lat_deg = g.latitude.as_degrees().0;
    // within a micro-degree of the pole; the closed-form altitude is
    // unstable there, so only the latitude is checked
    assert!(
        (lat_deg - 90_000_000_000_000).abs() < 1_000_000,
        "latitude {} pico-degrees",
        lat_deg
    );
}

#[test]
fn longitude_signs_on_the_axes() {
    let east = BowringsMethod::to_geodetic(&meters(0, 6_378_137_000_000_000, 0));
    assert_eq!(east.longitude, AngleUnit::Radians(Radians(1_570_796_326_795)));
    let east_deg = east.longitude.as_degrees().0;
    assert!((east_deg - 90_000_000_000_000).abs() <= 100, "east {}", east_deg);
    let anti = BowringsMethod::to_geodetic(&meters(-6_378_137_000_000_000, 0, 0));
    assert_eq!(anti.longitude, AngleUnit::Radians(Radians(3_141_592_653_590)));
    let lon_deg = anti.longitude.as_degrees().0;
    assert!((lon_deg - 180_000_000_000_000).abs() <= 100, "antimeridian {}", lon_deg);
}

#[test]
fn distance_to_self_is_zero() {
    let lat = Radians(421_000_000_000);
    let lon = Radians(-1_000_000_000_000);
    let d = haversine_great_distance(&lat, &lon, &lat, &lon);
    assert_eq!(d, LengthUnit::M(0));
}

#[test]
fn distance_is_symmetric() {
    let alat = Radians(421_000_000_000);
    let alon = Radians(-1_000_000_000_000);
    let blat = Radians(-900_000_000_000);
    let blon = Radians(2_000_000_000_000);
    let ab = haversine_great_distance(&alat, &alon, &blat, &blon);
    let ba = haversine_great_distance(&blat, &blon, &alat, &alon);
    assert_eq!(ab, ba);
    assert!(ab.inner() > 0);
}

#[test]
fn one_degree_of_latitude_at_the_equator() {
    // one degree of arc on a sphere of the WGS84 semi-major radius:
    // 6378137 m * pi / 180 = 111319.49079... m
    let zero = Radians(0);
    let one_deg = AngleUnit::Degrees(Degrees(1_000_000_000_000)).as_radians();
    let d = haversine_great_distance(&zero, &zero, &one_deg, &zero);
    let nano_m = d.inner();
    assert!(
        (nano_m - 111_319_490_793_273).abs() <= 50_000_000_000,
        "one degree was {} nano-meters",
        nano_m
    );
}

#[test]
fn elevation_angle_of_zero_distance_is_zero() {
    let d = LengthUnit::M(0);
    let alt = LengthUnit::M(500_000_000_000_000);
    assert_eq!(elevation_angle(&d, &alt), Degrees(0));
}

#[test]
fn elevation_angle_of_equal_distance_and_altitude() {
    let d = LengthUnit::M(1_000_000_000_000_000);
    let alt = LengthUnit::M(1_000_000_000_000_000);
    let a = elevation_angle(&d, &alt);
    assert!(
        (a.0 - 45_000_000_000_000).abs() <= 10_000_000,
        "elevation {} pico-degrees",
        a.0
    );
}

#[test]
fn visibility_band_edges() {
    assert!(determine_overhead(&Degrees(90_000_000_000_000)));
    assert!(determine_overhead(&Degrees(65_000_000_000_000)));
    assert!(determine_overhead(&Degrees(110_000_000_000_000)));
    assert!(!determine_overhead(&Degrees(64_999_999_999_999)));
    assert!(!determine_overhead(&Degrees(110_000_000_000_001)));
    assert!(!determine_overhead(&Degrees(0)));
    assert!(!determine_overhead(&Degrees(-5_000_000_000_000)));
}

#[test]
fn from_km_to_m_converts_and_rejects() {
    let km = CartesianCoordinates::new([1_000_000_000, 2_000_000_000, -3_000_000_000]);
    let m = km.from_km_to_m().unwrap();
    assert_eq!(m.x, LengthUnit::M(1_000_000_000_000));
    assert_eq!(m.y, LengthUnit::M(2_000_000_000_000));
    assert_eq!(m.z, LengthUnit::M(-3_000_000_000_000));
    let already = meters(1, 2, 3);
    assert_eq!(already.from_km_to_m().unwrap_err(), "Data is in m format already");
}

#[test]
fn geodetic_radian_to_degrees_converts_all_angles() {
    let p = meters(6_378_137_000_000_000, 0, 0);
    let g = BowringsMethod::to_geodetic(&p);
    let d = g.radian_to_degrees().unwrap();
    assert_eq!(d.latitude, AngleUnit::Degrees(Degrees(0)));
    assert_eq!(d.longitude, AngleUnit::Degrees(Degrees(0)));
    assert_eq!(d.altitude, LengthUnit::M(0));
    assert!(d.radian_to_degrees().is_err());
}

#[test]
fn a_generic_point_matches_the_closed_form() {
    // reference values computed from the same closed-form transform in
    // high-precision arithmetic
    let g = BowringsMethod::to_geodetic(&meters(3_875_000_000_000_000, 332_000_000_000_000, 5_028_000_000_000_000));
    let lon = match g.longitude {
        AngleUnit::Radians(r) => r.0,
        AngleUnit::Degrees(_) => panic!("unexpected unit"),
    };
    let lat = match g.latitude {
        AngleUnit::Radians(r) => r.0,
        AngleUnit::Degrees(_) => panic!("unexpected unit"),
    };
    assert!((lon - 85_468_696_083).abs() <= 20, "longitude {}", lon);
    assert!((lat - 915_664_667_548).abs() <= 20, "latitude {}", lat);
    // about 8166.106 m below the ellipsoid; a tenth of a millimeter slack
    assert!((g.altitude.inner() - (-8_166_106_462_794i64)).abs() <= 100_000, "altitude {}", g.altitude.inner());
}

#[test]
fn a_generic_pair_matches_the_haversine_formula() {
    let ulat = Radians(898_200_000_000);
    let ulon = Radians(-2_300_000_000);
    let slat = Radians(853_000_000_000);
    let slon = Radians(41_100_000_000);
    let d = haversine_great_distance(&ulat, &ulon, &slat, &slon);
    // about 338406.242 m; a millimeter of slack
    assert!((d.inner() - 338_406_242_321_383i64).abs() <= 1_000_000, "distance {}", d.inner());
}
