//! The geometry engine: ECEF cartesian vectors to geodetic coordinates by
//! the closed-form (Bowring/Osen style) ellipsoidal transform on the WGS84
//! ellipsoid, haversine great-circle distance between sub-points, an
//! elevation estimate, and the visibility pipeline.
//!
//! All arithmetic is scaled-integer: lengths in nano-meters, angles in
//! pico-radians or pico-degrees, sines and cosines at scale `1e18`. Every
//! executable function is pinned to a spec-level mirror of the same
//! computation.
use vstd::prelude::*;
use crate::fixed::tdiv;
use crate::fixed::rdiv;
use crate::fixed::spec_clamp;
use crate::fixed::spec_isqrt;
use crate::fixed::spec_sat_i64;
use crate::fixed::tdiv_i128;
use crate::fixed::rdiv_i128;
use crate::fixed::isqrt_u128;
use crate::fixed::sat_i64;
use crate::fixed::lemma_rdiv_abs_le;
use crate::fixed::lemma_rdiv_upper;
use crate::fixed::lemma_rdiv_upper_strict;
use crate::fixed::lemma_isqrt_bounds;
use crate::fixed::lemma_isqrt_unique;
use crate::trig::spec_atan2_pico;
use crate::trig::spec_sincos_e18;
use crate::trig::atan2_pico;
use crate::trig::sincos_e18;
use crate::trig::PI_PICO;
use crate::trig::SCALE_E18;
use crate::units::LengthUnit;
use crate::units::Degrees;
use crate::units::Radians;
use crate::units::AngleUnit;
use crate::units::rad_to_deg_pico;
use crate::units::rad_to_deg;
use crate::units::MAX_RAD_PICO;
use crate::units::MAX_KM_NANO;
use crate::units::deg_to_rad_pico;
use crate::units::lemma_deg_to_rad_in_range;
use crate::geolocation::Location;
use crate::geolocation::LocationView;
use crate::geolocation::clone_string;
use crate::tle::PredictionAtMinute;
use crate::tle::PredictionAtMinuteView;

verus! {

/// WGS84 semi-major axis in nano-meters.
pub const EARTH_RADIUS_M_NANO: i64 = 6_378_137_000_000_000;

/// WGS84 flattening at scale `1e11` (`0.00335281055`).
pub const FLATTENING_E11: i64 = 335_281_055;

/// Eccentricity squared, `2 f - f^2`, at scale `1e22`.
pub const ECCENTRICITY_SQ_E22: i128 = 66_943_797_614_158_086_975;

/// Largest ECEF component magnitude the converter accepts, in nano-meters
/// (one hundred thousand kilometers; keeps every product inside `i128`).
pub const MAX_ECEF_M_NANO: i64 = 100_000_000_000_000_000;

/// The WGS84 semi-major axis as a tagged length in meters.
pub fn earth_radius() -> (r: LengthUnit)
    ensures
        r == LengthUnit::M(EARTH_RADIUS_M_NANO),
{
    LengthUnit::M(EARTH_RADIUS_M_NANO)
}

/// The WGS84 flattening, at scale `1e11`.
pub fn flattening() -> (r: i64)
    ensures
        r == FLATTENING_E11,
{
    FLATTENING_E11
}

/// Eccentricity squared derived from the flattening, `2 f - f^2`, exactly,
/// at scale `1e22`.
pub fn get_eccentricity_squared() -> (r: i128)
    ensures
        r == 2 * (FLATTENING_E11 as int) * 100_000_000_000 - (FLATTENING_E11 as int) * (FLATTENING_E11 as int),
        r == ECCENTRICITY_SQ_E22,
{
    let f: i128 = FLATTENING_E11 as i128;
    let twice: i128 = 2 * f * 100_000_000_000;
    let square: i128 = f * f;
    twice - square
}

/// Fixed-point product of two scale-`1e18` values, truncated back to the
/// scale; stays within the scale when both factors do.
pub fn mul_scaled(a: i64, b: i64) -> (r: i64)
    requires
        -SCALE_E18 <= a <= SCALE_E18,
        -SCALE_E18 <= b <= SCALE_E18,
    ensures
        r == tdiv(a as int * b as int, SCALE_E18 as int),
        -SCALE_E18 <= r <= SCALE_E18,
        a == b ==> r >= 0,
{
    proof {
        assert(-(SCALE_E18 as int * SCALE_E18 as int) <= (a as int) * (b as int)
            <= SCALE_E18 as int * SCALE_E18 as int) by (nonlinear_arith)
            requires
                -SCALE_E18 <= a <= SCALE_E18,
                -SCALE_E18 <= b <= SCALE_E18,
        ;
        assert(a == b ==> (a as int) * (b as int) >= 0) by (nonlinear_arith);
    }
    let p: i128 = (a as i128) * (b as i128);
    proof {
        let m = if p >= 0 { p as int } else { -p as int };
        vstd::arithmetic::div_mod::lemma_multiply_divide_le(m, SCALE_E18 as int, SCALE_E18 as int);
        vstd::arithmetic::div_mod::lemma_div_pos_is_pos(m, SCALE_E18 as int);
    }
    let r128 = tdiv_i128(p, SCALE_E18 as i128);
    r128 as i64
}

/// A geodetic position: longitude and latitude (radians as produced by the
/// converter) and the height over the ellipsoid.
#[derive(Debug, Clone, Copy, PartialEq, Eq, Structural)]
pub struct GeodeticCoordinates {
    pub longitude: AngleUnit,
    pub latitude: AngleUnit,
    pub altitude: LengthUnit,
}

/// An ECEF cartesian vector; the three components carry one unit tag.
#[derive(Debug, Clone, Copy, PartialEq, Eq, Structural)]
pub struct CartesianCoordinates {
    pub x: LengthUnit,
    pub y: LengthUnit,
    pub z: LengthUnit,
}

impl GeodeticCoordinates {
    /// All three components carry radian / meter tags.
    pub open spec fn wf(self) -> bool {
        self.longitude is Radians && self.latitude is Radians && self.altitude is M
    }

    fn new(longitude: i64, latitude: i64, altitude: LengthUnit) -> (r: Self)
        ensures
            r.longitude == AngleUnit::Radians(Radians(longitude)),
            r.latitude == AngleUnit::Radians(Radians(latitude)),
            r.altitude == altitude,
    {
        GeodeticCoordinates {
            altitude,
            latitude: AngleUnit::Radians(Radians(latitude)),
            longitude: AngleUnit::Radians(Radians(longitude)),
        }
    }

    /// The same position with both angles converted to degree tags; a
    /// position whose angles are already degrees is reported as such.
    pub fn radian_to_degrees(&self) -> (r: Result<Self, &str>)
        requires
            self.longitude is Radians ==> -MAX_RAD_PICO <= self.longitude.spec_value() <= MAX_RAD_PICO,
            self.latitude is Radians ==> -MAX_RAD_PICO <= self.latitude.spec_value() <= MAX_RAD_PICO,
        ensures
            (self.latitude is Radians && self.longitude is Radians) <==> r is Ok,
            r matches Ok(g) ==> {
                &&& g.latitude == AngleUnit::Degrees(self.latitude.spec_as_degrees())
                &&& g.longitude == AngleUnit::Degrees(self.longitude.spec_as_degrees())
                &&& g.altitude == self.altitude
            },
            r matches Err(m) ==> m@ == "Data is not in radian"@,
    {
        let latitude = match self.latitude.radian_to_degrees() {
            Ok(d) => d,
            Err(m) => {
                return Err(m);
            },
        };
        let longitude = match self.longitude.radian_to_degrees() {
            Ok(d) => d,
            Err(m) => {
                return Err(m);
            },
        };
        Ok(GeodeticCoordinates {
            altitude: self.altitude,
            latitude: AngleUnit::Degrees(latitude),
            longitude: AngleUnit::Degrees(longitude),
        })
    }
}

impl CartesianCoordinates {
    /// All three components carry one and the same unit tag.
    pub open spec fn uniform_unit(self) -> bool {
        (self.x is Km <==> self.y is Km) && (self.x is Km <==> self.z is Km)
    }

    /// Every kilometer-tagged component is small enough to convert to
    /// meters without overflow.
    pub open spec fn m_convertible(self) -> bool {
        &&& (self.x is Km ==> -MAX_KM_NANO <= self.x.spec_value() <= MAX_KM_NANO)
        &&& (self.y is Km ==> -MAX_KM_NANO <= self.y.spec_value() <= MAX_KM_NANO)
        &&& (self.z is Km ==> -MAX_KM_NANO <= self.z.spec_value() <= MAX_KM_NANO)
    }

    /// Wrap a raw `[x, y, z]` sample, in nano-kilometers.
    pub fn new(from: [i64; 3]) -> (r: Self)
        ensures
            r.x == LengthUnit::Km(from[0]),
            r.y == LengthUnit::Km(from[1]),
            r.z == LengthUnit::Km(from[2]),
            r.uniform_unit(),
    {
        let x = from[0];
        let y = from[1];
        let z = from[2];
        CartesianCoordinates { x: LengthUnit::Km(x), y: LengthUnit::Km(y), z: LengthUnit::Km(z) }
    }

    /// Convert a kilometer vector to meters; a vector already in meters is
    /// reported as such.
    pub fn from_km_to_m(&self) -> (r: Result<Self, &str>)
        requires
            self.x is Km ==> self.m_convertible(),
        ensures
            self.x is M <==> r is Err,
            r matches Ok(c) ==> {
                &&& c.x == self.x.spec_m()
                &&& c.y == self.y.spec_m()
                &&& c.z == self.z.spec_m()
                &&& c.uniform_unit()
            },
            r matches Err(m) ==> m@ == "Data is in m format already"@,
    {
        if let LengthUnit::M(_) = self.x {
            return Err("Data is in m format already");
        }
        let x = self.x.m();
        let y = self.y.m();
        let z = self.z.m();
        Ok(CartesianCoordinates { x, y, z })
    }
}

/// The marker type for the closed-form ellipsoidal conversion.
pub struct BowringsMethod;

/// The ECEF-to-geodetic transform on nano-meter components, producing
/// (longitude pico-rad, latitude pico-rad, altitude nano-m):
/// `p = sqrt(x^2 + y^2)`; `longitude = atan2(y, x)`;
/// `beta = (1 - f) * atan2(z, p)`;
/// `latitude = atan2(z + e^2 a sin^3 beta, p - e^2 a cos^3 beta)`;
/// `N = a / sqrt(1 - e^2 sin^2 latitude)`;
/// `altitude = p / cos(latitude) - N` (saturated into `i64`; `-N` on a
/// vanishing cosine, the polar limit of the unstable closed form).
pub open spec fn spec_to_geodetic(x: int, y: int, z: int) -> (int, int, int) {
    let scale = SCALE_E18 as int;
    let p = spec_isqrt((x * x + y * y) as nat) as int;
    let lon = spec_atan2_pico(y, x);
    let beta = rdiv(spec_atan2_pico(z, p) * (100_000_000_000 - FLATTENING_E11 as int), 100_000_000_000);
    let sc_b = spec_sincos_e18(beta);
    let sb3 = tdiv(tdiv(sc_b.0 * sc_b.0, scale) * sc_b.0, scale);
    let cb3 = tdiv(tdiv(sc_b.1 * sc_b.1, scale) * sc_b.1, scale);
    let e2a = rdiv(ECCENTRICITY_SQ_E22 as int * 6_378_137, 10_000_000_000_000);
    let num = z + tdiv(e2a * sb3, scale);
    let den = p - tdiv(e2a * cb3, scale);
    let lat = spec_atan2_pico(num, den);
    let sc_l = spec_sincos_e18(lat);
    let s2 = tdiv(sc_l.0 * sc_l.0, scale);
    let e2s2 = tdiv(ECCENTRICITY_SQ_E22 as int * s2, 10_000_000_000_000_000_000_000);
    let nsqrt = spec_isqrt(((scale - e2s2) * scale) as nat) as int;
    let nval = tdiv(EARTH_RADIUS_M_NANO as int * scale, nsqrt);
    let alt = if sc_l.1 == 0 {
        spec_sat_i64(-nval)
    } else if sc_l.1 > 0 {
        spec_sat_i64(tdiv(p * scale, sc_l.1) - nval)
    } else {
        spec_sat_i64(-tdiv(p * scale, -sc_l.1) - nval)
    };
    (lon, lat, alt)
}

impl BowringsMethod {
    /// Convert an ECEF vector in meters to geodetic coordinates, exactly as
    /// `spec_to_geodetic` states.
    pub fn to_geodetic(cartesian_coordinates: &CartesianCoordinates) -> (r: GeodeticCoordinates)
        requires
            cartesian_coordinates.x is M,
            cartesian_coordinates.y is M,
            cartesian_coordinates.z is M,
            -MAX_ECEF_M_NANO <= cartesian_coordinates.x.spec_value() <= MAX_ECEF_M_NANO,
            -MAX_ECEF_M_NANO <= cartesian_coordinates.y.spec_value() <= MAX_ECEF_M_NANO,
            -MAX_ECEF_M_NANO <= cartesian_coordinates.z.spec_value() <= MAX_ECEF_M_NANO,
        ensures
            ({
                let g = spec_to_geodetic(
                    cartesian_coordinates.x.spec_value(),
                    cartesian_coordinates.y.spec_value(),
                    cartesian_coordinates.z.spec_value(),
                );
                &&& r.longitude == AngleUnit::Radians(Radians(g.0 as i64))
                &&& r.latitude == AngleUnit::Radians(Radians(g.1 as i64))
                &&& r.altitude == LengthUnit::M(g.2 as i64)
                &&& -PI_PICO <= g.0 <= PI_PICO
                &&& -PI_PICO <= g.1 <= PI_PICO
            }),
            r.wf(),
    {
        let scale: i128 = SCALE_E18 as i128;
        let x = cartesian_coordinates.x.inner();
        let y = cartesian_coordinates.y.inner();
        let z = cartesian_coordinates.z.inner();
        proof {
            assert(0 <= (x as int) * (x as int) <= 10_000_000_000_000_000_000_000_000_000_000_000
                && 0 <= (y as int) * (y as int) <= 10_000_000_000_000_000_000_000_000_000_000_000)
                by (nonlinear_arith)
                requires
                    -MAX_ECEF_M_NANO <= x <= MAX_ECEF_M_NANO,
                    -MAX_ECEF_M_NANO <= y <= MAX_ECEF_M_NANO,
            ;
        }
        let xx: i128 = (x as i128) * (x as i128);
        let yy: i128 = (y as i128) * (y as i128);
        let psq: u128 = (xx + yy) as u128;
        let p128: u128 = isqrt_u128(psq);
        proof {
            lemma_isqrt_bounds(psq as nat);
            assert(spec_isqrt(psq as nat) <= 200_000_000_000_000_000) by (nonlinear_arith)
                requires
                    spec_isqrt(psq as nat) * spec_isqrt(psq as nat) <= psq,
                    psq <= 20_000_000_000_000_000_000_000_000_000_000_001,
            ;
        }
        let p: i128 = p128 as i128;
        let lon = atan2_pico(y as i128, x as i128);
        let zp = atan2_pico(z as i128, p);
        proof {
            lemma_rdiv_abs_le(
                zp as int * (100_000_000_000 - FLATTENING_E11 as int),
                PI_PICO as int * (100_000_000_000 - FLATTENING_E11 as int),
                100_000_000_000,
            );
            assert(-(PI_PICO as int * (100_000_000_000 - FLATTENING_E11 as int))
                <= zp as int * (100_000_000_000 - FLATTENING_E11 as int)
                <= PI_PICO as int * (100_000_000_000 - FLATTENING_E11 as int)) by (nonlinear_arith)
                requires
                    -PI_PICO <= zp <= PI_PICO,
            ;
        }
        let beta128 = rdiv_i128(zp as i128 * (100_000_000_000 - FLATTENING_E11 as i128), 100_000_000_000);
        let beta: i64 = beta128 as i64;
        let (sb, cb) = sincos_e18(beta);
        let sb3: i64 = mul_scaled(mul_scaled(sb, sb), sb);
        let cb3: i64 = mul_scaled(mul_scaled(cb, cb), cb);
        let e2a: i128 = rdiv_i128(ECCENTRICITY_SQ_E22 * 6_378_137, 10_000_000_000_000);
        proof {
            assert(ECCENTRICITY_SQ_E22 as int * 6_378_137 == 426_976_712_483_373_418_384_465_575int)
                by (nonlinear_arith);
            lemma_rdiv_upper(426_976_712_483_373_418_384_465_575int, 10_000_000_000_000, 43_000_000_000_000);
            lemma_rdiv_abs_le(
                ECCENTRICITY_SQ_E22 as int * 6_378_137,
                426_976_712_483_373_418_384_465_575int,
                10_000_000_000_000,
            );
            vstd::arithmetic::div_mod::lemma_div_pos_is_pos(
                2 * (ECCENTRICITY_SQ_E22 as int * 6_378_137) + 10_000_000_000_000,
                2 * 10_000_000_000_000int,
            );
            assert(0 <= e2a <= 43_000_000_000_000);
        }
        proof {
            assert(-(43_000_000_000_000int * SCALE_E18 as int) <= e2a as int * sb3 as int
                <= 43_000_000_000_000int * SCALE_E18 as int
                && -(43_000_000_000_000int * SCALE_E18 as int) <= e2a as int * cb3 as int
                <= 43_000_000_000_000int * SCALE_E18 as int) by (nonlinear_arith)
                requires
                    0 <= e2a <= 43_000_000_000_000,
                    -SCALE_E18 <= sb3 <= SCALE_E18,
                    -SCALE_E18 <= cb3 <= SCALE_E18,
            ;
        }
        let num: i128 = z as i128 + tdiv_i128(e2a * sb3 as i128, scale);
        let den: i128 = p - tdiv_i128(e2a * cb3 as i128, scale);
        let lat = atan2_pico(num, den);
        let (sl, cl) = sincos_e18(lat);
        let s2: i64 = mul_scaled(sl, sl);
        proof {
            assert(0 <= ECCENTRICITY_SQ_E22 as int * s2 as int
                <= ECCENTRICITY_SQ_E22 as int * SCALE_E18 as int) by (nonlinear_arith)
                requires
                    0 <= s2 <= SCALE_E18,
            ;
            vstd::arithmetic::div_mod::lemma_multiply_divide_le(
                ECCENTRICITY_SQ_E22 as int * s2 as int,
                10_000_000_000_000_000_000_000,
                6_694_379_761_415_809,
            );
            vstd::arithmetic::div_mod::lemma_div_pos_is_pos(
                ECCENTRICITY_SQ_E22 as int * s2 as int,
                10_000_000_000_000_000_000_000,
            );
        }
        let e2s2: i128 = tdiv_i128(ECCENTRICITY_SQ_E22 * s2 as i128, 10_000_000_000_000_000_000_000);
        let narg: i128 = scale - e2s2;
        proof {
            assert(0 <= (narg as int) * (scale as int) <= scale * scale) by (nonlinear_arith)
                requires
                    0 < narg <= scale,
                    scale == SCALE_E18 as i128,
            ;
        }
        let nsqrt128: u128 = isqrt_u128((narg * scale) as u128);
        proof {
            lemma_isqrt_bounds((narg * scale) as nat);
            assert(spec_isqrt((narg * scale) as nat) <= SCALE_E18) by (nonlinear_arith)
                requires
                    spec_isqrt((narg * scale) as nat) * spec_isqrt((narg * scale) as nat)
                        <= (narg * scale) as nat,
                    (narg * scale) as nat <= (SCALE_E18 as int) * (SCALE_E18 as int),
            ;
            assert(spec_isqrt((narg * scale) as nat) > 900_000_000_000_000_000) by (nonlinear_arith)
                requires
                    (spec_isqrt((narg * scale) as nat) + 1) * (spec_isqrt((narg * scale) as nat) + 1)
                        > (narg * scale) as nat,
                    (narg * scale) as int >= 990_000_000_000_000_000 * SCALE_E18 as int,
            ;
            assert((narg as int) * (scale as int) >= 990_000_000_000_000_000 * SCALE_E18 as int)
                by (nonlinear_arith)
                requires
                    narg >= 990_000_000_000_000_000,
                    scale == SCALE_E18 as i128,
            ;
        }
        let nsqrt: i128 = nsqrt128 as i128;
        let nval: i128 = tdiv_i128(EARTH_RADIUS_M_NANO as i128 * scale, nsqrt);
        let alt: i64 = if cl == 0 {
            sat_i64(-nval)
        } else if cl > 0 {
            sat_i64(tdiv_i128(p * scale, cl as i128) - nval)
        } else {
            sat_i64(-tdiv_i128(p * scale, -(cl as i128)) - nval)
        };
        proof {
            assert((lon as int, lat as int, alt as int) == spec_to_geodetic(x as int, y as int, z as int));
        }
        GeodeticCoordinates::new(lon, lat, LengthUnit::M(alt))
    }
}

/// The haversine surface distance in nano-meters between two points given
/// in pico-radians, on a sphere of the WGS84 semi-major radius:
/// `h = sin^2(dlat/2) + cos(lat1) cos(lat2) sin^2(dlon/2)` (clamped into
/// `[0, 1]`), `c = 2 atan2(sqrt(h), sqrt(1 - h))`, `d = a c`.
pub open spec fn spec_haversine(ulat: int, ulon: int, slat: int, slon: int) -> int {
    let scale = SCALE_E18 as int;
    let hlat = vstd::math::abs(tdiv(slat - ulat, 2));
    let hlon = vstd::math::abs(tdiv(slon - ulon, 2));
    let s1v = spec_sincos_e18(hlat as int).0;
    let s1 = tdiv(s1v * s1v, scale);
    let s2v = spec_sincos_e18(hlon as int).0;
    let s2 = tdiv(s2v * s2v, scale);
    let cu = spec_sincos_e18(ulat).1;
    let cs = spec_sincos_e18(slat).1;
    let term = tdiv(tdiv(cu * cs, scale) * s2, scale);
    let h = spec_clamp(s1 + term, 0, scale);
    let sh = spec_isqrt((h * scale) as nat) as int;
    let s1h = spec_isqrt(((scale - h) * scale) as nat) as int;
    let c = 2 * spec_atan2_pico(sh, s1h);
    let d = rdiv(EARTH_RADIUS_M_NANO as int * c, 1_000_000_000_000);
    if d < 0 {
        0
    } else {
        d
    }
}

/// The haversine great-circle distance between the observer and the
/// satellite sub-point, as a meter-tagged length.
pub fn haversine_great_distance(
    user_latitude: &Radians,
    user_longitude: &Radians,
    satellite_latitude: &Radians,
    satellite_longitude: &Radians,
) -> (r: LengthUnit)
    requires
        -PI_PICO <= user_latitude.0 <= PI_PICO,
        -PI_PICO <= user_longitude.0 <= PI_PICO,
        -PI_PICO <= satellite_latitude.0 <= PI_PICO,
        -PI_PICO <= satellite_longitude.0 <= PI_PICO,
    ensures
        r == LengthUnit::M(
            spec_haversine(
                user_latitude.0 as int,
                user_longitude.0 as int,
                satellite_latitude.0 as int,
                satellite_longitude.0 as int,
            ) as i64,
        ),
        r is M,
        0 <= r.spec_value() <= 50_000_000_000_000_000,
{
    let scale: i128 = SCALE_E18 as i128;
    let dlat: i64 = satellite_latitude.0 - user_latitude.0;
    let dlon: i64 = satellite_longitude.0 - user_longitude.0;
    let hlat0 = dlat / 2;
    let hlat: i64 = if hlat0 < 0 {
        -hlat0
    } else {
        hlat0
    };
    let hlon0 = dlon / 2;
    let hlon: i64 = if hlon0 < 0 {
        -hlon0
    } else {
        hlon0
    };
    let (s1v, _c1) = sincos_e18(hlat);
    let s1 = mul_scaled(s1v, s1v);
    let (s2v, _c2) = sincos_e18(hlon);
    let s2 = mul_scaled(s2v, s2v);
    let (_su, cu) = sincos_e18(user_latitude.0);
    let (_ss, cs) = sincos_e18(satellite_latitude.0);
    let term = mul_scaled(mul_scaled(cu, cs), s2);
    let hsum: i64 = s1 + term;
    let h: i128 = if hsum < 0 {
        0
    } else if hsum > SCALE_E18 {
        scale
    } else {
        hsum as i128
    };
    proof {
        assert(0 <= (h as int) * (scale as int) <= scale * scale
            && 0 <= ((scale - h) as int) * (scale as int) <= scale * scale) by (nonlinear_arith)
            requires
                0 <= h <= scale,
                scale == SCALE_E18 as i128,
        ;
        lemma_isqrt_bounds((h * scale) as nat);
        lemma_isqrt_bounds(((scale - h) * scale) as nat);
        assert(spec_isqrt((h * scale) as nat) <= SCALE_E18
            && spec_isqrt(((scale - h) * scale) as nat) <= SCALE_E18) by (nonlinear_arith)
            requires
                spec_isqrt((h * scale) as nat) * spec_isqrt((h * scale) as nat) <= (h * scale) as nat,
                spec_isqrt(((scale - h) * scale) as nat) * spec_isqrt(((scale - h) * scale) as nat)
                    <= ((scale - h) * scale) as nat,
                (h * scale) as nat <= (SCALE_E18 as int) * (SCALE_E18 as int),
                ((scale - h) * scale) as nat <= (SCALE_E18 as int) * (SCALE_E18 as int),
        ;
    }
    let sh: u128 = isqrt_u128((h * scale) as u128);
    let s1h: u128 = isqrt_u128(((scale - h) * scale) as u128);
    let c: i128 = 2 * (atan2_pico(sh as i128, s1h as i128) as i128);
    proof {
        lemma_rdiv_abs_le(
            EARTH_RADIUS_M_NANO as int * c,
            EARTH_RADIUS_M_NANO as int * 2 * PI_PICO as int,
            1_000_000_000_000,
        );
        assert(-(EARTH_RADIUS_M_NANO as int * 2 * PI_PICO as int)
            <= EARTH_RADIUS_M_NANO as int * c
            <= EARTH_RADIUS_M_NANO as int * 2 * PI_PICO as int) by (nonlinear_arith)
            requires
                -2 * PI_PICO as int <= c <= 2 * PI_PICO as int,
        ;
        assert(EARTH_RADIUS_M_NANO as int * 2 * PI_PICO as int
            == 40_075_016_685_581_123_660_000_000_000int) by (nonlinear_arith);
        lemma_rdiv_upper(
            40_075_016_685_581_123_660_000_000_000int,
            1_000_000_000_000,
            50_000_000_000_000_000,
        );
    }
    let d128: i128 = rdiv_i128(EARTH_RADIUS_M_NANO as i128 * c, 1_000_000_000_000);
    let d: i64 = if d128 < 0 {
        0
    } else {
        d128 as i64
    };
    proof {
        assert(d as int == spec_haversine(
            user_latitude.0 as int,
            user_longitude.0 as int,
            satellite_latitude.0 as int,
            satellite_longitude.0 as int,
        ));
    }
    LengthUnit::M(d)
}

/// The lower edge of the visibility band, in pico-degrees (65 degrees).
pub const MIN_VISIBLE_ELEVATION_DEG_PICO: i64 = 65_000_000_000_000;

/// The upper edge of the visibility band, in pico-degrees (110 degrees).
pub const MAX_VISIBLE_ELEVATION_DEG_PICO: i64 = 110_000_000_000_000;

/// The tangent-geometry angle `atan(distance / altitude)` in pico-degrees,
/// from a sub-point distance and a satellite altitude in nano-meters; zero
/// on a zero distance. This is a simplified estimate, not a topocentric
/// look angle: it ignores the observer's altitude and slant geometry.
pub open spec fn spec_elevation_angle(distance: int, altitude: int) -> int {
    if distance == 0 {
        0
    } else {
        rad_to_deg_pico(spec_atan2_pico(distance, altitude))
    }
}

/// The tangent-geometry angle between a sub-point distance and a satellite
/// altitude, in degrees.
pub fn elevation_angle(
    haversine_great_distance: &LengthUnit,
    satellite_altitude: &LengthUnit,
) -> (r: Degrees)
    requires
        haversine_great_distance is Km ==>
            -MAX_KM_NANO <= haversine_great_distance.spec_value() <= MAX_KM_NANO,
        satellite_altitude is Km ==> -MAX_KM_NANO <= satellite_altitude.spec_value() <= MAX_KM_NANO,
    ensures
        r == Degrees(
            spec_elevation_angle(
                haversine_great_distance.spec_m().spec_value(),
                satellite_altitude.spec_m().spec_value(),
            ) as i64,
        ),
{
    let x = haversine_great_distance.m().inner();
    if x == 0 {
        return Degrees(0);
    }
    let altitude = satellite_altitude.m().inner();
    let angle_pico_rad = atan2_pico(x as i128, altitude as i128);
    Degrees(rad_to_deg(angle_pico_rad))
}

/// The inclusion policy: an elevation (pico-degrees) is overhead when it
/// lies in the closed visibility band.
pub open spec fn spec_overhead(elevation: int) -> bool {
    MIN_VISIBLE_ELEVATION_DEG_PICO <= elevation <= MAX_VISIBLE_ELEVATION_DEG_PICO
}

/// Decide whether an elevation falls in the visibility band.
pub fn determine_overhead(elevation: &Degrees) -> (r: bool)
    ensures
        r == spec_overhead(elevation.0 as int),
{
    MIN_VISIBLE_ELEVATION_DEG_PICO <= elevation.0 && elevation.0 <= MAX_VISIBLE_ELEVATION_DEG_PICO
}

/// Why a batch was refused.
#[derive(Debug, PartialEq, Eq, Structural, Clone, Copy)]
pub enum OverheadError {
    /// The observer's angles are not degree-tagged geographic coordinates.
    MalformedObserver,
    /// A sample's position is not a kilometer vector within the accepted
    /// magnitude.
    MalformedSample,
}

/// Largest sample component magnitude, in nano-kilometers (one hundred
/// thousand kilometers).
pub const MAX_SAMPLE_KM_NANO: i64 = 100_000_000_000_000;

/// The observer is well-formed: degree-tagged angles, latitude within a
/// quarter turn, longitude within a half turn.
pub open spec fn spec_observer_ok(o: LocationView) -> bool {
    &&& o.latitude is Degrees
    &&& o.longitude is Degrees
    &&& -90_000_000_000_000 <= o.latitude.spec_value() <= 90_000_000_000_000
    &&& -180_000_000_000_000 <= o.longitude.spec_value() <= 180_000_000_000_000
}

/// A sample is well-formed: a kilometer-tagged vector within the accepted
/// magnitude.
pub open spec fn spec_sample_ok(p: PredictionAtMinuteView) -> bool {
    &&& p.prediction.x is Km
    &&& p.prediction.y is Km
    &&& p.prediction.z is Km
    &&& -MAX_SAMPLE_KM_NANO <= p.prediction.x.spec_value() <= MAX_SAMPLE_KM_NANO
    &&& -MAX_SAMPLE_KM_NANO <= p.prediction.y.spec_value() <= MAX_SAMPLE_KM_NANO
    &&& -MAX_SAMPLE_KM_NANO <= p.prediction.z.spec_value() <= MAX_SAMPLE_KM_NANO
}

/// One visibility record: everything the sink needs to present one
/// overhead pass sample.
#[derive(Debug)]
pub struct VisibilityRecord {
    pub distance: LengthUnit,
    pub object_name: String,
    pub elevation: Degrees,
    pub sub_point_latitude: Degrees,
    pub sub_point_longitude: Degrees,
    pub observer: Location,
}

/// Mathematical value of a record.
pub struct RecordView {
    pub distance: LengthUnit,
    pub object_name: Seq<char>,
    pub elevation: Degrees,
    pub sub_point_latitude: Degrees,
    pub sub_point_longitude: Degrees,
    pub observer: LocationView,
}

impl View for VisibilityRecord {
    type V = RecordView;

    open spec fn view(&self) -> RecordView {
        RecordView {
            distance: self.distance,
            object_name: self.object_name@,
            elevation: self.elevation,
            sub_point_latitude: self.sub_point_latitude,
            sub_point_longitude: self.sub_point_longitude,
            observer: self.observer@,
        }
    }
}

/// What one well-formed sample contributes: the satellite's geodetic
/// sub-point and altitude, the sub-point's great-circle distance from the
/// observer, and the elevation `90 degrees - atan(distance / altitude)`;
/// a record is emitted exactly when that elevation lies in the visibility
/// band (the documented inclusion policy of this engine).
pub open spec fn spec_sample_record(
    p: PredictionAtMinuteView,
    ulat_rad: int,
    ulon_rad: int,
    obs: LocationView,
) -> Option<RecordView> {
    let g = spec_to_geodetic(
        p.prediction.x.spec_m().spec_value(),
        p.prediction.y.spec_m().spec_value(),
        p.prediction.z.spec_m().spec_value(),
    );
    let dist = spec_haversine(ulat_rad, ulon_rad, g.1, g.0);
    let elevation = 90_000_000_000_000 - spec_elevation_angle(dist, g.2);
    if spec_overhead(elevation) {
        Some(RecordView {
            distance: LengthUnit::M(dist as i64),
            object_name: p.satellite_name,
            elevation: Degrees(elevation as i64),
            sub_point_latitude: Degrees(rad_to_deg_pico(g.1) as i64),
            sub_point_longitude: Degrees(rad_to_deg_pico(g.0) as i64),
            observer: obs,
        })
    } else {
        None
    }
}

/// The records of a sample sequence, in input order: a stable filter-map
/// of `spec_sample_record` over the sequence.
pub open spec fn spec_overhead_records(
    samples: Seq<PredictionAtMinuteView>,
    ulat_rad: int,
    ulon_rad: int,
    obs: LocationView,
) -> Seq<RecordView>
    decreases samples.len(),
{
    if samples.len() == 0 {
        Seq::empty()
    } else {
        let rest = spec_overhead_records(samples.drop_last(), ulat_rad, ulon_rad, obs);
        match spec_sample_record(samples.last(), ulat_rad, ulon_rad, obs) {
            Some(r) => rest.push(r),
            None => rest,
        }
    }
}

/// Run the geometry engine over one batch of samples for one observer: a
/// pure, deterministic mapping from the inputs to the ordered record
/// sequence. A malformed observer or sample is reported instead of being
/// processed.
pub fn calculate_overhead_satellites(
    data: Vec<PredictionAtMinute>,
    user_geodetic_coordinates: &Location,
) -> (r: Result<Vec<VisibilityRecord>, OverheadError>)
    ensures
        r is Ok <==> (spec_observer_ok(user_geodetic_coordinates@)
            && (forall|k: int| 0 <= k < data@.len() ==> spec_sample_ok(#[trigger] data@[k]@))),
        r matches Ok(v) ==> v@.map_values(|rec: VisibilityRecord| rec@) == spec_overhead_records(
            data@.map_values(|p: PredictionAtMinute| p@),
            deg_to_rad_pico(user_geodetic_coordinates@.latitude.spec_value()),
            deg_to_rad_pico(user_geodetic_coordinates@.longitude.spec_value()),
            user_geodetic_coordinates@,
        ),
        r matches Err(e) ==> e == (if !spec_observer_ok(user_geodetic_coordinates@) {
            OverheadError::MalformedObserver
        } else {
            OverheadError::MalformedSample
        }),
{
    let lat_ok = match user_geodetic_coordinates.latitude {
        AngleUnit::Degrees(Degrees(v)) => -90_000_000_000_000 <= v && v <= 90_000_000_000_000,
        _ => false,
    };
    let lon_ok = match user_geodetic_coordinates.longitude {
        AngleUnit::Degrees(Degrees(v)) => -180_000_000_000_000 <= v && v <= 180_000_000_000_000,
        _ => false,
    };
    proof {
        assert(lat_ok == (user_geodetic_coordinates@.latitude is Degrees
            && -90_000_000_000_000 <= user_geodetic_coordinates@.latitude.spec_value()
            <= 90_000_000_000_000));
        assert(lon_ok == (user_geodetic_coordinates@.longitude is Degrees
            && -180_000_000_000_000 <= user_geodetic_coordinates@.longitude.spec_value()
            <= 180_000_000_000_000));
    }
    if !(lat_ok && lon_ok) {
        return Err(OverheadError::MalformedObserver);
    }
    proof {
        assert(spec_observer_ok(user_geodetic_coordinates@));
    }
    let mut i: usize = 0;
    while i < data.len()
        invariant
            i <= data@.len(),
            spec_observer_ok(user_geodetic_coordinates@),
            forall|k: int| 0 <= k < i ==> spec_sample_ok(#[trigger] data@[k]@),
        decreases data@.len() - i,
    {
        let ok = match (&data[i].prediction.x, &data[i].prediction.y, &data[i].prediction.z) {
            (LengthUnit::Km(x), LengthUnit::Km(y), LengthUnit::Km(z)) => {
                -MAX_SAMPLE_KM_NANO <= *x && *x <= MAX_SAMPLE_KM_NANO
                    && -MAX_SAMPLE_KM_NANO <= *y && *y <= MAX_SAMPLE_KM_NANO
                    && -MAX_SAMPLE_KM_NANO <= *z && *z <= MAX_SAMPLE_KM_NANO
            },
            _ => false,
        };
        if !ok {
            proof {
                assert(!spec_sample_ok(data@[i as int]@));
            }
            return Err(OverheadError::MalformedSample);
        }
        proof {
            assert(spec_sample_ok(data@[i as int]@));
        }
        i = i + 1;
    }
    let user_latitude_radian: Radians = user_geodetic_coordinates.latitude.as_radians();
    let user_longitude_radian: Radians = user_geodetic_coordinates.longitude.as_radians();
    proof {
        lemma_deg_to_rad_in_range(user_geodetic_coordinates@.latitude.spec_value());
        lemma_deg_to_rad_in_range(user_geodetic_coordinates@.longitude.spec_value());
    }
    let ghost views = data@.map_values(|p: PredictionAtMinute| p@);
    let ghost ulat: int = deg_to_rad_pico(user_geodetic_coordinates@.latitude.spec_value());
    let ghost ulon: int = deg_to_rad_pico(user_geodetic_coordinates@.longitude.spec_value());
    let ghost obs: LocationView = user_geodetic_coordinates@;
    let mut records: Vec<VisibilityRecord> = Vec::new();
    let mut j: usize = 0;
    while j < data.len()
        invariant
            j <= data@.len(),
            views == data@.map_values(|p: PredictionAtMinute| p@),
            forall|k: int| 0 <= k < data@.len() ==> spec_sample_ok(#[trigger] data@[k]@),
            user_latitude_radian.0 == ulat,
            user_longitude_radian.0 == ulon,
            -PI_PICO <= ulat <= PI_PICO,
            -PI_PICO <= ulon <= PI_PICO,
            obs == user_geodetic_coordinates@,
            records@.map_values(|rec: VisibilityRecord| rec@)
                == spec_overhead_records(views.take(j as int), ulat, ulon, obs),
        decreases data@.len() - j,
    {
        let p = &data[j];
        proof {
            assert(data@[j as int]@ == views[j as int]);
            assert(spec_sample_ok(data@[j as int]@));
        }
        let position = match p.prediction.from_km_to_m() {
            Ok(c) => c,
            Err(_) => {
                proof {
                    assert(false);
                }
                unreached()
            },
        };
        let geodetic_data = BowringsMethod::to_geodetic(&position);
        let satellite_latitude_radians = geodetic_data.latitude.as_radians();
        let satellite_longitude_radians = geodetic_data.longitude.as_radians();
        let distance = haversine_great_distance(
            &user_latitude_radian,
            &user_longitude_radian,
            &satellite_latitude_radians,
            &satellite_longitude_radians,
        );
        let angle = elevation_angle(&distance, &geodetic_data.altitude);
        let elevation = Degrees(90_000_000_000_000 - angle.0);
        let ghost expected = spec_sample_record(views[j as int], ulat, ulon, obs);
        if determine_overhead(&elevation) {
            let record = VisibilityRecord {
                distance,
                object_name: clone_string(&p.satellite_name),
                elevation,
                sub_point_latitude: geodetic_data.latitude.as_degrees(),
                sub_point_longitude: geodetic_data.longitude.as_degrees(),
                observer: user_geodetic_coordinates.clone(),
            };
            proof {
                assert(expected == Some(record@));
            }
            records.push(record);
        } else {
            proof {
                assert(expected is None);
            }
        }
        proof {
            assert(views.take(j + 1int).drop_last() =~= views.take(j as int));
            assert(views.take(j + 1int).last() == views[j as int]);
            assert(records@.map_values(|rec: VisibilityRecord| rec@)
                =~= spec_overhead_records(views.take(j + 1int), ulat, ulon, obs));
        }
        j = j + 1;
    }
    proof {
        assert(views.take(data@.len() as int) =~= views);
    }
    Ok(records)
}

/// The distance from a point to itself is zero.
pub proof fn lemma_haversine_self_is_zero(lat: int, lon: int)
    ensures
        spec_haversine(lat, lon, lat, lon) == 0,
{
    let scale = SCALE_E18 as int;
    assert(tdiv(0, 2) == 0);
    assert(vstd::math::abs(0) == 0);
    assert(spec_sincos_e18(0) == (0int, SCALE_E18 as int));
    let s1v = spec_sincos_e18(0).0;
    assert(s1v * s1v == 0) by (nonlinear_arith)
        requires
            s1v == 0,
    ;
    assert(tdiv(0, scale) == 0);
    let cu = spec_sincos_e18(lat).1;
    let s2 = tdiv(s1v * s1v, scale);
    assert(s2 == 0);
    assert(tdiv(cu * cu, scale) * s2 == 0) by (nonlinear_arith)
        requires
            s2 == 0,
    ;
    let h = spec_clamp(0int + 0int, 0, scale);
    assert(h == 0);
    assert(h * scale == 0 && (scale - h) * scale == scale * scale) by (nonlinear_arith)
        requires
            h == 0,
    ;
    assert(spec_isqrt(0nat) == 0) by {
        reveal_with_fuel(spec_isqrt, 2);
    };
    assert((SCALE_E18 as int + 1) * (SCALE_E18 as int + 1) > SCALE_E18 as int * SCALE_E18 as int)
        by (nonlinear_arith);
    lemma_isqrt_unique((scale * scale) as nat, SCALE_E18 as nat);
    assert(spec_atan2_pico(0, scale) == 0);
    lemma_rdiv_upper_strict(0, 1_000_000_000_000, 0);
    lemma_rdiv_abs_le(0, 0, 1_000_000_000_000);
    assert(rdiv(EARTH_RADIUS_M_NANO as int * 0, 1_000_000_000_000) == 0);
}

/// The distance is symmetric in its two points.
pub proof fn lemma_haversine_symmetric(alat: int, alon: int, blat: int, blon: int)
    ensures
        spec_haversine(alat, alon, blat, blon) == spec_haversine(blat, blon, alat, alon),
{
    let scale = SCALE_E18 as int;
    assert(vstd::math::abs(tdiv(blat - alat, 2)) == vstd::math::abs(tdiv(alat - blat, 2)));
    assert(vstd::math::abs(tdiv(blon - alon, 2)) == vstd::math::abs(tdiv(alon - blon, 2)));
    let ca = spec_sincos_e18(alat).1;
    let cb = spec_sincos_e18(blat).1;
    assert(ca * cb == cb * ca) by (nonlinear_arith);
}

/// The pipeline is deterministic: any two record sequences that satisfy
/// its contract for the same samples and observer are the same sequence,
/// so running it twice over one input yields identical output.
pub proof fn lemma_pipeline_deterministic(
    samples: Seq<PredictionAtMinuteView>,
    ulat_rad: int,
    ulon_rad: int,
    obs: LocationView,
    r1: Seq<RecordView>,
    r2: Seq<RecordView>,
)
    requires
        r1 == spec_overhead_records(samples, ulat_rad, ulon_rad, obs),
        r2 == spec_overhead_records(samples, ulat_rad, ulon_rad, obs),
    ensures
        r1 == r2,
{
}

} // verus!
