//! Unit-tagged scalar values for lengths and angles.
//!
//! A magnitude never travels as a naked number: it is wrapped in a tag that
//! says which unit it carries, and conversions are explicit, total functions
//! with exact integer contracts. Lengths are stored in nano-units
//! (`1e-9 km` or `1e-9 m`), angles in pico-units (`1e-12` degree or radian).
use vstd::prelude::*;
use crate::fixed::rdiv;
use crate::fixed::rdiv_i128;
use crate::fixed::lemma_rdiv_abs_le;
use crate::fixed::lemma_rdiv_err;

verus! {

/// Numerator of `pi/180` at scale `1e16`; paired with `DEG_180_E16` it is
/// used in both conversion directions, so the two factors are exactly
/// reciprocal.
pub const PI_E16: i128 = 31_415_926_535_897_932;

/// Denominator of `pi/180` at scale `1e16` (that is, `180 * 1e16`).
pub const DEG_180_E16: i128 = 1_800_000_000_000_000_000;

/// Largest radian magnitude (pico-radians) accepted where a conversion to
/// degrees must fit in an `i64`.
pub const MAX_RAD_PICO: i64 = 160_000_000_000_000_000;

/// Largest nano-kilometer magnitude whose meter conversion fits in an `i64`.
pub const MAX_KM_NANO: i64 = 9_223_372_036_854_775;

/// Access to the raw magnitude of a wrapped scalar, in its current unit.
pub trait Inner {
    type InnerType;

    /// The wrapped magnitude as a mathematical value.
    spec fn spec_inner(&self) -> Self::InnerType;

    /// The wrapped magnitude; the caller is expected to know the unit.
    fn inner(&self) -> (r: Self::InnerType)
        ensures
            r == self.spec_inner(),
    ;
}

/// A length with an explicit unit tag; the magnitude is in nano-units of
/// the tagged unit (`Km(1_000_000_000)` is one kilometer).
#[derive(Debug, Clone, Copy, PartialEq, Eq, Structural)]
pub enum LengthUnit {
    Km(i64),
    M(i64),
}

/// An angle magnitude in pico-degrees.
#[derive(Debug, Clone, Copy, PartialEq, Eq, Structural)]
pub struct Degrees(pub i64);

/// An angle magnitude in pico-radians.
#[derive(Debug, Clone, Copy, PartialEq, Eq, Structural)]
pub struct Radians(pub i64);

/// An angle with an explicit unit tag.
#[derive(Debug, Clone, Copy, PartialEq, Eq, Structural)]
pub enum AngleUnit {
    Degrees(Degrees),
    Radians(Radians),
}

/// Degrees to radians, both in pico-units, rounded to nearest.
pub open spec fn deg_to_rad_pico(d: int) -> int {
    rdiv(d * PI_E16, DEG_180_E16 as int)
}

/// Radians to degrees, both in pico-units, rounded to nearest.
pub open spec fn rad_to_deg_pico(r: int) -> int {
    rdiv(r * DEG_180_E16, PI_E16 as int)
}

/// Exact executable degree-to-radian conversion on pico-unit magnitudes.
pub fn deg_to_rad(d: i64) -> (r: i64)
    ensures
        r == deg_to_rad_pico(d as int),
{
    proof {
        lemma_rdiv_abs_le(
            d as int * PI_E16,
            0x8000000000000000 * PI_E16,
            DEG_180_E16 as int,
        );
        assert(d as int * PI_E16 <= 0x8000000000000000 * PI_E16
            && -(0x8000000000000000 * PI_E16) <= d as int * PI_E16) by (nonlinear_arith)
            requires
                -0x8000000000000000 <= d <= 0x8000000000000000,
        ;
    }
    let r = rdiv_i128(d as i128 * PI_E16, DEG_180_E16);
    r as i64
}

/// Exact executable radian-to-degree conversion on pico-unit magnitudes.
pub fn rad_to_deg(r: i64) -> (d: i64)
    requires
        -MAX_RAD_PICO <= r <= MAX_RAD_PICO,
    ensures
        d == rad_to_deg_pico(r as int),
{
    proof {
        lemma_rdiv_abs_le(
            r as int * DEG_180_E16,
            MAX_RAD_PICO as int * DEG_180_E16,
            PI_E16 as int,
        );
        assert(r as int * DEG_180_E16 <= MAX_RAD_PICO as int * DEG_180_E16
            && -(MAX_RAD_PICO as int * DEG_180_E16) <= r as int * DEG_180_E16) by (nonlinear_arith)
            requires
                -MAX_RAD_PICO <= r <= MAX_RAD_PICO,
        ;
    }
    let d = rdiv_i128(r as i128 * DEG_180_E16, PI_E16);
    d as i64
}

impl LengthUnit {
    /// The raw magnitude in the current unit.
    pub open spec fn spec_value(self) -> int {
        match self {
            LengthUnit::Km(v) => v as int,
            LengthUnit::M(v) => v as int,
        }
    }

    /// The value converted to kilometers: identity on a kilometer value,
    /// a rounded division by 1000 on a meter value.
    pub open spec fn spec_km(self) -> LengthUnit {
        match self {
            LengthUnit::Km(v) => LengthUnit::Km(v),
            LengthUnit::M(v) => LengthUnit::Km(rdiv(v as int, 1000) as i64),
        }
    }

    /// The value converted to meters: a multiplication by 1000 on a
    /// kilometer value, identity on a meter value.
    pub open spec fn spec_m(self) -> LengthUnit {
        match self {
            LengthUnit::Km(v) => LengthUnit::M((v * 1000) as i64),
            LengthUnit::M(v) => LengthUnit::M(v),
        }
    }

    /// The raw magnitude, in whatever unit the tag names.
    pub fn inner(&self) -> (r: i64)
        ensures
            r == self.spec_value(),
    {
        match self {
            LengthUnit::Km(v) => *v,
            LengthUnit::M(v) => *v,
        }
    }

    /// Convert to kilometers (rounded to the nearest nano-kilometer).
    pub fn km(&self) -> (r: LengthUnit)
        ensures
            r == self.spec_km(),
            r is Km,
    {
        match self {
            LengthUnit::Km(v) => LengthUnit::Km(*v),
            LengthUnit::M(v) => {
                proof {
                    lemma_rdiv_abs_le(*v as int, 0x8000000000000000, 1000);
                }
                let q = rdiv_i128(*v as i128, 1000);
                LengthUnit::Km(q as i64)
            },
        }
    }

    /// Convert to meters (exact).
    pub fn m(&self) -> (r: LengthUnit)
        requires
            self is Km ==> -MAX_KM_NANO <= self.spec_value() <= MAX_KM_NANO,
        ensures
            r == self.spec_m(),
            r is M,
    {
        match self {
            LengthUnit::Km(v) => LengthUnit::M(*v * 1000),
            LengthUnit::M(v) => LengthUnit::M(*v),
        }
    }
}

impl Inner for Degrees {
    type InnerType = i64;

    open spec fn spec_inner(&self) -> i64 {
        self.0
    }

    fn inner(&self) -> (r: i64) {
        self.0
    }
}

impl Inner for Radians {
    type InnerType = i64;

    open spec fn spec_inner(&self) -> i64 {
        self.0
    }

    fn inner(&self) -> (r: i64) {
        self.0
    }
}

impl AngleUnit {
    /// The raw magnitude in the current unit.
    pub open spec fn spec_value(self) -> int {
        match self {
            AngleUnit::Degrees(d) => d.0 as int,
            AngleUnit::Radians(r) => r.0 as int,
        }
    }

    /// The magnitude expressed in degrees, converting when the tag says
    /// radians.
    pub open spec fn spec_as_degrees(self) -> Degrees {
        match self {
            AngleUnit::Degrees(d) => d,
            AngleUnit::Radians(r) => Degrees(rad_to_deg_pico(r.0 as int) as i64),
        }
    }

    /// The magnitude expressed in radians, converting when the tag says
    /// degrees.
    pub open spec fn spec_as_radians(self) -> Radians {
        match self {
            AngleUnit::Degrees(d) => Radians(deg_to_rad_pico(d.0 as int) as i64),
            AngleUnit::Radians(r) => r,
        }
    }

    /// The raw magnitude, in whatever unit the tag names.
    pub fn value(&self) -> (r: i64)
        ensures
            r == self.spec_value(),
    {
        match self {
            AngleUnit::Degrees(x) => x.0,
            AngleUnit::Radians(x) => x.0,
        }
    }

    /// The angle in degrees, converted if needed.
    pub fn as_degrees(&self) -> (r: Degrees)
        requires
            self is Radians ==> -MAX_RAD_PICO <= self.spec_value() <= MAX_RAD_PICO,
        ensures
            r == self.spec_as_degrees(),
    {
        match self {
            AngleUnit::Degrees(x) => Degrees(x.0),
            AngleUnit::Radians(x) => Degrees(rad_to_deg(x.0)),
        }
    }

    /// The angle in radians, converted if needed.
    pub fn as_radians(&self) -> (r: Radians)
        ensures
            r == self.spec_as_radians(),
    {
        match self {
            AngleUnit::Radians(x) => Radians(x.0),
            AngleUnit::Degrees(x) => Radians(deg_to_rad(x.0)),
        }
    }

    /// Convert a radian-tagged angle to degrees; a degree-tagged angle is
    /// reported as being in the wrong unit.
    pub fn radian_to_degrees(&self) -> (r: Result<Degrees, &str>)
        requires
            self is Radians ==> -MAX_RAD_PICO <= self.spec_value() <= MAX_RAD_PICO,
        ensures
            self is Radians <==> r is Ok,
            r matches Ok(d) ==> d == self.spec_as_degrees(),
            r matches Err(m) ==> m@ == "Data is not in radian"@,
    {
        match self {
            AngleUnit::Radians(x) => Ok(Degrees(rad_to_deg(x.0))),
            AngleUnit::Degrees(_) => Err("Data is not in radian"),
        }
    }

    /// Convert a degree-tagged angle to radians; a radian-tagged angle is
    /// reported as being in the wrong unit.
    pub fn degrees_to_radian(&self) -> (r: Result<Radians, &str>)
        ensures
            self is Degrees <==> r is Ok,
            r matches Ok(d) ==> d == self.spec_as_radians(),
            r matches Err(m) ==> m@ == "Data is not in degrees"@,
    {
        match self {
            AngleUnit::Degrees(x) => Ok(Radians(deg_to_rad(x.0))),
            AngleUnit::Radians(_) => Err("Data is not in degrees"),
        }
    }
}

/// Converting pico-degrees to pico-radians and back moves the value by at
/// most 29 pico-degrees (less than `3e-11` of a degree).
pub proof fn lemma_deg_rad_deg_round_trip(d: int)
    ensures
        rad_to_deg_pico(deg_to_rad_pico(d)) - d <= 29,
        -29 <= rad_to_deg_pico(deg_to_rad_pico(d)) - d,
{
    let p = PI_E16 as int;
    let q = DEG_180_E16 as int;
    let r = rdiv(d * p, q);
    let d2 = rdiv(r * q, p);
    lemma_rdiv_err(d * p, q);
    lemma_rdiv_err(r * q, p);
    assert(-30 < d2 - d < 30) by (nonlinear_arith)
        requires
            p == PI_E16 as int,
            q == DEG_180_E16 as int,
            2 * (r * q - d * p) <= q,
            -q <= 2 * (r * q - d * p),
            2 * (d2 * p - r * q) <= p,
            -p <= 2 * (d2 * p - r * q),
    ;
}

/// Converting pico-radians to pico-degrees and back returns the value
/// exactly: degrees carry the finer resolution of the two.
pub proof fn lemma_rad_deg_rad_round_trip(r: int)
    ensures
        deg_to_rad_pico(rad_to_deg_pico(r)) == r,
{
    let p = PI_E16 as int;
    let q = DEG_180_E16 as int;
    let d = rdiv(r * q, p);
    let r2 = rdiv(d * p, q);
    lemma_rdiv_err(r * q, p);
    lemma_rdiv_err(d * p, q);
    assert(r2 == r) by (nonlinear_arith)
        requires
            p == PI_E16 as int,
            q == DEG_180_E16 as int,
            2 * (d * p - r * q) <= p,
            -p <= 2 * (d * p - r * q),
            2 * (r2 * q - d * p) <= q,
            -q <= 2 * (r2 * q - d * p),
    ;
}

/// Converting kilometers to meters and back returns the value exactly.
pub proof fn lemma_km_m_km_round_trip(x: LengthUnit)
    requires
        x is Km,
        -MAX_KM_NANO <= x.spec_value() <= MAX_KM_NANO,
    ensures
        x.spec_m().spec_km() == x,
{
    let v = x.spec_value();
    assert(rdiv(v * 1000, 1000) == v) by (nonlinear_arith);
}

/// Converting meters to kilometers and back returns the value exactly
/// whenever the magnitude is a whole number of micro-kilometers (the
/// kilometer tag cannot carry a finer remainder).
pub proof fn lemma_m_km_m_round_trip(x: LengthUnit)
    requires
        x is M,
        x.spec_value() % 1000 == 0,
    ensures
        x.spec_km().spec_m() == x,
{
    let v = x.spec_value();
    assert(rdiv(v, 1000) * 1000 == v) by (nonlinear_arith)
        requires
            v % 1000 == 0,
    ;
}

/// A geographic angle (at most half a turn of degrees) converts to at most
/// half a turn of radians.
pub proof fn lemma_deg_to_rad_in_range(d: int)
    requires
        -180_000_000_000_000 <= d <= 180_000_000_000_000,
    ensures
        -3_141_592_653_590 <= deg_to_rad_pico(d) <= 3_141_592_653_590,
{
    lemma_rdiv_abs_le(d * PI_E16, 180_000_000_000_000 * PI_E16 as int, DEG_180_E16 as int);
    crate::fixed::lemma_rdiv_upper_strict(
        180_000_000_000_000 * PI_E16 as int,
        DEG_180_E16 as int,
        3_141_592_653_590,
    );
    assert(-(180_000_000_000_000 * PI_E16 as int) <= d * PI_E16
        <= 180_000_000_000_000 * PI_E16 as int) by (nonlinear_arith)
        requires
            -180_000_000_000_000 <= d <= 180_000_000_000_000,
    ;
}


/// Converting a degree-tagged angle to radians and back moves the value by
/// at most 29 pico-degrees (under `3e-11` of a degree), for any magnitude
/// up to a million degrees.
pub proof fn lemma_angle_round_trip_from_degrees(d: Degrees)
    requires
        -1_000_000_000_000_000_000 <= d.0 <= 1_000_000_000_000_000_000,
    ensures
        ({
            let rad = AngleUnit::Degrees(d).spec_as_radians();
            let back = AngleUnit::Radians(rad).spec_as_degrees();
            -29 <= back.0 - d.0 <= 29
        }),
{
    let r = deg_to_rad_pico(d.0 as int);
    lemma_rdiv_abs_le(d.0 as int * PI_E16, 1_000_000_000_000_000_000 * PI_E16, DEG_180_E16 as int);
    assert(d.0 as int * PI_E16 <= 1_000_000_000_000_000_000 * PI_E16
        && -(1_000_000_000_000_000_000 * PI_E16) <= d.0 as int * PI_E16) by (nonlinear_arith)
        requires
            -1_000_000_000_000_000_000 <= d.0 <= 1_000_000_000_000_000_000,
    ;
    crate::fixed::lemma_rdiv_upper_strict(
        1_000_000_000_000_000_000 * PI_E16,
        DEG_180_E16 as int,
        18_000_000_000_000_000,
    );
    assert(r == r as i64);
    lemma_deg_rad_deg_round_trip(d.0 as int);
    let b = rad_to_deg_pico(r);
    lemma_rdiv_abs_le(r * DEG_180_E16, 18_000_000_000_000_000 * DEG_180_E16, PI_E16 as int);
    assert(r * DEG_180_E16 <= 18_000_000_000_000_000 * DEG_180_E16
        && -(18_000_000_000_000_000 * DEG_180_E16) <= r * DEG_180_E16) by (nonlinear_arith)
        requires
            -18_000_000_000_000_000 <= r <= 18_000_000_000_000_000,
    ;
    crate::fixed::lemma_rdiv_upper(
        18_000_000_000_000_000 * DEG_180_E16,
        PI_E16 as int,
        1_040_000_000_000_000_000,
    );
    assert(b == b as i64);
}

/// Converting a radian-tagged angle to degrees and back returns the value
/// exactly.
pub proof fn lemma_angle_round_trip_from_radians(r: Radians)
    requires
        -MAX_RAD_PICO <= r.0 <= MAX_RAD_PICO,
    ensures
        AngleUnit::Degrees(AngleUnit::Radians(r).spec_as_degrees()).spec_as_radians() == r,
{
    let d = rad_to_deg_pico(r.0 as int);
    lemma_rdiv_abs_le(r.0 as int * DEG_180_E16, MAX_RAD_PICO as int * DEG_180_E16, PI_E16 as int);
    assert(r.0 as int * DEG_180_E16 <= MAX_RAD_PICO as int * DEG_180_E16
        && -(MAX_RAD_PICO as int * DEG_180_E16) <= r.0 as int * DEG_180_E16) by (nonlinear_arith)
        requires
            -MAX_RAD_PICO <= r.0 <= MAX_RAD_PICO,
    ;
    crate::fixed::lemma_rdiv_upper(
        MAX_RAD_PICO as int * DEG_180_E16,
        PI_E16 as int,
        9_200_000_000_000_000_000,
    );
    assert(d == d as i64);
    lemma_rad_deg_rad_round_trip(r.0 as int);
    let b = deg_to_rad_pico(d);
    assert(b == r.0);
    assert(b == b as i64);
}

} // verus!
