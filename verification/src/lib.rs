//! A verified geometry engine for deciding which orbiting objects are
//! overhead an observer: unit-tagged scalar types, an ECEF-to-geodetic
//! converter on the WGS84 ellipsoid, a haversine great-circle distance,
//! and the visibility pipeline that assembles the records.
//!
//! All magnitudes are scaled integers: angles carry pico-units
//! (`1e-12` degree or radian) and lengths carry nano-units (`1e-9`
//! kilometer or meter), so every computation is exact integer arithmetic
//! with stated rounding.
pub mod calculate;
pub mod fixed;
pub mod geolocation;
pub mod tle;
pub mod trig;
pub mod units;
