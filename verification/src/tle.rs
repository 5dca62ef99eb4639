//! Orbital element sets: the wrapper types around parsed element sets, the
//! parsing of multi-line element text, and the address it is fetched from.
//! Fetching and propagation are the callers' business; this module owns the
//! data shapes the pipeline consumes.
use vstd::prelude::*;
use vstd::string::StringExecFns;
use crate::calculate::CartesianCoordinates;

verus! {

/// Signals that element-set text could not be used.
#[derive(Debug, PartialEq, Eq, Structural, Clone, Copy)]
pub struct TleError;

#[verifier::external_type_specification]
#[verifier::external_body]
pub struct ExElements(sgp4::Elements);

/// How many element sets a text parses into, or `None` when it is refused:
/// parsing is a function of the text alone.
pub uninterp spec fn tle_sets_of(text: Seq<char>) -> Option<nat>;

/// Relies on `sgp4::parse_3les`: parses triplets of lines (name line plus
/// two element lines) into element sets, deterministically from the text;
/// a parse error comes back as this crate's `TleError`.
#[verifier::external_body]
fn parse_3le_sets(raw_data: &str) -> (r: Result<Vec<sgp4::Elements>, TleError>)
    ensures
        match r {
            Ok(v) => tle_sets_of(raw_data@) == Some(v@.len() as nat),
            Err(_) => tle_sets_of(raw_data@) is None,
        },
{
    match sgp4::parse_3les(raw_data) {
        Ok(v) => Ok(v),
        Err(_) => Err(TleError),
    }
}

/// Relies on `sgp4::Elements`'s derived `Clone`: the copy carries the same
/// field values as the source element set.
#[verifier::external_body]
fn clone_elements(e: &sgp4::Elements) -> (r: sgp4::Elements)
    ensures
        r == *e,
{
    e.clone()
}

/// A parsed element set.
pub struct TLEElements(sgp4::Elements);

impl Clone for TLEElements {
    fn clone(&self) -> (r: Self)
        ensures
            r.spec_inner() == self.spec_inner(),
    {
        TLEElements(clone_elements(&self.0))
    }
}

impl TLEElements {
    /// The wrapped element set, as an abstract value.
    pub closed spec fn spec_inner(&self) -> sgp4::Elements {
        self.0
    }

    /// Wrap an element set.
    pub fn new(data: sgp4::Elements) -> (r: Self)
        ensures
            r.spec_inner() == data,
    {
        TLEElements(data)
    }

    /// The wrapped element set.
    pub fn inner(&self) -> (r: &sgp4::Elements)
        ensures
            r == self.spec_inner(),
    {
        &self.0
    }
}

/// A two-line element record, as one parsed element set.
pub struct TLE(TLEElements);

impl TLE {
    /// The wrapped record, as an abstract value.
    pub closed spec fn spec_inner(&self) -> sgp4::Elements {
        self.0.spec_inner()
    }

    /// Wrap an element set as a record.
    pub fn new(data: sgp4::Elements) -> (r: Self)
        ensures
            r.spec_inner() == data,
    {
        let tle_elements = TLEElements::new(data);
        TLE(tle_elements)
    }

    /// The wrapped element set.
    pub fn inner(&self) -> (r: &TLEElements)
        ensures
            r.spec_inner() == self.spec_inner(),
    {
        &self.0
    }
}

/// Parse multi-line element text into records; refused text is reported as
/// a `TleError`.
pub fn parse_tle_data(raw_data: &str) -> (r: Result<Vec<TLE>, TleError>)
    ensures
        r is Ok <==> tle_sets_of(raw_data@) is Some,
        r matches Ok(v) ==> tle_sets_of(raw_data@) == Some(v@.len() as nat),
{
    let mut sets = match parse_3le_sets(raw_data) {
        Ok(v) => v,
        Err(e) => {
            return Err(e);
        },
    };
    let ghost total: nat = sets@.len() as nat;
    let mut tles: Vec<TLE> = Vec::new();
    while sets.len() > 0
        invariant
            tles@.len() + sets@.len() == total,
        decreases sets@.len(),
    {
        let first = sets.remove(0);
        tles.push(TLE::new(first));
    }
    Ok(tles)
}

/// The address of the station-group element-set listing.
pub fn get_url() -> (r: String)
    ensures
        r@ == "https://"@ + "celestrak.org"@ + "/NORAD/elements"@ + "/gp.php?GROUP=stations"@,
{
    let url = String::from_str("https://");
    let url = url.concat("celestrak.org");
    let url = url.concat("/NORAD/elements");
    let url = url.concat("/gp.php?GROUP=stations");
    url
}

/// One propagated sample: the object's name, the minute index inside the
/// propagation horizon, and the ECEF position, in kilometers.
#[derive(Debug)]
pub struct PredictionAtMinute {
    pub satellite_name: String,
    pub minute: u32,
    pub prediction: CartesianCoordinates,
}

/// Mathematical value of a sample: the name text, the minute, the vector.
pub struct PredictionAtMinuteView {
    pub satellite_name: Seq<char>,
    pub minute: u32,
    pub prediction: CartesianCoordinates,
}

impl View for PredictionAtMinute {
    type V = PredictionAtMinuteView;

    open spec fn view(&self) -> PredictionAtMinuteView {
        PredictionAtMinuteView {
            satellite_name: self.satellite_name@,
            minute: self.minute,
            prediction: self.prediction,
        }
    }
}

impl PredictionAtMinute {
    /// Assemble a sample.
    pub fn new(satellite_name: &str, minute: u32, prediction: CartesianCoordinates) -> (r: Self)
        ensures
            r@.satellite_name == satellite_name@,
            r@.minute == minute,
            r@.prediction == prediction,
    {
        let satellite_name = satellite_name.to_string();
        PredictionAtMinute { satellite_name, minute, prediction }
    }
}

} // verus!
