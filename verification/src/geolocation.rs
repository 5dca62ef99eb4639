//! The observer's location: the IP wrapper, the location record handed to
//! the pipeline, and the reading of a geolocation service's JSON answer
//! into that record.
use vstd::prelude::*;
use crate::units::AngleUnit;
use crate::units::Degrees;

verus! {

broadcast use vstd::string::to_string_from_display_ensures_for_str;

/// An IP address kept as the text the lookup service returned.
pub struct Ip(String);

/// The observer: geographic angles (degrees) and the place names the
/// geolocation service reported.
#[derive(Debug)]
pub struct Location {
    pub latitude: AngleUnit,
    pub longitude: AngleUnit,
    pub city: String,
    pub country: String,
}

/// Mathematical value of a `Location`: the angle values and the texts.
pub struct LocationView {
    pub latitude: AngleUnit,
    pub longitude: AngleUnit,
    pub city: Seq<char>,
    pub country: Seq<char>,
}

impl View for Location {
    type V = LocationView;

    open spec fn view(&self) -> LocationView {
        LocationView {
            latitude: self.latitude,
            longitude: self.longitude,
            city: self.city@,
            country: self.country@,
        }
    }
}

/// An owned copy of a string with the same text.
pub fn clone_string(s: &String) -> (r: String)
    ensures
        r@ == s@,
{
    s.as_str().to_string()
}

impl Clone for Location {
    fn clone(&self) -> (r: Self)
        ensures
            r@ == self@,
    {
        Location {
            latitude: self.latitude,
            longitude: self.longitude,
            city: clone_string(&self.city),
            country: clone_string(&self.country),
        }
    }
}

impl View for Ip {
    type V = Seq<char>;

    closed spec fn view(&self) -> Seq<char> {
        self.0@
    }
}

impl Ip {
    /// Wrap an address text.
    pub fn new(ip: &str) -> (r: Self)
        ensures
            r@ == ip@,
    {
        Ip(ip.to_string())
    }

    /// The wrapped address text.
    pub fn inner(&self) -> (r: &str)
        ensures
            r@ == self@,
    {
        self.0.as_str()
    }
}

/// The ten decimal digit characters.
pub open spec fn is_ascii_digit(c: char) -> bool {
    c == '0' || c == '1' || c == '2' || c == '3' || c == '4' || c == '5' || c == '6' || c == '7'
        || c == '8' || c == '9'
}

/// The value of a digit character (zero on anything else).
pub open spec fn digit_val(c: char) -> int {
    if c == '0' {
        0
    } else if c == '1' {
        1
    } else if c == '2' {
        2
    } else if c == '3' {
        3
    } else if c == '4' {
        4
    } else if c == '5' {
        5
    } else if c == '6' {
        6
    } else if c == '7' {
        7
    } else if c == '8' {
        8
    } else if c == '9' {
        9
    } else {
        0
    }
}

/// Every character of the text is a decimal digit.
pub open spec fn all_digits(s: Seq<char>) -> bool {
    forall|i: int| 0 <= i < s.len() ==> is_ascii_digit(#[trigger] s[i])
}

/// The number a digit string denotes, most significant digit first.
pub open spec fn digits_val(s: Seq<char>) -> int
    decreases s.len(),
{
    if s.len() == 0 {
        0
    } else {
        digits_val(s.drop_last()) * 10 + digit_val(s.last())
    }
}

/// Powers of ten.
pub open spec fn pow10(k: nat) -> int
    decreases k,
{
    if k == 0 {
        1
    } else {
        10 * pow10((k - 1) as nat)
    }
}

/// The position of the first occurrence of a character, or -1.
pub open spec fn spec_find(s: Seq<char>, c: char) -> int
    decreases s.len(),
{
    if s.len() == 0 {
        -1
    } else if s[0] == c {
        0
    } else {
        let r = spec_find(s.subrange(1, s.len() as int), c);
        if r < 0 {
            -1
        } else {
            r + 1
        }
    }
}

/// The value of a fractional digit string in pico-units: the first twelve
/// digits count, shorter strings are scaled up.
pub open spec fn frac_pico(s: Seq<char>) -> int {
    if s.len() >= 12 {
        digits_val(s.take(12))
    } else {
        digits_val(s) * pow10((12 - s.len()) as nat)
    }
}

/// The pico-degree value a decimal text denotes: an optional minus sign,
/// one to six integer digits, and optionally a dot followed by at least
/// one fractional digit. Anything else is refused.
pub open spec fn spec_decimal_pico(s: Seq<char>) -> Option<int> {
    if s.len() == 0 {
        None
    } else {
        let neg = s[0] == '-';
        let b = if neg {
            s.subrange(1, s.len() as int)
        } else {
            s
        };
        let dot = spec_find(b, '.');
        let ip = if dot < 0 {
            b
        } else {
            b.take(dot)
        };
        let fp = if dot < 0 {
            Seq::<char>::empty()
        } else {
            b.subrange(dot + 1, b.len() as int)
        };
        if ip.len() == 0 || ip.len() > 6 || !all_digits(ip) {
            None
        } else if dot >= 0 && (fp.len() == 0 || !all_digits(fp)) {
            None
        } else {
            let v = digits_val(ip) * 1_000_000_000_000 + frac_pico(fp);
            Some(
                if neg {
                    -v
                } else {
                    v
                },
            )
        }
    }
}

/// A digit string of bounded length denotes a bounded number.
proof fn lemma_digits_val_bound(s: Seq<char>)
    requires
        all_digits(s),
    ensures
        0 <= digits_val(s) < pow10(s.len()),
    decreases s.len(),
{
    if s.len() > 0 {
        assert(all_digits(s.drop_last())) by {
            assert(forall|i: int| 0 <= i < s.len() - 1 ==> s.drop_last()[i] == s[i]);
        };
        lemma_digits_val_bound(s.drop_last());
        assert(0 <= digit_val(s.last()) <= 9);
        assert(pow10(s.len()) == 10 * pow10((s.len() - 1) as nat));
    }
}

/// Ten to the twelfth, as a value.
proof fn lemma_pow10_12()
    ensures
        pow10(12) == 1_000_000_000_000,
        pow10(6) == 1_000_000,
{
    reveal_with_fuel(pow10, 13);
}

/// `spec_find` returns the position of the first occurrence.
proof fn lemma_find_at(s: Seq<char>, c: char, i: int)
    requires
        0 <= i <= s.len(),
        forall|k: int| 0 <= k < i ==> #[trigger] s[k] != c,
        i < s.len() ==> s[i] == c,
    ensures
        spec_find(s, c) == if i == s.len() {
            -1int
        } else {
            i
        },
    decreases s.len(),
{
    if s.len() > 0 {
        if s[0] == c {
        } else {
            let t = s.subrange(1, s.len() as int);
            assert(forall|k: int| 0 <= k < i - 1 ==> #[trigger] t[k] != c) by {
                assert(forall|k: int| 0 <= k < t.len() ==> t[k] == s[k + 1]);
            };
            assert(i >= 1);
            assert(i - 1 < t.len() ==> t[i - 1] == c);
            lemma_find_at(t, c, i - 1);
        }
    }
}

/// A step of digit accumulation.
proof fn lemma_digits_val_step(s: Seq<char>, j: int)
    requires
        0 <= j < s.len(),
    ensures
        digits_val(s.take(j + 1)) == digits_val(s.take(j)) * 10 + digit_val(s[j]),
{
    assert(s.take(j + 1).drop_last() =~= s.take(j));
    assert(s.take(j + 1).last() == s[j]);
}

/// Whether every character of a text range is a decimal digit.
#[verifier::loop_isolation(false)]
fn check_digits(s: &str, from: usize, to: usize) -> (r: bool)
    requires
        from <= to <= s@.len(),
    ensures
        r == all_digits(s@.subrange(from as int, to as int)),
{
    let ghost sub = s@.subrange(from as int, to as int);
    let mut i: usize = from;
    while i < to
        invariant
            from <= i <= to,
            forall|k: int| from <= k < i ==> is_ascii_digit(#[trigger] s@[k]),
        decreases to - i,
    {
        let c = s.get_char(i);
        let digit = c == '0' || c == '1' || c == '2' || c == '3' || c == '4' || c == '5'
            || c == '6' || c == '7' || c == '8' || c == '9';
        if !digit {
            proof {
                assert(sub[i - from] == c);
                assert(!all_digits(sub));
            }
            return false;
        }
        i = i + 1;
    }
    proof {
        assert(forall|k: int| 0 <= k < sub.len() ==> sub[k] == s@[k + from]);
    }
    true
}

/// The number a range of digit characters denotes.
#[verifier::loop_isolation(false)]
fn read_digits_value(s: &str, from: usize, to: usize) -> (r: i64)
    requires
        from <= to <= s@.len(),
        to - from <= 12,
        all_digits(s@.subrange(from as int, to as int)),
    ensures
        r == digits_val(s@.subrange(from as int, to as int)),
        0 <= r < 1_000_000_000_000,
{
    let ghost sub = s@.subrange(from as int, to as int);
    let mut acc: i64 = 0;
    let mut i: usize = from;
    while i < to
        invariant
            from <= i <= to,
            acc == digits_val(sub.take(i - from)),
            0 <= acc < pow10((i - from) as nat),
            pow10((i - from) as nat) <= 1_000_000_000_000,
        decreases to - i,
    {
        let c = s.get_char(i);
        proof {
            assert(sub[i - from] == c);
            assert(is_ascii_digit(c));
        }
        let d: i64 = match c {
            '0' => 0,
            '1' => 1,
            '2' => 2,
            '3' => 3,
            '4' => 4,
            '5' => 5,
            '6' => 6,
            '7' => 7,
            '8' => 8,
            _ => 9,
        };
        proof {
            assert(d == digit_val(c));
            lemma_digits_val_step(sub, i - from);
            assert(pow10((i - from + 1) as nat) == 10 * pow10((i - from) as nat));
            lemma_pow10_le((i - from + 1) as nat, 12nat);
            lemma_pow10_12();
        }
        acc = acc * 10 + d;
        i = i + 1;
    }
    proof {
        assert(sub.take(sub.len() as int) =~= sub);
    }
    acc
}

/// Read the value a decimal text denotes, in pico-units.
#[verifier::loop_isolation(false)]
#[verifier::rlimit(100)]
pub fn parse_decimal_pico(s: &str) -> (r: Option<i64>)
    ensures
        match r {
            Some(v) => spec_decimal_pico(s@) == Some(v as int),
            None => spec_decimal_pico(s@) is None,
        },
{
    let n = s.unicode_len();
    if n == 0 {
        return None;
    }
    let neg = s.get_char(0) == '-';
    let start: usize = if neg {
        1
    } else {
        0
    };
    let ghost b: Seq<char> = if neg {
        s@.subrange(1, s@.len() as int)
    } else {
        s@
    };
    proof {
        assert(b.len() == n - start);
        assert(forall|k: int| 0 <= k < b.len() ==> b[k] == s@[k + start]);
    }
    let mut dot: usize = n;
    let mut i: usize = start;
    while i < n && dot == n
        invariant
            start <= i <= n,
            start <= dot <= n,
            dot == n ==> forall|k: int| start <= k < i ==> #[trigger] s@[k] != '.',
            dot < n ==> (s@[dot as int] == '.' && (forall|k: int| start <= k < dot ==> #[trigger] s@[k]
                != '.') && i == dot),
        decreases n - i + (if dot == n { 1int } else { 0int }),
    {
        if s.get_char(i) == '.' {
            dot = i;
        } else {
            i = i + 1;
        }
    }
    let ghost bdot: int = spec_find(b, '.');
    proof {
        if dot == n {
            lemma_find_at(b, '.', b.len() as int);
            assert(bdot == -1);
        } else {
            lemma_find_at(b, '.', dot - start);
            assert(bdot == dot - start);
        }
    }
    let ghost ip: Seq<char> = if bdot < 0 {
        b
    } else {
        b.take(bdot)
    };
    let ghost fp: Seq<char> = if bdot < 0 {
        Seq::<char>::empty()
    } else {
        b.subrange(bdot + 1, b.len() as int)
    };
    proof {
        assert(ip =~= s@.subrange(start as int, dot as int));
        if dot < n {
            assert(fp =~= s@.subrange(dot + 1, n as int));
        }
    }
    let ip_len: usize = dot - start;
    if ip_len == 0 || ip_len > 6 {
        return None;
    }
    if !check_digits(s, start, dot) {
        return None;
    }
    let acc: i64 = read_digits_value(s, start, dot);
    proof {
        lemma_digits_val_bound(ip);
        lemma_pow10_le(ip.len() as nat, 6nat);
        lemma_pow10_12();
    }
    let frac: i64;
    if dot == n {
        frac = 0;
        proof {
            assert(frac_pico(fp) == 0);
        }
    } else {
        if dot + 1 == n {
            proof {
                assert(fp.len() == 0);
            }
            return None;
        }
        if !check_digits(s, dot + 1, n) {
            return None;
        }
        let fp_len: usize = n - dot - 1;
        if fp_len >= 12 {
            let cut: usize = dot + 13;
            proof {
                assert(s@.subrange(dot + 1, cut as int) =~= fp.take(12));
                assert(all_digits(fp.take(12))) by {
                    assert(forall|k: int| 0 <= k < 12 ==> fp.take(12)[k] == fp[k]);
                };
            }
            frac = read_digits_value(s, dot + 1, cut);
        } else {
            let facc = read_digits_value(s, dot + 1, n);
            let mut scale: i64 = 1;
            let mut k: usize = fp_len;
            proof {
                reveal_with_fuel(pow10, 13);
            }
            while k < 12
                invariant
                    fp_len <= k <= 12,
                    scale == pow10((k - fp_len) as nat),
                    1 <= scale <= 1_000_000_000_000,
                decreases 12 - k,
            {
                proof {
                    assert(pow10((k + 1 - fp_len) as nat) == 10 * pow10((k - fp_len) as nat));
                    lemma_pow10_le((k + 1 - fp_len) as nat, 12nat);
                    lemma_pow10_12();
                }
                scale = scale * 10;
                k = k + 1;
            }
            proof {
                lemma_digits_val_bound(fp);
                lemma_pow10_adds(fp_len as nat, (12 - fp_len) as nat);
                lemma_pow10_12();
                assert(facc * scale == digits_val(fp) * pow10((12 - fp_len) as nat))
                    by (nonlinear_arith)
                    requires
                        facc == digits_val(fp),
                        scale == pow10((12 - fp_len) as nat),
                ;
                assert(facc * scale < 1_000_000_000_000) by (nonlinear_arith)
                    requires
                        0 <= facc < pow10(fp_len as nat),
                        scale == pow10((12 - fp_len) as nat),
                        pow10(fp_len as nat) * pow10((12 - fp_len) as nat) == 1_000_000_000_000,
                ;
                assert(facc * scale >= 0) by (nonlinear_arith)
                    requires
                        facc >= 0,
                        scale >= 1,
                ;
            }
            frac = facc * scale;
        }
    }
    proof {
        assert(0 <= frac < 1_000_000_000_000);
        assert(frac == frac_pico(fp));
        assert(digits_val(ip) * 1_000_000_000_000 <= 999_999_000_000_000_000) by (nonlinear_arith)
            requires
                0 <= digits_val(ip) <= 999_999,
        ;
        assert(digits_val(ip) * 1_000_000_000_000 >= 0) by (nonlinear_arith)
            requires
                digits_val(ip) >= 0,
        ;
    }
    let v: i64 = acc * 1_000_000_000_000 + frac;
    if neg {
        Some(-v)
    } else {
        Some(v)
    }
}

/// `pow10` is monotone.
proof fn lemma_pow10_le(a: nat, b: nat)
    requires
        a <= b,
    ensures
        pow10(a) <= pow10(b),
    decreases b,
{
    if a < b {
        lemma_pow10_le(a, (b - 1) as nat);
        assert(pow10(b) == 10 * pow10((b - 1) as nat));
        lemma_pow10_pos((b - 1) as nat);
    }
}

/// `pow10` is positive.
proof fn lemma_pow10_pos(a: nat)
    ensures
        pow10(a) >= 1,
    decreases a,
{
    if a > 0 {
        lemma_pow10_pos((a - 1) as nat);
    }
}

/// Splitting a power of ten.
proof fn lemma_pow10_adds(a: nat, b: nat)
    ensures
        pow10(a + b) == pow10(a) * pow10(b),
    decreases a,
{
    if a == 0 {
        assert(pow10(b) == 1 * pow10(b)) by (nonlinear_arith);
    } else {
        lemma_pow10_adds((a - 1) as nat, b);
        assert(pow10((a + b - 1) as nat) == pow10((a - 1) as nat) * pow10(b));
        assert(10 * (pow10((a - 1) as nat) * pow10(b)) == (10 * pow10((a - 1) as nat)) * pow10(b))
            by (nonlinear_arith);
    }
}

/// What a JSON answer holds under a key, rendered back to text: `None`
/// exactly when the text is not JSON; a present field comes back as its
/// rendering (a JSON string keeps its quotes), an absent one as `null`.
/// The value is a function of the text and the key alone.
pub uninterp spec fn json_field_of(text: Seq<char>, key: Seq<char>) -> Option<Seq<char>>;

/// Relies on `serde_json::from_str`, `Value`'s indexing and its `Display`
/// rendering: all deterministic functions of the answer text and the key.
#[verifier::external_body]
fn json_string_field(text: &str, key: &str) -> (r: Option<String>)
    ensures
        match r {
            Some(f) => json_field_of(text@, key@) == Some(f@),
            None => json_field_of(text@, key@) is None,
        },
{
    match serde_json::from_str::<serde_json::Value>(text) {
        Ok(v) => Some(v[key].to_string()),
        Err(_) => None,
    }
}

/// Why a geolocation answer was refused.
#[derive(Debug, PartialEq, Eq, Structural, Clone, Copy)]
pub enum GeolocationError {
    /// The answer text is not JSON.
    InvalidResponse,
    /// A coordinate field is not a decimal number this crate accepts.
    InvalidCoordinate,
}

/// The latitude and longitude texts of an answer parse as decimals.
pub open spec fn spec_geolocation_ok(text: Seq<char>) -> bool {
    &&& json_field_of(text, "lat"@) is Some
    &&& json_field_of(text, "lon"@) is Some
    &&& json_field_of(text, "city"@) is Some
    &&& json_field_of(text, "country"@) is Some
    &&& spec_decimal_pico(json_field_of(text, "lat"@)->Some_0) is Some
    &&& spec_decimal_pico(json_field_of(text, "lon"@)->Some_0) is Some
}

/// Read the observer's location out of a geolocation service's JSON
/// answer: the `lat` and `lon` fields as degree-tagged angles, the `city`
/// and `country` fields as the texts the service rendered.
pub fn get_user_geolocation(location_json: &str) -> (r: Result<Location, GeolocationError>)
    ensures
        r is Ok <==> spec_geolocation_ok(location_json@),
        r matches Ok(loc) ==> {
            &&& loc@.latitude == AngleUnit::Degrees(Degrees(
                spec_decimal_pico(json_field_of(location_json@, "lat"@)->Some_0)->Some_0 as i64,
            ))
            &&& loc@.longitude == AngleUnit::Degrees(Degrees(
                spec_decimal_pico(json_field_of(location_json@, "lon"@)->Some_0)->Some_0 as i64,
            ))
            &&& json_field_of(location_json@, "city"@) == Some(loc@.city)
            &&& json_field_of(location_json@, "country"@) == Some(loc@.country)
        },
        r matches Err(e) ==> e == (if json_field_of(location_json@, "lat"@) is None
            || json_field_of(location_json@, "lon"@) is None
            || json_field_of(location_json@, "city"@) is None
            || json_field_of(location_json@, "country"@) is None {
            GeolocationError::InvalidResponse
        } else {
            GeolocationError::InvalidCoordinate
        }),
{
    let lat_text = match json_string_field(location_json, "lat") {
        Some(t) => t,
        None => {
            return Err(GeolocationError::InvalidResponse);
        },
    };
    let lon_text = match json_string_field(location_json, "lon") {
        Some(t) => t,
        None => {
            return Err(GeolocationError::InvalidResponse);
        },
    };
    let city = match json_string_field(location_json, "city") {
        Some(t) => t,
        None => {
            return Err(GeolocationError::InvalidResponse);
        },
    };
    let country = match json_string_field(location_json, "country") {
        Some(t) => t,
        None => {
            return Err(GeolocationError::InvalidResponse);
        },
    };
    let latitude = match parse_decimal_pico(lat_text.as_str()) {
        Some(v) => v,
        None => {
            return Err(GeolocationError::InvalidCoordinate);
        },
    };
    let longitude = match parse_decimal_pico(lon_text.as_str()) {
        Some(v) => v,
        None => {
            return Err(GeolocationError::InvalidCoordinate);
        },
    };
    Ok(Location {
        latitude: AngleUnit::Degrees(Degrees(latitude)),
        longitude: AngleUnit::Degrees(Degrees(longitude)),
        city,
        country,
    })
}

} // verus!
