use vstd::prelude::*;

use crate::angle::Angle;
use crate::numfmt::fixed_decimal;
use crate::numfmt::push_fixed_decimal;
use crate::parse::scaled;
use crate::parse::scan_digits;
use crate::parse::scan_number;
use crate::parse::number_starts_exec;
use crate::text::degree_decimal_chars;
use crate::text::push_degree_decimal;
use crate::text::AngleAsStringDmsNwse;
use crate::text::AngleAsStringIso800001;
use crate::text::AngleAsStringIso800001JaJp;
use vstd::string::StringExecFns;
use crate::error::CivilEngineeringLocationError;
use crate::length::Length;
use crate::parse::dms_parse;
use crate::parse::is_sign_char;
use crate::parse::int_end;
use crate::parse::number_starts;
use crate::parse::str_chars;
use crate::parse::token_end;
use crate::parse::token_value_units;
use crate::parse::AngleDirectionNotation;
use crate::parse::DmsParse;
use crate::parse::FromDmsStr;

verus! {

/// A longitude/latitude pair.
#[derive(Debug, Clone, Copy, PartialEq, Eq, Structural)]
pub struct LonLat {
    pub lon: Angle,
    pub lat: Angle,
}

/// A longitude/latitude pair with an altitude.
#[derive(Debug, Clone, Copy, PartialEq, Eq, Structural)]
pub struct LonLatAlt {
    pub lon: Angle,
    pub lat: Angle,
    pub alt: Length,
}

/// Read access to a coordinate pair.
pub trait LonLatGettable {
    /// The longitude this value holds.
    spec fn lon_spec(&self) -> Angle;

    /// The latitude this value holds.
    spec fn lat_spec(&self) -> Angle;

    fn get_lon(&self) -> (r: Angle)
        ensures
            r == self.lon_spec(),
    ;

    fn get_lat(&self) -> (r: Angle)
        ensures
            r == self.lat_spec(),
    ;
}

/// Write access to a coordinate pair: each setter replaces one field and
/// leaves the other unchanged.
pub trait LonLatSettable: LonLatGettable + Default {
    fn set_lon(&mut self, lon: Angle)
        ensures
            final(self).lon_spec() == lon,
            final(self).lat_spec() == old(self).lat_spec(),
    ;

    fn set_lat(&mut self, lat: Angle)
        ensures
            final(self).lat_spec() == lat,
            final(self).lon_spec() == old(self).lon_spec(),
    ;
}

/// View any coordinate-bearing value as a plain pair.
pub trait AsLonLat: LonLatGettable {
    fn as_lonlat(&self) -> (r: LonLat)
        ensures
            r.lon == self.lon_spec(),
            r.lat == self.lat_spec(),
    ;
}

impl<T: LonLatGettable> AsLonLat for T {
    fn as_lonlat(&self) -> (r: LonLat) {
        LonLat { lon: self.get_lon(), lat: self.get_lat() }
    }
}

impl LonLat {
    pub fn new(lon: Angle, lat: Angle) -> (r: Self)
        ensures
            r == (LonLat { lon, lat }),
    {
        LonLat { lon, lat }
    }
}

impl LonLatAlt {
    pub fn new(lon: Angle, lat: Angle, alt: Length) -> (r: Self)
        ensures
            r == (LonLatAlt { lon, lat, alt }),
    {
        LonLatAlt { lon, lat, alt }
    }
}

impl Default for LonLat {
    fn default() -> (r: Self)
        ensures
            r == (LonLat { lon: Angle::Finite { units: 0 }, lat: Angle::Finite { units: 0 } }),
    {
        LonLat { lon: Angle::Finite { units: 0 }, lat: Angle::Finite { units: 0 } }
    }
}

impl Default for LonLatAlt {
    fn default() -> (r: Self)
        ensures
            r == (LonLatAlt {
                lon: Angle::Finite { units: 0 },
                lat: Angle::Finite { units: 0 },
                alt: Length { meters_e4: 0 },
            }),
    {
        LonLatAlt {
            lon: Angle::Finite { units: 0 },
            lat: Angle::Finite { units: 0 },
            alt: Length { meters_e4: 0 },
        }
    }
}

impl From<LonLatAlt> for LonLat {
    fn from(source: LonLatAlt) -> (r: LonLat) {
        LonLat { lon: source.lon, lat: source.lat }
    }
}

impl vstd::std_specs::convert::FromSpecImpl<LonLatAlt> for LonLat {
    open spec fn obeys_from_spec() -> bool {
        true
    }

    open spec fn from_spec(source: LonLatAlt) -> LonLat {
        LonLat { lon: source.lon, lat: source.lat }
    }
}

impl From<(LonLat, Length)> for LonLatAlt {
    fn from(source: (LonLat, Length)) -> (r: LonLatAlt) {
        LonLatAlt { lon: source.0.lon, lat: source.0.lat, alt: source.1 }
    }
}

impl vstd::std_specs::convert::FromSpecImpl<(LonLat, Length)> for LonLatAlt {
    open spec fn obeys_from_spec() -> bool {
        true
    }

    open spec fn from_spec(source: (LonLat, Length)) -> LonLatAlt {
        LonLatAlt { lon: source.0.lon, lat: source.0.lat, alt: source.1 }
    }
}

impl LonLatGettable for LonLat {
    open spec fn lon_spec(&self) -> Angle {
        self.lon
    }

    open spec fn lat_spec(&self) -> Angle {
        self.lat
    }

    fn get_lon(&self) -> (r: Angle) {
        self.lon
    }

    fn get_lat(&self) -> (r: Angle) {
        self.lat
    }
}

impl LonLatSettable for LonLat {
    fn set_lon(&mut self, lon: Angle) {
        self.lon = lon;
    }

    fn set_lat(&mut self, lat: Angle) {
        self.lat = lat;
    }
}

impl LonLatGettable for LonLatAlt {
    open spec fn lon_spec(&self) -> Angle {
        self.lon
    }

    open spec fn lat_spec(&self) -> Angle {
        self.lat
    }

    fn get_lon(&self) -> (r: Angle) {
        self.lon
    }

    fn get_lat(&self) -> (r: Angle) {
        self.lat
    }
}

impl LonLatSettable for LonLatAlt {
    fn set_lon(&mut self, lon: Angle) {
        self.lon = lon;
    }

    fn set_lat(&mut self, lat: Angle) {
        self.lat = lat;
    }
}

/// A whitespace character as `str::trim` sees the ASCII range.
pub open spec fn is_trim_space(c: char) -> bool {
    c == ' ' || c == '\t' || c == '\n' || c == '\r'
}

/// First non-whitespace position at or after `i`.
pub open spec fn trim_lo(s: Seq<char>, i: int) -> int
    decreases s.len() - i when 0 <= i <= s.len()
{
    if i < s.len() && is_trim_space(s[i]) {
        trim_lo(s, i + 1)
    } else {
        i
    }
}

/// Position after the last non-whitespace character before `h`, not
/// descending below `lo`.
pub open spec fn trim_hi(s: Seq<char>, h: int, lo: int) -> int
    decreases h when 0 <= lo <= h <= s.len()
{
    if h > lo && is_trim_space(s[h - 1]) {
        trim_hi(s, h - 1, lo)
    } else {
        h
    }
}

/// First position of `c` at or after `i` (the length if absent).
pub open spec fn find_char(s: Seq<char>, i: int, c: char) -> int
    decreases s.len() - i when 0 <= i <= s.len()
{
    if i < s.len() && s[i] != c {
        find_char(s, i + 1, c)
    } else {
        i
    }
}

/// The source trimmed of surrounding whitespace and of one leading
/// `geo:` scheme prefix.
pub open spec fn prepared(s: Seq<char>) -> Seq<char> {
    let lo = trim_lo(s, 0);
    let hi = trim_hi(s, s.len() as int, lo);
    let t = s.subrange(lo, hi);
    if t.len() >= 4 && t[0] == 'g' && t[1] == 'e' && t[2] == 'o' && t[3] == ':' {
        t.subrange(4, t.len() as int)
    } else {
        t
    }
}

/// Split into at most two parts: at the first comma if there is one, else
/// at the first space, else the whole text stands alone.
pub open spec fn split_two(t: Seq<char>) -> (Seq<char>, Option<Seq<char>>) {
    let cm = find_char(t, 0, ',');
    if cm < t.len() {
        (t.subrange(0, cm), Some(t.subrange(cm + 1, t.len() as int)))
    } else {
        let sp = find_char(t, 0, ' ');
        if sp < t.len() {
            (t.subrange(0, sp), Some(t.subrange(sp + 1, t.len() as int)))
        } else {
            (t, None)
        }
    }
}

/// Whether a part lands in the latitude slot: an explicit latitude role
/// always does, an explicit longitude role never, and without a role the
/// first part does.
pub open spec fn takes_lat_slot(d: AngleDirectionNotation, index: int) -> bool {
    d is Latitude || (d is Undetermined && index == 0)
}

/// What the two-part coordinate assembly makes of a source string.
pub enum LonLatParse {
    /// A part the angle grammar rejects: its index, its text, and whether
    /// it held no digits at all.
    BadPart { index: int, part: Seq<char>, no_angle: bool },
    /// Both parts parsed but latitude and longitude were not both
    /// resolved.
    Unknown,
    /// The assembled pair.
    Value(LonLat),
}

/// Assemble two parsed parts into a pair.  The part parsed second lands
/// in its slot last, so with two parts claiming one slot the second
/// stands and the other slot stays empty.
pub open spec fn assign_two(
    a0: Angle,
    d0: AngleDirectionNotation,
    a1: Angle,
    d1: AngleDirectionNotation,
) -> LonLatParse {
    let lat = if takes_lat_slot(d1, 1) {
        Some(a1)
    } else if takes_lat_slot(d0, 0) {
        Some(a0)
    } else {
        None
    };
    let lon = if !takes_lat_slot(d1, 1) {
        Some(a1)
    } else if !takes_lat_slot(d0, 0) {
        Some(a0)
    } else {
        None
    };
    if lat is Some && lon is Some {
        LonLatParse::Value(LonLat { lon: lon->Some_0, lat: lat->Some_0 })
    } else {
        LonLatParse::Unknown
    }
}

/// The two-part coordinate assembly: prepare, split, parse each part in
/// order (the first failure is reported), then resolve the slots.  A
/// single part can fill only one slot, so it never assembles.
pub open spec fn lonlat_parse(s: Seq<char>) -> LonLatParse {
    let t = prepared(s);
    let parts = split_two(t);
    match dms_parse(parts.0) {
        DmsParse::NoAngle => LonLatParse::BadPart { index: 0, part: parts.0, no_angle: true },
        DmsParse::Unmatched => LonLatParse::BadPart {
            index: 0,
            part: parts.0,
            no_angle: false,
        },
        DmsParse::Value(a0, d0) => match parts.1 {
            None => LonLatParse::Unknown,
            Some(p1) => match dms_parse(p1) {
                DmsParse::NoAngle => LonLatParse::BadPart {
                    index: 1,
                    part: p1,
                    no_angle: true,
                },
                DmsParse::Unmatched => LonLatParse::BadPart {
                    index: 1,
                    part: p1,
                    no_angle: false,
                },
                DmsParse::Value(a1, d1) => assign_two(a0, d0, a1, d1),
            },
        },
    }
}

/// Copy a character range into its own vector.
fn copy_range(v: &Vec<char>, lo: usize, hi: usize) -> (r: Vec<char>)
    requires
        lo <= hi <= v@.len(),
    ensures
        r@ == v@.subrange(lo as int, hi as int),
{
    let mut r: Vec<char> = Vec::new();
    let mut i: usize = lo;
    while i < hi
        invariant
            lo <= i <= hi <= v@.len(),
            r@ == v@.subrange(lo as int, i as int),
        decreases hi - i,
    {
        let c = v[i];
        r.push(c);
        proof {
            assert(r@ =~= v@.subrange(lo as int, i + 1 as int));
        }
        i += 1;
    }
    r
}

/// A string holding exactly these characters.
fn string_of_chars(v: &Vec<char>) -> (r: String)
    ensures
        r@ == v@,
{
    let mut r = String::new();
    let mut i: usize = 0;
    while i < v.len()
        invariant
            i <= v@.len(),
            r@ == v@.subrange(0, i as int),
        decreases v@.len() - i,
    {
        let c = v[i];
        r.push(c);
        proof {
            assert(r@ =~= v@.subrange(0, i + 1 as int));
        }
        i += 1;
    }
    proof {
        assert(r@ =~= v@);
    }
    r
}

/// Exec counterpart of `prepared`: the trimmed, scheme-stripped
/// characters.
fn prepare_chars(v: &Vec<char>) -> (r: Vec<char>)
    ensures
        r@ == prepared(v@),
{
    let ghost s = v@;
    let n = v.len();
    let mut lo: usize = 0;
    while lo < n && (v[lo] == ' ' || v[lo] == '\t' || v[lo] == '\n' || v[lo] == '\r')
        invariant
            lo <= n,
            n == s.len(),
            v@ == s,
            trim_lo(s, 0) == trim_lo(s, lo as int),
        decreases n - lo,
    {
        lo += 1;
    }
    let mut hi: usize = n;
    while hi > lo && (v[hi - 1] == ' ' || v[hi - 1] == '\t' || v[hi - 1] == '\n' || v[hi - 1]
        == '\r')
        invariant
            lo <= hi <= n,
            n == s.len(),
            v@ == s,
            lo == trim_lo(s, 0),
            trim_hi(s, n as int, lo as int) == trim_hi(s, hi as int, lo as int),
        decreases hi,
    {
        hi -= 1;
    }
    let stripped = hi - lo >= 4 && v[lo] == 'g' && v[lo + 1] == 'e' && v[lo + 2] == 'o' && v[lo
        + 3] == ':';
    let r = if stripped {
        copy_range(v, lo + 4, hi)
    } else {
        copy_range(v, lo, hi)
    };
    proof {
        let t = s.subrange(lo as int, hi as int);
        if stripped {
            assert(r@ =~= t.subrange(4, t.len() as int));
        }
        assert(r@ =~= prepared(s));
    }
    r
}

/// Exec counterpart of `find_char`.
fn find_char_exec(v: &Vec<char>, i: usize, c: char) -> (e: usize)
    requires
        i <= v@.len(),
    ensures
        e == find_char(v@, i as int, c),
        i <= e <= v@.len(),
        e < v@.len() ==> v@[e as int] == c,
{
    let ghost s = v@;
    let mut j: usize = i;
    while j < v.len() && v[j] != c
        invariant
            i <= j <= s.len(),
            v@ == s,
            find_char(s, i as int, c) == find_char(s, j as int, c),
        decreases s.len() - j,
    {
        j += 1;
    }
    j
}

/// Run the two-part assembly on the characters of the source.
fn lonlat_from_chars(v: &Vec<char>) -> (r: Result<LonLat, CivilEngineeringLocationError>)
    ensures
        lonlat_parse(v@) is Value <==> r is Ok,
        r is Ok ==> lonlat_parse(v@) == LonLatParse::Value(r->Ok_0),
        lonlat_parse(v@) is Unknown ==> r is Err && r->Err_0
            == CivilEngineeringLocationError::LonLatFromStrUnknownPattern,
        lonlat_parse(v@) matches LonLatParse::BadPart { index, part, no_angle } ==> r is Err && (
        if no_angle {
            r->Err_0 == CivilEngineeringLocationError::CouldNotDetectAnglePattern
        } else {
            r->Err_0 is CouldNotParseFromIso800001Dms
                && r->Err_0->CouldNotParseFromIso800001Dms_0@ == part
        }),
{
    let t = prepare_chars(v);
    let tn = t.len();
    let cm = find_char_exec(&t, 0, ',');
    let part0: Vec<char>;
    let part1: Option<Vec<char>>;
    if cm < tn {
        part0 = copy_range(&t, 0, cm);
        part1 = Some(copy_range(&t, cm + 1, tn));
    } else {
        let sp = find_char_exec(&t, 0, ' ');
        if sp < tn {
            part0 = copy_range(&t, 0, sp);
            part1 = Some(copy_range(&t, sp + 1, tn));
        } else {
            part0 = copy_range(&t, 0, tn);
            part1 = None;
        }
    }
    proof {
        assert(t@.subrange(0, t@.len() as int) =~= t@);
        assert(part0@ == split_two(t@).0);
        if part1 is Some {
            assert(split_two(t@).1 == Some(part1->Some_0@));
        } else {
            assert(split_two(t@).1 is None);
        }
    }
    let first = Angle::from_dms_str_with_direction_chars(&part0);
    let (a0, d0) = match first {
        Ok(ad) => ad,
        Err(e) => {
            return Err(e);
        },
    };
    match part1 {
        None => Err(CivilEngineeringLocationError::LonLatFromStrUnknownPattern),
        Some(p1) => {
            let second = Angle::from_dms_str_with_direction_chars(&p1);
            let (a1, d1) = match second {
                Ok(ad) => ad,
                Err(e) => {
                    return Err(e);
                },
            };
            let lat_from_1 = matches!(d1, AngleDirectionNotation::Latitude);
            let lat_slot_1 = lat_from_1;
            let lat_slot_0 = matches!(d0, AngleDirectionNotation::Latitude) || matches!(
                d0,
                AngleDirectionNotation::Undetermined,
            );
            let lat: Option<Angle> = if lat_slot_1 {
                Some(a1)
            } else if lat_slot_0 {
                Some(a0)
            } else {
                None
            };
            let lon: Option<Angle> = if !lat_slot_1 {
                Some(a1)
            } else if !lat_slot_0 {
                Some(a0)
            } else {
                None
            };
            match (lat, lon) {
                (Some(lat), Some(lon)) => Ok(LonLat { lon, lat }),
                _ => Err(CivilEngineeringLocationError::LonLatFromStrUnknownPattern),
            }
        },
    }
}

impl Angle {
    /// As `from_dms_str_with_direction`, taking the characters directly.
    fn from_dms_str_with_direction_chars(v: &Vec<char>) -> (r: Result<
        (Angle, AngleDirectionNotation),
        CivilEngineeringLocationError,
    >)
        ensures
            dms_parse(v@) is Value <==> r is Ok,
            r is Ok ==> dms_parse(v@) == DmsParse::<Angle>::Value(r->Ok_0.0, r->Ok_0.1),
            dms_parse(v@) is NoAngle ==> r is Err && r->Err_0
                == CivilEngineeringLocationError::CouldNotDetectAnglePattern,
            dms_parse(v@) is Unmatched ==> r is Err && r->Err_0
                is CouldNotParseFromIso800001Dms
                && r->Err_0->CouldNotParseFromIso800001Dms_0@ == v@,
    {
        let s = string_of_chars(v);
        Angle::from_dms_str_with_direction(s.as_str())
    }
}

impl LonLat {
    /// Read a pair from a decimal pair, a DMS pair with hemisphere
    /// markers, or a GeoURI form, split at the first comma or, failing
    /// that, the first space.
    ///
    /// Each part goes through the angle grammar, which reads a bare
    /// decimal number as its magnitude alone (see `FromDmsStr`): a minus
    /// sign or a W/S marker on a decimal part fixes its role, not its
    /// sign.
    pub fn try_from(source: &str) -> (r: Result<LonLat, CivilEngineeringLocationError>)
        ensures
            lonlat_parse(source@) is Value <==> r is Ok,
            r is Ok ==> lonlat_parse(source@) == LonLatParse::Value(r->Ok_0),
            lonlat_parse(source@) is Unknown ==> r is Err && r->Err_0
                == CivilEngineeringLocationError::LonLatFromStrUnknownPattern,
            lonlat_parse(source@) matches LonLatParse::BadPart { index, part, no_angle } ==> r
                is Err && (if no_angle {
                r->Err_0 == CivilEngineeringLocationError::CouldNotDetectAnglePattern
            } else {
                r->Err_0 is CouldNotParseFromIso800001Dms
                    && r->Err_0->CouldNotParseFromIso800001Dms_0@ == part
            }),
    {
        let v = str_chars(source);
        lonlat_from_chars(&v)
    }
}

/// The altitude field: a strict decimal number (optional sign, digits
/// with optional fraction and exponent, nothing else; a single trailing
/// point after plain digits, as in `5.`, is tolerated), read on the
/// 1.0e-4 metre grid.  `None` when the text is not such a number or the
/// value lies beyond the range.
pub open spec fn alt_value(p: Seq<char>) -> Option<int> {
    let st: int = if p.len() > 0 && is_sign_char(p[0]) {
        1
    } else {
        0
    };
    let e = token_end(p, st);
    let whole = e == p.len() || (e == p.len() - 1 && p[e] == '.' && int_end(p, st) == e);
    if number_starts(p, st) && whole {
        let mag = token_value_units(p, st, 10_000);
        if mag > i64::MAX as int {
            None
        } else if p[0] == '-' {
            Some(-mag)
        } else {
            Some(mag)
        }
    } else {
        None
    }
}

/// Split into three parts at the first two commas, else at the first two
/// spaces; `None` when neither yields three parts.
pub open spec fn split_three(t: Seq<char>) -> Option<(Seq<char>, Seq<char>, Seq<char>)> {
    let c1 = find_char(t, 0, ',');
    let c2 = if c1 < t.len() {
        find_char(t, c1 + 1, ',')
    } else {
        t.len() as int
    };
    if c1 < t.len() && c2 < t.len() {
        Some(
            (
                t.subrange(0, c1),
                t.subrange(c1 + 1, c2),
                t.subrange(c2 + 1, t.len() as int),
            ),
        )
    } else {
        let s1 = find_char(t, 0, ' ');
        let s2 = if s1 < t.len() {
            find_char(t, s1 + 1, ' ')
        } else {
            t.len() as int
        };
        if s1 < t.len() && s2 < t.len() {
            Some(
                (
                    t.subrange(0, s1),
                    t.subrange(s1 + 1, s2),
                    t.subrange(s2 + 1, t.len() as int),
                ),
            )
        } else {
            None
        }
    }
}

/// What the three-part assembly makes of a source string.
pub enum LonLatAltParse {
    /// The source does not split into three parts.
    NoTriple,
    /// The third part is not a plain number.
    BadAlt { part: Seq<char> },
    /// The first two parts, rejoined with a comma, fail the two-part
    /// assembly.
    Inner { of: LonLatParse },
    /// The assembled triple.
    Value(LonLatAlt),
}

/// The three-part assembly: prepare, split into three, read the altitude,
/// then run the two-part assembly on the first two parts rejoined with a
/// comma.
pub open spec fn lonlatalt_parse(s: Seq<char>) -> LonLatAltParse {
    let t = prepared(s);
    match split_three(t) {
        None => LonLatAltParse::NoTriple,
        Some(parts) => match alt_value(parts.2) {
            None => LonLatAltParse::BadAlt { part: parts.2 },
            Some(alt) => {
                let joined = parts.0 + seq![','] + parts.1;
                match lonlat_parse(joined) {
                    LonLatParse::Value(ll) => LonLatAltParse::Value(
                        LonLatAlt {
                            lon: ll.lon,
                            lat: ll.lat,
                            alt: Length { meters_e4: alt as i64 },
                        },
                    ),
                    other => LonLatAltParse::Inner { of: other },
                }
            },
        },
    }
}

/// Exec counterpart of `alt_value`.
fn parse_meters_e4(v: &Vec<char>) -> (r: Option<i64>)
    ensures
        r is Some <==> alt_value(v@) is Some,
        r is Some ==> alt_value(v@) == Some(r->Some_0 as int),
{
    let n = v.len();
    let st: usize = if n > 0 && (v[0] == '+' || v[0] == '-') {
        1
    } else {
        0
    };
    if !number_starts_exec(v, st) {
        return None;
    }
    let sc = scan_number(v, st);
    if sc.end != n {
        // tolerate one trailing point directly after plain digits
        if !(sc.end + 1 == n && v[sc.end] == '.' && scan_digits(v, st) == sc.end) {
            return None;
        }
    }
    match scaled(sc.mantissa, sc.shift, 10_000) {
        None => None,
        Some(u) => {
            let m = u as i64;
            if v[0] == '-' {
                Some(-m)
            } else {
                Some(m)
            }
        },
    }
}

impl LonLatAlt {
    /// Read a triple: the first two parts as a coordinate pair, the third
    /// as an altitude in metres.
    pub fn try_from(source: &str) -> (r: Result<LonLatAlt, CivilEngineeringLocationError>)
        ensures
            lonlatalt_parse(source@) is Value <==> r is Ok,
            r is Ok ==> lonlatalt_parse(source@) == LonLatAltParse::Value(r->Ok_0),
            lonlatalt_parse(source@) is NoTriple ==> r is Err && r->Err_0 is GeoUriParseError
                && r->Err_0->GeoUriParseError_0@ == source@,
            lonlatalt_parse(source@) matches LonLatAltParse::BadAlt { part } ==> r is Err
                && r->Err_0 is ParseFloatError && r->Err_0->ParseFloatError_0@ == part,
            lonlatalt_parse(source@) matches LonLatAltParse::Inner { of } ==> r is Err && (
            match of {
                LonLatParse::Unknown => r->Err_0
                    == CivilEngineeringLocationError::LonLatFromStrUnknownPattern,
                LonLatParse::BadPart { index, part, no_angle } => if no_angle {
                    r->Err_0 == CivilEngineeringLocationError::CouldNotDetectAnglePattern
                } else {
                    r->Err_0 is CouldNotParseFromIso800001Dms
                        && r->Err_0->CouldNotParseFromIso800001Dms_0@ == part
                },
                LonLatParse::Value(_) => false,
            }),
    {
        let v = str_chars(source);
        let t = prepare_chars(&v);
        let tn = t.len();
        let c1 = find_char_exec(&t, 0, ',');
        let c2 = if c1 < tn {
            find_char_exec(&t, c1 + 1, ',')
        } else {
            tn
        };
        let p0: Vec<char>;
        let p1: Vec<char>;
        let p2: Vec<char>;
        if c1 < tn && c2 < tn {
            p0 = copy_range(&t, 0, c1);
            p1 = copy_range(&t, c1 + 1, c2);
            p2 = copy_range(&t, c2 + 1, tn);
        } else {
            let s1 = find_char_exec(&t, 0, ' ');
            let s2 = if s1 < tn {
                find_char_exec(&t, s1 + 1, ' ')
            } else {
                tn
            };
            if s1 < tn && s2 < tn {
                p0 = copy_range(&t, 0, s1);
                p1 = copy_range(&t, s1 + 1, s2);
                p2 = copy_range(&t, s2 + 1, tn);
            } else {
                return Err(
                    CivilEngineeringLocationError::GeoUriParseError(source.to_owned()),
                );
            }
        }
        let alt = match parse_meters_e4(&p2) {
            Some(m) => m,
            None => {
                return Err(
                    CivilEngineeringLocationError::ParseFloatError(string_of_chars(&p2)),
                );
            },
        };
        let mut joined = p0;
        joined.push(',');
        let mut i: usize = 0;
        while i < p1.len()
            invariant
                i <= p1@.len(),
                joined@ == split_three(prepared(v@))->Some_0.0 + seq![','] + p1@.subrange(
                    0,
                    i as int,
                ),
                p1@ == split_three(prepared(v@))->Some_0.1,
            decreases p1@.len() - i,
        {
            let c = p1[i];
            joined.push(c);
            proof {
                assert(joined@ =~= split_three(prepared(v@))->Some_0.0 + seq![',']
                    + p1@.subrange(0, i + 1 as int));
            }
            i += 1;
        }
        proof {
            assert(p1@.subrange(0, p1@.len() as int) =~= p1@);
            assert(joined@ == split_three(prepared(v@))->Some_0.0 + seq![',']
                + split_three(prepared(v@))->Some_0.1);
        }
        match lonlat_from_chars(&joined) {
            Ok(ll) => Ok(LonLatAlt { lon: ll.lon, lat: ll.lat, alt: Length { meters_e4: alt } }),
            Err(e) => Err(e),
        }
    }
}

/// Render a coordinate value as a GeoURI string.
pub trait ToStringGeoUri {
    /// The outcome of `to_string_geo_uri`.
    spec fn geo_uri_spec(&self) -> Result<Seq<char>, CivilEngineeringLocationError>;

    /// `geo:{lat},{lon}` (and for an altitude-bearing value `,{alt}`),
    /// each angle in decimal degrees; `Infinite` if either angle lies
    /// beyond the finite range.
    fn to_string_geo_uri(&self) -> (r: Result<String, CivilEngineeringLocationError>)
        ensures
            r is Ok <==> self.geo_uri_spec() is Ok,
            r is Ok ==> r->Ok_0@ == self.geo_uri_spec()->Ok_0,
            r is Err ==> r->Err_0 == self.geo_uri_spec()->Err_0,
    ;
}

impl ToStringGeoUri for LonLat {
    open spec fn geo_uri_spec(&self) -> Result<Seq<char>, CivilEngineeringLocationError> {
        if !self.lon.is_finite() || !self.lat.is_finite() {
            Err(CivilEngineeringLocationError::Infinite)
        } else {
            Ok(
                seq!['g', 'e', 'o', ':'] + degree_decimal_chars(self.lat.units()) + seq![',']
                    + degree_decimal_chars(self.lon.units()),
            )
        }
    }

    fn to_string_geo_uri(&self) -> (r: Result<String, CivilEngineeringLocationError>) {
        let lon_units = match self.lon.angle_units() {
            Some(u) => u,
            None => {
                return Err(CivilEngineeringLocationError::Infinite);
            },
        };
        let lat_units = match self.lat.angle_units() {
            Some(u) => u,
            None => {
                return Err(CivilEngineeringLocationError::Infinite);
            },
        };
        let mut out = String::new();
        out.push('g');
        out.push('e');
        out.push('o');
        out.push(':');
        push_degree_decimal(&mut out, lat_units);
        out.push(',');
        push_degree_decimal(&mut out, lon_units);
        proof {
            assert(out@ =~= self.geo_uri_spec()->Ok_0);
        }
        Ok(out)
    }
}

impl ToStringGeoUri for LonLatAlt {
    open spec fn geo_uri_spec(&self) -> Result<Seq<char>, CivilEngineeringLocationError> {
        if !self.lon.is_finite() || !self.lat.is_finite() {
            Err(CivilEngineeringLocationError::Infinite)
        } else {
            Ok(
                seq!['g', 'e', 'o', ':'] + degree_decimal_chars(self.lat.units()) + seq![',']
                    + degree_decimal_chars(self.lon.units()) + seq![','] + fixed_decimal(
                    self.alt.meters_e4 as int,
                    10_000,
                    4,
                ),
            )
        }
    }

    fn to_string_geo_uri(&self) -> (r: Result<String, CivilEngineeringLocationError>) {
        let lon_units = match self.lon.angle_units() {
            Some(u) => u,
            None => {
                return Err(CivilEngineeringLocationError::Infinite);
            },
        };
        let lat_units = match self.lat.angle_units() {
            Some(u) => u,
            None => {
                return Err(CivilEngineeringLocationError::Infinite);
            },
        };
        let mut out = String::new();
        out.push('g');
        out.push('e');
        out.push('o');
        out.push(':');
        push_degree_decimal(&mut out, lat_units);
        out.push(',');
        push_degree_decimal(&mut out, lon_units);
        out.push(',');
        push_fixed_decimal(&mut out, self.alt.as_meters_e4(), 10_000, 4);
        proof {
            assert(out@ =~= self.geo_uri_spec()->Ok_0);
        }
        Ok(out)
    }
}

/// Render a pair as signed DMS strings: the latitude in the quarter-turn
/// domain, then a separator, then the longitude in the half-turn domain.
/// The longitude is rendered first, so its error is the one reported.
pub trait ToStringDms: LonLatGettable {
    fn to_string_dms(&self, separator: &str) -> (r: Result<String, CivilEngineeringLocationError>)
        ensures
            r is Ok <==> self.lon_spec().string_dms_180_spec() is Ok
                && self.lat_spec().string_dms_90_spec() is Ok,
            r is Ok ==> r->Ok_0@ == self.lat_spec().string_dms_90_spec()->Ok_0 + separator@
                + self.lon_spec().string_dms_180_spec()->Ok_0,
            self.lon_spec().string_dms_180_spec() is Err ==> r is Err && r->Err_0
                == self.lon_spec().string_dms_180_spec()->Err_0,
            self.lon_spec().string_dms_180_spec() is Ok && self.lat_spec().string_dms_90_spec()
                is Err ==> r is Err && r->Err_0 == self.lat_spec().string_dms_90_spec()->Err_0,
    ;

    fn to_string_dms_comma(&self) -> (r: Result<String, CivilEngineeringLocationError>)
        ensures
            r is Ok <==> self.lon_spec().string_dms_180_spec() is Ok
                && self.lat_spec().string_dms_90_spec() is Ok,
            r is Ok ==> r->Ok_0@ == self.lat_spec().string_dms_90_spec()->Ok_0 + seq![',']
                + self.lon_spec().string_dms_180_spec()->Ok_0,
    ;

    fn to_string_dms_space(&self) -> (r: Result<String, CivilEngineeringLocationError>)
        ensures
            r is Ok <==> self.lon_spec().string_dms_180_spec() is Ok
                && self.lat_spec().string_dms_90_spec() is Ok,
            r is Ok ==> r->Ok_0@ == self.lat_spec().string_dms_90_spec()->Ok_0 + seq![' ']
                + self.lon_spec().string_dms_180_spec()->Ok_0,
    ;
}

impl<T: LonLatGettable> ToStringDms for T {
    fn to_string_dms(&self, separator: &str) -> (r: Result<
        String,
        CivilEngineeringLocationError,
    >) {
        let lon_s = self.get_lon().as_string_dms_180()?;
        let lat_s = self.get_lat().as_string_dms_90()?;
        let mut out = lat_s;
        out.append(separator);
        out.append(lon_s.as_str());
        Ok(out)
    }

    fn to_string_dms_comma(&self) -> (r: Result<String, CivilEngineeringLocationError>) {
        let r = self.to_string_dms(",");
        proof {
            reveal_strlit(",");
            assert(","@ =~= seq![',']);
        }
        r
    }

    fn to_string_dms_space(&self) -> (r: Result<String, CivilEngineeringLocationError>) {
        let r = self.to_string_dms(" ");
        proof {
            reveal_strlit(" ");
            assert(" "@ =~= seq![' ']);
        }
        r
    }
}

/// As `ToStringDms`, with the localized glyphs.
pub trait ToStringDmsJaJp: LonLatGettable {
    fn to_string_dms_ja_jp(&self, separator: &str) -> (r: Result<
        String,
        CivilEngineeringLocationError,
    >)
        ensures
            r is Ok <==> self.lon_spec().string_dms_180_ja_jp_spec() is Ok
                && self.lat_spec().string_dms_90_ja_jp_spec() is Ok,
            r is Ok ==> r->Ok_0@ == self.lat_spec().string_dms_90_ja_jp_spec()->Ok_0
                + separator@ + self.lon_spec().string_dms_180_ja_jp_spec()->Ok_0,
            self.lon_spec().string_dms_180_ja_jp_spec() is Err ==> r is Err && r->Err_0
                == self.lon_spec().string_dms_180_ja_jp_spec()->Err_0,
            self.lon_spec().string_dms_180_ja_jp_spec() is Ok
                && self.lat_spec().string_dms_90_ja_jp_spec() is Err ==> r is Err && r->Err_0
                == self.lat_spec().string_dms_90_ja_jp_spec()->Err_0,
    ;

    fn to_string_dms_comma_ja_jp(&self) -> (r: Result<String, CivilEngineeringLocationError>)
        ensures
            r is Ok <==> self.lon_spec().string_dms_180_ja_jp_spec() is Ok
                && self.lat_spec().string_dms_90_ja_jp_spec() is Ok,
            r is Ok ==> r->Ok_0@ == self.lat_spec().string_dms_90_ja_jp_spec()->Ok_0
                + seq![','] + self.lon_spec().string_dms_180_ja_jp_spec()->Ok_0,
    ;

    fn to_string_dms_space_ja_jp(&self) -> (r: Result<String, CivilEngineeringLocationError>)
        ensures
            r is Ok <==> self.lon_spec().string_dms_180_ja_jp_spec() is Ok
                && self.lat_spec().string_dms_90_ja_jp_spec() is Ok,
            r is Ok ==> r->Ok_0@ == self.lat_spec().string_dms_90_ja_jp_spec()->Ok_0
                + seq![' '] + self.lon_spec().string_dms_180_ja_jp_spec()->Ok_0,
    ;
}

impl<T: LonLatGettable> ToStringDmsJaJp for T {
    fn to_string_dms_ja_jp(&self, separator: &str) -> (r: Result<
        String,
        CivilEngineeringLocationError,
    >) {
        let lon_s = self.get_lon().as_string_dms_180_ja_jp()?;
        let lat_s = self.get_lat().as_string_dms_90_ja_jp()?;
        let mut out = lat_s;
        out.append(separator);
        out.append(lon_s.as_str());
        Ok(out)
    }

    fn to_string_dms_comma_ja_jp(&self) -> (r: Result<String, CivilEngineeringLocationError>) {
        let r = self.to_string_dms_ja_jp(",");
        proof {
            reveal_strlit(",");
            assert(","@ =~= seq![',']);
        }
        r
    }

    fn to_string_dms_space_ja_jp(&self) -> (r: Result<String, CivilEngineeringLocationError>) {
        let r = self.to_string_dms_ja_jp(" ");
        proof {
            reveal_strlit(" ");
            assert(" "@ =~= seq![' ']);
        }
        r
    }
}

/// Render a pair with hemisphere letters: the latitude with N or S, then
/// a separator, then the longitude with E or W.
pub trait ToStringDmsNwse: LonLatGettable {
    fn to_string_dms_nwse(&self, separator: &str) -> (r: Result<
        String,
        CivilEngineeringLocationError,
    >)
        ensures
            r is Ok <==> self.lon_spec().string_dms_ew_spec() is Ok
                && self.lat_spec().string_dms_ns_spec() is Ok,
            r is Ok ==> r->Ok_0@ == self.lat_spec().string_dms_ns_spec()->Ok_0 + separator@
                + self.lon_spec().string_dms_ew_spec()->Ok_0,
            self.lon_spec().string_dms_ew_spec() is Err ==> r is Err && r->Err_0
                == self.lon_spec().string_dms_ew_spec()->Err_0,
            self.lon_spec().string_dms_ew_spec() is Ok && self.lat_spec().string_dms_ns_spec()
                is Err ==> r is Err && r->Err_0 == self.lat_spec().string_dms_ns_spec()->Err_0,
    ;

    fn to_string_dms_nwse_comma(&self) -> (r: Result<String, CivilEngineeringLocationError>)
        ensures
            r is Ok <==> self.lon_spec().string_dms_ew_spec() is Ok
                && self.lat_spec().string_dms_ns_spec() is Ok,
            r is Ok ==> r->Ok_0@ == self.lat_spec().string_dms_ns_spec()->Ok_0 + seq![',']
                + self.lon_spec().string_dms_ew_spec()->Ok_0,
    ;

    fn to_string_dms_nwse_space(&self) -> (r: Result<String, CivilEngineeringLocationError>)
        ensures
            r is Ok <==> self.lon_spec().string_dms_ew_spec() is Ok
                && self.lat_spec().string_dms_ns_spec() is Ok,
            r is Ok ==> r->Ok_0@ == self.lat_spec().string_dms_ns_spec()->Ok_0 + seq![' ']
                + self.lon_spec().string_dms_ew_spec()->Ok_0,
    ;
}

impl<T: LonLatGettable> ToStringDmsNwse for T {
    fn to_string_dms_nwse(&self, separator: &str) -> (r: Result<
        String,
        CivilEngineeringLocationError,
    >) {
        let lon_s = self.get_lon().as_string_dms_ew()?;
        let lat_s = self.get_lat().as_string_dms_ns()?;
        let mut out = lat_s;
        out.append(separator);
        out.append(lon_s.as_str());
        Ok(out)
    }

    fn to_string_dms_nwse_comma(&self) -> (r: Result<String, CivilEngineeringLocationError>) {
        let r = self.to_string_dms_nwse(",");
        proof {
            reveal_strlit(",");
            assert(","@ =~= seq![',']);
        }
        r
    }

    fn to_string_dms_nwse_space(&self) -> (r: Result<String, CivilEngineeringLocationError>) {
        let r = self.to_string_dms_nwse(" ");
        proof {
            reveal_strlit(" ");
            assert(" "@ =~= seq![' ']);
        }
        r
    }
}

/// As `ToStringDmsNwse`, with the localized hemisphere words prefixed.
pub trait ToStringDmsNwseJaJp: LonLatGettable {
    fn to_string_dms_nwse_ja_jp(&self, separator: &str) -> (r: Result<
        String,
        CivilEngineeringLocationError,
    >)
        ensures
            r is Ok <==> self.lon_spec().string_dms_ew_ja_jp_spec() is Ok
                && self.lat_spec().string_dms_ns_ja_jp_spec() is Ok,
            r is Ok ==> r->Ok_0@ == self.lat_spec().string_dms_ns_ja_jp_spec()->Ok_0
                + separator@ + self.lon_spec().string_dms_ew_ja_jp_spec()->Ok_0,
            self.lon_spec().string_dms_ew_ja_jp_spec() is Err ==> r is Err && r->Err_0
                == self.lon_spec().string_dms_ew_ja_jp_spec()->Err_0,
            self.lon_spec().string_dms_ew_ja_jp_spec() is Ok
                && self.lat_spec().string_dms_ns_ja_jp_spec() is Err ==> r is Err && r->Err_0
                == self.lat_spec().string_dms_ns_ja_jp_spec()->Err_0,
    ;

    fn to_string_dms_nwse_comma_ja_jp(&self) -> (r: Result<
        String,
        CivilEngineeringLocationError,
    >)
        ensures
            r is Ok <==> self.lon_spec().string_dms_ew_ja_jp_spec() is Ok
                && self.lat_spec().string_dms_ns_ja_jp_spec() is Ok,
            r is Ok ==> r->Ok_0@ == self.lat_spec().string_dms_ns_ja_jp_spec()->Ok_0
                + seq![','] + self.lon_spec().string_dms_ew_ja_jp_spec()->Ok_0,
    ;

    fn to_string_dms_nwse_space_ja_jp(&self) -> (r: Result<
        String,
        CivilEngineeringLocationError,
    >)
        ensures
            r is Ok <==> self.lon_spec().string_dms_ew_ja_jp_spec() is Ok
                && self.lat_spec().string_dms_ns_ja_jp_spec() is Ok,
            r is Ok ==> r->Ok_0@ == self.lat_spec().string_dms_ns_ja_jp_spec()->Ok_0
                + seq![' '] + self.lon_spec().string_dms_ew_ja_jp_spec()->Ok_0,
    ;
}

impl<T: LonLatGettable> ToStringDmsNwseJaJp for T {
    fn to_string_dms_nwse_ja_jp(&self, separator: &str) -> (r: Result<
        String,
        CivilEngineeringLocationError,
    >) {
        let lon_s = self.get_lon().as_string_dms_ew_ja_jp()?;
        let lat_s = self.get_lat().as_string_dms_ns_ja_jp()?;
        let mut out = lat_s;
        out.append(separator);
        out.append(lon_s.as_str());
        Ok(out)
    }

    fn to_string_dms_nwse_comma_ja_jp(&self) -> (r: Result<
        String,
        CivilEngineeringLocationError,
    >) {
        let r = self.to_string_dms_nwse_ja_jp(",");
        proof {
            reveal_strlit(",");
            assert(","@ =~= seq![',']);
        }
        r
    }

    fn to_string_dms_nwse_space_ja_jp(&self) -> (r: Result<
        String,
        CivilEngineeringLocationError,
    >) {
        let r = self.to_string_dms_nwse_ja_jp(" ");
        proof {
            reveal_strlit(" ");
            assert(" "@ =~= seq![' ']);
        }
        r
    }
}

} // verus!
