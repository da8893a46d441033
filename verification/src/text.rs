use vstd::prelude::*;

use crate::angle::abs_int;
use crate::angle::Angle;
use crate::angle::AngleAsDms;
use crate::error::CivilEngineeringLocationError;
use crate::numfmt::dec_digits;
use crate::numfmt::digit_char;
use crate::numfmt::digit_char_of;
use crate::numfmt::mag_decimal;
use crate::numfmt::push_mag_decimal;
use crate::numfmt::push_u64_dec;
use crate::sign::ToStringEW;
use crate::sign::ToStringNS;
use vstd::string::StringExecFns;

verus! {

/// The rendering of an infinite magnitude.
pub open spec fn inf_chars(negative: bool) -> Seq<char> {
    if negative {
        seq!['-', 'i', 'n', 'f']
    } else {
        seq!['i', 'n', 'f']
    }
}

/// A seconds value (in 1.0e-4 arcsecond units) rendered with exactly one
/// decimal digit, rounded half up at the hundredth of a second.
pub open spec fn sec_one_decimal(s: int) -> Seq<char> {
    let t = (s + 500) / 1000;
    dec_digits((t / 10) as nat) + seq!['.'] + seq![digit_char(t % 10)]
}

/// The magnitude of `u` units in 1.0e-8 degree steps, rounded half up.
pub open spec fn degrees_e8_mag(u: int) -> int {
    (abs_int(u) * 100 + 18) / 36
}

/// The magnitude of `u` units in 1.0e-6 arcminute steps, rounded half up.
pub open spec fn minutes_e6_mag(u: int) -> int {
    (abs_int(u) * 10 + 3) / 6
}

/// A finite angle of `u` units as decimal degrees: sign, then the degree
/// value at eight decimal places (finer than one unit), trailing zeros
/// trimmed.
pub open spec fn degree_decimal_chars(u: int) -> Seq<char> {
    (if u < 0 {
        seq!['-']
    } else {
        Seq::<char>::empty()
    }) + mag_decimal(degrees_e8_mag(u), 100_000_000, 8)
}

/// A finite angle of `u` units as decimal arcminutes at six decimal
/// places.
pub open spec fn minute_decimal_chars(u: int) -> Seq<char> {
    (if u < 0 {
        seq!['-']
    } else {
        Seq::<char>::empty()
    }) + mag_decimal(minutes_e6_mag(u), 1_000_000, 6)
}

/// A finite angle of `u` units as decimal arcseconds at four decimal
/// places (exact: the unit is 1.0e-4 arcsecond).
pub open spec fn second_decimal_chars(u: int) -> Seq<char> {
    (if u < 0 {
        seq!['-']
    } else {
        Seq::<char>::empty()
    }) + mag_decimal(abs_int(u), 10_000, 4)
}

/// The degree-minute-second body: degree and minute values as plain
/// integers, the seconds with one decimal digit, each part followed by its
/// unit glyph.
pub open spec fn dms_chars(d: int, m: int, s: int, degc: char, minc: char, secc: char) -> Seq<
    char,
> {
    dec_digits(d as nat) + seq![degc] + dec_digits(m as nat) + seq![minc] + sec_one_decimal(s)
        + seq![secc]
}

/// Append `sec_one_decimal(s)`.
pub fn push_sec_one_decimal(out: &mut String, s: u32)
    ensures
        final(out)@ == old(out)@ + sec_one_decimal(s as int),
{
    let t: u64 = (s as u64 + 500) / 1000;
    push_u64_dec(out, t / 10);
    out.push('.');
    out.push(digit_char_of(t % 10));
    proof {
        assert(final(out)@ =~= old(out)@ + sec_one_decimal(s as int));
    }
}

/// Append `inf_chars(negative)`.
pub fn push_inf(out: &mut String, negative: bool)
    ensures
        final(out)@ == old(out)@ + inf_chars(negative),
{
    if negative {
        out.push('-');
    }
    out.push('i');
    out.push('n');
    out.push('f');
    proof {
        assert(final(out)@ =~= old(out)@ + inf_chars(negative));
    }
}

/// Append `degree_decimal_chars(units)`.
pub fn push_degree_decimal(out: &mut String, units: i64)
    ensures
        final(out)@ == old(out)@ + degree_decimal_chars(units as int),
{
    if units < 0 {
        out.push('-');
    }
    let t: u64 = if units < 0 {
        (-(units as i128)) as u64
    } else {
        units as u64
    };
    let e8: u128 = (t as u128 * 100 + 18) / 36;
    push_mag_decimal(out, e8, 100_000_000, 8);
    proof {
        assert(final(out)@ =~= old(out)@ + degree_decimal_chars(units as int));
    }
}

/// Append `minute_decimal_chars(units)`.
pub fn push_minute_decimal(out: &mut String, units: i64)
    ensures
        final(out)@ == old(out)@ + minute_decimal_chars(units as int),
{
    if units < 0 {
        out.push('-');
    }
    let t: u64 = if units < 0 {
        (-(units as i128)) as u64
    } else {
        units as u64
    };
    let e6: u128 = (t as u128 * 10 + 3) / 6;
    push_mag_decimal(out, e6, 1_000_000, 6);
    proof {
        assert(final(out)@ =~= old(out)@ + minute_decimal_chars(units as int));
    }
}

/// Append `second_decimal_chars(units)`.
pub fn push_second_decimal(out: &mut String, units: i64)
    ensures
        final(out)@ == old(out)@ + second_decimal_chars(units as int),
{
    if units < 0 {
        out.push('-');
    }
    let t: u64 = if units < 0 {
        (-(units as i128)) as u64
    } else {
        units as u64
    };
    push_mag_decimal(out, t as u128, 10_000, 4);
    proof {
        assert(final(out)@ =~= old(out)@ + second_decimal_chars(units as int));
    }
}

/// Append `dms_chars(d, m, s, degc, minc, secc)`.
pub fn push_dms_chars(out: &mut String, d: u16, m: u8, s: u32, degc: char, minc: char, secc: char)
    ensures
        final(out)@ == old(out)@ + dms_chars(d as int, m as int, s as int, degc, minc, secc),
{
    push_u64_dec(out, d as u64);
    out.push(degc);
    push_u64_dec(out, m as u64);
    out.push(minc);
    push_sec_one_decimal(out, s);
    out.push(secc);
    proof {
        assert(final(out)@ =~= old(out)@ + dms_chars(d as int, m as int, s as int, degc, minc,
        secc));
    }
}

/// Render an angle as plain decimal strings with unit suffixes.  A value
/// beyond the fixed-point range renders as an infinity marker; the
/// full-DMS forms reject it with `Infinite` instead.
pub trait AngleAsStringIso800001: AngleAsDms {
    /// The characters `as_string_degrees` returns.
    spec fn string_degrees_spec(&self) -> Seq<char>;

    /// The characters `as_string_minutes` returns.
    spec fn string_minutes_spec(&self) -> Seq<char>;

    /// The characters `as_string_seconds` returns.
    spec fn string_seconds_spec(&self) -> Seq<char>;

    /// The outcome of `as_string_dms_360`.
    spec fn string_dms_360_spec(&self) -> Result<Seq<char>, CivilEngineeringLocationError>;

    /// The outcome of `as_string_dms_180`.
    spec fn string_dms_180_spec(&self) -> Result<Seq<char>, CivilEngineeringLocationError>;

    /// The outcome of `as_string_dms_90`.
    spec fn string_dms_90_spec(&self) -> Result<Seq<char>, CivilEngineeringLocationError>;

    /// The angle as decimal degrees with the degree glyph.
    fn as_string_degrees(&self) -> (r: String)
        ensures
            r@ == self.string_degrees_spec(),
    ;

    /// The angle as decimal arcminutes with the minute glyph.
    fn as_string_minutes(&self) -> (r: String)
        ensures
            r@ == self.string_minutes_spec(),
    ;

    /// The angle as decimal arcseconds with the second glyph.
    fn as_string_seconds(&self) -> (r: String)
        ensures
            r@ == self.string_seconds_spec(),
    ;

    /// The full-turn domain decomposition as `+D°M’S.S”`.
    fn as_string_dms_360(&self) -> (r: Result<String, CivilEngineeringLocationError>)
        ensures
            r is Ok <==> self.string_dms_360_spec() is Ok,
            r is Ok ==> r->Ok_0@ == self.string_dms_360_spec()->Ok_0,
            r is Err ==> r->Err_0 == self.string_dms_360_spec()->Err_0,
    ;

    /// The half-turn domain decomposition as `±D°M’S.S”`.
    fn as_string_dms_180(&self) -> (r: Result<String, CivilEngineeringLocationError>)
        ensures
            r is Ok <==> self.string_dms_180_spec() is Ok,
            r is Ok ==> r->Ok_0@ == self.string_dms_180_spec()->Ok_0,
            r is Err ==> r->Err_0 == self.string_dms_180_spec()->Err_0,
    ;

    /// The quarter-turn domain decomposition as `±D°M’S.S”`.
    fn as_string_dms_90(&self) -> (r: Result<String, CivilEngineeringLocationError>)
        ensures
            r is Ok <==> self.string_dms_90_spec() is Ok,
            r is Ok ==> r->Ok_0@ == self.string_dms_90_spec()->Ok_0,
            r is Err ==> r->Err_0 == self.string_dms_90_spec()->Err_0,
    ;
}

impl AngleAsStringIso800001 for Angle {
    open spec fn string_degrees_spec(&self) -> Seq<char> {
        match *self {
            Angle::Finite { units } => degree_decimal_chars(units as int) + seq!['°'],
            Angle::Infinite { negative } => inf_chars(negative) + seq!['°'],
        }
    }

    open spec fn string_minutes_spec(&self) -> Seq<char> {
        match *self {
            Angle::Finite { units } => minute_decimal_chars(units as int) + seq!['’'],
            Angle::Infinite { negative } => inf_chars(negative) + seq!['’'],
        }
    }

    open spec fn string_seconds_spec(&self) -> Seq<char> {
        match *self {
            Angle::Finite { units } => second_decimal_chars(units as int) + seq!['”'],
            Angle::Infinite { negative } => inf_chars(negative) + seq!['”'],
        }
    }

    open spec fn string_dms_360_spec(&self) -> Result<Seq<char>, CivilEngineeringLocationError> {
        match self.dms_360_spec() {
            Err(e) => Err(e),
            Ok(p) => Ok(
                seq!['+'] + dms_chars(p.0 as int, p.1 as int, p.2 as int, '°', '’', '”'),
            ),
        }
    }

    open spec fn string_dms_180_spec(&self) -> Result<Seq<char>, CivilEngineeringLocationError> {
        match self.dms_180_spec() {
            Err(e) => Err(e),
            Ok(p) => Ok(
                (if p.0 is Negative {
                    seq!['-']
                } else {
                    seq!['+']
                }) + dms_chars(p.1 as int, p.2 as int, p.3 as int, '°', '’', '”'),
            ),
        }
    }

    open spec fn string_dms_90_spec(&self) -> Result<Seq<char>, CivilEngineeringLocationError> {
        match self.dms_90_spec() {
            Err(e) => Err(e),
            Ok(p) => Ok(
                (if p.0 is Negative {
                    seq!['-']
                } else {
                    seq!['+']
                }) + dms_chars(p.1 as int, p.2 as int, p.3 as int, '°', '’', '”'),
            ),
        }
    }

    fn as_string_degrees(&self) -> (r: String) {
        let mut out = String::new();
        match *self {
            Angle::Finite { units } => push_degree_decimal(&mut out, units),
            Angle::Infinite { negative } => push_inf(&mut out, negative),
        }
        out.push('°');
        out
    }

    fn as_string_minutes(&self) -> (r: String) {
        let mut out = String::new();
        match *self {
            Angle::Finite { units } => push_minute_decimal(&mut out, units),
            Angle::Infinite { negative } => push_inf(&mut out, negative),
        }
        out.push('’');
        out
    }

    fn as_string_seconds(&self) -> (r: String) {
        let mut out = String::new();
        match *self {
            Angle::Finite { units } => push_second_decimal(&mut out, units),
            Angle::Infinite { negative } => push_inf(&mut out, negative),
        }
        out.push('”');
        out
    }

    fn as_string_dms_360(&self) -> (r: Result<String, CivilEngineeringLocationError>) {
        let p = self.as_dms_360()?;
        let mut out = String::new();
        out.push('+');
        push_dms_chars(&mut out, p.0, p.1, p.2, '°', '’', '”');
        proof {
            assert(out@ =~= self.string_dms_360_spec()->Ok_0);
        }
        Ok(out)
    }

    fn as_string_dms_180(&self) -> (r: Result<String, CivilEngineeringLocationError>) {
        let p = self.as_dms_180()?;
        let mut out = String::new();
        out.push(if p.0.is_negative() { '-' } else { '+' });
        push_dms_chars(&mut out, p.1 as u16, p.2, p.3, '°', '’', '”');
        proof {
            assert(out@ =~= self.string_dms_180_spec()->Ok_0);
        }
        Ok(out)
    }

    fn as_string_dms_90(&self) -> (r: Result<String, CivilEngineeringLocationError>) {
        let p = self.as_dms_90()?;
        let mut out = String::new();
        out.push(if p.0.is_negative() { '-' } else { '+' });
        push_dms_chars(&mut out, p.1 as u16, p.2, p.3, '°', '’', '”');
        proof {
            assert(out@ =~= self.string_dms_90_spec()->Ok_0);
        }
        Ok(out)
    }
}

/// The localized (ja-JP) renderings, with 度, 分 and 秒 as the unit glyphs.
pub trait AngleAsStringIso800001JaJp: AngleAsDms {
    /// The characters `as_string_degrees_ja_jp` returns.
    spec fn string_degrees_ja_jp_spec(&self) -> Seq<char>;

    /// The characters `as_string_minutes_ja_jp` returns.
    spec fn string_minutes_ja_jp_spec(&self) -> Seq<char>;

    /// The characters `as_string_seconds_ja_jp` returns.
    spec fn string_seconds_ja_jp_spec(&self) -> Seq<char>;

    /// The outcome of `as_string_dms_360_ja_jp`.
    spec fn string_dms_360_ja_jp_spec(&self) -> Result<Seq<char>, CivilEngineeringLocationError>;

    /// The outcome of `as_string_dms_180_ja_jp`.
    spec fn string_dms_180_ja_jp_spec(&self) -> Result<Seq<char>, CivilEngineeringLocationError>;

    /// The outcome of `as_string_dms_90_ja_jp`.
    spec fn string_dms_90_ja_jp_spec(&self) -> Result<Seq<char>, CivilEngineeringLocationError>;

    /// The angle as decimal degrees with the localized degree glyph.
    fn as_string_degrees_ja_jp(&self) -> (r: String)
        ensures
            r@ == self.string_degrees_ja_jp_spec(),
    ;

    /// The angle as decimal arcminutes with the localized minute glyph.
    fn as_string_minutes_ja_jp(&self) -> (r: String)
        ensures
            r@ == self.string_minutes_ja_jp_spec(),
    ;

    /// The angle as decimal arcseconds with the localized second glyph.
    fn as_string_seconds_ja_jp(&self) -> (r: String)
        ensures
            r@ == self.string_seconds_ja_jp_spec(),
    ;

    /// The full-turn domain decomposition as `+D度M分S.S秒`.
    fn as_string_dms_360_ja_jp(&self) -> (r: Result<String, CivilEngineeringLocationError>)
        ensures
            r is Ok <==> self.string_dms_360_ja_jp_spec() is Ok,
            r is Ok ==> r->Ok_0@ == self.string_dms_360_ja_jp_spec()->Ok_0,
            r is Err ==> r->Err_0 == self.string_dms_360_ja_jp_spec()->Err_0,
    ;

    /// The half-turn domain decomposition as `±D度M分S.S秒`.
    fn as_string_dms_180_ja_jp(&self) -> (r: Result<String, CivilEngineeringLocationError>)
        ensures
            r is Ok <==> self.string_dms_180_ja_jp_spec() is Ok,
            r is Ok ==> r->Ok_0@ == self.string_dms_180_ja_jp_spec()->Ok_0,
            r is Err ==> r->Err_0 == self.string_dms_180_ja_jp_spec()->Err_0,
    ;

    /// The quarter-turn domain decomposition as `±D度M分S.S秒`.
    fn as_string_dms_90_ja_jp(&self) -> (r: Result<String, CivilEngineeringLocationError>)
        ensures
            r is Ok <==> self.string_dms_90_ja_jp_spec() is Ok,
            r is Ok ==> r->Ok_0@ == self.string_dms_90_ja_jp_spec()->Ok_0,
            r is Err ==> r->Err_0 == self.string_dms_90_ja_jp_spec()->Err_0,
    ;
}

impl AngleAsStringIso800001JaJp for Angle {
    open spec fn string_degrees_ja_jp_spec(&self) -> Seq<char> {
        match *self {
            Angle::Finite { units } => degree_decimal_chars(units as int) + seq!['度'],
            Angle::Infinite { negative } => inf_chars(negative) + seq!['度'],
        }
    }

    open spec fn string_minutes_ja_jp_spec(&self) -> Seq<char> {
        match *self {
            Angle::Finite { units } => minute_decimal_chars(units as int) + seq!['分'],
            Angle::Infinite { negative } => inf_chars(negative) + seq!['分'],
        }
    }

    open spec fn string_seconds_ja_jp_spec(&self) -> Seq<char> {
        match *self {
            Angle::Finite { units } => second_decimal_chars(units as int) + seq!['秒'],
            Angle::Infinite { negative } => inf_chars(negative) + seq!['秒'],
        }
    }

    open spec fn string_dms_360_ja_jp_spec(&self) -> Result<
        Seq<char>,
        CivilEngineeringLocationError,
    > {
        match self.dms_360_spec() {
            Err(e) => Err(e),
            Ok(p) => Ok(
                seq!['+'] + dms_chars(p.0 as int, p.1 as int, p.2 as int, '度', '分', '秒'),
            ),
        }
    }

    open spec fn string_dms_180_ja_jp_spec(&self) -> Result<
        Seq<char>,
        CivilEngineeringLocationError,
    > {
        match self.dms_180_spec() {
            Err(e) => Err(e),
            Ok(p) => Ok(
                (if p.0 is Negative {
                    seq!['-']
                } else {
                    seq!['+']
                }) + dms_chars(p.1 as int, p.2 as int, p.3 as int, '度', '分', '秒'),
            ),
        }
    }

    open spec fn string_dms_90_ja_jp_spec(&self) -> Result<
        Seq<char>,
        CivilEngineeringLocationError,
    > {
        match self.dms_90_spec() {
            Err(e) => Err(e),
            Ok(p) => Ok(
                (if p.0 is Negative {
                    seq!['-']
                } else {
                    seq!['+']
                }) + dms_chars(p.1 as int, p.2 as int, p.3 as int, '度', '分', '秒'),
            ),
        }
    }

    fn as_string_degrees_ja_jp(&self) -> (r: String) {
        let mut out = String::new();
        match *self {
            Angle::Finite { units } => push_degree_decimal(&mut out, units),
            Angle::Infinite { negative } => push_inf(&mut out, negative),
        }
        out.push('度');
        out
    }

    fn as_string_minutes_ja_jp(&self) -> (r: String) {
        let mut out = String::new();
        match *self {
            Angle::Finite { units } => push_minute_decimal(&mut out, units),
            Angle::Infinite { negative } => push_inf(&mut out, negative),
        }
        out.push('分');
        out
    }

    fn as_string_seconds_ja_jp(&self) -> (r: String) {
        let mut out = String::new();
        match *self {
            Angle::Finite { units } => push_second_decimal(&mut out, units),
            Angle::Infinite { negative } => push_inf(&mut out, negative),
        }
        out.push('秒');
        out
    }

    fn as_string_dms_360_ja_jp(&self) -> (r: Result<String, CivilEngineeringLocationError>) {
        let p = self.as_dms_360()?;
        let mut out = String::new();
        out.push('+');
        push_dms_chars(&mut out, p.0, p.1, p.2, '度', '分', '秒');
        proof {
            assert(out@ =~= self.string_dms_360_ja_jp_spec()->Ok_0);
        }
        Ok(out)
    }

    fn as_string_dms_180_ja_jp(&self) -> (r: Result<String, CivilEngineeringLocationError>) {
        let p = self.as_dms_180()?;
        let mut out = String::new();
        out.push(if p.0.is_negative() { '-' } else { '+' });
        push_dms_chars(&mut out, p.1 as u16, p.2, p.3, '度', '分', '秒');
        proof {
            assert(out@ =~= self.string_dms_180_ja_jp_spec()->Ok_0);
        }
        Ok(out)
    }

    fn as_string_dms_90_ja_jp(&self) -> (r: Result<String, CivilEngineeringLocationError>) {
        let p = self.as_dms_90()?;
        let mut out = String::new();
        out.push(if p.0.is_negative() { '-' } else { '+' });
        push_dms_chars(&mut out, p.1 as u16, p.2, p.3, '度', '分', '秒');
        proof {
            assert(out@ =~= self.string_dms_90_ja_jp_spec()->Ok_0);
        }
        Ok(out)
    }
}

/// Hemisphere-marked renderings: no sign glyph, the hemisphere letter
/// appended (or the localized hemisphere word prefixed).
pub trait AngleAsStringDmsNwse: AngleAsDms {
    /// The outcome of `as_string_dms_ns`.
    spec fn string_dms_ns_spec(&self) -> Result<Seq<char>, CivilEngineeringLocationError>;

    /// The outcome of `as_string_dms_ew`.
    spec fn string_dms_ew_spec(&self) -> Result<Seq<char>, CivilEngineeringLocationError>;

    /// The outcome of `as_string_dms_ns_ja_jp`.
    spec fn string_dms_ns_ja_jp_spec(&self) -> Result<Seq<char>, CivilEngineeringLocationError>;

    /// The outcome of `as_string_dms_ew_ja_jp`.
    spec fn string_dms_ew_ja_jp_spec(&self) -> Result<Seq<char>, CivilEngineeringLocationError>;

    /// The quarter-turn decomposition with an N or S suffix (a latitude).
    fn as_string_dms_ns(&self) -> (r: Result<String, CivilEngineeringLocationError>)
        ensures
            r is Ok <==> self.string_dms_ns_spec() is Ok,
            r is Ok ==> r->Ok_0@ == self.string_dms_ns_spec()->Ok_0,
            r is Err ==> r->Err_0 == self.string_dms_ns_spec()->Err_0,
    ;

    /// The half-turn decomposition with an E or W suffix (a longitude).
    fn as_string_dms_ew(&self) -> (r: Result<String, CivilEngineeringLocationError>)
        ensures
            r is Ok <==> self.string_dms_ew_spec() is Ok,
            r is Ok ==> r->Ok_0@ == self.string_dms_ew_spec()->Ok_0,
            r is Err ==> r->Err_0 == self.string_dms_ew_spec()->Err_0,
    ;

    /// The quarter-turn decomposition with the localized hemisphere word
    /// prefixed.
    fn as_string_dms_ns_ja_jp(&self) -> (r: Result<String, CivilEngineeringLocationError>)
        ensures
            r is Ok <==> self.string_dms_ns_ja_jp_spec() is Ok,
            r is Ok ==> r->Ok_0@ == self.string_dms_ns_ja_jp_spec()->Ok_0,
            r is Err ==> r->Err_0 == self.string_dms_ns_ja_jp_spec()->Err_0,
    ;

    /// The half-turn decomposition with the localized hemisphere word
    /// prefixed.
    fn as_string_dms_ew_ja_jp(&self) -> (r: Result<String, CivilEngineeringLocationError>)
        ensures
            r is Ok <==> self.string_dms_ew_ja_jp_spec() is Ok,
            r is Ok ==> r->Ok_0@ == self.string_dms_ew_ja_jp_spec()->Ok_0,
            r is Err ==> r->Err_0 == self.string_dms_ew_ja_jp_spec()->Err_0,
    ;
}

impl AngleAsStringDmsNwse for Angle {
    open spec fn string_dms_ns_spec(&self) -> Result<Seq<char>, CivilEngineeringLocationError> {
        match self.dms_90_spec() {
            Err(e) => Err(e),
            Ok(p) => Ok(
                dms_chars(p.1 as int, p.2 as int, p.3 as int, '°', '’', '”') + p.0.ns_spec(),
            ),
        }
    }

    open spec fn string_dms_ew_spec(&self) -> Result<Seq<char>, CivilEngineeringLocationError> {
        match self.dms_180_spec() {
            Err(e) => Err(e),
            Ok(p) => Ok(
                dms_chars(p.1 as int, p.2 as int, p.3 as int, '°', '’', '”') + p.0.ew_spec(),
            ),
        }
    }

    open spec fn string_dms_ns_ja_jp_spec(&self) -> Result<
        Seq<char>,
        CivilEngineeringLocationError,
    > {
        match self.dms_90_spec() {
            Err(e) => Err(e),
            Ok(p) => Ok(
                p.0.ns_ja_jp_spec() + dms_chars(
                    p.1 as int,
                    p.2 as int,
                    p.3 as int,
                    '度',
                    '分',
                    '秒',
                ),
            ),
        }
    }

    open spec fn string_dms_ew_ja_jp_spec(&self) -> Result<
        Seq<char>,
        CivilEngineeringLocationError,
    > {
        match self.dms_180_spec() {
            Err(e) => Err(e),
            Ok(p) => Ok(
                p.0.ew_ja_jp_spec() + dms_chars(
                    p.1 as int,
                    p.2 as int,
                    p.3 as int,
                    '度',
                    '分',
                    '秒',
                ),
            ),
        }
    }

    fn as_string_dms_ns(&self) -> (r: Result<String, CivilEngineeringLocationError>) {
        let p = self.as_dms_90()?;
        let mut out = String::new();
        push_dms_chars(&mut out, p.1 as u16, p.2, p.3, '°', '’', '”');
        out.append(p.0.to_string_ns());
        proof {
            assert(out@ =~= self.string_dms_ns_spec()->Ok_0);
        }
        Ok(out)
    }

    fn as_string_dms_ew(&self) -> (r: Result<String, CivilEngineeringLocationError>) {
        let p = self.as_dms_180()?;
        let mut out = String::new();
        push_dms_chars(&mut out, p.1 as u16, p.2, p.3, '°', '’', '”');
        out.append(p.0.to_string_ew());
        proof {
            assert(out@ =~= self.string_dms_ew_spec()->Ok_0);
        }
        Ok(out)
    }

    fn as_string_dms_ns_ja_jp(&self) -> (r: Result<String, CivilEngineeringLocationError>) {
        let p = self.as_dms_90()?;
        let mut out = String::new();
        out.append(p.0.to_string_ns_ja_jp());
        push_dms_chars(&mut out, p.1 as u16, p.2, p.3, '度', '分', '秒');
        proof {
            assert(out@ =~= self.string_dms_ns_ja_jp_spec()->Ok_0);
        }
        Ok(out)
    }

    fn as_string_dms_ew_ja_jp(&self) -> (r: Result<String, CivilEngineeringLocationError>) {
        let p = self.as_dms_180()?;
        let mut out = String::new();
        out.append(p.0.to_string_ew_ja_jp());
        push_dms_chars(&mut out, p.1 as u16, p.2, p.3, '度', '分', '秒');
        proof {
            assert(out@ =~= self.string_dms_ew_ja_jp_spec()->Ok_0);
        }
        Ok(out)
    }
}

} // verus!
