use vstd::prelude::*;

use crate::angle::Angle;
use crate::angle::FromDms;
use crate::error::CivilEngineeringLocationError;
use crate::sign::Sign;
use vstd::string::StrSliceExecFns;

verus! {

/// The semantic role a hemisphere marker gives a parsed angle: N or S make
/// it a latitude, E or W a longitude; with no marker the role is
/// undetermined.
#[derive(Debug, Clone, Copy, PartialEq, Eq, Structural)]
pub enum AngleDirectionNotation {
    Longitude,
    Latitude,
    Undetermined,
}

/// What the degrees-minutes-seconds grammar makes of a source string.
pub enum DmsParse<T> {
    /// The source holds no decimal digit at all: there is nothing to read.
    NoAngle,
    /// The source holds digits but does not fit the grammar.
    Unmatched,
    /// One angle with its direction role.
    Value(T, AngleDirectionNotation),
}

pub open spec fn is_digit(c: char) -> bool {
    '0' <= c && c <= '9'
}

pub open spec fn digit_val(c: char) -> int {
    c as int - '0' as int
}

pub open spec fn is_sign_char(c: char) -> bool {
    c == '+' || c == '-'
}

pub open spec fn is_deg_glyph(c: char) -> bool {
    c == '°' || c == '度'
}

pub open spec fn is_min_glyph(c: char) -> bool {
    c == '′' || c == '’' || c == '\'' || c == '分'
}

pub open spec fn is_sec_glyph(c: char) -> bool {
    c == '″' || c == '”' || c == '"' || c == '秒'
}

pub open spec fn is_nwse(c: char) -> bool {
    c == 'N' || c == 'W' || c == 'S' || c == 'E'
}

/// Ten to the `e`.
pub open spec fn pow10(e: nat) -> nat
    decreases e,
{
    if e == 0 {
        1
    } else {
        10 * pow10((e - 1) as nat)
    }
}

pub proof fn lemma_pow10_pos(e: nat)
    ensures
        pow10(e) >= 1,
    decreases e,
{
    if e > 0 {
        lemma_pow10_pos((e - 1) as nat);
    }
}

pub proof fn lemma_pow10_monotone(a: nat, b: nat)
    requires
        a <= b,
    ensures
        pow10(a) <= pow10(b),
    decreases b,
{
    if a < b {
        lemma_pow10_monotone(a, (b - 1) as nat);
        lemma_pow10_pos((b - 1) as nat);
    }
}

/// The numeric values of the powers of ten that the scanner's bounds rest
/// on.
pub proof fn lemma_pow10_values()
    ensures
        pow10(19) == 10_000_000_000_000_000_000,
        pow10(27) == 1_000_000_000_000_000_000_000_000_000,
        pow10(28) == 10_000_000_000_000_000_000_000_000_000,
        pow10(38) == 100_000_000_000_000_000_000_000_000_000_000_000_000,
        pow10(39) == 1_000_000_000_000_000_000_000_000_000_000_000_000_000,
{
    assert(pow10(0) == 1);
    assert(pow10(1) == 10);
    assert(pow10(2) == 100);
    assert(pow10(3) == 1000);
    assert(pow10(4) == pow10(3) * 10);
    assert(pow10(5) == pow10(4) * 10);
    assert(pow10(6) == pow10(5) * 10);
    assert(pow10(7) == pow10(6) * 10);
    assert(pow10(8) == pow10(7) * 10);
    assert(pow10(9) == pow10(8) * 10);
    assert(pow10(10) == pow10(9) * 10);
    assert(pow10(11) == pow10(10) * 10);
    assert(pow10(12) == pow10(11) * 10);
    assert(pow10(13) == pow10(12) * 10);
    assert(pow10(14) == pow10(13) * 10);
    assert(pow10(15) == pow10(14) * 10);
    assert(pow10(16) == pow10(15) * 10);
    assert(pow10(17) == pow10(16) * 10);
    assert(pow10(18) == pow10(17) * 10);
    assert(pow10(19) == pow10(18) * 10);
    assert(pow10(20) == pow10(19) * 10);
    assert(pow10(21) == pow10(20) * 10);
    assert(pow10(22) == pow10(21) * 10);
    assert(pow10(23) == pow10(22) * 10);
    assert(pow10(24) == pow10(23) * 10);
    assert(pow10(25) == pow10(24) * 10);
    assert(pow10(26) == pow10(25) * 10);
    assert(pow10(27) == pow10(26) * 10);
    assert(pow10(28) == pow10(27) * 10);
    assert(pow10(29) == pow10(28) * 10);
    assert(pow10(30) == pow10(29) * 10);
    assert(pow10(31) == pow10(30) * 10);
    assert(pow10(32) == pow10(31) * 10);
    assert(pow10(33) == pow10(32) * 10);
    assert(pow10(34) == pow10(33) * 10);
    assert(pow10(35) == pow10(34) * 10);
    assert(pow10(36) == pow10(35) * 10);
    assert(pow10(37) == pow10(36) * 10);
    assert(pow10(38) == pow10(37) * 10);
    assert(pow10(39) == pow10(38) * 10);
}

/// Whether any decimal digit occurs at or after position `i`.
pub open spec fn has_digit_from(s: Seq<char>, i: int) -> bool {
    exists|t: int| i <= t < s.len() && #[trigger] is_digit(s[t])
}

/// The first position at or after `i` that is not a decimal digit.
pub open spec fn digits_end(s: Seq<char>, i: int) -> int
    decreases s.len() - i when 0 <= i <= s.len()
{
    if i < s.len() && is_digit(s[i]) {
        digits_end(s, i + 1)
    } else {
        i
    }
}

/// The first position at or after `i` that is not a space.
pub open spec fn skip_spaces(s: Seq<char>, i: int) -> int
    decreases s.len() - i when 0 <= i <= s.len()
{
    if i < s.len() && s[i] == ' ' {
        skip_spaces(s, i + 1)
    } else {
        i
    }
}

/// The first position holding a digit or an explicit sign character (the
/// length if there is none): where the numeric core of the grammar can
/// begin.
pub open spec fn first_digit_or_sign(s: Seq<char>, i: int) -> int
    decreases s.len() - i when 0 <= i <= s.len()
{
    if i < s.len() && !(is_digit(s[i]) || is_sign_char(s[i])) {
        first_digit_or_sign(s, i + 1)
    } else {
        i
    }
}

/// Whether a number token can begin at `i`: a digit, or a point directly
/// followed by a digit.
pub open spec fn number_starts(s: Seq<char>, i: int) -> bool {
    i < s.len() && (is_digit(s[i]) || (s[i] == '.' && i + 1 < s.len() && is_digit(s[i + 1])))
}

/// End of the integer digits of the number token at `i`.
pub open spec fn int_end(s: Seq<char>, i: int) -> int {
    digits_end(s, i)
}

/// Whether the token at `i` carries a fraction: a point directly followed
/// by at least one digit.
pub open spec fn has_frac(s: Seq<char>, i: int) -> bool {
    let ie = int_end(s, i);
    ie < s.len() && s[ie] == '.' && ie + 1 < s.len() && is_digit(s[ie + 1])
}

/// End of the fraction digits (equals `int_end` without a fraction).
pub open spec fn frac_end(s: Seq<char>, i: int) -> int {
    if has_frac(s, i) {
        digits_end(s, int_end(s, i) + 1)
    } else {
        int_end(s, i)
    }
}

/// Number of fraction digits of the token at `i`.
pub open spec fn frac_len(s: Seq<char>, i: int) -> int {
    if has_frac(s, i) {
        frac_end(s, i) - (int_end(s, i) + 1)
    } else {
        0
    }
}

/// Whether the token at `i` carries an exponent: `e` or `E`, an optional
/// sign, then at least one digit.
pub open spec fn has_exp(s: Seq<char>, i: int) -> bool {
    let fe = frac_end(s, i);
    let ds = exp_digits_start(s, i);
    fe < s.len() && (s[fe] == 'e' || s[fe] == 'E') && ds < s.len() && is_digit(s[ds])
}

/// First exponent digit position (meaningful only under `has_exp`).
pub open spec fn exp_digits_start(s: Seq<char>, i: int) -> int {
    let fe = frac_end(s, i);
    if fe + 1 < s.len() && is_sign_char(s[fe + 1]) {
        fe + 2
    } else {
        fe + 1
    }
}

/// Whether the exponent is negative.
pub open spec fn exp_negative(s: Seq<char>, i: int) -> bool {
    let fe = frac_end(s, i);
    fe + 1 < s.len() && s[fe + 1] == '-'
}

/// End of the whole number token at `i`.
pub open spec fn token_end(s: Seq<char>, i: int) -> int {
    if has_exp(s, i) {
        digits_end(s, exp_digits_start(s, i))
    } else {
        frac_end(s, i)
    }
}

/// The digit characters of the mantissa: integer digits then fraction
/// digits, the point dropped.
pub open spec fn mantissa_digits(s: Seq<char>, i: int) -> Seq<char> {
    if has_frac(s, i) {
        s.subrange(i, int_end(s, i)) + s.subrange(int_end(s, i) + 1, frac_end(s, i))
    } else {
        s.subrange(i, int_end(s, i))
    }
}

/// Fold the mantissa digits into (value, significant count, dropped
/// count): leading zeros are skipped, at most nineteen significant digits
/// are read, digits past them are counted as dropped.  The value read is
/// thus exact to nineteen significant digits, finer than the angle grid.
pub open spec fn scan_mantissa(ds: Seq<char>) -> (nat, nat, nat)
    decreases ds.len(),
{
    if ds.len() == 0 {
        (0nat, 0nat, 0nat)
    } else {
        let prev = scan_mantissa(ds.drop_last());
        let d = digit_val(ds.last());
        if prev.1 == 0 && d == 0 {
            prev
        } else if prev.1 < 19 {
            ((prev.0 * 10 + d) as nat, (prev.1 + 1) as nat, prev.2)
        } else {
            (prev.0, prev.1, (prev.2 + 1) as nat)
        }
    }
}

/// Fold the exponent digits into a value, saturated at ten to the
/// thirtieth.  The saturation bound outweighs any shift the digit counts
/// themselves can contribute (those are bounded by the string length), so
/// past it only the sign of the exponent matters: the value is beyond the
/// finite range, or rounds to zero, either way.
pub open spec fn scan_exp_digits(ds: Seq<char>) -> nat
    decreases ds.len(),
{
    if ds.len() == 0 {
        0
    } else {
        let prev = scan_exp_digits(ds.drop_last());
        let d = digit_val(ds.last());
        if prev * 10 + d > 1_000_000_000_000_000_000_000_000_000_000 {
            1_000_000_000_000_000_000_000_000_000_000
        } else {
            (prev * 10 + d) as nat
        }
    }
}

/// The signed, saturated exponent value of the token at `i`.
pub open spec fn exp_val(s: Seq<char>, i: int) -> int {
    if has_exp(s, i) {
        let mag = scan_exp_digits(s.subrange(exp_digits_start(s, i), token_end(s, i)));
        if exp_negative(s, i) {
            -(mag as int)
        } else {
            mag as int
        }
    } else {
        0
    }
}

/// A mantissa `m` standing for `m` times ten to the `-k`, scaled to angle
/// units (`scale` units per whole) and rounded half up.
pub open spec fn scaled_units(m: nat, k: int, scale: int) -> int {
    if m == 0 {
        0
    } else if k >= 0 {
        (m * scale + (pow10(k as nat) as int) / 2) / (pow10(k as nat) as int)
    } else {
        m * scale * (pow10((-k) as nat) as int)
    }
}

/// The value of the number token at `i` in angle units of the field it
/// stands in (`scale` units per whole), rounded half up on the unit grid.
pub open spec fn token_value_units(s: Seq<char>, i: int, scale: int) -> int {
    let folded = scan_mantissa(mantissa_digits(s, i));
    scaled_units(folded.0, frac_len(s, i) - exp_val(s, i) - folded.2, scale)
}

/// `digits_end` stays between `i` and the length, sees digits only, and
/// stops at a non-digit.
pub proof fn lemma_digits_end(s: Seq<char>, i: int)
    requires
        0 <= i <= s.len(),
    ensures
        i <= digits_end(s, i) <= s.len(),
        forall|t: int| i <= t < digits_end(s, i) ==> #[trigger] is_digit(s[t]),
        digits_end(s, i) < s.len() ==> !is_digit(s[digits_end(s, i)]),
    decreases s.len() - i,
{
    if i < s.len() && is_digit(s[i]) {
        lemma_digits_end(s, i + 1);
    }
}

/// `first_digit_or_sign` stays between `i` and the length.
pub proof fn lemma_first_digit_or_sign(s: Seq<char>, i: int)
    requires
        0 <= i <= s.len(),
    ensures
        i <= first_digit_or_sign(s, i) <= s.len(),
        first_digit_or_sign(s, i) < s.len() ==> is_digit(s[first_digit_or_sign(s, i)])
            || is_sign_char(s[first_digit_or_sign(s, i)]),
        forall|t: int|
            i <= t < first_digit_or_sign(s, i) ==> !(#[trigger] is_digit(s[t])) && !is_sign_char(
                s[t],
            ),
    decreases s.len() - i,
{
    if i < s.len() && !(is_digit(s[i]) || is_sign_char(s[i])) {
        lemma_first_digit_or_sign(s, i + 1);
    }
}

/// The characters of a string, in order.
pub fn str_chars(s: &str) -> (v: Vec<char>)
    ensures
        v@ == s@,
{
    let n = s.unicode_len();
    let mut v: Vec<char> = Vec::new();
    let mut i: usize = 0;
    while i < n
        invariant
            i <= n,
            n == s@.len(),
            v@ == s@.subrange(0, i as int),
        decreases n - i,
    {
        let c = s.get_char(i);
        v.push(c);
        proof {
            assert(v@ =~= s@.subrange(0, i + 1 as int));
        }
        i += 1;
    }
    proof {
        assert(v@ =~= s@);
    }
    v
}

fn is_digit_exec(c: char) -> (r: bool)
    ensures
        r == is_digit(c),
{
    '0' <= c && c <= '9'
}

/// The digit's value.
fn digit_value(c: char) -> (r: u64)
    requires
        is_digit(c),
    ensures
        r == digit_val(c),
        r < 10,
{
    (c as u32 - '0' as u32) as u64
}

/// Exec scan to `digits_end`.
pub(crate) fn scan_digits(v: &Vec<char>, i: usize) -> (e: usize)
    requires
        i <= v@.len(),
    ensures
        e == digits_end(v@, i as int),
        i <= e <= v@.len(),
{
    let ghost s = v@;
    let mut j: usize = i;
    while j < v.len() && is_digit_exec(v[j])
        invariant
            i <= j <= s.len(),
            v@ == s,
            digits_end(s, i as int) == digits_end(s, j as int),
        decreases s.len() - j,
    {
        j += 1;
    }
    j
}

/// Exec scan to `skip_spaces`.
fn skip_spaces_exec(v: &Vec<char>, i: usize) -> (e: usize)
    requires
        i <= v@.len(),
    ensures
        e == skip_spaces(v@, i as int),
        i <= e <= v@.len(),
{
    let ghost s = v@;
    let mut j: usize = i;
    while j < v.len() && v[j] == ' '
        invariant
            i <= j <= s.len(),
            v@ == s,
            skip_spaces(s, i as int) == skip_spaces(s, j as int),
        decreases s.len() - j,
    {
        j += 1;
    }
    j
}

/// Exec scan to `first_digit_or_sign`.
fn first_digit_or_sign_exec(v: &Vec<char>) -> (e: usize)
    ensures
        e == first_digit_or_sign(v@, 0),
        e <= v@.len(),
{
    let ghost s = v@;
    let mut j: usize = 0;
    while j < v.len() && !(is_digit_exec(v[j]) || v[j] == '+' || v[j] == '-')
        invariant
            j <= s.len(),
            v@ == s,
            first_digit_or_sign(s, 0) == first_digit_or_sign(s, j as int),
        decreases s.len() - j,
    {
        j += 1;
    }
    j
}

/// Whether any digit occurs at or after `i`.
fn has_digit_from_exec(v: &Vec<char>, i: usize) -> (r: bool)
    requires
        i <= v@.len(),
    ensures
        r == has_digit_from(v@, i as int),
{
    let ghost s = v@;
    let mut j: usize = i;
    while j < v.len()
        invariant
            i <= j <= s.len(),
            v@ == s,
            forall|t: int| i <= t < j ==> !(#[trigger] is_digit(s[t])),
        decreases s.len() - j,
    {
        if is_digit_exec(v[j]) {
            return true;
        }
        j += 1;
    }
    false
}

pub(crate) fn number_starts_exec(v: &Vec<char>, i: usize) -> (r: bool)
    requires
        i <= v@.len(),
    ensures
        r == number_starts(v@, i as int),
{
    if i < v.len() {
        if is_digit_exec(v[i]) {
            true
        } else if v[i] == '.' && i + 1 < v.len() {
            is_digit_exec(v[i + 1])
        } else {
            false
        }
    } else {
        false
    }
}

/// The folded shape of a scanned number token.
#[derive(Clone, Copy)]
pub struct NumScan {
    /// Position after the token.
    pub end: usize,
    /// Mantissa value to nineteen significant digits.
    pub mantissa: u64,
    /// The net power of ten dividing the mantissa.
    pub shift: i128,
}

/// Scan the number token at `i`: its end, its mantissa folded to nineteen
/// significant digits, and the net decimal shift (fraction length minus
/// exponent, minus the trailing digits dropped past the nineteenth).
#[verifier::rlimit(60)]
pub(crate) fn scan_number(v: &Vec<char>, i: usize) -> (r: NumScan)
    requires
        number_starts(v@, i as int),
    ensures
        r.end == token_end(v@, i as int),
        i < r.end <= v@.len(),
        r.mantissa == scan_mantissa(mantissa_digits(v@, i as int)).0,
        r.mantissa < 10_000_000_000_000_000_000,
        r.shift == frac_len(v@, i as int) - exp_val(v@, i as int) - scan_mantissa(
            mantissa_digits(v@, i as int),
        ).2,
        -(1_000_000_000_000_000_000_000_000_000_000 + v@.len()) <= r.shift
            <= 1_000_000_000_000_000_000_000_000_000_000 + v@.len(),
{
    let ghost s = v@;
    proof {
        lemma_digits_end(s, i as int);
    }
    let ie: usize = scan_digits(v, i);
    let with_frac: bool = ie < v.len() && v[ie] == '.' && ie + 1 < v.len() && is_digit_exec(
        v[ie + 1],
    );
    proof {
        if with_frac {
            lemma_digits_end(s, ie + 1 as int);
        }
    }
    let fe: usize = if with_frac {
        scan_digits(v, ie + 1)
    } else {
        ie
    };
    let fl: usize = if with_frac {
        fe - (ie + 1)
    } else {
        0
    };

    // mantissa fold over the integer digits, then the fraction digits
    let mut m: u64 = 0;
    let mut sig: u64 = 0;
    let mut dropped: usize = 0;
    let mut j: usize = i;
    proof {
        assert(s.subrange(i as int, i as int) =~= Seq::<char>::empty());
    }
    while j < ie
        invariant
            i <= j <= ie <= s.len(),
            v@ == s,
            forall|t: int| i <= t < ie ==> #[trigger] is_digit(s[t]),
            (m as nat, sig as nat, dropped as nat) == scan_mantissa(
                s.subrange(i as int, j as int),
            ),
            dropped <= j,
            sig <= 19,
            m < pow10(sig as nat),
        decreases ie - j,
    {
        let d = digit_value(v[j]);
        proof {
            assert(s.subrange(i as int, j + 1 as int).drop_last() =~= s.subrange(
                i as int,
                j as int,
            ));
            assert(s.subrange(i as int, j + 1 as int).last() == s[j as int]);
            lemma_pow10_pos(sig as nat);
            lemma_pow10_values();
            if sig < 19 {
                lemma_pow10_monotone((sig + 1) as nat, 19nat);
            }
        }
        if sig == 0 && d == 0 {
        } else if sig < 19 {
            m = m * 10 + d;
            sig = sig + 1;
        } else {
            dropped = dropped + 1;
        }
        j += 1;
    }
    proof {
        assert(s.subrange(i as int, ie as int) =~= mantissa_digits(s, i as int).subrange(
            0,
            (ie - i) as int,
        ));
    }
    if with_frac {
        let mut j2: usize = ie + 1;
        proof {
            assert(s.subrange(i as int, ie as int) + s.subrange(ie + 1 as int, ie + 1 as int)
                =~= s.subrange(i as int, ie as int));
        }
        while j2 < fe
            invariant
                ie + 1 <= j2 <= fe <= s.len(),
                v@ == s,
                with_frac == has_frac(s, i as int),
                with_frac,
                ie == int_end(s, i as int),
                fe == frac_end(s, i as int),
                forall|t: int| ie + 1 <= t < fe ==> #[trigger] is_digit(s[t]),
                (m as nat, sig as nat, dropped as nat) == scan_mantissa(
                    s.subrange(i as int, ie as int) + s.subrange(ie + 1 as int, j2 as int),
                ),
                dropped <= j2,
                sig <= 19,
                m < pow10(sig as nat),
            decreases fe - j2,
        {
            let d = digit_value(v[j2]);
            proof {
                let pref = s.subrange(i as int, ie as int) + s.subrange(
                    ie + 1 as int,
                    j2 as int,
                );
                let next = s.subrange(i as int, ie as int) + s.subrange(
                    ie + 1 as int,
                    j2 + 1 as int,
                );
                assert(next.drop_last() =~= pref);
                assert(next.last() == s[j2 as int]);
                lemma_pow10_pos(sig as nat);
                lemma_pow10_values();
                if sig < 19 {
                    lemma_pow10_monotone((sig + 1) as nat, 19nat);
                }
            }
            if sig == 0 && d == 0 {
            } else if sig < 19 {
                m = m * 10 + d;
                sig = sig + 1;
            } else {
                dropped = dropped + 1;
            }
            j2 += 1;
        }
        proof {
            assert(s.subrange(i as int, ie as int) + s.subrange(ie + 1 as int, fe as int)
                =~= mantissa_digits(s, i as int));
        }
    } else {
        proof {
            assert(s.subrange(i as int, ie as int) =~= mantissa_digits(s, i as int));
        }
    }

    // exponent
    let with_e: bool = fe < v.len() && (v[fe] == 'e' || v[fe] == 'E');
    let e_neg: bool = with_e && fe + 1 < v.len() && v[fe + 1] == '-';
    let ds: usize = if with_e {
        if fe + 1 < v.len() && (v[fe + 1] == '+' || v[fe + 1] == '-') {
            fe + 2
        } else {
            fe + 1
        }
    } else {
        0
    };
    let with_exp: bool = with_e && ds < v.len() && is_digit_exec(v[ds]);
    let mut emag: u128 = 0;
    let end: usize;
    if with_exp {
        proof {
            lemma_digits_end(s, ds as int);
        }
        let te: usize = scan_digits(v, ds);
        let mut j3: usize = ds;
        proof {
            assert(s.subrange(ds as int, ds as int) =~= Seq::<char>::empty());
        }
        while j3 < te
            invariant
                ds <= j3 <= te <= s.len(),
                v@ == s,
                forall|t: int| ds <= t < te ==> #[trigger] is_digit(s[t]),
                emag as nat == scan_exp_digits(s.subrange(ds as int, j3 as int)),
                emag <= 1_000_000_000_000_000_000_000_000_000_000,
            decreases te - j3,
        {
            let d = digit_value(v[j3]);
            proof {
                assert(s.subrange(ds as int, j3 + 1 as int).drop_last() =~= s.subrange(
                    ds as int,
                    j3 as int,
                ));
                assert(s.subrange(ds as int, j3 + 1 as int).last() == s[j3 as int]);
            }
            if emag * 10 + d as u128 > 1_000_000_000_000_000_000_000_000_000_000 {
                emag = 1_000_000_000_000_000_000_000_000_000_000;
            } else {
                emag = emag * 10 + d as u128;
            }
            j3 += 1;
        }
        end = te;
    } else {
        end = fe;
    }
    let exp: i128 = if with_exp {
        if e_neg {
            -(emag as i128)
        } else {
            emag as i128
        }
    } else {
        0
    };
    let shift: i128 = fl as i128 - exp - dropped as i128;
    proof {
        assert(has_exp(s, i as int) == with_exp);
        if with_exp {
            assert(exp_digits_start(s, i as int) == ds as int);
            assert(exp_negative(s, i as int) == e_neg);
        }
    }
    proof {
        lemma_pow10_values();
        lemma_pow10_monotone(sig as nat, 19nat);
    }
    NumScan { end, mantissa: m, shift }
}

/// Ten to the `k`, in a `u128`.
fn pow10_u128(k: u64) -> (r: u128)
    requires
        k <= 38,
    ensures
        r == pow10(k as nat),
{
    let mut j: u64 = 0;
    let mut p: u128 = 1;
    while j < k
        invariant
            j <= k <= 38,
            p == pow10(j as nat),
        decreases k - j,
    {
        proof {
            lemma_pow10_values();
            lemma_pow10_monotone((j + 1) as nat, 38nat);
            lemma_pow10_pos(j as nat);
        }
        p = p * 10;
        j += 1;
    }
    p
}

/// Scale a folded mantissa to angle units: `Some` of the value when it
/// fits the finite range, `None` when it lies beyond it.
pub(crate) fn scaled(m: u64, k: i128, scale: u64) -> (r: Option<u64>)
    requires
        m < 10_000_000_000_000_000_000,
        10_000 <= scale <= 36_000_000,
        -10_000_000_000_000_000_000_000_000_000_000 <= k
            <= 10_000_000_000_000_000_000_000_000_000_000,
    ensures
        r is Some <==> scaled_units(m as nat, k as int, scale as int) <= i64::MAX as int,
        r is Some ==> r->Some_0 == scaled_units(m as nat, k as int, scale as int),
{
    proof {
        vstd::arithmetic::mul::lemma_mul_upper_bound(
            m as int,
            9_999_999_999_999_999_999,
            scale as int,
            36_000_000,
        );
    }
    if m == 0 {
        Some(0)
    } else if k >= 28 {
        // the scaled mantissa is far below half of the rounding divisor
        proof {
            let kk = k as int;
            let p = pow10(kk as nat) as int;
            lemma_pow10_values();
            lemma_pow10_monotone(28nat, kk as nat);
            lemma_pow10_pos(kk as nat);
            assert(m * scale + p / 2 < p);
            vstd::arithmetic::div_mod::lemma_basic_div(m as int * scale as int + p / 2, p);
        }
        Some(0)
    } else if k >= 0 {
        let p: u128 = pow10_u128(k as u64);
        proof {
            lemma_pow10_values();
            lemma_pow10_monotone(k as nat, 27nat);
            lemma_pow10_pos(k as nat);
        }
        let val: u128 = (m as u128 * scale as u128 + p / 2) / p;
        if val <= i64::MAX as u128 {
            Some(val as u64)
        } else {
            None
        }
    } else {
        let neg: i128 = -k;
        if neg >= 39 {
            // at least one significant digit, so the value overflows i64
            proof {
                let nn = neg as int;
                let p = pow10(nn as nat) as int;
                lemma_pow10_values();
                lemma_pow10_monotone(39nat, nn as nat);
                lemma_pow10_pos(nn as nat);
                vstd::arithmetic::mul::lemma_mul_inequality(1, m as int, scale as int);
                vstd::arithmetic::mul::lemma_mul_inequality(
                    scale as int,
                    m as int * scale as int,
                    p,
                );
                vstd::arithmetic::mul::lemma_mul_inequality(10_000, scale as int, p);
            }
            None
        } else {
            let p: u128 = pow10_u128(neg as u64);
            proof {
                lemma_pow10_values();
                lemma_pow10_monotone(neg as nat, 38nat);
                lemma_pow10_pos(neg as nat);
            }
            let ms: u128 = m as u128 * scale as u128;
            match ms.checked_mul(p) {
                Some(val) => {
                    if val <= i64::MAX as u128 {
                        Some(val as u64)
                    } else {
                        None
                    }
                },
                None => {
                    proof {
                        vstd::arithmetic::mul::lemma_mul_inequality(1, m as int, scale as int);
                        vstd::arithmetic::mul::lemma_mul_inequality(10_000, scale as int, p as int);
                    }
                    None
                },
            }
        }
    }
}

/// The (negative, role) meaning of a localized hemisphere prefix word, two
/// characters long.
pub open spec fn word_info(c1: char, c2: char) -> Option<(bool, AngleDirectionNotation)> {
    if c1 == '北' && c2 == '緯' {
        Some((false, AngleDirectionNotation::Latitude))
    } else if c1 == '南' && c2 == '緯' {
        Some((true, AngleDirectionNotation::Latitude))
    } else if c1 == '東' && c2 == '経' {
        Some((false, AngleDirectionNotation::Longitude))
    } else if c1 == '西' && c2 == '経' {
        Some((true, AngleDirectionNotation::Longitude))
    } else {
        None
    }
}

/// The prefix word ending directly before `anchor`, if any.
pub open spec fn prefix_at(s: Seq<char>, anchor: int) -> Option<(bool, AngleDirectionNotation)> {
    if anchor >= 2 {
        word_info(s[anchor - 2], s[anchor - 1])
    } else {
        None
    }
}

/// The field layout of the numeric core that begins at a number position:
/// either the grammar cannot consume all digits (`Bad`), or a bare decimal
/// number (`DegOnly`), or up to three unit-marked fields with the position
/// after them.  Each field records where its number token starts.
pub enum DmsCore {
    Bad,
    DegOnly { start: int },
    Fields { deg: Option<int>, min: Option<int>, sec: Option<int>, cur: int },
}

/// After the minute field: an optional seconds field.  A further number
/// without its seconds glyph leaves digits no grammar element can take.
pub open spec fn core_sec(s: Seq<char>, deg: Option<int>, min: Option<int>, cur: int) -> DmsCore {
    let q = skip_spaces(s, cur);
    if number_starts(s, q) {
        let p = token_end(s, q);
        if p < s.len() && is_sec_glyph(s[p]) {
            DmsCore::Fields { deg, min, sec: Some(q), cur: p + 1 }
        } else {
            DmsCore::Bad
        }
    } else {
        DmsCore::Fields { deg, min, sec: None, cur }
    }
}

/// After the degree field: an optional minute field, or directly a seconds
/// field.
pub open spec fn core_min_sec(s: Seq<char>, deg: Option<int>, cur: int) -> DmsCore {
    let q = skip_spaces(s, cur);
    if number_starts(s, q) {
        let p = token_end(s, q);
        if p < s.len() && is_min_glyph(s[p]) {
            core_sec(s, deg, Some(q), p + 1)
        } else if p < s.len() && is_sec_glyph(s[p]) {
            DmsCore::Fields { deg, min: None, sec: Some(q), cur: p + 1 }
        } else {
            DmsCore::Bad
        }
    } else {
        DmsCore::Fields { deg, min: None, sec: None, cur }
    }
}

/// The whole numeric core at `ns`: the first number is classified by the
/// glyph that follows it; with no glyph at all it is the bare decimal
/// number of the degrees-only branch.
pub open spec fn dms_core(s: Seq<char>, ns: int) -> DmsCore {
    let p1 = token_end(s, ns);
    if p1 < s.len() && is_deg_glyph(s[p1]) {
        core_min_sec(s, Some(ns), p1 + 1)
    } else if p1 < s.len() && is_min_glyph(s[p1]) {
        core_sec(s, None, Some(ns), p1 + 1)
    } else if p1 < s.len() && is_sec_glyph(s[p1]) {
        DmsCore::Fields { deg: None, min: None, sec: Some(ns), cur: p1 + 1 }
    } else {
        DmsCore::DegOnly { start: ns }
    }
}

/// Position after the optional hemisphere letter that may follow the core
/// (spaces allowed before it).
pub open spec fn nwse_end(s: Seq<char>, cur: int) -> int {
    let q = skip_spaces(s, cur);
    if q < s.len() && is_nwse(s[q]) {
        q + 1
    } else {
        q
    }
}

/// The hemisphere letter following the core, if any.
pub open spec fn nwse_char(s: Seq<char>, cur: int) -> Option<char> {
    let q = skip_spaces(s, cur);
    if q < s.len() && is_nwse(s[q]) {
        Some(s[q])
    } else {
        None
    }
}

/// Sign and role of the parsed angle.  An explicit sign character wins and
/// forces the undetermined role; otherwise a hemisphere letter decides;
/// otherwise a localized prefix word; otherwise positive and undetermined.
pub open spec fn resolve_sign_dir(
    sign_char: Option<char>,
    nwse: Option<char>,
    prefix: Option<(bool, AngleDirectionNotation)>,
) -> (Sign, AngleDirectionNotation) {
    match sign_char {
        Some(c) => (
            if c == '-' {
                Sign::Negative
            } else {
                Sign::Positive
            },
            AngleDirectionNotation::Undetermined,
        ),
        None => match nwse {
            Some(c) => (
                if c == 'S' || c == 'W' {
                    Sign::Negative
                } else {
                    Sign::Positive
                },
                if c == 'N' || c == 'S' {
                    AngleDirectionNotation::Latitude
                } else {
                    AngleDirectionNotation::Longitude
                },
            ),
            None => match prefix {
                Some(p) => (
                    if p.0 {
                        Sign::Negative
                    } else {
                        Sign::Positive
                    },
                    p.1,
                ),
                None => (Sign::Positive, AngleDirectionNotation::Undetermined),
            },
        },
    }
}

/// The value of an optional field in angle units of its own scale.
pub open spec fn field_value(s: Seq<char>, f: Option<int>, scale: int) -> int {
    match f {
        Some(a) => token_value_units(s, a, scale),
        None => 0,
    }
}

/// The angle of a full or partial DMS form: the three field magnitudes
/// add under the resolved sign; any magnitude beyond the fixed-point range
/// makes the angle the infinity of that sign.
pub open spec fn dms_fields_angle(
    s: Seq<char>,
    deg: Option<int>,
    min: Option<int>,
    sec: Option<int>,
    sign: Sign,
) -> Angle {
    let du = field_value(s, deg, 36_000_000);
    let mu = field_value(s, min, 600_000);
    let su = field_value(s, sec, 10_000);
    if du > i64::MAX as int || mu > i64::MAX as int || su > i64::MAX as int {
        Angle::Infinite { negative: sign is Negative }
    } else {
        Angle::from_sign_dms_spec(sign, du, mu, su)
    }
}

/// The angle of the degrees-only branch.  The bare decimal number carries
/// no sign of its own: an explicit sign character or westward/southward
/// marker around it decides only the role, never the value.
pub open spec fn deg_only_angle(s: Seq<char>, start: int) -> Angle {
    let u = token_value_units(s, start, 36_000_000);
    if u > i64::MAX as int {
        Angle::Infinite { negative: false }
    } else {
        Angle::Finite { units: u as i64 }
    }
}

/// Parse outcome once the numeric core position and the sign context are
/// fixed: the core must consume every digit, the rest may hold one
/// hemisphere letter and arbitrary digit-free text.
pub open spec fn dms_parse_at(
    s: Seq<char>,
    ns: int,
    sign_char: Option<char>,
    prefix: Option<(bool, AngleDirectionNotation)>,
) -> DmsParse<Angle> {
    match dms_core(s, ns) {
        DmsCore::Bad => DmsParse::Unmatched,
        DmsCore::DegOnly { start } => {
            let cur = token_end(s, start);
            if has_digit_from(s, nwse_end(s, cur)) {
                DmsParse::Unmatched
            } else {
                let sd = resolve_sign_dir(sign_char, nwse_char(s, cur), prefix);
                DmsParse::Value(deg_only_angle(s, start), sd.1)
            }
        },
        DmsCore::Fields { deg, min, sec, cur } => {
            if has_digit_from(s, nwse_end(s, cur)) {
                DmsParse::Unmatched
            } else {
                let sd = resolve_sign_dir(sign_char, nwse_char(s, cur), prefix);
                DmsParse::Value(dms_fields_angle(s, deg, min, sec, sd.0), sd.1)
            }
        },
    }
}

/// What the grammar makes of the character sequence `s`: nothing to read
/// without a digit; otherwise the numeric core begins at the first digit
/// (with a point directly before it taken along), possibly preceded by one
/// sign character, which in turn may follow a localized hemisphere word;
/// head text without digits or signs is discarded, as is digit-free tail
/// text after the core and the optional hemisphere letter.
pub open spec fn dms_parse(s: Seq<char>) -> DmsParse<Angle> {
    if !has_digit_from(s, 0) {
        DmsParse::NoAngle
    } else {
        let j = first_digit_or_sign(s, 0);
        if is_sign_char(s[j]) {
            if number_starts(s, j + 1) {
                dms_parse_at(s, j + 1, Some(s[j]), prefix_at(s, j))
            } else {
                DmsParse::Unmatched
            }
        } else {
            let ns = if j > 0 && s[j - 1] == '.' {
                j - 1
            } else {
                j
            };
            dms_parse_at(s, ns, None, prefix_at(s, ns))
        }
    }
}

/// Exec outcome of the grammar on a character sequence.
enum ParsedDms {
    NoAngle,
    Unmatched,
    Value(Angle, AngleDirectionNotation),
}

/// The localized prefix word ending at `anchor`: (present, negative,
/// role).
fn prefix_exec(v: &Vec<char>, anchor: usize) -> (r: (bool, bool, AngleDirectionNotation))
    requires
        anchor <= v@.len(),
    ensures
        r.0 <==> prefix_at(v@, anchor as int) is Some,
        r.0 ==> prefix_at(v@, anchor as int) == Some((r.1, r.2)),
{
    if anchor >= 2 {
        let c1 = v[anchor - 2];
        let c2 = v[anchor - 1];
        if c1 == '北' && c2 == '緯' {
            (true, false, AngleDirectionNotation::Latitude)
        } else if c1 == '南' && c2 == '緯' {
            (true, true, AngleDirectionNotation::Latitude)
        } else if c1 == '東' && c2 == '経' {
            (true, false, AngleDirectionNotation::Longitude)
        } else if c1 == '西' && c2 == '経' {
            (true, true, AngleDirectionNotation::Longitude)
        } else {
            (false, false, AngleDirectionNotation::Undetermined)
        }
    } else {
        (false, false, AngleDirectionNotation::Undetermined)
    }
}

/// The value of an optional scanned field, scaled to angle units; `None`
/// when it lies beyond the finite range.
fn field_scaled(
    f: &Option<NumScan>,
    scale: u64,
    Ghost(s): Ghost<Seq<char>>,
    Ghost(fs): Ghost<Option<int>>,
) -> (r: Option<u64>)
    requires
        10_000 <= scale <= 36_000_000,
        fs is Some <==> *f is Some,
        *f is Some ==> {
            let sc = f->Some_0;
            let a = fs->Some_0;
            &&& sc.mantissa == scan_mantissa(mantissa_digits(s, a)).0
            &&& sc.mantissa < 10_000_000_000_000_000_000
            &&& sc.shift == frac_len(s, a) - exp_val(s, a) - scan_mantissa(
                mantissa_digits(s, a),
            ).2
            &&& -10_000_000_000_000_000_000_000_000_000_000 <= sc.shift
                <= 10_000_000_000_000_000_000_000_000_000_000
        },
    ensures
        r is Some <==> field_value(s, fs, scale as int) <= i64::MAX as int,
        r is Some ==> r->Some_0 == field_value(s, fs, scale as int),
{
    match f {
        Some(sc) => scaled(sc.mantissa, sc.shift, scale),
        None => Some(0),
    }
}

/// Run the grammar on the characters of the source string.
#[verifier::rlimit(100)]
fn parse_dms_chars(v: &Vec<char>) -> (r: ParsedDms)
    ensures
        r is NoAngle <==> dms_parse(v@) is NoAngle,
        r is Unmatched <==> dms_parse(v@) is Unmatched,
        r matches ParsedDms::Value(a, d) ==> dms_parse(v@) == DmsParse::<Angle>::Value(a, d),
{
    let ghost s = v@;
    let n = v.len();
    if !has_digit_from_exec(v, 0) {
        return ParsedDms::NoAngle;
    }
    let j = first_digit_or_sign_exec(v);
    proof {
        lemma_first_digit_or_sign(s, 0);
        if j == s.len() {
            let t = choose|t: int| 0 <= t < s.len() && #[trigger] is_digit(s[t]);
            assert(!is_digit(s[t]));
        }
    }
    let c = v[j];
    let sign_present = c == '+' || c == '-';
    let ns: usize;
    if sign_present {
        if !number_starts_exec(v, j + 1) {
            return ParsedDms::Unmatched;
        }
        ns = j + 1;
    } else {
        ns = if j > 0 && v[j - 1] == '.' {
            j - 1
        } else {
            j
        };
    }
    let anchor: usize = if sign_present {
        j
    } else {
        ns
    };
    let pre = prefix_exec(v, anchor);
    let ghost sc_ghost: Option<char> = if sign_present {
        Some(c)
    } else {
        None
    };
    let ghost px_ghost: Option<(bool, AngleDirectionNotation)> = prefix_at(s, anchor as int);

    // the numeric core
    let sc1 = scan_number(v, ns);
    let p1 = sc1.end;
    let mut bad = false;
    let mut deg_only = false;
    let mut deg: Option<NumScan> = None;
    let mut min: Option<NumScan> = None;
    let mut sec: Option<NumScan> = None;
    let ghost mut deg_s: Option<int> = None;
    let ghost mut min_s: Option<int> = None;
    let ghost mut sec_s: Option<int> = None;
    let mut cur: usize = 0;
    if p1 < n && (v[p1] == '°' || v[p1] == '度') {
        deg = Some(sc1);
        proof {
            deg_s = Some(ns as int);
        }
        cur = p1 + 1;
        let q = skip_spaces_exec(v, cur);
        if number_starts_exec(v, q) {
            let sc2 = scan_number(v, q);
            let p2 = sc2.end;
            if p2 < n && (v[p2] == '′' || v[p2] == '’' || v[p2] == '\'' || v[p2] == '分') {
                min = Some(sc2);
                proof {
                    min_s = Some(q as int);
                }
                cur = p2 + 1;
                let q2 = skip_spaces_exec(v, cur);
                if number_starts_exec(v, q2) {
                    let sc3 = scan_number(v, q2);
                    let p3 = sc3.end;
                    if p3 < n && (v[p3] == '″' || v[p3] == '”' || v[p3] == '"' || v[p3]
                        == '秒') {
                        sec = Some(sc3);
                        proof {
                            sec_s = Some(q2 as int);
                        }
                        cur = p3 + 1;
                    } else {
                        bad = true;
                    }
                }
            } else if p2 < n && (v[p2] == '″' || v[p2] == '”' || v[p2] == '"' || v[p2]
                == '秒') {
                sec = Some(sc2);
                proof {
                    sec_s = Some(q as int);
                }
                cur = p2 + 1;
            } else {
                bad = true;
            }
        }
    } else if p1 < n && (v[p1] == '′' || v[p1] == '’' || v[p1] == '\'' || v[p1] == '分') {
        min = Some(sc1);
        proof {
            min_s = Some(ns as int);
        }
        cur = p1 + 1;
        let q2 = skip_spaces_exec(v, cur);
        if number_starts_exec(v, q2) {
            let sc3 = scan_number(v, q2);
            let p3 = sc3.end;
            if p3 < n && (v[p3] == '″' || v[p3] == '”' || v[p3] == '"' || v[p3] == '秒') {
                sec = Some(sc3);
                proof {
                    sec_s = Some(q2 as int);
                }
                cur = p3 + 1;
            } else {
                bad = true;
            }
        }
    } else if p1 < n && (v[p1] == '″' || v[p1] == '”' || v[p1] == '"' || v[p1] == '秒') {
        sec = Some(sc1);
        proof {
            sec_s = Some(ns as int);
        }
        cur = p1 + 1;
    } else {
        deg_only = true;
        cur = p1;
    }
    if bad {
        proof {
            assert(dms_core(s, ns as int) is Bad);
        }
        return ParsedDms::Unmatched;
    }
    proof {
        if deg_only {
            assert(dms_core(s, ns as int) == (DmsCore::DegOnly { start: ns as int }));
        } else {
            assert(dms_core(s, ns as int) == (DmsCore::Fields {
                deg: deg_s,
                min: min_s,
                sec: sec_s,
                cur: cur as int,
            }));
        }
    }

    // the optional hemisphere letter, then the digit-free tail
    let q = skip_spaces_exec(v, cur);
    let nw_present: bool;
    let nw_c: char;
    let after: usize;
    if q < n && (v[q] == 'N' || v[q] == 'W' || v[q] == 'S' || v[q] == 'E') {
        nw_present = true;
        nw_c = v[q];
        after = q + 1;
    } else {
        nw_present = false;
        nw_c = ' ';
        after = q;
    }
    if has_digit_from_exec(v, after) {
        return ParsedDms::Unmatched;
    }

    // sign and role
    let sign: Sign;
    let dir: AngleDirectionNotation;
    if sign_present {
        sign = if c == '-' {
            Sign::Negative
        } else {
            Sign::Positive
        };
        dir = AngleDirectionNotation::Undetermined;
    } else if nw_present {
        if nw_c == 'N' {
            sign = Sign::Positive;
            dir = AngleDirectionNotation::Latitude;
        } else if nw_c == 'S' {
            sign = Sign::Negative;
            dir = AngleDirectionNotation::Latitude;
        } else if nw_c == 'E' {
            sign = Sign::Positive;
            dir = AngleDirectionNotation::Longitude;
        } else {
            sign = Sign::Negative;
            dir = AngleDirectionNotation::Longitude;
        }
    } else if pre.0 {
        sign = if pre.1 {
            Sign::Negative
        } else {
            Sign::Positive
        };
        dir = pre.2;
    } else {
        sign = Sign::Positive;
        dir = AngleDirectionNotation::Undetermined;
    }
    proof {
        assert((sign, dir) == resolve_sign_dir(sc_ghost, nwse_char(s, cur as int), px_ghost));
    }

    // the value
    if deg_only {
        let angle = match scaled(sc1.mantissa, sc1.shift, 36_000_000) {
            Some(u) => Angle::Finite { units: u as i64 },
            None => Angle::Infinite { negative: false },
        };
        proof {
            assert(angle == deg_only_angle(s, ns as int));
        }
        ParsedDms::Value(angle, dir)
    } else {
        let du = field_scaled(&deg, 36_000_000, Ghost(s), Ghost(deg_s));
        let mu = field_scaled(&min, 600_000, Ghost(s), Ghost(min_s));
        let su = field_scaled(&sec, 10_000, Ghost(s), Ghost(sec_s));
        let angle = match (du, mu, su) {
            (Some(d), Some(m), Some(x)) => Angle::from_sign_dms(sign, d, m, x),
            _ => Angle::Infinite { negative: sign.is_negative() },
        };
        proof {
            assert(angle == dms_fields_angle(s, deg_s, min_s, sec_s, sign));
        }
        ParsedDms::Value(angle, dir)
    }
}

/// Read one angle and its direction role from free-form text via the
/// degrees-minutes-seconds grammar.
///
/// A deliberate quirk of the notation: a bare decimal number (one with no
/// degree, minute or second glyph) is read as its magnitude alone.  A
/// sign character or a W/S hemisphere marker around it decides only the
/// role, never the value, so `-42.8` and `42.8W` both come back as the
/// positive angle.  A full or partial DMS form applies the sign to the
/// value as expected.
pub trait FromDmsStr<T: Sized>: FromDms {
    /// What the grammar makes of the characters of the source.
    spec fn from_dms_str_spec(s: Seq<char>) -> DmsParse<T>;

    /// Parse, keeping the direction role.
    fn from_dms_str_with_direction(source: &str) -> (r: Result<
        (T, AngleDirectionNotation),
        CivilEngineeringLocationError,
    >)
        ensures
            Self::from_dms_str_spec(source@) is Value <==> r is Ok,
            r is Ok ==> Self::from_dms_str_spec(source@) == DmsParse::<T>::Value(
                r->Ok_0.0,
                r->Ok_0.1,
            ),
            Self::from_dms_str_spec(source@) is NoAngle ==> r is Err && r->Err_0
                == CivilEngineeringLocationError::CouldNotDetectAnglePattern,
            Self::from_dms_str_spec(source@) is Unmatched ==> r is Err && r->Err_0
                is CouldNotParseFromIso800001Dms
                && r->Err_0->CouldNotParseFromIso800001Dms_0@ == source@,
    ;

    /// Parse, discarding the direction role.
    fn from_dms_str(source: &str) -> (r: Result<T, CivilEngineeringLocationError>)
        ensures
            Self::from_dms_str_spec(source@) is Value <==> r is Ok,
            r is Ok ==> Self::from_dms_str_spec(source@)->Value_0 == r->Ok_0,
            Self::from_dms_str_spec(source@) is NoAngle ==> r is Err && r->Err_0
                == CivilEngineeringLocationError::CouldNotDetectAnglePattern,
            Self::from_dms_str_spec(source@) is Unmatched ==> r is Err && r->Err_0
                is CouldNotParseFromIso800001Dms
                && r->Err_0->CouldNotParseFromIso800001Dms_0@ == source@,
    ;
}

impl FromDmsStr<Angle> for Angle {
    open spec fn from_dms_str_spec(s: Seq<char>) -> DmsParse<Angle> {
        dms_parse(s)
    }

    fn from_dms_str_with_direction(source: &str) -> (r: Result<
        (Angle, AngleDirectionNotation),
        CivilEngineeringLocationError,
    >) {
        let v = str_chars(source);
        match parse_dms_chars(&v) {
            ParsedDms::NoAngle => Err(CivilEngineeringLocationError::CouldNotDetectAnglePattern),
            ParsedDms::Unmatched => Err(
                CivilEngineeringLocationError::CouldNotParseFromIso800001Dms(source.to_owned()),
            ),
            ParsedDms::Value(a, d) => Ok((a, d)),
        }
    }

    fn from_dms_str(source: &str) -> (r: Result<Angle, CivilEngineeringLocationError>) {
        match Angle::from_dms_str_with_direction(source) {
            Ok(ad) => Ok(ad.0),
            Err(e) => Err(e),
        }
    }
}

} // verus!
