use vstd::prelude::*;

verus! {

/// Relies on std's `String::push`: appends the given character to the end
/// of the string.
pub assume_specification[ String::push ](s: &mut String, c: char)
    ensures
        final(s)@ == old(s)@.push(c),
;

/// The character of one decimal digit.
pub open spec fn digit_char(d: int) -> char {
    if d == 0 {
        '0'
    } else if d == 1 {
        '1'
    } else if d == 2 {
        '2'
    } else if d == 3 {
        '3'
    } else if d == 4 {
        '4'
    } else if d == 5 {
        '5'
    } else if d == 6 {
        '6'
    } else if d == 7 {
        '7'
    } else if d == 8 {
        '8'
    } else {
        '9'
    }
}

/// The decimal digits of `n`, most significant first, no leading zeros
/// (zero itself is the single digit `0`).
pub open spec fn dec_digits(n: nat) -> Seq<char>
    decreases n,
{
    if n < 10 {
        seq![digit_char(n as int)]
    } else {
        dec_digits(n / 10) + seq![digit_char((n % 10) as int)]
    }
}

/// The last `width` decimal digits of `n`, zero padded on the left; for
/// `n` below ten to the `width` these are exactly its digits.
pub open spec fn padded_dec(n: nat, width: nat) -> Seq<char>
    decreases width,
{
    if width == 0 {
        Seq::empty()
    } else {
        padded_dec(n / 10, (width - 1) as nat) + seq![digit_char((n % 10) as int)]
    }
}

/// A fraction of `width` digits with trailing zeros removed, but at least
/// one digit kept.
pub open spec fn trimmed_frac(n: nat, width: nat) -> Seq<char>
    decreases width,
{
    if width <= 1 || n % 10 != 0 {
        padded_dec(n, width)
    } else {
        trimmed_frac(n / 10, (width - 1) as nat)
    }
}

/// A decimal rendering of the non-negative fixed-point value `t` whose
/// unit is ten to the `-width`: integer part without leading zeros, then,
/// only if the fraction is not zero, a point and the fraction with
/// trailing zeros removed.  `den` is ten to the `width`.
pub open spec fn mag_decimal(t: int, den: int, width: nat) -> Seq<char> {
    let ip = t / den;
    let fp = t % den;
    if fp == 0 {
        dec_digits(ip as nat)
    } else {
        dec_digits(ip as nat) + seq!['.'] + trimmed_frac(fp as nat, width)
    }
}

/// As `mag_decimal`, for a signed value: a minus sign precedes the digits
/// of a negative value.
pub open spec fn fixed_decimal(v: int, den: int, width: nat) -> Seq<char> {
    let sgn: Seq<char> = if v < 0 {
        seq!['-']
    } else {
        Seq::empty()
    };
    sgn + mag_decimal(crate::angle::abs_int(v), den, width)
}

/// One decimal digit as a character.
pub fn digit_char_of(d: u64) -> (c: char)
    requires
        d < 10,
    ensures
        c == digit_char(d as int),
{
    if d == 0 {
        '0'
    } else if d == 1 {
        '1'
    } else if d == 2 {
        '2'
    } else if d == 3 {
        '3'
    } else if d == 4 {
        '4'
    } else if d == 5 {
        '5'
    } else if d == 6 {
        '6'
    } else if d == 7 {
        '7'
    } else if d == 8 {
        '8'
    } else {
        '9'
    }
}

/// Append the decimal digits of `n`.
pub fn push_u64_dec(out: &mut String, n: u64)
    ensures
        final(out)@ == old(out)@ + dec_digits(n as nat),
    decreases n,
{
    if n < 10 {
        out.push(digit_char_of(n));
    } else {
        push_u64_dec(out, n / 10);
        out.push(digit_char_of(n % 10));
    }
}

/// Append the last `width` decimal digits of `n`, zero padded.
pub fn push_padded_dec(out: &mut String, n: u64, width: u64)
    ensures
        final(out)@ == old(out)@ + padded_dec(n as nat, width as nat),
    decreases width,
{
    if width > 0 {
        push_padded_dec(out, n / 10, width - 1);
        out.push(digit_char_of(n % 10));
    }
}

/// Append a `width`-digit fraction with trailing zeros removed, keeping at
/// least one digit.
pub fn push_trimmed_frac(out: &mut String, n: u64, width: u64)
    ensures
        final(out)@ == old(out)@ + trimmed_frac(n as nat, width as nat),
    decreases width,
{
    if width <= 1 || n % 10 != 0 {
        push_padded_dec(out, n, width);
    } else {
        push_trimmed_frac(out, n / 10, width - 1);
    }
}

/// Append the non-negative fixed-point value `t` of unit ten to the
/// `-width`, as `mag_decimal` describes.
pub fn push_mag_decimal(out: &mut String, t: u128, den: u64, width: u64)
    requires
        0 < den,
        t / (den as u128) <= u64::MAX as u128,
    ensures
        final(out)@ == old(out)@ + mag_decimal(t as int, den as int, width as nat),
{
    let ip: u64 = (t / (den as u128)) as u64;
    let fp: u64 = (t % (den as u128)) as u64;
    push_u64_dec(out, ip);
    if fp != 0 {
        out.push('.');
        push_trimmed_frac(out, fp, width);
    }
}

/// Append the fixed-point value `v` of unit ten to the `-width`, as
/// `fixed_decimal` describes.
pub fn push_fixed_decimal(out: &mut String, v: i64, den: u64, width: u64)
    requires
        0 < den,
    ensures
        final(out)@ == old(out)@ + fixed_decimal(v as int, den as int, width as nat),
{
    if v < 0 {
        out.push('-');
    }
    let t: u64 = if v < 0 {
        (-(v as i128)) as u64
    } else {
        v as u64
    };
    push_mag_decimal(out, t as u128, den, width);
}

} // verus!
