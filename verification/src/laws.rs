use vstd::prelude::*;

use crate::angle::abs_int;
use crate::angle::Angle;
use crate::angle::AngleAsDms;
use crate::lonlat::assign_two;
use crate::lonlat::find_char;
use crate::lonlat::is_trim_space;
use crate::lonlat::lonlat_parse;
use crate::lonlat::prepared;
use crate::lonlat::split_two;
use crate::lonlat::trim_hi;
use crate::lonlat::trim_lo;
use crate::lonlat::LonLat;
use crate::lonlat::LonLatParse;
use crate::text::AngleAsStringDmsNwse;
use crate::numfmt::dec_digits;
use crate::numfmt::digit_char;
use crate::parse::dms_core;
use crate::parse::dms_fields_angle;
use crate::parse::dms_parse;
use crate::parse::dms_parse_at;
use crate::parse::digits_end;
use crate::parse::exp_val;
use crate::parse::field_value;
use crate::parse::first_digit_or_sign;
use crate::parse::frac_end;
use crate::parse::frac_len;
use crate::parse::has_digit_from;
use crate::parse::has_exp;
use crate::parse::has_frac;
use crate::parse::int_end;
use crate::parse::is_deg_glyph;
use crate::parse::is_min_glyph;
use crate::parse::is_nwse;
use crate::parse::is_sec_glyph;
use crate::parse::is_sign_char;
use crate::parse::mantissa_digits;
use crate::parse::number_starts;
use crate::parse::nwse_char;
use crate::parse::nwse_end;
use crate::parse::resolve_sign_dir;
use crate::parse::scaled_units;
use crate::parse::skip_spaces;
use crate::parse::token_end;
use crate::parse::token_value_units;
use crate::parse::AngleDirectionNotation;
use crate::parse::DmsCore;
use crate::sign::Sign;
use crate::text::dms_chars;
use crate::parse::digit_val;
use crate::parse::is_digit;
use crate::parse::pow10;
use crate::parse::lemma_pow10_values;
use crate::parse::scan_mantissa;
use crate::parse::DmsParse;

verus! {

/// Every character of `dec_digits` is a decimal digit, there is at least
/// one, and a positive value never starts with a zero.
pub proof fn lemma_dec_digits_class(n: nat)
    ensures
        dec_digits(n).len() >= 1,
        forall|i: int| 0 <= i < dec_digits(n).len() ==> #[trigger] is_digit(dec_digits(n)[i]),
        n > 0 ==> dec_digits(n)[0] != '0',
    decreases n,
{
    if n >= 10 {
        lemma_dec_digits_class(n / 10);
        let ds = dec_digits(n);
        let pre = dec_digits(n / 10);
        assert forall|i: int| 0 <= i < ds.len() implies #[trigger] is_digit(ds[i]) by {
            if i < pre.len() {
                assert(ds[i] == pre[i]);
            } else {
                assert(ds[i] == digit_char((n % 10) as int));
            }
        }
    }
}

/// `dec_digits` of a value below ten to the `k` has at most `k` digits.
pub proof fn lemma_dec_digits_len(n: nat, k: nat)
    requires
        n < pow10(k),
        k >= 1,
    ensures
        dec_digits(n).len() <= k,
    decreases n,
{
    if n >= 10 {
        assert(pow10(k) == 10 * pow10((k - 1) as nat));
        lemma_dec_digits_len(n / 10, (k - 1) as nat);
    }
}

/// `digits_end` lands exactly after a run of digits that a non-digit (or
/// the end) closes.
pub proof fn lemma_digits_end_at(s: Seq<char>, i: int, e: int)
    requires
        0 <= i <= e <= s.len(),
        forall|j: int| i <= j < e ==> #[trigger] is_digit(s[j]),
        e < s.len() ==> !is_digit(s[e]),
    ensures
        digits_end(s, i) == e,
    decreases e - i,
{
    if i < e {
        lemma_digits_end_at(s, i + 1, e);
    }
}

/// Folding the decimal digits of `n` recovers `n` exactly, with nothing
/// dropped, for values within the nineteen-digit window.
pub proof fn lemma_scan_mantissa_of_dec(n: nat)
    requires
        n < pow10(19),
    ensures
        scan_mantissa(dec_digits(n)).0 == n,
        scan_mantissa(dec_digits(n)).2 == 0,
        scan_mantissa(dec_digits(n)).1 == (if n == 0 {
            0int
        } else {
            dec_digits(n).len() as int
        }),
    decreases n,
{
    lemma_pow10_values();
    if n < 10 {
        let ds = dec_digits(n);
        assert(ds =~= seq![digit_char(n as int)]);
        assert(ds.drop_last() =~= Seq::<char>::empty());
        assert(ds.last() == digit_char(n as int));
        assert(scan_mantissa(ds.drop_last()) == (0nat, 0nat, 0nat));
        assert(digit_val(digit_char(n as int)) == n);
        assert(ds.len() == 1);
        if n == 0 {
            assert(scan_mantissa(ds) == (0nat, 0nat, 0nat));
        } else {
            assert(scan_mantissa(ds) == (n, 1nat, 0nat));
        }
    } else {
        assert(pow10(19) == 10 * pow10(18));
        lemma_scan_mantissa_of_dec(n / 10);
        lemma_dec_digits_len(n / 10, 18);
        lemma_dec_digits_class(n / 10);
        let ds = dec_digits(n);
        let pre = dec_digits(n / 10);
        assert(ds == pre + seq![digit_char((n % 10) as int)]);
        assert(ds.drop_last() =~= pre);
        assert(ds.len() == pre.len() + 1);
        assert(ds.last() == digit_char((n % 10) as int));
        assert(digit_val(digit_char((n % 10) as int)) == n % 10);
        let prev = scan_mantissa(pre);
        assert(prev.0 == n / 10 && prev.1 == pre.len() && prev.2 == 0);
        assert(1 <= prev.1 <= 18);
        assert(scan_mantissa(ds) == (((n / 10) * 10 + n % 10) as nat, (pre.len() + 1) as nat, 0nat));
        assert((n / 10) * 10 + n % 10 == n) by {
            vstd::arithmetic::div_mod::lemma_fundamental_div_mod(n as int, 10);
        }
    }
}

/// Parsing a rendered hemisphere-marked DMS body recovers the degree and
/// minute values exactly and the seconds value as rendered (the tenths
/// value times a tenth of a second), under the sign and role of the
/// hemisphere letter.
#[verifier::rlimit(100)]
#[verifier::spinoff_prover]
pub proof fn lemma_parse_rendered_dms(d: nat, m: nat, s0: nat, hemi: char)
    requires
        d <= 360,
        m < 60,
        s0 < 600_000,
        is_nwse(hemi),
    ensures
        ({
            let t = ((s0 + 500) / 1000) as nat;
            let rendered = dms_chars(d as int, m as int, s0 as int, '°', '’', '”') + seq![hemi];
            dms_parse(rendered) == DmsParse::<Angle>::Value(
                Angle::from_sign_dms_spec(
                    if hemi == 'S' || hemi == 'W' {
                        Sign::Negative
                    } else {
                        Sign::Positive
                    },
                    d as int * 36_000_000,
                    m as int * 600_000,
                    t as int * 1000,
                ),
                if hemi == 'N' || hemi == 'S' {
                    AngleDirectionNotation::Latitude
                } else {
                    AngleDirectionNotation::Longitude
                },
            )
        }),
{
    lemma_pow10_values();
    let t = ((s0 + 500) / 1000) as nat;
    assert(t <= 600);
    let a = dec_digits(d);
    let b = dec_digits(m);
    let w = dec_digits(t / 10);
    let f = digit_char((t % 10) as int);
    lemma_dec_digits_class(d);
    lemma_dec_digits_class(m);
    lemma_dec_digits_class(t / 10);
    lemma_scan_mantissa_of_dec(d);
    lemma_scan_mantissa_of_dec(m);
    lemma_scan_mantissa_of_dec(t / 10);
    lemma_dec_digits_len(t / 10, 18);
    let rendered = dms_chars(d as int, m as int, s0 as int, '°', '’', '”') + seq![hemi];
    let la = a.len() as int;
    let lb = b.len() as int;
    let lw = w.len() as int;
    let min_start = la + 1;
    let sec_start = la + lb + 2;
    let p_dot = sec_start + lw;
    let p_f = p_dot + 1;
    let p_secg = p_dot + 2;
    let p_hemi = p_secg + 1;
    let n = p_hemi + 1;
    assert(rendered =~= a + seq!['°'] + b + seq!['’'] + w + seq!['.'] + seq![f] + seq!['”']
        + seq![hemi]);
    assert(rendered.len() == n);
    assert(forall|j: int| 0 <= j < la ==> rendered[j] == a[j]);
    assert(rendered[la] == '°');
    assert(forall|j: int| 0 <= j < lb ==> rendered[min_start + j] == b[j]);
    assert(rendered[la + 1 + lb] == '’');
    assert(forall|j: int| 0 <= j < lw ==> rendered[sec_start + j] == w[j]);
    assert(rendered[p_dot] == '.');
    assert(rendered[p_f] == f);
    assert(rendered[p_secg] == '”');
    assert(rendered[p_hemi] == hemi);
    assert(is_digit(f));
    assert(is_digit(rendered[0]));

    // the numeric core is found at position zero
    assert(has_digit_from(rendered, 0));
    assert(first_digit_or_sign(rendered, 0) == 0);
    assert(!is_sign_char(rendered[0]));

    // the degree token
    assert forall|j: int| 0 <= j < la implies #[trigger] is_digit(rendered[j]) by {
        assert(rendered[j] == a[j]);
    }
    lemma_digits_end_at(rendered, 0, la);
    assert(int_end(rendered, 0) == la);
    assert(!has_frac(rendered, 0));
    assert(frac_end(rendered, 0) == la);
    assert(!has_exp(rendered, 0));
    assert(token_end(rendered, 0) == la);
    assert(is_deg_glyph(rendered[la]));

    // the minute token
    assert(skip_spaces(rendered, min_start) == min_start);
    assert(number_starts(rendered, min_start));
    assert forall|j: int| min_start <= j < min_start + lb implies #[trigger] is_digit(
        rendered[j],
    ) by {
        assert(rendered[j] == b[j - min_start]);
    }
    lemma_digits_end_at(rendered, min_start, min_start + lb);
    assert(int_end(rendered, min_start) == min_start + lb);
    assert(!has_frac(rendered, min_start));
    assert(!has_exp(rendered, min_start));
    assert(token_end(rendered, min_start) == min_start + lb);
    assert(is_min_glyph(rendered[min_start + lb]));

    // the seconds token, with its one-digit fraction
    assert(skip_spaces(rendered, sec_start) == sec_start);
    assert(number_starts(rendered, sec_start));
    assert forall|j: int| sec_start <= j < p_dot implies #[trigger] is_digit(rendered[j]) by {
        assert(rendered[j] == w[j - sec_start]);
    }
    lemma_digits_end_at(rendered, sec_start, p_dot);
    assert(int_end(rendered, sec_start) == p_dot);
    assert(has_frac(rendered, sec_start));
    lemma_digits_end_at(rendered, p_f, p_f + 1);
    assert(frac_end(rendered, sec_start) == p_f + 1);
    assert(frac_len(rendered, sec_start) == 1);
    assert(!has_exp(rendered, sec_start));
    assert(token_end(rendered, sec_start) == p_secg);
    assert(is_sec_glyph(rendered[p_secg]));

    // the core layout
    assert(dms_core(rendered, 0) == (DmsCore::Fields {
        deg: Some(0int),
        min: Some(min_start),
        sec: Some(sec_start),
        cur: p_hemi,
    }));

    // the hemisphere letter closes the text
    assert(skip_spaces(rendered, p_hemi) == p_hemi);
    assert(is_nwse(rendered[p_hemi]));
    assert(nwse_char(rendered, p_hemi) == Some(hemi));
    assert(nwse_end(rendered, p_hemi) == n);
    assert(!has_digit_from(rendered, n));

    // the three field values
    assert(mantissa_digits(rendered, 0) =~= a);
    assert(exp_val(rendered, 0) == 0);
    assert(token_value_units(rendered, 0, 36_000_000) == d as int * 36_000_000) by {
        assert(scan_mantissa(a).0 == d && scan_mantissa(a).2 == 0);
        assert(scaled_units(d, 0, 36_000_000) == d as int * 36_000_000) by {
            assert(pow10(0) == 1);
            if d > 0 {
                assert((d * 36_000_000 + 0) / 1 == d * 36_000_000);
            }
        }
    }
    assert(mantissa_digits(rendered, min_start) =~= b);
    assert(exp_val(rendered, min_start) == 0);
    assert(token_value_units(rendered, min_start, 600_000) == m as int * 600_000) by {
        assert(scan_mantissa(b).0 == m && scan_mantissa(b).2 == 0);
        assert(scaled_units(m, 0, 600_000) == m as int * 600_000) by {
            assert(pow10(0) == 1);
            if m > 0 {
                assert((m * 600_000 + 0) / 1 == m * 600_000);
            }
        }
    }
    assert(mantissa_digits(rendered, sec_start) =~= w + seq![f]);
    assert(exp_val(rendered, sec_start) == 0);
    let wf = w + seq![f];
    assert(wf.drop_last() =~= w);
    assert(wf.last() == f);
    assert(digit_val(f) == t % 10);
    assert(scan_mantissa(wf).0 == t && scan_mantissa(wf).2 == 0) by {
        assert(scan_mantissa(w).0 == t / 10 && scan_mantissa(w).2 == 0);
        if t / 10 == 0 {
            assert(scan_mantissa(w).1 == 0);
        } else {
            assert(1 <= scan_mantissa(w).1 <= 18);
        }
        assert((t / 10) * 10 + t % 10 == t) by {
            vstd::arithmetic::div_mod::lemma_fundamental_div_mod(t as int, 10);
        }
    }
    assert(token_value_units(rendered, sec_start, 10_000) == t as int * 1000) by {
        assert(scaled_units(t, 1, 10_000) == t as int * 1000) by {
            assert(pow10(1) == 10 * pow10(0));
            assert(pow10(0) == 1);
            if t > 0 {
                assert(t * 10_000 + 5 == 10 * (t * 1000) + 5) by (nonlinear_arith);
                vstd::arithmetic::div_mod::lemma_fundamental_div_mod_converse(
                    t as int * 10_000 + 5,
                    10,
                    t as int * 1000,
                    5,
                );
            }
        }
    }

    // assembly
    let sign = if hemi == 'S' || hemi == 'W' {
        Sign::Negative
    } else {
        Sign::Positive
    };
    let role = if hemi == 'N' || hemi == 'S' {
        AngleDirectionNotation::Latitude
    } else {
        AngleDirectionNotation::Longitude
    };
    assert(resolve_sign_dir(None, Some(hemi), None) == (sign, role));
    assert(field_value(rendered, Some(0int), 36_000_000) == d as int * 36_000_000);
    assert(field_value(rendered, Some(min_start), 600_000) == m as int * 600_000);
    assert(field_value(rendered, Some(sec_start), 10_000) == t as int * 1000);
    assert(dms_fields_angle(rendered, Some(0int), Some(min_start), Some(sec_start), sign)
        == Angle::from_sign_dms_spec(
        sign,
        d as int * 36_000_000,
        m as int * 600_000,
        t as int * 1000,
    ));
    assert(dms_parse_at(rendered, 0, None, None) == DmsParse::<Angle>::Value(
        Angle::from_sign_dms_spec(
            sign,
            d as int * 36_000_000,
            m as int * 600_000,
            t as int * 1000,
        ),
        role,
    ));
}

/// `find_char` lands exactly on the first occurrence.
pub proof fn lemma_find_char_at(s: Seq<char>, i: int, e: int, c: char)
    requires
        0 <= i <= e <= s.len(),
        forall|j: int| i <= j < e ==> #[trigger] s[j] != c,
        e < s.len() ==> s[e] == c,
    ensures
        find_char(s, i, c) == e,
    decreases e - i,
{
    if i < e {
        lemma_find_char_at(s, i + 1, e, c);
    }
}

/// The rendered hemisphere-marked DMS body starts with a digit, ends with
/// its hemisphere letter, and contains neither comma nor space: the pair
/// separator cannot occur inside one part.
#[verifier::rlimit(100)]
#[verifier::spinoff_prover]
pub proof fn lemma_rendered_dms_chars(d: nat, m: nat, s0: nat, hemi: char)
    requires
        is_nwse(hemi),
    ensures
        ({
            let rendered = dms_chars(d as int, m as int, s0 as int, '°', '’', '”') + seq![hemi];
            &&& rendered.len() >= 2
            &&& is_digit(rendered[0])
            &&& rendered[rendered.len() - 1] == hemi
            &&& forall|j: int|
                0 <= j < rendered.len() ==> #[trigger] rendered[j] != ',' && rendered[j] != ' '
        }),
{
    let t = ((s0 + 500) / 1000) as nat;
    let a = dec_digits(d);
    let b = dec_digits(m);
    let w = dec_digits(t / 10);
    let f = digit_char((t % 10) as int);
    lemma_dec_digits_class(d);
    lemma_dec_digits_class(m);
    lemma_dec_digits_class(t / 10);
    let rendered = dms_chars(d as int, m as int, s0 as int, '°', '’', '”') + seq![hemi];
    let la = a.len() as int;
    let lb = b.len() as int;
    let lw = w.len() as int;
    assert(rendered =~= a + seq!['°'] + b + seq!['’'] + w + seq!['.'] + seq![f] + seq!['”']
        + seq![hemi]);
    assert(rendered[0] == a[0]);
    assert(is_digit(a[0]));
    assert(forall|j: int| 0 <= j < la ==> rendered[j] == a[j]);
    assert(rendered[la] == '°');
    assert(forall|j: int| 0 <= j < lb ==> rendered[la + 1 + j] == b[j]);
    assert(rendered[la + 1 + lb] == '’');
    assert(forall|j: int| 0 <= j < lw ==> rendered[la + lb + 2 + j] == w[j]);
    assert(rendered[la + lb + 2 + lw] == '.');
    assert(rendered[la + lb + 3 + lw] == f);
    assert(rendered[la + lb + 4 + lw] == '”');
    assert(rendered[la + lb + 5 + lw] == hemi);
    assert forall|j: int| 0 <= j < rendered.len() implies #[trigger] rendered[j] != ','
        && rendered[j] != ' ' by {
        if j < la {
            assert(rendered[j] == a[j]);
            assert(is_digit(a[j]));
        } else if j == la {
            assert(rendered[j] == '°');
        } else if j < la + 1 + lb {
            assert(rendered[j] == b[j - (la + 1)]);
            assert(is_digit(b[j - (la + 1)]));
        } else if j == la + 1 + lb {
            assert(rendered[j] == '’');
        } else if j < la + lb + 2 + lw {
            assert(rendered[j] == w[j - (la + lb + 2)]);
            assert(is_digit(w[j - (la + lb + 2)]));
        } else if j == la + lb + 2 + lw {
            assert(rendered[j] == '.');
        } else if j == la + lb + 3 + lw {
            assert(rendered[j] == f);
            assert(is_digit(f));
        } else if j == la + lb + 4 + lw {
            assert(rendered[j] == '”');
        } else {
            assert(rendered[j] == hemi);
        }
    }
}

/// Law: formatting a finite coordinate pair with hemisphere letters and a
/// space, then reparsing it, reproduces each angle's normalized
/// representative to within half a display step (500 units, 0.05
/// arcsecond): the display round trip loses only the seconds rounding.
#[verifier::rlimit(100)]
#[verifier::spinoff_prover]
pub proof fn lemma_display_parse_round_trip(ll: LonLat)
    requires
        ll.lon.is_finite(),
        ll.lat.is_finite(),
    ensures
        ({
            let ns = ll.lat.string_dms_ns_spec()->Ok_0;
            let ew = ll.lon.string_dms_ew_spec()->Ok_0;
            let text = ns + seq![' '] + ew;
            &&& ll.lat.string_dms_ns_spec() is Ok
            &&& ll.lon.string_dms_ew_spec() is Ok
            &&& lonlat_parse(text) is Value
            &&& abs_int(
                lonlat_parse(text)->Value_0.lat.units() - Angle::fold_quarter(ll.lat.units()),
            ) <= 500
            &&& abs_int(
                lonlat_parse(text)->Value_0.lon.units() - Angle::wrap_half(ll.lon.units()),
            ) <= 500
        }),
{
    let p = ll.lat.dms_90_spec()->Ok_0;
    let q = ll.lon.dms_180_spec()->Ok_0;
    let hemi_lat: char = if p.0 is Negative {
        'S'
    } else {
        'N'
    };
    let hemi_lon: char = if q.0 is Negative {
        'W'
    } else {
        'E'
    };
    let ns = ll.lat.string_dms_ns_spec()->Ok_0;
    let ew = ll.lon.string_dms_ew_spec()->Ok_0;
    assert(ns =~= dms_chars(p.1 as int, p.2 as int, p.3 as int, '°', '’', '”') + seq![hemi_lat]);
    assert(ew =~= dms_chars(q.1 as int, q.2 as int, q.3 as int, '°', '’', '”') + seq![hemi_lon]);
    let text = ns + seq![' '] + ew;

    // field bounds of the two decompositions
    let tl = abs_int(Angle::fold_quarter(ll.lat.units()));
    let tn = abs_int(Angle::wrap_half(ll.lon.units()));
    assert(p.1 as int == tl / 36_000_000 && tl <= 3_240_000_000);
    assert(p.1 <= 90);
    assert(p.2 < 60 && p.3 < 600_000);
    assert(q.1 as int == tn / 36_000_000 && tn <= 6_480_000_000);
    assert(q.1 <= 180);
    assert(q.2 < 60 && q.3 < 600_000);

    lemma_rendered_dms_chars(p.1 as nat, p.2 as nat, p.3 as nat, hemi_lat);
    lemma_rendered_dms_chars(q.1 as nat, q.2 as nat, q.3 as nat, hemi_lon);
    lemma_parse_rendered_dms(p.1 as nat, p.2 as nat, p.3 as nat, hemi_lat);
    lemma_parse_rendered_dms(q.1 as nat, q.2 as nat, q.3 as nat, hemi_lon);

    let lns = ns.len() as int;
    let n = text.len() as int;

    // the text is already trimmed and carries no scheme prefix
    assert(text[0] == ns[0]);
    assert(is_digit(text[0]));
    assert(!is_trim_space(text[0]));
    assert(trim_lo(text, 0) == 0);
    assert(text[n - 1] == ew[ew.len() - 1]);
    assert(text[n - 1] == hemi_lon);
    assert(trim_hi(text, n, 0) == n);
    assert(text.subrange(0, n) =~= text);
    assert(text[0] != 'g');
    assert(prepared(text) == text);

    // the only space is the separator, and there is no comma
    assert forall|j: int| 0 <= j < n implies #[trigger] text[j] != ',' by {
        if j < lns {
            assert(text[j] == ns[j]);
        } else if j == lns {
            assert(text[j] == ' ');
        } else {
            assert(text[j] == ew[j - lns - 1]);
        }
    }
    lemma_find_char_at(text, 0, n, ',');
    assert forall|j: int| 0 <= j < lns implies #[trigger] text[j] != ' ' by {
        assert(text[j] == ns[j]);
    }
    assert(text[lns] == ' ');
    lemma_find_char_at(text, 0, lns, ' ');
    assert(split_two(text).0 =~= ns);
    assert(split_two(text).1 == Some(text.subrange(lns + 1, n)));
    assert(text.subrange(lns + 1, n) =~= ew);

    // both parts parse under their roles, and the slots resolve
    assert(dms_parse(ns) is Value);
    assert(dms_parse(ew) is Value);
    let a_lat = dms_parse(ns)->Value_0;
    let a_lon = dms_parse(ew)->Value_0;
    assert(dms_parse(ns)->Value_1 == AngleDirectionNotation::Latitude);
    assert(dms_parse(ew)->Value_1 == AngleDirectionNotation::Longitude);
    assert(lonlat_parse(text) == assign_two(
        a_lat,
        AngleDirectionNotation::Latitude,
        a_lon,
        AngleDirectionNotation::Longitude,
    ));
    assert(lonlat_parse(text) == LonLatParse::Value(LonLat { lon: a_lon, lat: a_lat }));

    // each reparsed angle is the recombination the display lemma bounds
    let tenths_lat = ((p.3 as int) + 500) / 1000;
    assert(a_lat == Angle::from_sign_dms_spec(
        p.0,
        (p.1 as int) * 36_000_000,
        (p.2 as int) * 600_000,
        tenths_lat * 1000,
    ));
    crate::angle::lemma_display_round_trip_90(ll.lat);
    let tenths_lon = ((q.3 as int) + 500) / 1000;
    assert(a_lon == Angle::from_sign_dms_spec(
        q.0,
        (q.1 as int) * 36_000_000,
        (q.2 as int) * 600_000,
        tenths_lon * 1000,
    ));
    crate::angle::lemma_display_round_trip_180(ll.lon);
}

} // verus!
