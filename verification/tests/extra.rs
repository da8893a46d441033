use lonlat::Angle;
use lonlat::AngleAsDms;
use lonlat::AngleAsNormalize;
use lonlat::AngleAsStringIso800001;
use lonlat::AngleAsStringIso800001JaJp;
use lonlat::AngleDirectionNotation;
use lonlat::AsLonLat;
use lonlat::CivilEngineeringLocationError;
use lonlat::FromDms;
use lonlat::FromDmsStr;
use lonlat::Length;
use lonlat::Location;
use lonlat::LonLat;
use lonlat::LonLatAlt;
use lonlat::LonLatGettable;
use lonlat::LonLatSettable;
use lonlat::Sign;
use lonlat::ToStringDms;
use lonlat::ToStringDmsNwse;
use lonlat::ToStringEW;
use lonlat::ToStringGeoUri;
use lonlat::ToStringNS;

const FULL: i64 = 12_960_000_000;
const HALF: i64 = 6_480_000_000;
const QUARTER: i64 = 3_240_000_000;

#[test]
fn normalize_full_turn_domain() {
    // a positive multi-turn angle and a negative one both land in [0, full turn)
    let a = Angle::from_angle_units(2 * FULL + 5);
    assert_eq!(a.as_normalize_0_pi(), Angle::from_angle_units(5));
    let b = Angle::from_angle_units(-5);
    assert_eq!(b.as_normalize_0_pi(), Angle::from_angle_units(FULL - 5));
    let c = Angle::from_angle_units(0);
    assert_eq!(c.as_normalize_0_pi(), Angle::from_angle_units(0));
}

#[test]
fn normalize_half_turn_domain() {
    // exactly a half turn wraps to the negative representative
    let a = Angle::from_angle_units(HALF);
    assert_eq!(
        a.as_normalize_negative_pi_positive_pi(),
        Angle::from_angle_units(-HALF)
    );
    let b = Angle::from_angle_units(3 * FULL + 7);
    assert_eq!(b.as_normalize_negative_pi_positive_pi(), Angle::from_angle_units(7));
    let c = Angle::from_angle_units(-HALF - 1);
    assert_eq!(
        c.as_normalize_negative_pi_positive_pi(),
        Angle::from_angle_units(HALF - 1)
    );
}

#[test]
fn normalize_quarter_turn_domain_reflects() {
    // beyond a quarter turn the angle reflects back, it does not wrap
    let a = Angle::from_angle_units(QUARTER + 7);
    assert_eq!(
        a.as_normalize_negative_half_pi_positive_half_pi(),
        Angle::from_angle_units(QUARTER - 7)
    );
    let b = Angle::from_angle_units(-QUARTER - 7);
    assert_eq!(
        b.as_normalize_negative_half_pi_positive_half_pi(),
        Angle::from_angle_units(-QUARTER + 7)
    );
    let c = Angle::from_angle_units(QUARTER);
    assert_eq!(
        c.as_normalize_negative_half_pi_positive_half_pi(),
        Angle::from_angle_units(QUARTER)
    );
}

#[test]
fn dms_90_reflection() {
    // 100 degrees of latitude reads back as 80 degrees
    let a = Angle::from_microdegrees(100_000_000);
    assert_eq!(a.as_dms_90().unwrap(), (Sign::Positive, 80, 0, 0));
    let b = Angle::from_microdegrees(-90_000_000);
    assert_eq!(b.as_dms_90().unwrap(), (Sign::Negative, 90, 0, 0));
}

#[test]
fn dms_360_wraps_negative() {
    let a = Angle::from_microdegrees(-90_000_000);
    assert_eq!(a.as_dms_360().unwrap(), (270, 0, 0));
    let b = Angle::from_microdegrees(361_000_000);
    assert_eq!(b.as_dms_360().unwrap(), (1, 0, 0));
}

#[test]
fn dms_180_boundary() {
    // +180 degrees and -180 degrees both give the -180 representative
    let plus = Angle::from_microdegrees(180_000_000);
    assert_eq!(plus.as_dms_180().unwrap(), (Sign::Negative, 180, 0, 0));
    let minus = Angle::from_microdegrees(-180_000_000);
    assert_eq!(minus.as_dms_180().unwrap(), (Sign::Negative, 180, 0, 0));
}

#[test]
fn dms_round_trip_exact() {
    // decompose and recompose, carrying the sign on the degree part
    let a = Angle::from_microdegrees(-141_354_389);
    let (sign, deg, min, sec) = a.as_dms_180().unwrap();
    assert_eq!(sign, Sign::Negative);
    let d_e4 = -(deg as i64) * 10_000;
    let m_e4 = min as i64 * 10_000;
    let s_e4 = sec as i64;
    assert_eq!(Angle::from_dms(d_e4, m_e4, s_e4).unwrap(), a);
}

#[test]
fn from_dms_mixed_signs() {
    // the composite sign is the product of the three parts' signs
    let a = Angle::from_dms(-10_000, 20_000, -30_000).unwrap();
    // |1 deg| + |2 min| + |3 sec| under a positive composite sign
    assert_eq!(a, Angle::from_angle_units(36_000_000 + 1_200_000 + 30_000));
    let b = Angle::from_dms(-10_000, 0, 0).unwrap();
    assert_eq!(b, Angle::from_angle_units(-36_000_000));
}

#[test]
fn from_minutes_and_seconds() {
    assert_eq!(Angle::from_minutes(15_000), Angle::from_angle_units(900_000));
    assert_eq!(Angle::from_seconds(158_004), Angle::from_angle_units(158_004));
    assert_eq!(
        Angle::from_angle_units(600_000).as_minutes(),
        Some(10_000)
    );
    assert_eq!(
        Angle::from_angle_units(600_000).as_seconds(),
        Some(600_000)
    );
}

#[test]
fn from_sign_dms_combines() {
    let a = Angle::from_sign_dms(Sign::Negative, 36_000_000, 600_000, 10_000);
    assert_eq!(a, Angle::from_angle_units(-36_610_000));
}

#[test]
fn parse_scientific_notation() {
    assert_eq!(
        Angle::from_dms_str("1.5e2").unwrap(),
        Angle::from_microdegrees(150_000_000)
    );
    assert_eq!(
        Angle::from_dms_str(".5°").unwrap(),
        Angle::from_microdegrees(500_000)
    );
    assert_eq!(
        Angle::from_dms_str("2e-1°").unwrap(),
        Angle::from_microdegrees(200_000)
    );
}

#[test]
fn parse_long_mantissa() {
    // digits past the nineteenth significant one only drop precision,
    // never shift the value by powers of ten
    assert_eq!(
        Angle::from_dms_str("1.00000000000000000001°").unwrap(),
        Angle::from_angle_units(36_000_000)
    );
    assert_eq!(
        Angle::from_dms_str("0.1234567890123456789012").unwrap(),
        Angle::from_angle_units(4_444_444)
    );
}

#[test]
fn parse_degrees_only_keeps_magnitude() {
    // the bare decimal branch reads the magnitude only: the sign
    // character fixes the role, not the value
    let (a, d) = Angle::from_dms_str_with_direction("-42.826667").unwrap();
    assert_eq!(a, Angle::from_microdegrees(42_826_667));
    assert_eq!(d, AngleDirectionNotation::Undetermined);
}

#[test]
fn parse_head_and_tail_text() {
    let (a, d) = Angle::from_dms_str_with_direction("lat: 43°3′43.5″S !").unwrap();
    assert_eq!(d, AngleDirectionNotation::Latitude);
    let (sign, deg, min, sec) = a.as_dms_180().unwrap();
    assert_eq!((sign, deg, min, sec), (Sign::Negative, 43, 3, 435_000));
}

#[test]
fn parse_partial_forms() {
    // degrees and seconds with no minutes
    let a = Angle::from_dms_str("1°30″").unwrap();
    assert_eq!(a, Angle::from_angle_units(36_000_000 + 300_000));
    // minutes only
    let b = Angle::from_dms_str("21′").unwrap();
    assert_eq!(b, Angle::from_angle_units(21 * 600_000));
    // seconds only
    let c = Angle::from_dms_str("15.8″").unwrap();
    assert_eq!(c, Angle::from_angle_units(158_000));
}

#[test]
fn parse_errors() {
    assert_eq!(
        Angle::from_dms_str(""),
        Err(CivilEngineeringLocationError::CouldNotDetectAnglePattern)
    );
    assert_eq!(
        Angle::from_dms_str("abc"),
        Err(CivilEngineeringLocationError::CouldNotDetectAnglePattern)
    );
    assert_eq!(
        Angle::from_dms_str("15x20"),
        Err(CivilEngineeringLocationError::CouldNotParseFromIso800001Dms(
            String::from("15x20")
        ))
    );
    assert_eq!(
        Angle::from_dms_str("15°20"),
        Err(CivilEngineeringLocationError::CouldNotParseFromIso800001Dms(
            String::from("15°20")
        ))
    );
}

#[test]
fn infinite_is_rejected() {
    let inf = Angle::Infinite { negative: false };
    assert_eq!(inf.as_dms_360(), Err(CivilEngineeringLocationError::Infinite));
    assert_eq!(inf.as_dms_180(), Err(CivilEngineeringLocationError::Infinite));
    assert_eq!(inf.as_dms_90(), Err(CivilEngineeringLocationError::Infinite));
    let ll = LonLat::new(inf, Angle::from_angle_units(0));
    assert_eq!(
        ll.to_string_geo_uri(),
        Err(CivilEngineeringLocationError::Infinite)
    );
    // a magnitude far beyond the fixed-point range parses to an infinity
    let huge = Angle::from_dms_str("1e30").unwrap();
    assert_eq!(huge, Angle::Infinite { negative: false });
}

#[test]
fn lonlat_errors() {
    assert_eq!(
        LonLat::try_from("42.8"),
        Err(CivilEngineeringLocationError::LonLatFromStrUnknownPattern)
    );
    assert_eq!(
        LonLat::try_from("1N 2N"),
        Err(CivilEngineeringLocationError::LonLatFromStrUnknownPattern)
    );
    assert_eq!(
        LonLatAlt::try_from("1,2"),
        Err(CivilEngineeringLocationError::GeoUriParseError(String::from("1,2")))
    );
    assert_eq!(
        LonLatAlt::try_from("1,2,abc"),
        Err(CivilEngineeringLocationError::ParseFloatError(String::from("abc")))
    );
}

#[test]
fn alt_trailing_point() {
    // a lone trailing point after plain digits is accepted, as 5.0
    let triple = LonLatAlt::try_from("1,2,5.").unwrap();
    assert_eq!(triple.alt, Length::from_meters_e4(50_000));
    // a second point is not a number
    assert_eq!(
        LonLatAlt::try_from("1,2,5.2."),
        Err(CivilEngineeringLocationError::ParseFloatError(String::from("5.2.")))
    );
}

#[test]
fn roles_win_over_position() {
    // hemisphere letters override the comma order
    let ll = LonLat::try_from("140.811389E,42.826667N").unwrap();
    assert_eq!(ll.get_lon(), Angle::from_microdegrees(140_811_389));
    assert_eq!(ll.get_lat(), Angle::from_microdegrees(42_826_667));
}

#[test]
fn string_dms_signed_forms() {
    let a = Angle::from_microdegrees(141_354_389);
    assert_eq!(a.as_string_dms_180().unwrap(), "+141°21’15.8”");
    let b = Angle::from_microdegrees(-141_354_389);
    assert_eq!(b.as_string_dms_180().unwrap(), "-141°21’15.8”");
    let c = Angle::from_microdegrees(-90_000_000);
    assert_eq!(c.as_string_dms_360().unwrap(), "+270°0’0.0”");
    assert_eq!(a.as_string_dms_180_ja_jp().unwrap(), "+141度21分15.8秒");
}

#[test]
fn string_plain_values() {
    let a = Angle::from_microdegrees(42_826_667);
    assert_eq!(a.as_string_degrees(), "42.826667°");
    assert_eq!(Angle::from_angle_units(0).as_string_degrees(), "0°");
    assert_eq!(Angle::from_angle_units(600_000).as_string_minutes(), "1’");
    assert_eq!(Angle::from_angle_units(158_004).as_string_seconds(), "15.8004”");
    assert_eq!(a.as_string_degrees_ja_jp(), "42.826667度");
    assert_eq!(
        Angle::Infinite { negative: true }.as_string_degrees(),
        "-inf°"
    );
}

#[test]
fn string_dms_pair_signed() {
    let ll = LonLat::new(
        Angle::from_microdegrees(140_811_389),
        Angle::from_microdegrees(42_826_667),
    );
    assert_eq!(
        ll.to_string_dms_space().unwrap(),
        "+42°49’36.0” +140°48’41.0”"
    );
    assert_eq!(
        ll.to_string_dms_comma().unwrap(),
        "+42°49’36.0”,+140°48’41.0”"
    );
}

#[test]
fn display_round_trip_within_resolution() {
    // format with hemisphere letters, reparse, and land within half a
    // rendering step (0.05 arcsecond = 500 units) on each axis
    let ll = LonLat::new(
        Angle::from_microdegrees(140_811_389),
        Angle::from_microdegrees(42_826_667),
    );
    let text = ll.to_string_dms_nwse_space().unwrap();
    let back = LonLat::try_from(text.as_str()).unwrap();
    let lon_diff =
        (back.get_lon().angle_units().unwrap() - ll.get_lon().angle_units().unwrap()).abs();
    let lat_diff =
        (back.get_lat().angle_units().unwrap() - ll.get_lat().angle_units().unwrap()).abs();
    assert!(lon_diff <= 500);
    assert!(lat_diff <= 500);
}

#[test]
fn pair_accessors() {
    let lon = Angle::from_microdegrees(140_811_389);
    let lat = Angle::from_microdegrees(42_826_667);
    let alt = Length::from_meters_e4(55_000);
    let mut ll = LonLat::default();
    assert_eq!(ll.get_lon(), Angle::from_angle_units(0));
    ll.set_lon(lon);
    ll.set_lat(lat);
    assert_eq!(ll.get_lon(), lon);
    assert_eq!(ll.get_lat(), lat);

    let lla = LonLatAlt::new(lon, lat, alt);
    assert_eq!(lla.get_lon(), lon);
    assert_eq!(lla.alt.meters_e4, 55_000);
    assert_eq!(alt.as_meters_e4(), 55_000);
    assert_eq!(LonLat::from(lla), LonLat::new(lon, lat));
    assert_eq!(LonLatAlt::from((LonLat::new(lon, lat), alt)), lla);
    assert_eq!(lla.as_lonlat(), LonLat::new(lon, lat));

    let mut lla2 = LonLatAlt::default();
    lla2.set_lon(lon);
    lla2.set_lat(lat);
    assert_eq!(lla2.get_lon(), lon);
    assert_eq!(lla2.get_lat(), lat);
}

#[test]
fn hemisphere_markers() {
    assert_eq!(Sign::Positive.to_string_ns(), "N");
    assert_eq!(Sign::Negative.to_string_ns(), "S");
    assert_eq!(Sign::Positive.to_string_ew(), "E");
    assert_eq!(Sign::Negative.to_string_ew(), "W");
    assert_eq!(Sign::Positive.to_string_ns_ja_jp(), "北緯");
    assert_eq!(Sign::Negative.to_string_ew_ja_jp(), "西経");
}

#[test]
fn location_variants() {
    let kw = Location::Keyword(String::from("home"));
    assert!(matches!(kw, Location::Keyword(_)));
    let ll = Location::LonLat(LonLat::new(
        Angle::from_microdegrees(140_811_389),
        Angle::from_microdegrees(42_826_667),
    ));
    assert!(matches!(ll, Location::LonLat(_)));
}
