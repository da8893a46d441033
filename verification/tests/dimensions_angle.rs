use lonlat::Angle;
use lonlat::AngleAsDms;
use lonlat::AngleDirectionNotation;
use lonlat::FromDmsStr;
use lonlat::Sign;

fn sec_f64(sec_units: u32) -> f64 {
    sec_units as f64 * 1.0e-4
}

fn parse_detail(source: &str, expected: (Sign, u8, u8, f64)) {
    let angle = Angle::from_dms_str(source).unwrap();
    let (sign, deg, min, sec) = angle.as_dms_180().unwrap();
    assert_eq!(sign, expected.0);
    assert_eq!(deg, expected.1);
    assert_eq!(min, expected.2);
    assert!((sec_f64(sec) - expected.3).abs() <= 1.0e-3);
}

#[test]
fn dms180() {
    let angle = Angle::from_microdegrees(141_354_389);
    let (sig, deg, min, sec) = angle.as_dms_180().unwrap();
    assert_eq!(sig, Sign::Positive);
    assert_eq!(deg, 141);
    assert_eq!(min, 21);
    // sec = 15.8004 exactly on the 1.0e-4 arcsecond grid

    assert!((sec_f64(sec) - 15.8).abs() <= 1.0e-1);
    assert!((sec_f64(sec) - 15.8).abs() > 1.0e-4);
}

#[test]
fn from_dms_str() {
    parse_detail("0°0′0″", (Sign::Positive, 0, 0, 0.0));

    parse_detail("1°2′3.4″", (Sign::Positive, 1, 2, 3.4));
    parse_detail("-1°2′3.4″", (Sign::Negative, 1, 2, 3.4));

    parse_detail("141°21′15.8″", (Sign::Positive, 141, 21, 15.8));
    parse_detail("-141°21′15.8″", (Sign::Negative, 141, 21, 15.8));

    parse_detail("179°59′59.9″", (Sign::Positive, 179, 59, 59.9));
    parse_detail("-179°59′59.9″", (Sign::Negative, 179, 59, 59.9));

    // DMS := [-180.0 deg .. +180.0 deg), thus +180 [deg] -> -180 [deg]
    parse_detail("180°0′0″", (Sign::Negative, 180, 0, 0.0));
    parse_detail("-180°0′0″", (Sign::Negative, 180, 0, 0.0));
}

#[test]
fn from_dms_str_with_direction() {
    assert_eq!(
        Angle::from_dms_str_with_direction("42.826667").unwrap(),
        (
            Angle::from_microdegrees(42_826_667),
            AngleDirectionNotation::Undetermined
        )
    );

    assert_eq!(
        Angle::from_dms_str_with_direction("42.826667N").unwrap(),
        (
            Angle::from_microdegrees(42_826_667),
            AngleDirectionNotation::Latitude
        )
    );

    assert_eq!(
        Angle::from_dms_str_with_direction("42.826667E").unwrap(),
        (
            Angle::from_microdegrees(42_826_667),
            AngleDirectionNotation::Longitude
        )
    );
}

#[test]
fn from_dms_str_space() {
    parse_detail("141° 21′ 15.8″", (Sign::Positive, 141, 21, 15.8));
    parse_detail("-141° 21′ 15.8″", (Sign::Negative, 141, 21, 15.8));
    parse_detail("43° 3′ 43.5″", (Sign::Positive, 43, 3, 43.5));
    parse_detail("-43° 3′ 43.5″", (Sign::Negative, 43, 3, 43.5));
}

#[test]
fn from_dms_str_nwse() {
    parse_detail("141°21′15.8″E", (Sign::Positive, 141, 21, 15.8));
    parse_detail("141°21′15.8″W", (Sign::Negative, 141, 21, 15.8));
    parse_detail("43°3′43.5″N", (Sign::Positive, 43, 3, 43.5));
    parse_detail("43°3′43.5″S", (Sign::Negative, 43, 3, 43.5));
}

#[test]
fn from_dms_ja_jp() {
    parse_detail("141度21分15.8秒″", (Sign::Positive, 141, 21, 15.8));
    parse_detail("-141度21分15.8秒″", (Sign::Negative, 141, 21, 15.8));
    parse_detail("43度3分43.5秒", (Sign::Positive, 43, 3, 43.5));
    parse_detail("-43度3分43.5秒", (Sign::Negative, 43, 3, 43.5));
}

#[test]
fn from_dms_nwse_ja_jp() {
    parse_detail("東経141度21分15.8秒″", (Sign::Positive, 141, 21, 15.8));
    parse_detail("西経141度21分15.8秒″", (Sign::Negative, 141, 21, 15.8));
    parse_detail("北緯43度3分43.5秒", (Sign::Positive, 43, 3, 43.5));
    parse_detail("南緯43度3分43.5秒", (Sign::Negative, 43, 3, 43.5));
}
