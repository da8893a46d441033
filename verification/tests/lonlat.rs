use lonlat::Angle;
use lonlat::Length;
use lonlat::LonLat;
use lonlat::LonLatAlt;
use lonlat::LonLatGettable;
use lonlat::ToStringDmsNwse;
use lonlat::ToStringDmsNwseJaJp;
use lonlat::ToStringGeoUri;

fn degrees_f64(a: Angle) -> f64 {
    a.angle_units().unwrap() as f64 / 36_000_000.0
}

#[test]
fn lonlat_from() {
    let expected_lon = Angle::from_microdegrees(140_811_389);
    let expected_lat = Angle::from_microdegrees(42_826_667);
    let expected = LonLat::new(expected_lon, expected_lat);

    assert_eq!(LonLat::try_from("geo:42.826667,140.811389").unwrap(), expected);
    assert_eq!(LonLat::try_from("42.826667,140.811389").unwrap(), expected);

    // Note: UTF-8 has a multiple minutes-like or seconds-like characters; [′’'] [″”"]
    let actual = LonLat::try_from("42°49′36”N 140°48′41”E").unwrap();
    assert!((degrees_f64(actual.get_lon()) - degrees_f64(expected.get_lon())).abs() <= 1.0e-6);
    assert!((degrees_f64(actual.get_lat()) - degrees_f64(expected.get_lat())).abs() <= 1.0e-6);
    let actual = LonLat::try_from("42°49’36”N 140°48’41”E").unwrap();
    assert!((degrees_f64(actual.get_lon()) - degrees_f64(expected.get_lon())).abs() <= 1.0e-6);
    assert!((degrees_f64(actual.get_lat()) - degrees_f64(expected.get_lat())).abs() <= 1.0e-6);
    let actual = LonLat::try_from(r#"42°49'36"N 140°48'41"E"#).unwrap();
    assert!((degrees_f64(actual.get_lon()) - degrees_f64(expected.get_lon())).abs() <= 1.0e-6);
    assert!((degrees_f64(actual.get_lat()) - degrees_f64(expected.get_lat())).abs() <= 1.0e-6);
}

#[test]
fn lonlatalt_from() {
    let expected_lon = Angle::from_microdegrees(140_811_389);
    let expected_lat = Angle::from_microdegrees(42_826_667);
    let expected_alt = Length::from_meters_e4(1_234_000);
    let expected = LonLatAlt::new(expected_lon, expected_lat, expected_alt);

    assert_eq!(
        LonLatAlt::try_from("geo:42.826667,140.811389,123.4").unwrap(),
        expected
    );
}

#[test]
fn lonlat_to() {
    let actual_lon = Angle::from_microdegrees(140_811_389);
    let actual_lat = Angle::from_microdegrees(42_826_667);
    let actual = LonLat::new(actual_lon, actual_lat);

    assert_eq!(actual.to_string_geo_uri().unwrap(), "geo:42.826667,140.811389");
    assert_eq!(
        actual.to_string_dms_nwse_space().unwrap(),
        "42°49’36.0”N 140°48’41.0”E"
    );
    assert_eq!(
        actual.to_string_dms_nwse_comma().unwrap(),
        "42°49’36.0”N,140°48’41.0”E"
    );
    assert_eq!(
        actual.to_string_dms_nwse(", ").unwrap(),
        "42°49’36.0”N, 140°48’41.0”E"
    );
}

#[test]
fn lonlatalt_to() {
    let actual_lon = Angle::from_microdegrees(140_811_389);
    let actual_lat = Angle::from_microdegrees(42_826_667);
    let actual_alt = Length::from_meters_e4(1_234_000);
    let actual = LonLatAlt::new(actual_lon, actual_lat, actual_alt);

    assert_eq!(
        actual.to_string_geo_uri().unwrap(),
        "geo:42.826667,140.811389,123.4"
    );
}

#[test]
fn lonlat_from_ja_jp() {
    let expected_lon = Angle::from_microdegrees(140_811_389);
    let expected_lat = Angle::from_microdegrees(42_826_667);
    let expected = LonLat::new(expected_lon, expected_lat);

    let actual = LonLat::try_from("北緯42度49分36秒 東経140度48分41秒").unwrap();
    assert!((degrees_f64(actual.get_lon()) - degrees_f64(expected.get_lon())).abs() <= 1.0e-6);
    assert!((degrees_f64(actual.get_lat()) - degrees_f64(expected.get_lat())).abs() <= 1.0e-6);
}

#[test]
fn lonlat_to_ja_jp() {
    let actual_lon = Angle::from_microdegrees(140_811_389);
    let actual_lat = Angle::from_microdegrees(42_826_667);
    let actual = LonLat::new(actual_lon, actual_lat);

    assert_eq!(
        actual.to_string_dms_nwse_space_ja_jp().unwrap(),
        "北緯42度49分36.0秒 東経140度48分41.0秒"
    );
    assert_eq!(
        actual.to_string_dms_nwse_comma_ja_jp().unwrap(),
        "北緯42度49分36.0秒,東経140度48分41.0秒"
    );
    assert_eq!(
        actual.to_string_dms_nwse_ja_jp(", ").unwrap(),
        "北緯42度49分36.0秒, 東経140度48分41.0秒"
    );
}
