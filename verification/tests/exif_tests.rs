use gallery::exif::{
    get_meta, parse_capture_time, parse_fraction, parse_fractions, parse_gps_coordinate,
    Coordinate, ExifTags, Fraction, MetaStep, Reading, TAG_DATE_TIME_ORIGINAL, TAG_GPS_LATITUDE,
    TAG_GPS_LATITUDE_REF, TAG_GPS_LONGITUDE, TAG_GPS_LONGITUDE_REF,
};
use gallery::pic_info::{CaptureTime, Degrees, GeoResponse, PicInfo, PicInfoError};

fn cv(s: &str) -> Vec<char> {
    s.chars().collect()
}

fn no_tags() -> ExifTags {
    ExifTags {
        date_time_original: None,
        gps_latitude: None,
        gps_latitude_ref: None,
        gps_longitude: None,
        gps_longitude_ref: None,
    }
}

fn value(c: &Coordinate) -> f64 {
    let m = c.numerator as f64 / c.denominator as f64;
    if c.negative {
        -m
    } else {
        m
    }
}

#[test]
fn tag_names_are_those_of_exif() {
    assert_eq!(TAG_DATE_TIME_ORIGINAL, "Exif.Photo.DateTimeOriginal");
    assert_eq!(TAG_GPS_LATITUDE, "Exif.GPSInfo.GPSLatitude");
    assert_eq!(TAG_GPS_LATITUDE_REF, "Exif.GPSInfo.GPSLatitudeRef");
    assert_eq!(TAG_GPS_LONGITUDE, "Exif.GPSInfo.GPSLongitude");
    assert_eq!(TAG_GPS_LONGITUDE_REF, "Exif.GPSInfo.GPSLongitudeRef");
}

fn fraction(numerator: u32, denominator: u32) -> Reading {
    Reading::Value(Fraction { numerator, denominator })
}

#[test]
fn fractions_are_two_numbers_and_a_slash() {
    assert_eq!(parse_fraction(&cv("51/1")), fraction(51, 1));
    assert_eq!(parse_fraction(&cv("  1234/100 ")), fraction(1234, 100));
    assert_eq!(parse_fraction(&cv("0/7")), fraction(0, 7));
    assert_eq!(parse_fraction(&cv("4294967295/4294967295")), fraction(u32::MAX, u32::MAX));
    for text in ["51", "51/1/2", "51 / 1", "a/1", "1/", "/1", "-1/2", "4294967296/1", "1/4294967296", "", "/", "x/0"] {
        assert_eq!(parse_fraction(&cv(text)), Reading::Unreadable, "{:?}", text);
    }
}

#[test]
fn a_zero_denominator_is_a_division_by_zero() {
    assert_eq!(parse_fraction(&cv("1/0")), Reading::DivisionByZero);
    assert_eq!(parse_fraction(&cv(" 0/000 ")), Reading::DivisionByZero);
    assert_eq!(parse_fraction(&cv("4294967295/0")), Reading::DivisionByZero);
}

#[test]
fn unreadable_fractions_are_passed_over() {
    assert_eq!(
        parse_fractions("51/1, x, 30/1,, 2/ ,12/5"),
        vec![
            Fraction { numerator: 51, denominator: 1 },
            Fraction { numerator: 30, denominator: 1 },
            Fraction { numerator: 12, denominator: 5 },
        ]
    );
    assert!(parse_fractions("").is_empty());
    assert!(parse_fractions("51/1 30/1 0/1").is_empty());
}

#[test]
fn a_division_by_zero_spoils_the_whole_tag() {
    for text in ["10/0, 30/1, 5/1", "10/1, 30/0, 5/1", "10/1, 30/1, 5/0", "1/0", "x, 0/0", "1/1,2/1,3/1,4/0"] {
        assert!(parse_fractions(text).is_empty(), "{:?}", text);
        for direction in ["N", "S", "E", "W"] {
            assert_eq!(parse_gps_coordinate(text, direction), None, "{:?}", text);
        }
    }
    let tags = ExifTags {
        gps_latitude: Some("10/0, 30/1, 5/1".to_string()),
        gps_longitude: Some("20/1".to_string()),
        ..no_tags()
    };
    let (_, lat, long) = get_meta(&tags);
    assert_eq!(lat, None);
    assert!(long.is_some());
    assert!(matches!(PicInfo::from_tags(&tags), MetaStep::Done(PicInfo { geo_data: None, .. })));
}

#[test]
fn quarter_seconds_add_up_exactly() {
    assert_eq!(
        parse_gps_coordinate("10/1, 30/1, 225/4", "N"),
        Some(Coordinate { negative: false, numerator: 3600 * 10 * 4 + 60 * 30 * 4 + 225, denominator: 3600 * 4 })
    );
}

#[test]
fn degrees_minutes_seconds_add_up() {
    let c = parse_gps_coordinate("51/1, 30/1, 1234/100", "N").unwrap();
    assert_eq!(c, Coordinate { negative: false, numerator: 18541234, denominator: 360000 });
    assert!((value(&c) - (51.0 + 30.0 / 60.0 + 12.34 / 3600.0)).abs() < 1e-12);
}

#[test]
fn missing_minutes_and_seconds_count_as_zero() {
    assert_eq!(
        parse_gps_coordinate("7/2", "E"),
        Some(Coordinate { negative: false, numerator: 3600 * 7, denominator: 3600 * 2 })
    );
    assert_eq!(
        parse_gps_coordinate("10/1,15/2", "E"),
        Some(Coordinate { negative: false, numerator: 3600 * 10 * 2 + 60 * 15, denominator: 3600 * 2 })
    );
}

#[test]
fn fractions_after_the_third_are_ignored() {
    assert_eq!(
        parse_gps_coordinate("1/1,2/1,3/1,4/1,5/1", "N"),
        parse_gps_coordinate("1/1,2/1,3/1", "N")
    );
}

#[test]
fn south_and_west_are_negative() {
    for direction in ["S", "W"] {
        let c = parse_gps_coordinate("33/1, 51/1, 3600/100", direction).unwrap();
        assert!(c.negative);
        assert!(value(&c) < 0.0);
        assert!((value(&c) + 33.86).abs() < 1e-12);
    }
}

#[test]
fn north_east_and_anything_else_are_not_negative() {
    for direction in ["N", "E", "", "s", "w", "SW", " S", "north"] {
        let c = parse_gps_coordinate("33/1, 51/1, 3600/100", direction).unwrap();
        assert!(!c.negative, "{:?}", direction);
        assert!(value(&c) >= 0.0);
    }
}

#[test]
fn zero_is_neither_above_nor_below() {
    let c = parse_gps_coordinate("0/1, 0/1, 0/1", "S").unwrap();
    assert_eq!(c, Coordinate { negative: true, numerator: 0, denominator: 3600 });
}

#[test]
fn a_tag_without_fractions_gives_nothing() {
    assert_eq!(parse_gps_coordinate("", "N"), None);
    assert_eq!(parse_gps_coordinate("north of here", "N"), None);
    assert_eq!(parse_gps_coordinate("1/0", "N"), None);
    assert_eq!(parse_gps_coordinate(",,", "N"), None);
}

#[test]
fn the_largest_fractions_do_not_overflow() {
    let text = "4294967295/1, 4294967295/1, 4294967295/1";
    let m = u32::MAX as u128;
    assert_eq!(
        parse_gps_coordinate(text, "N"),
        Some(Coordinate { negative: false, numerator: 3600 * m + 60 * m + m, denominator: 3600 })
    );
    let text = "4294967295/4294967295, 4294967295/4294967295, 4294967295/4294967295";
    assert_eq!(
        parse_gps_coordinate(text, "W"),
        Some(Coordinate {
            negative: true,
            numerator: 3661 * m * m * m,
            denominator: 3600 * m * m * m,
        })
    );
}

#[test]
fn capture_time_is_read_in_exif_format() {
    assert_eq!(
        parse_capture_time("2022:06:01 12:30:45"),
        Some(CaptureTime { year: 2022, month: 6, day: 1, hour: 12, minute: 30, second: 45 })
    );
    assert_eq!(
        parse_capture_time("1999:12:31 23:59:59"),
        Some(CaptureTime { year: 1999, month: 12, day: 31, hour: 23, minute: 59, second: 59 })
    );
}

#[test]
fn other_time_formats_are_not_read() {
    assert_eq!(parse_capture_time("2022-06-01 12:30:45"), None);
    assert_eq!(parse_capture_time("2022:06:01"), None);
    assert_eq!(parse_capture_time("2022:13:01 12:30:45"), None);
    assert_eq!(parse_capture_time("2022:02:30 12:30:45"), None);
    assert_eq!(parse_capture_time("2022:06:01 25:00:00"), None);
    assert_eq!(parse_capture_time(""), None);
    assert_eq!(parse_capture_time("%Y:%m:%d %H:%M:%S"), None);
}

#[test]
fn get_meta_reads_every_tag() {
    let tags = ExifTags {
        date_time_original: Some("2021:03:04 05:06:07".to_string()),
        gps_latitude: Some("48/1, 51/1, 2400/100".to_string()),
        gps_latitude_ref: Some("N".to_string()),
        gps_longitude: Some("2/1, 21/1, 0/1".to_string()),
        gps_longitude_ref: Some("W".to_string()),
    };
    let (time, lat, long) = get_meta(&tags);
    assert_eq!(time.unwrap().year, 2021);
    assert_eq!(
        lat,
        Some(Coordinate { negative: false, numerator: 3600 * 48 * 100 + 60 * 51 * 100 + 2400, denominator: 360000 })
    );
    assert_eq!(long, Some(Coordinate { negative: true, numerator: 3600 * 2 + 60 * 21, denominator: 3600 }));
}

#[test]
fn missing_references_default_to_north_and_east() {
    let tags = ExifTags {
        gps_latitude: Some("1/1".to_string()),
        gps_longitude: Some("2/1".to_string()),
        ..no_tags()
    };
    let (time, lat, long) = get_meta(&tags);
    assert_eq!(time, None);
    assert!(!lat.unwrap().negative);
    assert!(!long.unwrap().negative);
}

#[test]
fn unreadable_tags_degrade_to_absent() {
    let tags = ExifTags {
        date_time_original: Some("yesterday".to_string()),
        gps_latitude: Some("somewhere".to_string()),
        gps_latitude_ref: Some("S".to_string()),
        gps_longitude: None,
        gps_longitude_ref: Some("W".to_string()),
    };
    assert_eq!(get_meta(&tags), (None, None, None));
    assert_eq!(get_meta(&no_tags()), (None, None, None));
}

#[test]
fn without_gps_tags_the_geocoder_is_not_asked() {
    let with_time = ExifTags { date_time_original: Some("2020:01:02 03:04:05".to_string()), ..no_tags() };
    match PicInfo::from_tags(&with_time) {
        MetaStep::Done(info) => {
            assert_eq!(info.date_time.unwrap().year, 2020);
            assert_eq!(info.geo_data, None);
        }
        MetaStep::Lookup { .. } => panic!("no lookup is due"),
    }
    let only_latitude = ExifTags { gps_latitude: Some("1/1".to_string()), ..no_tags() };
    assert!(matches!(PicInfo::from_tags(&only_latitude), MetaStep::Done(PicInfo { geo_data: None, .. })));
    let only_longitude = ExifTags { gps_longitude: Some("1/1".to_string()), ..no_tags() };
    assert!(matches!(PicInfo::from_tags(&only_longitude), MetaStep::Done(PicInfo { geo_data: None, .. })));
    assert!(matches!(PicInfo::from_tags(&no_tags()), MetaStep::Done(PicInfo { date_time: None, geo_data: None })));
}

#[test]
fn with_both_gps_tags_the_geocoder_is_asked() {
    let tags = ExifTags {
        gps_latitude: Some("48/1".to_string()),
        gps_longitude: Some("2/1".to_string()),
        gps_longitude_ref: Some("W".to_string()),
        ..no_tags()
    };
    match PicInfo::from_tags(&tags) {
        MetaStep::Lookup { date_time, latitude, longitude } => {
            assert_eq!(date_time, None);
            assert_eq!(value(&latitude), 48.0);
            assert_eq!(value(&longitude), -2.0);
        }
        MetaStep::Done(_) => panic!("a lookup is due"),
    }
}

#[test]
fn located_completes_the_metadata() {
    let lat = Degrees { bits: 48.0f64.to_bits() };
    let long = Degrees { bits: (-2.0f64).to_bits() };
    let time = Some(CaptureTime { year: 2020, month: 1, day: 2, hour: 3, minute: 4, second: 5 });
    let info = PicInfo::located(time, lat, long, GeoResponse::Body(br#"{"countryName":"France"}"#.to_vec())).unwrap();
    assert_eq!(info.date_time, time);
    let geo = info.geo_data.unwrap();
    assert_eq!(geo.country, "France");
    assert_eq!(f64::from_bits(geo.latitude.bits), 48.0);
    assert_eq!(f64::from_bits(geo.longitude.bits), -2.0);
    assert_eq!(
        PicInfo::located(time, lat, long, GeoResponse::Unreachable("timed out".to_string())),
        Err(PicInfoError::CountryFetchError("timed out".to_string()))
    );
}

/// Runs the extraction of one picture against a geocoder that only counts
/// how often it is asked.
fn extract_counting(tags: &ExifTags, calls: &mut u32) -> Result<PicInfo, PicInfoError> {
    match PicInfo::from_tags(tags) {
        MetaStep::Done(info) => Ok(info),
        MetaStep::Lookup { date_time, latitude, longitude } => {
            *calls += 1;
            PicInfo::located(
                date_time,
                Degrees { bits: value(&latitude).to_bits() },
                Degrees { bits: value(&longitude).to_bits() },
                GeoResponse::Body(br#"{"countryName":"Nowhere"}"#.to_vec()),
            )
        }
    }
}

#[test]
fn the_geocoder_is_asked_once_per_located_picture_and_never_otherwise() {
    let mut calls = 0;
    let unlocated = [
        no_tags(),
        ExifTags { date_time_original: Some("2020:01:02 03:04:05".to_string()), ..no_tags() },
        ExifTags { gps_latitude: Some("1/1".to_string()), gps_latitude_ref: Some("S".to_string()), ..no_tags() },
        ExifTags { gps_longitude_ref: Some("W".to_string()), ..no_tags() },
        ExifTags { gps_latitude: Some("x".to_string()), gps_longitude: Some("1/1".to_string()), ..no_tags() },
    ];
    for tags in &unlocated {
        assert_eq!(extract_counting(tags, &mut calls).unwrap().geo_data, None);
    }
    assert_eq!(calls, 0);
    let located = ExifTags {
        gps_latitude: Some("10/1, 30/1".to_string()),
        gps_latitude_ref: Some("S".to_string()),
        gps_longitude: Some("20/1".to_string()),
        ..no_tags()
    };
    let geo = extract_counting(&located, &mut calls).unwrap().geo_data.unwrap();
    assert_eq!(calls, 1);
    assert_eq!(geo.country, "Nowhere");
    assert_eq!(f64::from_bits(geo.latitude.bits), -10.5);
    assert_eq!(f64::from_bits(geo.longitude.bits), 20.0);
}
