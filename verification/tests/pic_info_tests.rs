use gallery::pic_info::{
    country_name, get_meta_for, resolve_geo, resolve_year, CaptureTime, Degrees, GeoData,
    GeoResponse, PicInfo, PicInfoError,
};

fn time(year: i32) -> CaptureTime {
    CaptureTime { year, month: 6, day: 1, hour: 0, minute: 0, second: 0 }
}

fn place(country: &str, lat: f64, long: f64) -> GeoData {
    GeoData {
        country: country.to_string(),
        latitude: Degrees { bits: lat.to_bits() },
        longitude: Degrees { bits: long.to_bits() },
    }
}

#[test]
fn country_name_is_read_and_trimmed() {
    assert_eq!(country_name(br#"{"countryName":"France"}"#), Ok("France".to_string()));
    assert_eq!(
        country_name(br#"{"latitude":1.5,"countryName":"  New Zealand \n","city":"x"}"#),
        Ok("New Zealand".to_string())
    );
    assert_eq!(country_name(br#"{"countryName":""}"#), Ok("".to_string()));
    assert_eq!(country_name("{\"countryName\":\"C\u{f4}te d'Ivoire\"}".as_bytes()), Ok("Côte d'Ivoire".to_string()));
}

#[test]
fn country_name_defaults_to_unknown() {
    assert_eq!(country_name(br#"{}"#), Ok("Unknown".to_string()));
    assert_eq!(country_name(br#"{"countryName":null}"#), Ok("Unknown".to_string()));
    assert_eq!(country_name(br#"{"countryName":42}"#), Ok("Unknown".to_string()));
    assert_eq!(country_name(br#"{"countryname":"France"}"#), Ok("Unknown".to_string()));
    assert_eq!(country_name(br#"["countryName"]"#), Ok("Unknown".to_string()));
    assert_eq!(country_name(br#""countryName""#), Ok("Unknown".to_string()));
    assert_eq!(country_name(b"null"), Ok("Unknown".to_string()));
}

#[test]
fn country_name_fails_on_what_is_not_json() {
    assert!(country_name(b"").is_err());
    assert!(country_name(b"<html>").is_err());
    assert!(country_name(br#"{"countryName":"France""#).is_err());
    assert!(country_name(&[0xff, 0xfe]).is_err());
    let message = country_name(b"nope").unwrap_err();
    let expected = serde_json::from_slice::<serde_json::Value>(b"nope").unwrap_err().to_string();
    assert_eq!(message, expected);
}

#[test]
fn from_latlong_keeps_the_coordinates() {
    let lat = Degrees { bits: 48.8566f64.to_bits() };
    let long = Degrees { bits: 2.3522f64.to_bits() };
    assert_eq!(
        GeoData::from_latlong(lat, long, GeoResponse::Body(br#"{"countryName":" France "}"#.to_vec())),
        Ok(place("France", 48.8566, 2.3522))
    );
    assert_eq!(
        GeoData::from_latlong(lat, long, GeoResponse::Body(b"{}".to_vec())),
        Ok(place("Unknown", 48.8566, 2.3522))
    );
}

#[test]
fn from_latlong_reports_fetch_failures() {
    let zero = Degrees { bits: 0 };
    assert_eq!(
        GeoData::from_latlong(zero, zero, GeoResponse::Unreachable("connection refused".to_string())),
        Err(PicInfoError::CountryFetchError("connection refused".to_string()))
    );
    match GeoData::from_latlong(zero, zero, GeoResponse::Body(b"oops".to_vec())) {
        Err(PicInfoError::CountryFetchError(m)) => assert!(!m.is_empty()),
        other => panic!("{:?}", other),
    }
}

#[test]
fn explicit_year_wins() {
    assert_eq!(resolve_year(Some(1999), Some(time(2022))), Some(1999));
    assert_eq!(resolve_year(Some(1999), None), Some(1999));
    assert_eq!(resolve_year(None, Some(time(2022))), Some(2022));
    assert_eq!(resolve_year(None, None), None);
}

#[test]
fn explicit_place_wins() {
    let a = place("A", 1.0, 2.0);
    let b = place("B", 3.0, 4.0);
    assert_eq!(resolve_geo(Some(a.clone()), Some(b.clone())), Some(a.clone()));
    assert_eq!(resolve_geo(Some(a.clone()), None), Some(a));
    assert_eq!(resolve_geo(None, Some(b.clone())), Some(b));
    assert_eq!(resolve_geo(None, None), None);
}

#[test]
fn get_meta_for_keeps_the_first_of_each() {
    let metas = vec![
        Ok(PicInfo { date_time: None, geo_data: None }),
        Ok(PicInfo { date_time: Some(time(2022)), geo_data: None }),
        Ok(PicInfo { date_time: Some(time(2010)), geo_data: Some(place("A", 1.0, 2.0)) }),
        Ok(PicInfo { date_time: None, geo_data: Some(place("B", 3.0, 4.0)) }),
    ];
    assert_eq!(
        get_meta_for(metas),
        Ok(PicInfo { date_time: Some(time(2022)), geo_data: Some(place("A", 1.0, 2.0)) })
    );
    assert_eq!(get_meta_for(vec![]), Ok(PicInfo { date_time: None, geo_data: None }));
}

#[test]
fn get_meta_for_fails_with_the_first_failure() {
    let metas = vec![
        Ok(PicInfo { date_time: Some(time(2022)), geo_data: None }),
        Err(PicInfoError::ParseError("first".to_string())),
        Err(PicInfoError::CountryFetchError("second".to_string())),
    ];
    assert_eq!(get_meta_for(metas), Err(PicInfoError::ParseError("first".to_string())));
}

#[test]
fn pic_info_errors_in_words() {
    assert_eq!(PicInfoError::ParseError("bad container".to_string()).message(), "bad container");
    assert_eq!(
        PicInfoError::CountryFetchError("timed out".to_string()).message(),
        "Failed to fetch country name: timed out"
    );
}
