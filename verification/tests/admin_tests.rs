use gallery::access::{
    allowed_file_ext, ends_with, filter_extension, filter_file_ext, get_ports, Ports,
};
use gallery::admin::{
    auth, is_admin, may_register, new_admin, Access, AddUserReqBody, Answer, AuthReq, Bearer,
    JwtClaims, secret_key, SECRET_KEY_LENGTH, VALID_FOR,
};
use gallery::countries::{read_countries, validate_country_by_code, validate_country_by_name, Country};

#[test]
fn tokens_last_a_day() {
    assert_eq!(VALID_FOR, 60 * 60 * 24);
    assert_eq!(JwtClaims::issued_at(0), Some(JwtClaims { exp: 86400 }));
    assert_eq!(JwtClaims::issued_at(1_700_000_000), Some(JwtClaims { exp: 1_700_086_400 }));
    assert_eq!(JwtClaims::issued_at(-86400), Some(JwtClaims { exp: 0 }));
    assert_eq!(JwtClaims::issued_at(-86401), None);
    assert_eq!(
        JwtClaims::issued_at(i64::MAX).map(|c| c.exp as u128),
        Some(i64::MAX as u128 + 86400).filter(|e| *e <= usize::MAX as u128)
    );
}

#[test]
fn tokens_are_current_until_they_expire() {
    let claims = JwtClaims { exp: 1000 };
    assert!(claims.is_current(999));
    assert!(claims.is_current(1000));
    assert!(!claims.is_current(1001));
    assert!(claims.is_current(-5));
    assert!(JwtClaims { exp: 0 }.is_current(0));
    assert!(!JwtClaims { exp: 0 }.is_current(1));
}

#[test]
fn the_guard_wants_a_current_token() {
    let good = Bearer::Claims(JwtClaims { exp: 2000 });
    let stale = Bearer::Claims(JwtClaims { exp: 500 });
    for development in [true, false] {
        assert_eq!(is_admin(development, good, 1000), Access::Pass);
        assert_eq!(is_admin(development, stale, 1000), Access::Unauthorized);
        assert_eq!(is_admin(development, Bearer::Undecodable, 1000), Access::Unauthorized);
    }
    assert_eq!(is_admin(false, Bearer::Missing, 1000), Access::Unauthorized);
    assert_eq!(is_admin(true, Bearer::Missing, 1000), Access::Pass);
}

#[test]
fn signing_in_needs_exactly_one_match() {
    let token = || Some("abc".to_string());
    assert_eq!(auth(Some(1), token()), Answer { status: 200, authorization: Some("Bearer abc".to_string()) });
    assert_eq!(auth(Some(0), token()), Answer { status: 418, authorization: None });
    assert_eq!(auth(Some(2), token()), Answer { status: 418, authorization: None });
    assert_eq!(auth(None, token()), Answer { status: 500, authorization: None });
    assert_eq!(auth(Some(1), None), Answer { status: 500, authorization: None });
    assert_eq!(auth(Some(0), None), Answer { status: 418, authorization: None });
}

#[test]
fn registering_needs_a_free_address() {
    assert_eq!(may_register(Some(true)), Err(Answer { status: 409, authorization: None }));
    assert_eq!(may_register(Some(false)), Ok(()));
    assert_eq!(may_register(None), Ok(()));
    assert_eq!(new_admin(true, "abc"), Answer { status: 201, authorization: Some("Bearer abc".to_string()) });
    assert_eq!(new_admin(false, "abc"), Answer { status: 500, authorization: None });
}

#[test]
fn request_bodies_hold_their_fields() {
    let a = AuthReq { email: "e".to_string(), password: "p".to_string() };
    assert_eq!(a.clone(), a);
    let b = AddUserReqBody { name: None, last_name: Some("l".to_string()), email: "e".to_string(), password: "p".to_string() };
    assert_eq!(b.last_name.as_deref(), Some("l"));
}

#[test]
fn endings_are_compared_by_characters() {
    let text: Vec<char> = "photo.jpég".chars().collect();
    assert!(ends_with(&text, "jpég"));
    assert!(ends_with(&text, ""));
    assert!(ends_with(&text, "photo.jpég"));
    assert!(!ends_with(&text, "xphoto.jpég"));
    assert!(!ends_with(&text, "jpeg"));
}

#[test]
fn storage_serves_pictures_and_page_assets() {
    for path in ["/a.jpg", "/a.jpeg", "/x/y.png", "/p.heic", "/index.html", "/s.css", "/m.js", "js", "/nojs"] {
        assert!(filter_file_ext(path), "{}", path);
    }
    for path in ["/a.gif", "/a.JPG", "/a.png/", "/video.mp4", "", "/a.jp"] {
        assert!(!filter_file_ext(path), "{}", path);
    }
}

#[test]
fn visitors_get_assets_by_extension() {
    for path in ["/a.css", "/a.js", "/a.jpg", "/x/y.jpeg", "/p.png", ".png"] {
        assert!(filter_extension(path), "{}", path);
    }
    for path in ["/index.html", "/a.heic", "/nojs", "png", "/a.PNG", "", "/a.png?x"] {
        assert!(!filter_extension(path), "{}", path);
    }
}

#[test]
fn ports_depend_on_the_build() {
    assert_eq!(get_ports(true), Ports { http: 3000, https: 8000 });
    assert_eq!(get_ports(false), Ports { http: 80, https: 443 });
}

fn country(name: &str, code: &str) -> Country {
    Country { name: name.to_string(), code: code.to_string() }
}

#[test]
fn the_country_table_is_read_from_csv() {
    let csv = "name,alpha2,alpha3,numeric\nFrance,FR,FRA,250\nPeru,PE,PER,604";
    assert_eq!(read_countries(csv), Some(vec![country("France", "FRA"), country("Peru", "PER")]));
    assert_eq!(read_countries("heading only"), Some(vec![]));
    assert_eq!(read_countries(""), Some(vec![]));
    assert_eq!(read_countries("h\n,,"), Some(vec![country("", "")]));
}

#[test]
fn short_lines_spoil_the_table() {
    assert_eq!(read_countries("name,a,b\nFrance,FR"), None);
    assert_eq!(read_countries("name,a,b\nFrance,FR,FRA\n"), None);
    assert_eq!(read_countries("name,a,b\n\nFrance,FR,FRA"), None);
}

#[test]
fn countries_are_found_by_name_and_code() {
    let table = vec![country("France", "FRA"), country("Peru", "PER")];
    assert!(validate_country_by_name(&table, "France"));
    assert!(validate_country_by_name(&table, "Peru"));
    assert!(!validate_country_by_name(&table, "france"));
    assert!(!validate_country_by_name(&table, "FRA"));
    assert!(!validate_country_by_name(&vec![], "France"));
    assert!(validate_country_by_code(&table, "PER"));
    assert!(!validate_country_by_code(&table, "Peru"));
    assert!(!validate_country_by_code(&table, ""));
}

#[test]
fn the_secret_is_thirty_two_letters_and_digits() {
    assert_eq!(SECRET_KEY_LENGTH, 32);
    let a = secret_key();
    let b = secret_key();
    for key in [&a, &b] {
        assert_eq!(key.chars().count(), 32);
        assert!(key.chars().all(|c| c.is_ascii_alphanumeric()), "{}", key);
    }
    assert_ne!(a, b);
}

#[test]
fn every_allowed_ending_is_served() {
    let endings = allowed_file_ext();
    assert_eq!(endings, vec!["jpg", "jpeg", "png", "heic", "html", "css", "js"]);
    for ending in endings {
        assert!(filter_file_ext(&format!("/some/file.{}", ending)));
    }
}
