use gallery::visitor::{
    canonical_token, create, create_with_token, page, sweep, validate_visitor,
    validate_visitor_cookie, CookieAccess, CreateInfo, CreateResponse, InvalidVisitorUuid,
    PageAnswer, Timestamp, ValidVisitorUuid, VisitorCredential, SWEEP_INTERVAL_SECS,
    VISITOR_UUID_COOKIE_NAME,
};

fn at(seconds: i64, nanos: u32) -> Timestamp {
    Timestamp { seconds, nanos }
}

fn credential(uuid: &str, time_out: Option<Timestamp>) -> VisitorCredential {
    VisitorCredential { uuid: uuid.to_string(), time_out }
}

const TOKEN: &str = "123e4567-e89b-42d3-a456-426614174000";

#[test]
fn timestamps_are_ordered_by_seconds_then_nanos() {
    assert!(at(1, 0).is_before(&at(2, 0)));
    assert!(at(1, 999).is_before(&at(2, 0)));
    assert!(at(1, 5).is_before(&at(1, 6)));
    assert!(!at(1, 5).is_before(&at(1, 5)));
    assert!(!at(2, 0).is_before(&at(1, 999)));
    assert!(at(-1, 0).is_before(&at(0, 0)));
}

#[test]
fn plus_seconds_adds_or_gives_up() {
    assert_eq!(at(100, 7).plus_seconds(0), Some(at(100, 7)));
    assert_eq!(at(100, 7).plus_seconds(3600), Some(at(3700, 7)));
    assert_eq!(at(-5, 0).plus_seconds(5), Some(at(0, 0)));
    assert_eq!(at(0, 0).plus_seconds(i64::MAX as u64), Some(at(i64::MAX, 0)));
    assert_eq!(at(1, 0).plus_seconds(i64::MAX as u64), None);
    assert_eq!(at(0, 0).plus_seconds(u64::MAX), None);
    assert_eq!(at(-10, 3).plus_seconds(i64::MAX as u64 + 10), Some(at(i64::MAX, 3)));
    assert_eq!(at(i64::MIN, 0).plus_seconds(u64::MAX), Some(at(i64::MAX, 0)));
}

#[test]
fn now_is_the_present() {
    let before = chrono::Local::now().naive_local().and_utc().timestamp();
    let now = Timestamp::now();
    let after = chrono::Local::now().naive_local().and_utc().timestamp();
    assert!(before <= now.seconds && now.seconds <= after);
    assert!(now.seconds > 1_600_000_000);
}

#[test]
fn issuing_sets_the_expiry() {
    let some = CreateInfo { valid_for_sec: Some(60) };
    assert_eq!(create_with_token(TOKEN.to_string(), &some, at(1000, 5)), credential(TOKEN, Some(at(1060, 5))));
    let zero = CreateInfo { valid_for_sec: Some(0) };
    assert_eq!(create_with_token(TOKEN.to_string(), &zero, at(1000, 5)), credential(TOKEN, Some(at(1000, 5))));
    let none = CreateInfo { valid_for_sec: None };
    assert_eq!(create_with_token(TOKEN.to_string(), &none, at(1000, 5)), credential(TOKEN, None));
}

fn looks_like_uuid(s: &str) -> bool {
    let c: Vec<char> = s.chars().collect();
    c.len() == 36
        && c.iter().enumerate().all(|(i, ch)| {
            if i == 8 || i == 13 || i == 18 || i == 23 {
                *ch == '-'
            } else {
                ch.is_ascii_digit() || ('a'..='f').contains(ch)
            }
        })
}

#[test]
fn create_draws_a_fresh_uuid() {
    let info = CreateInfo { valid_for_sec: Some(30) };
    let a = create(&info, at(1000, 0)).unwrap();
    let b = create(&info, at(1000, 0)).unwrap();
    assert!(looks_like_uuid(&a.uuid), "{}", a.uuid);
    assert!(looks_like_uuid(&b.uuid), "{}", b.uuid);
    assert_ne!(a.uuid, b.uuid);
    assert_eq!(a.time_out, Some(at(1030, 0)));
    assert_eq!(uuid::Uuid::parse_str(&a.uuid).unwrap().get_version_num(), 4);
    assert_eq!(create(&CreateInfo { valid_for_sec: None }, at(1000, 0)).unwrap().time_out, None);
}

#[test]
fn create_refuses_an_expiry_beyond_reach() {
    assert_eq!(create(&CreateInfo { valid_for_sec: Some(u64::MAX) }, at(1000, 0)), None);
    assert_eq!(create(&CreateInfo { valid_for_sec: Some(1) }, at(i64::MAX, 0)), None);
    assert!(create(&CreateInfo { valid_for_sec: Some(0) }, at(i64::MAX, 0)).is_some());
}

#[test]
fn the_response_reports_the_credential() {
    assert_eq!(
        CreateResponse::from_row(credential(TOKEN, Some(at(5, 6)))),
        CreateResponse { uuid: TOKEN.to_string(), valid_till: Some(at(5, 6)) }
    );
}

#[test]
fn zero_validity_is_refused_after_any_delay() {
    let issued = at(1000, 500);
    let row = create_with_token(TOKEN.to_string(), &CreateInfo { valid_for_sec: Some(0) }, issued);
    let rows = vec![credential("other", None), row];
    for later in [at(1000, 501), at(1001, 0), at(1_000_000, 0), at(i64::MAX, 0)] {
        assert!(!validate_visitor(&rows, TOKEN, later));
    }
    assert!(!validate_visitor(&rows, TOKEN, issued));
}

#[test]
fn no_validity_is_accepted_forever() {
    let row = create_with_token(TOKEN.to_string(), &CreateInfo { valid_for_sec: None }, at(1000, 0));
    let rows = vec![credential("other", Some(at(0, 0))), row];
    for now in [at(i64::MIN, 0), at(0, 0), at(1000, 0), at(1000, 1), at(i64::MAX, u32::MAX)] {
        assert!(validate_visitor(&rows, TOKEN, now));
    }
}

#[test]
fn a_credential_is_valid_until_its_expiry() {
    let rows = vec![credential(TOKEN, Some(at(2000, 10)))];
    assert!(validate_visitor(&rows, TOKEN, at(1999, 0)));
    assert!(validate_visitor(&rows, TOKEN, at(2000, 9)));
    assert!(!validate_visitor(&rows, TOKEN, at(2000, 10)));
    assert!(!validate_visitor(&rows, TOKEN, at(2000, 11)));
    assert!(!validate_visitor(&rows, TOKEN, at(2001, 0)));
}

#[test]
fn unknown_and_duplicate_tokens_are_refused() {
    let rows = vec![
        credential("a", None),
        credential("b", Some(at(5000, 0))),
        credential("a", Some(at(5000, 0))),
        credential("c", Some(at(100, 0))),
        credential("c", None),
    ];
    let now = at(1000, 0);
    assert!(!validate_visitor(&rows, "zzz", now));
    assert!(!validate_visitor(&rows, "", now));
    assert!(!validate_visitor(&vec![], "a", now));
    assert!(!validate_visitor(&rows, "a", now));
    assert!(validate_visitor(&rows, "b", now));
    assert!(validate_visitor(&rows, "c", now));
    assert!(validate_visitor(&rows, "a", at(6000, 0)));
}

#[test]
fn sweep_removes_what_has_expired() {
    let rows = vec![
        credential("a", None),
        credential("b", Some(at(999, 0))),
        credential("c", Some(at(1000, 0))),
        credential("d", Some(at(1000, 1))),
        credential("e", Some(at(2000, 0))),
        credential("f", Some(at(-5, 0))),
    ];
    let s = sweep(rows, at(1000, 0));
    assert_eq!(s.removed, vec!["b", "c", "f"]);
    assert_eq!(
        s.kept,
        vec![credential("a", None), credential("d", Some(at(1000, 1))), credential("e", Some(at(2000, 0)))]
    );
}

#[test]
fn a_second_sweep_removes_nothing() {
    let rows = vec![
        credential("a", None),
        credential("b", Some(at(999, 0))),
        credential("c", Some(at(1000, 0))),
        credential("d", Some(at(1500, 0))),
    ];
    let now = at(1000, 0);
    let first = sweep(rows, now);
    assert_eq!(first.removed.len(), 2);
    let second = sweep(first.kept.clone(), now);
    assert_eq!(second.removed.len(), 0);
    assert_eq!(second.kept, first.kept);
    let third = sweep(second.kept.clone(), at(1499, 999_999_999));
    assert!(third.removed.is_empty());
    assert_eq!(third.kept, first.kept);
    let empty = sweep(vec![], now);
    assert!(empty.kept.is_empty() && empty.removed.is_empty());
}

#[test]
fn what_a_sweep_removes_would_not_validate() {
    let rows = vec![credential("a", Some(at(10, 0))), credential("b", Some(at(20, 0)))];
    let now = at(15, 0);
    let s = sweep(rows.clone(), now);
    for token in &s.removed {
        assert!(!validate_visitor(&rows, token, now));
    }
    for row in &s.kept {
        assert!(validate_visitor(&rows, &row.uuid, now));
    }
}

#[test]
fn the_path_token_is_matched_in_canonical_form() {
    let rows = vec![credential(TOKEN, None)];
    let now = at(0, 0);
    for segment in [
        TOKEN,
        "123E4567-E89B-42D3-A456-426614174000",
        "123e4567e89b42d3a456426614174000",
        "{123e4567-e89b-42d3-a456-426614174000}",
        "urn:uuid:123e4567-e89b-42d3-a456-426614174000",
    ] {
        assert_eq!(ValidVisitorUuid::from_path(segment, &rows, now), Ok(ValidVisitorUuid(TOKEN.to_string())));
    }
}

#[test]
fn bad_path_tokens_are_refused() {
    let rows = vec![credential(TOKEN, None), credential("not-a-uuid", None)];
    let now = at(0, 0);
    assert_eq!(ValidVisitorUuid::from_path("not-a-uuid", &rows, now), Err(InvalidVisitorUuid));
    assert_eq!(ValidVisitorUuid::from_path("", &rows, now), Err(InvalidVisitorUuid));
    assert_eq!(
        ValidVisitorUuid::from_path("00000000-0000-4000-8000-000000000000", &rows, now),
        Err(InvalidVisitorUuid)
    );
    let expired = vec![credential(TOKEN, Some(at(0, 0)))];
    assert_eq!(ValidVisitorUuid::from_path(TOKEN, &expired, at(1, 0)), Err(InvalidVisitorUuid));
    assert_eq!(InvalidVisitorUuid.message(), "Contact big boss to get proper link");
}

#[test]
fn tokens_have_one_canonical_form() {
    assert_eq!(canonical_token("123E4567E89B42D3A456426614174000"), Some(TOKEN.to_string()));
    assert_eq!(canonical_token(TOKEN), Some(TOKEN.to_string()));
    assert_eq!(canonical_token("123e4567-e89b-42d3-a456-42661417400"), None);
    assert_eq!(canonical_token("g23e4567-e89b-42d3-a456-426614174000"), None);
    assert_eq!(canonical_token(""), None);
}

#[test]
fn the_cookie_decides_on_access() {
    let rows = vec![credential(TOKEN, Some(at(100, 0)))];
    assert_eq!(VISITOR_UUID_COOKIE_NAME, "visitor-uuid");
    assert_eq!(SWEEP_INTERVAL_SECS, 30);
    assert_eq!(validate_visitor_cookie(None, Some(&rows), at(0, 0)), CookieAccess::NoCookie);
    assert_eq!(validate_visitor_cookie(None, None, at(0, 0)), CookieAccess::NoCookie);
    assert_eq!(validate_visitor_cookie(Some(TOKEN), Some(&rows), at(0, 0)), CookieAccess::Pass);
    assert_eq!(validate_visitor_cookie(Some(TOKEN), Some(&rows), at(100, 0)), CookieAccess::Unauthorized);
    assert_eq!(validate_visitor_cookie(Some("x"), Some(&rows), at(0, 0)), CookieAccess::Unauthorized);
    assert_eq!(validate_visitor_cookie(Some(TOKEN), None, at(0, 0)), CookieAccess::Unauthorized);
}

#[test]
fn the_page_goes_to_valid_visitors() {
    let doc = || Some("<html>".to_string());
    assert_eq!(page(true, doc()), PageAnswer { status: 200, set_cookie: true, page: doc() });
    assert_eq!(page(true, None), PageAnswer { status: 500, set_cookie: false, page: None });
    assert_eq!(page(false, doc()), PageAnswer { status: 401, set_cookie: false, page: None });
    assert_eq!(page(false, None), PageAnswer { status: 401, set_cookie: false, page: None });
}
