use gallery::multipart::create::{
    create, create_with_tokens, field_role, inserted, written, CreateProjectError,
    CreateProjectRequest, CreateProjectResponse, Extraction, Rollback, Upload,
};
use gallery::multipart::delete::{delete, DeleteProjectError};
use gallery::multipart::field::{keep_descriptor, role_of, FieldRole};
use gallery::multipart::update as mupdate;
use gallery::pic_info::{CaptureTime, Degrees, GeoData, PicInfo, PicInfoError};
use gallery::project::{NewProject, Project};
use gallery::storage::StoredFile;

const PNG: [u8; 9] = [0x89, b'P', b'N', b'G', 0x0D, 0x0A, 0x1A, 0x0A, 7];
const JPEG: [u8; 4] = [0xFF, 0xD8, 0xFF, 0xE0];

fn deg(v: f64) -> Degrees {
    Degrees { bits: v.to_bits() }
}

fn place(country: &str, lat: f64, long: f64) -> GeoData {
    GeoData { country: country.to_string(), latitude: deg(lat), longitude: deg(long) }
}

fn taken(year: i32, month: u32, day: u32) -> CaptureTime {
    CaptureTime { year, month, day, hour: 10, minute: 0, second: 0 }
}

fn request(year: Option<i32>, geo_data: Option<GeoData>) -> CreateProjectRequest {
    CreateProjectRequest {
        name: "Trip".to_string(),
        description: "A trip".to_string(),
        year,
        geo_data,
    }
}

fn upload(name: &str, bytes: &[u8], date_time: Option<CaptureTime>, geo_data: Option<GeoData>) -> Upload {
    Upload {
        field_name: name.to_string(),
        bytes: bytes.to_vec(),
        extraction: Extraction::Done(PicInfo { date_time, geo_data }),
    }
}

fn tokens(n: usize) -> Vec<String> {
    (0..n).map(|i| format!("t{}", i)).collect()
}

fn row() -> Project {
    Project {
        id: 7,
        name: "Trip".to_string(),
        description: "A trip".to_string(),
        pictures: vec!["a.png".to_string(), "b.png".to_string()],
        videos: vec!["v.mp4".to_string()],
        year: 2020,
        country: "France".to_string(),
        latitude: deg(48.0),
        longitude: deg(2.0),
    }
}

#[test]
fn the_json_field_is_the_descriptor() {
    assert_eq!(role_of(Some("json")), Some(FieldRole::Descriptor));
    assert_eq!(role_of(Some("photo")), Some(FieldRole::Attachment));
    assert_eq!(role_of(Some("JSON")), Some(FieldRole::Attachment));
    assert_eq!(role_of(Some("json ")), Some(FieldRole::Attachment));
    assert_eq!(role_of(Some("")), Some(FieldRole::Attachment));
    assert_eq!(role_of(None), None);
    assert_eq!(field_role(Some("json")), Ok(FieldRole::Descriptor));
    assert_eq!(field_role(Some("pic1")), Ok(FieldRole::Attachment));
    assert_eq!(field_role(None), Err(CreateProjectError::NoFieldName));
    assert_eq!(mupdate::field_role(Some("json")), Ok(FieldRole::Descriptor));
    assert_eq!(mupdate::field_role(None), Err(mupdate::UpdateProjectError::NoFieldName));
}

#[test]
fn explicit_year_and_place_are_stored_as_given() {
    let uploads = vec![upload("a", &PNG, Some(taken(1990, 1, 1)), Some(place("Peru", -12.0, -77.0)))];
    let plan = create_with_tokens(Some(request(Some(2024), Some(place("France", 48.8566, 2.3522)))), uploads, &tokens(1)).unwrap();
    assert_eq!(
        plan.row,
        NewProject {
            name: "Trip".to_string(),
            description: "A trip".to_string(),
            pictures: vec!["t0_a.png".to_string()],
            videos: vec![],
            year: 2024,
            country: "France".to_string(),
            latitude: deg(48.8566),
            longitude: deg(2.3522),
        }
    );
    assert_eq!(f64::from_bits(plan.row.latitude.bits), 48.8566);
    assert_eq!(f64::from_bits(plan.row.longitude.bits), 2.3522);
    assert_eq!(plan.files, vec![StoredFile { name: "t0_a.png".to_string(), bytes: PNG.to_vec() }]);
}

#[test]
fn explicit_fields_need_no_files() {
    let plan = create_with_tokens(Some(request(Some(2024), Some(place("France", 1.0, 2.0)))), vec![], &vec![]).unwrap();
    assert_eq!(plan.row.year, 2024);
    assert_eq!(plan.row.country, "France");
    assert!(plan.row.pictures.is_empty());
    assert!(plan.files.is_empty());
}

#[test]
fn the_year_is_inferred_from_the_first_capture_time() {
    let uploads = vec![
        upload("dated", &PNG, Some(taken(2022, 6, 1)), None),
        upload("undated", &JPEG, None, None),
    ];
    let plan = create_with_tokens(Some(request(None, Some(place("France", 1.0, 2.0)))), uploads, &tokens(2)).unwrap();
    assert_eq!(plan.row.year, 2022);
    let uploads = vec![
        upload("undated", &JPEG, None, None),
        upload("dated", &PNG, Some(taken(2022, 6, 1)), None),
        upload("later", &PNG, Some(taken(2023, 1, 1)), None),
    ];
    let plan = create_with_tokens(Some(request(None, Some(place("France", 1.0, 2.0)))), uploads, &tokens(3)).unwrap();
    assert_eq!(plan.row.year, 2022);
    assert_eq!(plan.row.pictures, vec!["t0_undated.jpeg", "t1_dated.png", "t2_later.png"]);
}

#[test]
fn the_place_is_inferred_from_the_first_located_picture() {
    let uploads = vec![
        upload("a", &PNG, None, None),
        upload("b", &PNG, None, Some(place("Chile", -33.0, -70.0))),
        upload("c", &PNG, None, Some(place("Peru", -12.0, -77.0))),
    ];
    let plan = create_with_tokens(Some(request(Some(2000), None)), uploads, &tokens(3)).unwrap();
    assert_eq!(plan.row.country, "Chile");
    assert_eq!(plan.row.latitude, deg(-33.0));
    assert_eq!(plan.row.longitude, deg(-70.0));
}

#[test]
fn nothing_to_infer_from_is_missing_information() {
    assert_eq!(
        create_with_tokens(Some(request(None, None)), vec![], &vec![]),
        Err(CreateProjectError::MissingInformation("year".to_string()))
    );
    assert_eq!(
        create_with_tokens(Some(request(Some(2000), None)), vec![], &vec![]),
        Err(CreateProjectError::MissingInformation("geo data".to_string()))
    );
    assert_eq!(
        create_with_tokens(Some(request(None, Some(place("France", 1.0, 2.0)))), vec![], &vec![]),
        Err(CreateProjectError::MissingInformation("year".to_string()))
    );
    assert_eq!(
        create(Some(request(None, None)), vec![]),
        Err(CreateProjectError::MissingInformation("year".to_string()))
    );
}

#[test]
fn pictures_without_metadata_leave_information_missing() {
    let uploads = vec![upload("a", &PNG, None, None), upload("b", &JPEG, None, None)];
    assert_eq!(
        create_with_tokens(Some(request(None, None)), uploads, &tokens(2)),
        Err(CreateProjectError::MissingInformation("year".to_string()))
    );
}

#[test]
fn a_missing_descriptor_is_reported() {
    let uploads = vec![upload("a", &PNG, Some(taken(2022, 6, 1)), Some(place("France", 1.0, 2.0)))];
    assert_eq!(create_with_tokens(None, uploads, &tokens(1)), Err(CreateProjectError::NoJsonPart));
    assert_eq!(create(None, vec![]), Err(CreateProjectError::NoJsonPart));
}

#[test]
fn one_bad_signature_fails_the_whole_submission() {
    for n in 1..6 {
        for k in 0..n {
            let uploads: Vec<Upload> = (0..n)
                .map(|i| {
                    let bytes: &[u8] = if i == k { b"not a picture" } else { &PNG };
                    upload(&format!("f{}", i), bytes, Some(taken(2022, 6, 1)), Some(place("France", 1.0, 2.0)))
                })
                .collect();
            assert_eq!(
                create_with_tokens(Some(request(Some(2024), Some(place("France", 1.0, 2.0)))), uploads.clone(), &tokens(n)),
                Err(CreateProjectError::InvalidImageFormat)
            );
            assert_eq!(create(Some(request(None, None)), uploads), Err(CreateProjectError::InvalidImageFormat));
        }
    }
}

#[test]
fn the_first_failing_upload_decides_the_error() {
    let failed = Upload {
        field_name: "x".to_string(),
        bytes: PNG.to_vec(),
        extraction: Extraction::Failed(PicInfoError::ParseError("broken".to_string())),
    };
    let aborted = Upload { field_name: "y".to_string(), bytes: PNG.to_vec(), extraction: Extraction::Aborted };
    let bad = upload("z", b"????", None, None);
    assert_eq!(
        create_with_tokens(None, vec![failed.clone(), aborted.clone(), bad.clone()], &tokens(3)),
        Err(CreateProjectError::PicParseError(PicInfoError::ParseError("broken".to_string())))
    );
    assert_eq!(
        create_with_tokens(None, vec![aborted.clone(), failed.clone(), bad.clone()], &tokens(3)),
        Err(CreateProjectError::JoinError)
    );
    assert_eq!(
        create_with_tokens(None, vec![bad, failed, aborted], &tokens(3)),
        Err(CreateProjectError::InvalidImageFormat)
    );
}

#[test]
fn the_signature_counts_before_the_extraction() {
    let failed = Upload {
        field_name: "x".to_string(),
        bytes: b"????".to_vec(),
        extraction: Extraction::Failed(PicInfoError::CountryFetchError("down".to_string())),
    };
    let aborted =
        Upload { field_name: "y".to_string(), bytes: b"????".to_vec(), extraction: Extraction::Aborted };
    for bad in [failed, aborted] {
        assert_eq!(
            create_with_tokens(Some(request(Some(1), None)), vec![bad.clone()], &tokens(1)),
            Err(CreateProjectError::InvalidImageFormat)
        );
        let good = upload("a", &PNG, Some(taken(2022, 6, 1)), Some(place("France", 1.0, 2.0)));
        for k in 0..3 {
            let mut uploads = vec![good.clone(), good.clone()];
            uploads.insert(k, bad.clone());
            assert_eq!(
                create_with_tokens(Some(request(Some(1), Some(place("A", 1.0, 2.0)))), uploads.clone(), &tokens(3)),
                Err(CreateProjectError::InvalidImageFormat)
            );
            assert_eq!(create(None, uploads), Err(CreateProjectError::InvalidImageFormat));
        }
    }
}

fn looks_like_uuid(s: &str) -> bool {
    let c: Vec<char> = s.chars().collect();
    c.len() == 36
        && c.iter().enumerate().all(|(i, ch)| {
            if i == 8 || i == 13 || i == 18 || i == 23 {
                *ch == '-'
            } else {
                ch.is_ascii_digit() || ('a'..='f').contains(ch)
            }
        })
}

#[test]
fn create_names_files_by_fresh_uuids() {
    let uploads = vec![
        upload("beach", &PNG, Some(taken(2022, 6, 1)), Some(place("France", 1.0, 2.0))),
        upload("beach", &JPEG, None, None),
    ];
    let plan = create(Some(request(None, None)), uploads).unwrap();
    assert_eq!(plan.row.year, 2022);
    assert_eq!(plan.row.country, "France");
    assert_eq!(plan.files.len(), 2);
    assert_eq!(plan.row.pictures.len(), 2);
    assert_ne!(plan.row.pictures[0], plan.row.pictures[1]);
    let many: Vec<Upload> =
        (0..40).map(|_| upload("same", &PNG, Some(taken(2022, 6, 1)), Some(place("France", 1.0, 2.0)))).collect();
    let mut names = create(Some(request(None, None)), many).unwrap().row.pictures;
    names.sort();
    names.dedup();
    assert_eq!(names.len(), 40);
    for (i, (file, ending)) in plan.files.iter().zip(["_beach.png", "_beach.jpeg"]).enumerate() {
        assert_eq!(file.name, plan.row.pictures[i]);
        assert!(file.name.ends_with(ending));
        assert!(looks_like_uuid(&file.name[..file.name.len() - ending.len()]), "{}", file.name);
    }
    assert_eq!(plan.files[0].bytes, PNG.to_vec());
    assert_eq!(plan.files[1].bytes, JPEG.to_vec());
}

#[test]
fn the_response_reports_the_stored_row() {
    let response = CreateProjectResponse::from_row(row());
    assert_eq!(
        response,
        CreateProjectResponse { id: 7, year: 2020, country: "France".to_string(), latitude: deg(48.0), longitude: deg(2.0) }
    );
    let stored = NewProject {
        name: "n".to_string(),
        description: "d".to_string(),
        pictures: vec!["p".to_string()],
        videos: vec![],
        year: 1,
        country: "c".to_string(),
        latitude: deg(1.0),
        longitude: deg(2.0),
    }
    .with_id(11);
    assert_eq!(stored.id, 11);
    assert_eq!(stored.name, "n");
    assert_eq!(stored.pictures, vec!["p"]);
}

#[test]
fn create_errors_in_words() {
    assert_eq!(CreateProjectError::MultipartError("m".to_string()).message(), "m");
    assert_eq!(CreateProjectError::DeserializeError("d".to_string()).message(), "d");
    assert_eq!(CreateProjectError::NoFieldName.message(), "No field name supplied");
    assert_eq!(CreateProjectError::NoJsonPart.message(), "No json field supplied, use `json` as field name");
    assert_eq!(CreateProjectError::MissingInformation("year".to_string()).message(), "One of the fields is missing: year");
    assert_eq!(
        CreateProjectError::PicParseError(PicInfoError::CountryFetchError("x".to_string())).message(),
        "Error parsing metadata of one of the pictures, perhaps it is not a picture?| Error: Failed to fetch country name: x"
    );
    assert_eq!(CreateProjectError::InvalidImageFormat.message(), "Invalid image format");
    assert_eq!(CreateProjectError::DbError("e".to_string()).message(), "Db error: e");
    assert_eq!(CreateProjectError::JoinError.message(), "Unable to join worker");
}

#[test]
fn create_errors_are_server_errors() {
    let reply = CreateProjectError::InvalidImageFormat.into_response();
    assert_eq!(reply.status, 500);
    assert_eq!(reply.body, "There was a problem: Invalid image format");
    let reply = CreateProjectError::MultipartError("eof".to_string()).into_response();
    assert_eq!(reply.status, 500);
    assert_eq!(reply.body, "This one eof");
}

fn change(name: Option<&str>, description: Option<&str>, year: Option<i32>, country: Option<&str>) -> mupdate::UpdateProjectRequest {
    mupdate::UpdateProjectRequest {
        name: name.map(|s| s.to_string()),
        description: description.map(|s| s.to_string()),
        year,
        country: country.map(|s| s.to_string()),
    }
}

#[test]
fn multipart_update_changes_only_what_is_given() {
    let updated = mupdate::update(Some(row()), 7, Some(change(None, None, None, Some("Spain")))).unwrap();
    assert_eq!(updated, Project { country: "Spain".to_string(), ..row() });
    let updated = mupdate::update(Some(row()), 7, Some(change(Some("New"), Some("Newer"), Some(1999), None))).unwrap();
    assert_eq!(
        updated,
        Project { name: "New".to_string(), description: "Newer".to_string(), year: 1999, ..row() }
    );
    assert_eq!(mupdate::update(Some(row()), 7, Some(change(None, None, None, None))), Ok(row()));
}

#[test]
fn multipart_update_needs_descriptor_and_row() {
    assert_eq!(mupdate::update(Some(row()), 7, None), Err(mupdate::UpdateProjectError::NoJsonPart));
    assert_eq!(mupdate::update(None, 7, None), Err(mupdate::UpdateProjectError::NoJsonPart));
    let e = mupdate::update(None, 42, Some(change(None, None, None, None))).unwrap_err();
    assert_eq!(
        e,
        mupdate::UpdateProjectError::DbError("RecordNotFound Error: Project with id 42 not found".to_string())
    );
    assert_eq!(
        e.into_response().body,
        "There was a problem: Db error: RecordNotFound Error: Project with id 42 not found"
    );
    let e = mupdate::update(None, -3, Some(change(None, None, None, None))).unwrap_err();
    assert_eq!(e.message(), "Db error: RecordNotFound Error: Project with id -3 not found");
}

#[test]
fn multipart_update_response_reports_the_row() {
    assert_eq!(
        mupdate::UpdateProjectResponse::from_row(row()),
        mupdate::UpdateProjectResponse { id: 7, year: 2020, country: "France".to_string() }
    );
}

#[test]
fn deleting_nothing_is_not_found() {
    assert_eq!(delete(0), Err(DeleteProjectError::NotFound));
    assert_eq!(delete(1), Ok(()));
    assert_eq!(delete(u64::MAX), Ok(()));
    assert_eq!(DeleteProjectError::NotFound.message(), "Project not found");
    assert_eq!(DeleteProjectError::DbError("x".to_string()).message(), "Database error: x");
    assert_eq!(DeleteProjectError::NotFound.into_response().status, 500);
    assert_eq!(DeleteProjectError::NotFound.into_response().body, "Project not found");
}

#[test]
fn an_unfinished_write_rolls_everything_back() {
    let names = vec!["a".to_string(), "b".to_string(), "c".to_string()];
    assert_eq!(written(names.clone(), &vec![true, true, true]), Ok(names.clone()));
    assert_eq!(written(vec![], &vec![]), Ok(vec![]));
    for k in 0..3 {
        let mut outcomes = vec![true, true, true];
        outcomes[k] = false;
        assert_eq!(
            written(names.clone(), &outcomes),
            Err(Rollback { error: CreateProjectError::JoinError, remove: names.clone() })
        );
    }
}

#[test]
fn a_refused_insertion_rolls_everything_back() {
    let names = vec!["a".to_string(), "b".to_string()];
    assert_eq!(
        inserted(names.clone(), Err("unique violation".to_string())),
        Err(Rollback { error: CreateProjectError::DbError("unique violation".to_string()), remove: names.clone() })
    );
    assert_eq!(
        inserted(names, Ok(row())),
        Ok(CreateProjectResponse { id: 7, year: 2020, country: "France".to_string(), latitude: deg(48.0), longitude: deg(2.0) })
    );
}

#[test]
fn the_descriptor_is_kept_in_its_slot() {
    let mut slot: Option<CreateProjectRequest> = None;
    keep_descriptor(&mut slot, request(Some(1), None));
    assert_eq!(slot, Some(request(Some(1), None)));
}
