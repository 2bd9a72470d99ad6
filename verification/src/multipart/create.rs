//! Creating a project from one multipart submission: a JSON descriptor and
//! any number of pictures.

use crate::multipart::field::{name_view, role_of, role_spec, FieldRole};
use crate::pic_info::{
    first_capture, first_place, geo_field, geo_view, resolve_geo, resolve_geo_spec, resolve_year,
    resolve_year_spec, year_field, CaptureTime, Degrees, GeoData, GeoDataView, PicInfo,
    PicInfoError, PicInfoErrorView, PicInfoView,
};
use crate::project::{lemma_texts_push, stored, texts, NewProject, NewProjectView, Project};
use crate::reply::{joined, server_error, Reply, ReplyView};
use crate::storage::{
    bytes_to_pic_ext, file_name, file_name_spec, file_names, file_views, lemma_names_differ,
    pic_ext_of, unique_tokens, unique_uuid_texts, StoredFile, StoredFileView,
};
use crate::tokens::pairwise_distinct;
use vstd::prelude::*;
use vstd::string::*;

verus! {

/// Why a project could not be created.
#[derive(Clone, Debug, PartialEq, Eq)]
pub enum CreateProjectError {
    /// The multipart stream was malformed.
    MultipartError(String),
    /// The descriptor is not the JSON that is expected.
    DeserializeError(String),
    /// A part came without a field name.
    NoFieldName,
    /// No part was named `json`.
    NoJsonPart,
    /// A required field was neither given nor found in the pictures.
    MissingInformation(String),
    /// The metadata of a picture could not be read.
    PicParseError(PicInfoError),
    /// A file is not a PNG, JPEG or WEBP picture.
    InvalidImageFormat,
    /// The store refused.
    DbError(String),
    /// A worker did not finish.
    JoinError,
}

/// The mathematical content of a [`CreateProjectError`].
pub enum CreateProjectErrorView {
    MultipartError(Seq<char>),
    DeserializeError(Seq<char>),
    NoFieldName,
    NoJsonPart,
    MissingInformation(Seq<char>),
    PicParseError(PicInfoErrorView),
    InvalidImageFormat,
    DbError(Seq<char>),
    JoinError,
}

impl View for CreateProjectError {
    type V = CreateProjectErrorView;

    open spec fn view(&self) -> CreateProjectErrorView {
        match self {
            CreateProjectError::MultipartError(m) => CreateProjectErrorView::MultipartError(m@),
            CreateProjectError::DeserializeError(m) => CreateProjectErrorView::DeserializeError(
                m@,
            ),
            CreateProjectError::NoFieldName => CreateProjectErrorView::NoFieldName,
            CreateProjectError::NoJsonPart => CreateProjectErrorView::NoJsonPart,
            CreateProjectError::MissingInformation(f) => CreateProjectErrorView::MissingInformation(
                f@,
            ),
            CreateProjectError::PicParseError(e) => CreateProjectErrorView::PicParseError(e@),
            CreateProjectError::InvalidImageFormat => CreateProjectErrorView::InvalidImageFormat,
            CreateProjectError::DbError(m) => CreateProjectErrorView::DbError(m@),
            CreateProjectError::JoinError => CreateProjectErrorView::JoinError,
        }
    }
}

/// The descriptor of a project to create. The year and the place may be left
/// out, to be inferred from the pictures.
#[derive(Clone, Debug, PartialEq, Eq)]
pub struct CreateProjectRequest {
    pub name: String,
    pub description: String,
    pub year: Option<i32>,
    pub geo_data: Option<GeoData>,
}

/// The mathematical content of a [`CreateProjectRequest`].
pub struct CreateProjectRequestView {
    pub name: Seq<char>,
    pub description: Seq<char>,
    pub year: Option<i32>,
    pub geo_data: Option<GeoDataView>,
}

impl View for CreateProjectRequest {
    type V = CreateProjectRequestView;

    open spec fn view(&self) -> CreateProjectRequestView {
        CreateProjectRequestView {
            name: self.name@,
            description: self.description@,
            year: self.year,
            geo_data: geo_view(self.geo_data),
        }
    }
}

/// The view of an optional descriptor.
pub open spec fn request_view(request: Option<CreateProjectRequest>) -> Option<
    CreateProjectRequestView,
> {
    match request {
        Some(r) => Some(r@),
        None => None,
    }
}

/// What the client is told about the project that was created.
#[derive(Clone, Debug, PartialEq, Eq)]
pub struct CreateProjectResponse {
    pub id: i32,
    pub year: i32,
    pub country: String,
    pub latitude: Degrees,
    pub longitude: Degrees,
}

impl CreateProjectResponse {
    /// Reports the stored row back to the client.
    pub fn from_row(row: Project) -> (response: CreateProjectResponse)
        ensures
            response.id == row.id,
            response.year == row.year,
            response.country@ == row.country@,
            response.latitude == row.latitude,
            response.longitude == row.longitude,
    {
        CreateProjectResponse {
            id: row.id,
            year: row.year,
            country: row.country,
            latitude: row.latitude,
            longitude: row.longitude,
        }
    }
}

/// The role of a field of the submission. A field without a name is refused.
pub fn field_role(name: Option<&str>) -> (role: Result<FieldRole, CreateProjectError>)
    ensures
        match role_spec(name_view(name)) {
            Some(found) => role == Ok::<FieldRole, CreateProjectError>(found),
            None => role == Err::<FieldRole, CreateProjectError>(CreateProjectError::NoFieldName),
        },
{
    match role_of(name) {
        Some(found) => Ok(found),
        None => Err(CreateProjectError::NoFieldName),
    }
}

/// How the metadata extraction of one upload ended.
#[derive(Clone, Debug, PartialEq, Eq)]
pub enum Extraction {
    /// The metadata was read.
    Done(PicInfo),
    /// The extractor or the geocoder failed.
    Failed(PicInfoError),
    /// There is no outcome: the worker was not started, was cancelled or
    /// died.
    Aborted,
}

/// The mathematical content of an [`Extraction`].
pub enum ExtractionView {
    Done(PicInfoView),
    Failed(PicInfoErrorView),
    Aborted,
}

impl View for Extraction {
    type V = ExtractionView;

    open spec fn view(&self) -> ExtractionView {
        match self {
            Extraction::Done(info) => ExtractionView::Done(info@),
            Extraction::Failed(e) => ExtractionView::Failed(e@),
            Extraction::Aborted => ExtractionView::Aborted,
        }
    }
}

/// One binary part of the submission, with what its worker found.
#[derive(Clone, Debug, PartialEq, Eq)]
pub struct Upload {
    pub field_name: String,
    pub bytes: Vec<u8>,
    pub extraction: Extraction,
}

/// The mathematical content of an [`Upload`].
pub struct UploadView {
    pub field_name: Seq<char>,
    pub bytes: Seq<u8>,
    pub extraction: ExtractionView,
}

impl View for Upload {
    type V = UploadView;

    open spec fn view(&self) -> UploadView {
        UploadView {
            field_name: self.field_name@,
            bytes: self.bytes@,
            extraction: self.extraction@,
        }
    }
}

/// The views of a list of uploads.
pub open spec fn upload_views(uploads: Seq<Upload>) -> Seq<UploadView> {
    Seq::new(uploads.len(), |i: int| uploads[i]@)
}

/// What remains to be done for an accepted submission: the files to write and
/// the row to insert once they are written.
#[derive(Clone, Debug, PartialEq, Eq)]
pub struct Ingestion {
    pub files: Vec<StoredFile>,
    pub row: NewProject,
}

/// The mathematical content of an [`Ingestion`].
pub struct IngestionView {
    pub files: Seq<StoredFileView>,
    pub row: NewProjectView,
}

impl View for Ingestion {
    type V = IngestionView;

    open spec fn view(&self) -> IngestionView {
        IngestionView { files: file_views(self.files@), row: self.row@ }
    }
}

/// The view of the outcome of a submission.
pub open spec fn create_view(r: Result<Ingestion, CreateProjectError>) -> Result<
    IngestionView,
    CreateProjectErrorView,
> {
    match r {
        Ok(plan) => Ok(plan@),
        Err(e) => Err(e@),
    }
}

/// Why an upload is turned down, if it is. The signature is looked at
/// first: bytes that begin like no known picture format are an invalid image
/// format, whatever came of the extraction. For a picture, a worker that did
/// not finish and metadata that could not be read are the other two reasons.
pub open spec fn rejection(upload: UploadView) -> Option<CreateProjectErrorView> {
    if pic_ext_of(upload.bytes) is None {
        Some(CreateProjectErrorView::InvalidImageFormat)
    } else {
        match upload.extraction {
            ExtractionView::Aborted => Some(CreateProjectErrorView::JoinError),
            ExtractionView::Failed(e) => Some(CreateProjectErrorView::PicParseError(e)),
            ExtractionView::Done(_) => None,
        }
    }
}

/// The rejection of the first upload that is turned down.
pub open spec fn first_rejection(uploads: Seq<UploadView>) -> Option<CreateProjectErrorView>
    decreases uploads.len(),
{
    if uploads.len() == 0 {
        None
    } else {
        match first_rejection(uploads.drop_last()) {
            Some(e) => Some(e),
            None => rejection(uploads.last()),
        }
    }
}

/// The metadata of each upload, in order. It is meaningful for uploads whose
/// extraction is done.
pub open spec fn upload_infos(uploads: Seq<UploadView>) -> Seq<PicInfoView> {
    Seq::new(uploads.len(), |i: int| uploads[i].extraction->Done_0)
}

/// The file that an accepted upload is stored as under the unique `token`.
pub open spec fn stored_file(upload: UploadView, token: Seq<char>) -> StoredFileView {
    StoredFileView {
        name: file_name_spec(token, upload.field_name, pic_ext_of(upload.bytes)->0),
        bytes: upload.bytes,
    }
}

/// The files that accepted uploads are stored as, in order.
pub open spec fn stored_files(uploads: Seq<UploadView>, tokens: Seq<Seq<char>>) -> Seq<
    StoredFileView,
> {
    Seq::new(uploads.len(), |i: int| stored_file(uploads[i], tokens[i]))
}

/// What a submission leads to, given the unique token drawn for each upload.
///
/// The first upload that is turned down fails the submission, with an
/// invalid image format if its bytes carry no picture signature and with
/// what came of its extraction otherwise. Then the descriptor must be there. The year is the descriptor's, else that of the
/// first capture time among the pictures; the place likewise. If all that is
/// found, every upload is to be written under its generated name and the row
/// lists those names, in the order the uploads came in.
pub open spec fn create_spec(
    request: Option<CreateProjectRequestView>,
    uploads: Seq<UploadView>,
    tokens: Seq<Seq<char>>,
) -> Result<IngestionView, CreateProjectErrorView> {
    let infos = upload_infos(uploads);
    if let Some(e) = first_rejection(uploads) {
        Err(e)
    } else if request is None {
        Err(CreateProjectErrorView::NoJsonPart)
    } else if resolve_year_spec(request->0.year, first_capture(infos)) is None {
        Err(CreateProjectErrorView::MissingInformation(year_field()))
    } else if resolve_geo_spec(request->0.geo_data, first_place(infos)) is None {
        Err(CreateProjectErrorView::MissingInformation(geo_field()))
    } else {
        let geo = resolve_geo_spec(request->0.geo_data, first_place(infos))->0;
        let files = stored_files(uploads, tokens);
        Ok(
            IngestionView {
                files,
                row: NewProjectView {
                    name: request->0.name,
                    description: request->0.description,
                    pictures: file_names(files),
                    videos: Seq::empty(),
                    year: resolve_year_spec(request->0.year, first_capture(infos))->0,
                    country: geo.country,
                    latitude: geo.latitude,
                    longitude: geo.longitude,
                },
            },
        )
    }
}

/// A rejection among the first `k` uploads is the first rejection of them all.
pub proof fn lemma_first_rejection_stays(uploads: Seq<UploadView>, k: int)
    requires
        0 <= k <= uploads.len(),
        first_rejection(uploads.take(k)) is Some,
    ensures
        first_rejection(uploads) == first_rejection(uploads.take(k)),
    decreases uploads.len(),
{
    if k == uploads.len() {
        assert(uploads.take(k) == uploads);
    } else {
        assert(uploads.drop_last().take(k) == uploads.take(k));
        lemma_first_rejection_stays(uploads.drop_last(), k);
    }
}

/// Plans the creation of a project from what the submission held, with the
/// unique token to name each upload's file by.
pub fn create_with_tokens(
    request: Option<CreateProjectRequest>,
    uploads: Vec<Upload>,
    tokens: &Vec<String>,
) -> (r: Result<Ingestion, CreateProjectError>)
    requires
        tokens.len() == uploads.len(),
    ensures
        create_view(r) == create_spec(request_view(request), upload_views(uploads@), texts(tokens@)),
{
    let ghost all = upload_views(uploads@);
    let ghost marks = texts(tokens@);
    let n = uploads.len();
    let mut files: Vec<StoredFile> = Vec::new();
    let mut names: Vec<String> = Vec::new();
    let mut found_time: Option<CaptureTime> = None;
    let mut found_place: Option<GeoData> = None;
    let mut i: usize = 0;
    for upload in it: uploads
        invariant
            it.seq() == uploads@,
            all == upload_views(uploads@),
            marks == texts(tokens@),
            tokens.len() == uploads.len(),
            n == uploads.len(),
            i == it.index(),
            i <= n,
            first_rejection(all.take(i as int)) is None,
            file_views(files@) == stored_files(all.take(i as int), marks.take(i as int)),
            texts(names@) == file_names(file_views(files@)),
            found_time == first_capture(upload_infos(all.take(i as int))),
            geo_view(found_place) == first_place(upload_infos(all.take(i as int))),
    {
        proof {
            let next = all.take(i as int + 1);
            assert(next.drop_last() == all.take(i as int));
            assert(next.last() == upload@);
            assert(upload_infos(next).drop_last() == upload_infos(all.take(i as int)));
        }
        let Upload { field_name, bytes, extraction } = upload;
        let ext = match bytes_to_pic_ext(bytes.as_slice()) {
            None => {
                proof {
                    lemma_first_rejection_stays(all, i as int + 1);
                }
                return Err(CreateProjectError::InvalidImageFormat);
            },
            Some(ext) => ext,
        };
        let info = match extraction {
            Extraction::Aborted => {
                proof {
                    lemma_first_rejection_stays(all, i as int + 1);
                }
                return Err(CreateProjectError::JoinError);
            },
            Extraction::Failed(e) => {
                proof {
                    lemma_first_rejection_stays(all, i as int + 1);
                }
                return Err(CreateProjectError::PicParseError(e));
            },
            Extraction::Done(info) => info,
        };
        let name = file_name(tokens[i].as_str(), field_name.as_str(), ext);
        let ghost old_files = file_views(files@);
        let ghost old_names = texts(names@);
        proof {
            lemma_texts_push(names@, name);
        }
        names.push(name.clone());
        let file = StoredFile { name, bytes };
        files.push(file);
        proof {
            assert(file_views(files@) == old_files.push(file@));
            assert(stored_files(all.take(i as int + 1), marks.take(i as int + 1))
                == old_files.push(file@));
            assert(texts(names@) == file_names(file_views(files@)));
        }
        if found_time.is_none() {
            found_time = info.date_time;
        }
        if found_place.is_none() {
            found_place = info.geo_data;
        }
        i += 1;
    }
    proof {
        assert(all.take(n as int) == all);
        assert(marks.take(n as int) == marks);
    }
    let request = match request {
        None => { return Err(CreateProjectError::NoJsonPart); },
        Some(request) => request,
    };
    let year = match resolve_year(request.year, found_time) {
        None => { return Err(CreateProjectError::MissingInformation(String::from_str("year"))); },
        Some(year) => year,
    };
    let geo = match resolve_geo(request.geo_data, found_place) {
        None => {
            return Err(CreateProjectError::MissingInformation(String::from_str("geo data")));
        },
        Some(geo) => geo,
    };
    let videos: Vec<String> = Vec::new();
    assert(texts(videos@) == Seq::<Seq<char>>::empty());
    let plan = Ingestion {
        files,
        row: NewProject {
            name: request.name,
            description: request.description,
            pictures: names,
            videos,
            year,
            country: geo.country,
            latitude: geo.latitude,
            longitude: geo.longitude,
        },
    };
    assert(plan@.files == stored_files(all, marks));
    assert(plan@.row.pictures == file_names(plan@.files));
    assert(plan@.row.videos == Seq::<Seq<char>>::empty());
    Ok(plan)
}

/// Plans the creation of a project from what the submission held. Each
/// upload's file is named by a freshly drawn UUID, no two by the same; apart
/// from that choice the outcome is the one `create_spec` gives. The picture
/// references of the row are therefore pairwise distinct.
pub fn create(request: Option<CreateProjectRequest>, uploads: Vec<Upload>) -> (r: Result<
    Ingestion,
    CreateProjectError,
>)
    ensures
        exists|tokens: Seq<Seq<char>>|
            tokens.len() == uploads.len() && unique_uuid_texts(tokens) && #[trigger] create_spec(
                request_view(request),
                upload_views(uploads@),
                tokens,
            ) == create_view(r),
        r matches Ok(plan) ==> pairwise_distinct(texts(plan.row.pictures@)),
{
    let tokens = unique_tokens(uploads.len());
    proof {
        lemma_pictures_differ(request_view(request), upload_views(uploads@), texts(tokens@));
    }
    create_with_tokens(request, uploads, &tokens)
}

/// Where the tokens are UUIDs of which no two are the same, no two picture
/// references of the row are the same.
pub proof fn lemma_pictures_differ(
    request: Option<CreateProjectRequestView>,
    uploads: Seq<UploadView>,
    tokens: Seq<Seq<char>>,
)
    requires
        tokens.len() == uploads.len(),
        unique_uuid_texts(tokens),
    ensures
        create_spec(request, uploads, tokens) matches Ok(plan) ==> pairwise_distinct(
            plan.row.pictures,
        ),
{
    if let Ok(plan) = create_spec(request, uploads, tokens) {
        assert forall|i: int, j: int| 0 <= i < j < plan.row.pictures.len() implies plan.row.pictures[i]
            != plan.row.pictures[j] by {
            lemma_names_differ(
                tokens[i],
                tokens[j],
                uploads[i].field_name,
                uploads[j].field_name,
                pic_ext_of(uploads[i].bytes)->0,
                pic_ext_of(uploads[j].bytes)->0,
            );
        }
    }
}

/// An upload that is turned down fails the whole list.
pub proof fn lemma_rejection_found(uploads: Seq<UploadView>, k: int)
    requires
        0 <= k < uploads.len(),
        rejection(uploads[k]) is Some,
    ensures
        first_rejection(uploads) is Some,
    decreases uploads.len(),
{
    if k < uploads.len() - 1 {
        lemma_rejection_found(uploads.drop_last(), k);
    }
}

/// A submission in which any one file carries the signature of no known
/// picture format fails, however many files it holds and wherever that file
/// stands among them.
pub proof fn lemma_bad_signature_fails(
    request: Option<CreateProjectRequestView>,
    uploads: Seq<UploadView>,
    tokens: Seq<Seq<char>>,
    k: int,
)
    requires
        0 <= k < uploads.len(),
        pic_ext_of(uploads[k].bytes) is None,
    ensures
        create_spec(request, uploads, tokens) is Err,
{
    lemma_rejection_found(uploads, k);
}

/// A file without a picture signature among files that are accepted fails
/// the submission as an invalid image format, whatever came of its
/// extraction, whatever the descriptor says, and wherever the file stands.
pub proof fn lemma_bad_signature_is_reported(
    request: Option<CreateProjectRequestView>,
    uploads: Seq<UploadView>,
    tokens: Seq<Seq<char>>,
    k: int,
)
    requires
        0 <= k < uploads.len(),
        pic_ext_of(uploads[k].bytes) is None,
        forall|j: int| 0 <= j < k ==> rejection(#[trigger] uploads[j]) is None,
    ensures
        create_spec(request, uploads, tokens) == Err::<IngestionView, CreateProjectErrorView>(
            CreateProjectErrorView::InvalidImageFormat,
        ),
{
    lemma_first_rejection_at(uploads, k);
}

/// A descriptor that states the year and the place has them stored as
/// stated, whatever the pictures say and whatever identifier the store
/// assigns.
pub proof fn lemma_explicit_fields_stored(
    request: CreateProjectRequestView,
    uploads: Seq<UploadView>,
    tokens: Seq<Seq<char>>,
    id: i32,
)
    requires
        request.year is Some,
        request.geo_data is Some,
        first_rejection(uploads) is None,
    ensures
        create_spec(Some(request), uploads, tokens) matches Ok(plan) && ({
            let row = stored(id, plan.row);
            &&& row.year == request.year->0
            &&& row.country == request.geo_data->0.country
            &&& row.latitude == request.geo_data->0.latitude
            &&& row.longitude == request.geo_data->0.longitude
        }),
{
}

/// Without a year in the descriptor, the year stored is that of the first
/// picture that carries a capture time.
pub proof fn lemma_year_inferred(
    request: CreateProjectRequestView,
    uploads: Seq<UploadView>,
    tokens: Seq<Seq<char>>,
    k: int,
)
    requires
        request.year is None,
        first_rejection(uploads) is None,
        0 <= k < uploads.len(),
        upload_infos(uploads)[k].date_time is Some,
        forall|j: int| 0 <= j < k ==> upload_infos(uploads)[j].date_time is None,
        resolve_geo_spec(request.geo_data, first_place(upload_infos(uploads))) is Some,
    ensures
        create_spec(Some(request), uploads, tokens) matches Ok(plan) && plan.row.year
            == upload_infos(uploads)[k].date_time->0.year,
{
    crate::pic_info::lemma_first_capture_at(upload_infos(uploads), k);
}

/// With no file to infer from, a descriptor that leaves out the year or the
/// place is refused for missing information.
pub proof fn lemma_nothing_to_infer_from(request: CreateProjectRequestView, tokens: Seq<Seq<char>>)
    requires
        request.year is None || request.geo_data is None,
    ensures
        create_spec(Some(request), Seq::empty(), tokens) matches Err(e) && e
            is MissingInformation,
{
    assert(upload_infos(Seq::<UploadView>::empty()).len() == 0);
}

impl CreateProjectErrorView {
    /// The error in words.
    pub open spec fn message(self) -> Seq<char> {
        match self {
            CreateProjectErrorView::MultipartError(m) => m,
            CreateProjectErrorView::DeserializeError(m) => m,
            CreateProjectErrorView::NoFieldName => "No field name supplied"@,
            CreateProjectErrorView::NoJsonPart => "No json field supplied, use `json` as field name"@,
            CreateProjectErrorView::MissingInformation(f) => "One of the fields is missing: "@ + f,
            CreateProjectErrorView::PicParseError(e) =>
                "Error parsing metadata of one of the pictures, perhaps it is not a picture?| Error: "@
                    + e.message(),
            CreateProjectErrorView::InvalidImageFormat => "Invalid image format"@,
            CreateProjectErrorView::DbError(m) => "Db error: "@ + m,
            CreateProjectErrorView::JoinError => "Unable to join worker"@,
        }
    }

    /// What the client is sent: always a server error, with the error in
    /// words.
    pub open spec fn reply(self) -> ReplyView {
        ReplyView {
            status: 500,
            body: match self {
                CreateProjectErrorView::MultipartError(m) => "This one "@ + m,
                _ => "There was a problem: "@ + self.message(),
            },
        }
    }
}

impl CreateProjectError {
    /// The error in words.
    pub fn message(&self) -> (m: String)
        ensures
            m@ == self@.message(),
    {
        match self {
            CreateProjectError::MultipartError(m) => m.clone(),
            CreateProjectError::DeserializeError(m) => m.clone(),
            CreateProjectError::NoFieldName => "No field name supplied".to_string(),
            CreateProjectError::NoJsonPart => "No json field supplied, use `json` as field name".to_string(),
            CreateProjectError::MissingInformation(f) => joined(
                "One of the fields is missing: ",
                f.as_str(),
            ),
            CreateProjectError::PicParseError(e) => joined(
                "Error parsing metadata of one of the pictures, perhaps it is not a picture?| Error: ",
                e.message().as_str(),
            ),
            CreateProjectError::InvalidImageFormat => "Invalid image format".to_string(),
            CreateProjectError::DbError(m) => joined("Db error: ", m.as_str()),
            CreateProjectError::JoinError => "Unable to join worker".to_string(),
        }
    }

    /// What the client is sent for this error.
    pub fn into_response(&self) -> (reply: Reply)
        ensures
            reply@ == self@.reply(),
    {
        match self {
            CreateProjectError::MultipartError(m) => server_error("This one ", m.as_str()),
            _ => server_error("There was a problem: ", self.message().as_str()),
        }
    }
}

/// What is to be undone and reported when a submission fails after its files
/// were handed to storage.
#[derive(Clone, Debug, PartialEq, Eq)]
pub struct Rollback {
    pub error: CreateProjectError,
    /// The names of the files to remove from storage again.
    pub remove: Vec<String>,
}

/// Whether every write came to an end.
pub open spec fn all_written(outcomes: Seq<bool>) -> bool {
    forall|i: int| 0 <= i < outcomes.len() ==> outcomes[i]
}

/// Looks at how the writes of a submission's files ended, each `true` for
/// a write that was completed. If one was not, the submission fails as for a
/// worker that did not finish, and all its files are to be removed again.
/// Otherwise the row may be inserted.
pub fn written(names: Vec<String>, outcomes: &Vec<bool>) -> (r: Result<Vec<String>, Rollback>)
    ensures
        match r {
            Ok(kept) => all_written(outcomes@) && texts(kept@) == texts(names@),
            Err(rollback) => !all_written(outcomes@) && rollback.error@
                == CreateProjectErrorView::JoinError && texts(rollback.remove@) == texts(names@),
        },
{
    let mut i: usize = 0;
    while i < outcomes.len()
        invariant
            i <= outcomes.len(),
            forall|j: int| 0 <= j < i ==> outcomes@[j],
        decreases outcomes.len() - i,
    {
        if !outcomes[i] {
            return Err(Rollback { error: CreateProjectError::JoinError, remove: names });
        }
        i += 1;
    }
    Ok(names)
}

/// Concludes a submission once the store has answered the insertion: the
/// stored row is reported to the client, or the store's refusal is, and then
/// the files of the submission are to be removed again.
pub fn inserted(names: Vec<String>, outcome: Result<Project, String>) -> (r: Result<
    CreateProjectResponse,
    Rollback,
>)
    ensures
        match outcome {
            Ok(row) => r matches Ok(response) && response.id == row.id && response.year
                == row.year && response.country@ == row.country@ && response.latitude
                == row.latitude && response.longitude == row.longitude,
            Err(message) => r matches Err(rollback) && rollback.error@
                == CreateProjectErrorView::DbError(message@) && texts(rollback.remove@) == texts(
                names@,
            ),
        },
{
    match outcome {
        Ok(row) => Ok(CreateProjectResponse::from_row(row)),
        Err(message) => Err(Rollback { error: CreateProjectError::DbError(message), remove: names }),
    }
}

/// `first_rejection` is the rejection of the earliest upload that is turned
/// down: if upload `k` is turned down and none before it is, its rejection
/// is the one reported.
pub proof fn lemma_first_rejection_at(uploads: Seq<UploadView>, k: int)
    requires
        0 <= k < uploads.len(),
        rejection(uploads[k]) is Some,
        forall|j: int| 0 <= j < k ==> rejection(#[trigger] uploads[j]) is None,
    ensures
        first_rejection(uploads) == rejection(uploads[k]),
    decreases uploads.len(),
{
    if k == uploads.len() - 1 {
        lemma_no_rejection(uploads.drop_last());
    } else {
        lemma_first_rejection_at(uploads.drop_last(), k);
    }
}

/// Where no upload is turned down, there is no first rejection.
pub proof fn lemma_no_rejection(uploads: Seq<UploadView>)
    requires
        forall|j: int| 0 <= j < uploads.len() ==> rejection(#[trigger] uploads[j]) is None,
    ensures
        first_rejection(uploads) is None,
    decreases uploads.len(),
{
    if uploads.len() > 0 {
        assert forall|j: int| 0 <= j < uploads.drop_last().len() implies rejection(
            #[trigger] uploads.drop_last()[j],
        ) is None by {
            assert(uploads.drop_last()[j] == uploads[j]);
        }
        lemma_no_rejection(uploads.drop_last());
        assert(rejection(uploads[uploads.len() - 1]) is None);
    }
}

/// The row of an accepted submission refers to exactly the files that are
/// to be written for it: one per upload, in the order of the uploads, each
/// picture reference being the name of the file at the same place.
pub proof fn lemma_pictures_are_the_files(
    request: Option<CreateProjectRequestView>,
    uploads: Seq<UploadView>,
    tokens: Seq<Seq<char>>,
)
    ensures
        create_spec(request, uploads, tokens) matches Ok(plan) ==> plan.files.len()
            == uploads.len() && plan.row.pictures.len() == uploads.len() && forall|i: int|
            0 <= i < uploads.len() ==> #[trigger] plan.row.pictures[i] == plan.files[i].name
                && plan.files[i].bytes == uploads[i].bytes,
{
}

} // verus!
