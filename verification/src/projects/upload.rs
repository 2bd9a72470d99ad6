//! Uploading pictures and videos ahead of the project that will refer to
//! them.

use crate::project::{lemma_texts_push, texts};
use crate::reply::{Reply, ReplyView};
use crate::storage::{
    bytes_to_pic_ext, bytes_to_video_ext, file_name, file_name_spec, file_names, file_views,
    lemma_names_differ, unique_uuid_texts,
    pic_ext_of, storage_path, storage_path_spec, unique_tokens, video_ext_of, SaveError,
    SaveErrorView, StoredFile, StoredFileView,
};
use crate::text::{same_text, underscored, underscored_spec};
use crate::tokens::{fresh_token, pairwise_distinct};
use vstd::prelude::*;
use vstd::string::*;

verus! {

/// The names under which the uploaded files were stored.
#[derive(Clone, Debug, PartialEq, Eq)]
pub struct UploadResponse {
    pub file_ids: Vec<String>,
}

/// Why an upload failed.
#[derive(Clone, Debug, PartialEq, Eq)]
pub enum UploadError {
    /// The multipart stream was malformed.
    MultipartError(String),
    /// The file's signature is that of no known format.
    UnknownExtension,
    /// A file could not be written to storage.
    ErrorSavingFile(SaveError),
    /// The file is a video, but of a kind that is not converted.
    InvalidFileType,
    /// The video could not be converted.
    ConversionFailed,
}

/// The mathematical content of an [`UploadError`].
pub enum UploadErrorView {
    MultipartError(Seq<char>),
    UnknownExtension,
    ErrorSavingFile(SaveErrorView),
    InvalidFileType,
    ConversionFailed,
}

impl View for UploadError {
    type V = UploadErrorView;

    open spec fn view(&self) -> UploadErrorView {
        match self {
            UploadError::MultipartError(m) => UploadErrorView::MultipartError(m@),
            UploadError::UnknownExtension => UploadErrorView::UnknownExtension,
            UploadError::ErrorSavingFile(e) => UploadErrorView::ErrorSavingFile(e@),
            UploadError::InvalidFileType => UploadErrorView::InvalidFileType,
            UploadError::ConversionFailed => UploadErrorView::ConversionFailed,
        }
    }
}

/// One part of an upload: the file name the client gave, if any, and the
/// file's content.
#[derive(Clone, Debug, PartialEq, Eq)]
pub struct UploadField {
    pub file_name: Option<String>,
    pub bytes: Vec<u8>,
}

/// The mathematical content of an [`UploadField`].
pub struct UploadFieldView {
    pub file_name: Option<Seq<char>>,
    pub bytes: Seq<u8>,
}

impl View for UploadField {
    type V = UploadFieldView;

    open spec fn view(&self) -> UploadFieldView {
        UploadFieldView {
            file_name: match self.file_name {
                Some(n) => Some(n@),
                None => None,
            },
            bytes: self.bytes@,
        }
    }
}

/// The views of a list of upload parts.
pub open spec fn field_views(fields: Seq<UploadField>) -> Seq<UploadFieldView> {
    Seq::new(fields.len(), |i: int| fields[i]@)
}

/// The part of a stored file's name that comes from the client: the file
/// name given, with underscores for spaces, or nothing.
pub open spec fn stem_spec(file_name: Option<Seq<char>>) -> Seq<char> {
    match file_name {
        Some(n) => underscored_spec(n),
        None => Seq::empty(),
    }
}

/// The part of a stored file's name that comes from the client.
fn stem(file_name: &Option<String>) -> (s: String)
    ensures
        s@ == stem_spec(
            match *file_name {
                Some(n) => Some(n@),
                None => None,
            },
        ),
{
    match file_name {
        Some(n) => underscored(n.as_str()),
        None => String::new(),
    }
}

/// The file that an uploaded picture is stored as under the unique `token`,
/// unless its signature is unknown.
pub open spec fn picture_file_spec(field: UploadFieldView, token: Seq<char>) -> Result<
    StoredFileView,
    UploadErrorView,
> {
    match pic_ext_of(field.bytes) {
        None => Err(UploadErrorView::UnknownExtension),
        Some(ext) => Ok(
            StoredFileView {
                name: file_name_spec(token, stem_spec(field.file_name), ext),
                bytes: field.bytes,
            },
        ),
    }
}

/// The view of the outcome for one file.
pub open spec fn file_result_view(r: Result<StoredFile, UploadError>) -> Result<
    StoredFileView,
    UploadErrorView,
> {
    match r {
        Ok(f) => Ok(f@),
        Err(e) => Err(e@),
    }
}

/// Names the file that one uploaded picture is stored as.
pub fn picture_file(field: UploadField, token: &str) -> (r: Result<StoredFile, UploadError>)
    ensures
        file_result_view(r) == picture_file_spec(field@, token@),
{
    let ext = match bytes_to_pic_ext(field.bytes.as_slice()) {
        None => { return Err(UploadError::UnknownExtension); },
        Some(ext) => ext,
    };
    let stem = stem(&field.file_name);
    Ok(StoredFile { name: file_name(token, stem.as_str(), ext), bytes: field.bytes })
}

/// Whether any of the parts has a signature of no known picture format.
pub open spec fn any_unknown_picture(fields: Seq<UploadFieldView>) -> bool {
    exists|i: int| 0 <= i < fields.len() && pic_ext_of(#[trigger] fields[i].bytes) is None
}

/// The files that a picture upload leads to, given the unique token drawn
/// for each part: none at all if any part has an unknown signature, else one
/// per part, in order.
pub open spec fn pictures_spec(fields: Seq<UploadFieldView>, tokens: Seq<Seq<char>>) -> Result<
    Seq<StoredFileView>,
    UploadErrorView,
> {
    if any_unknown_picture(fields) {
        Err(UploadErrorView::UnknownExtension)
    } else {
        Ok(Seq::new(fields.len(), |i: int| picture_file_spec(fields[i], tokens[i])->Ok_0))
    }
}

/// The view of the outcome of an upload.
pub open spec fn files_result_view(r: Result<Vec<StoredFile>, UploadError>) -> Result<
    Seq<StoredFileView>,
    UploadErrorView,
> {
    match r {
        Ok(files) => Ok(file_views(files@)),
        Err(e) => Err(e@),
    }
}

/// Names the files that the uploaded pictures are stored as, with the unique
/// token to name each by.
pub fn pictures_with_tokens(fields: Vec<UploadField>, tokens: &Vec<String>) -> (r: Result<
    Vec<StoredFile>,
    UploadError,
>)
    requires
        tokens.len() == fields.len(),
    ensures
        files_result_view(r) == pictures_spec(field_views(fields@), texts(tokens@)),
{
    let ghost all = field_views(fields@);
    let ghost marks = texts(tokens@);
    let n = fields.len();
    let mut files: Vec<StoredFile> = Vec::new();
    let mut i: usize = 0;
    for field in it: fields
        invariant
            it.seq() == fields@,
            all == field_views(fields@),
            marks == texts(tokens@),
            tokens.len() == fields.len(),
            n == fields.len(),
            i == it.index(),
            i <= n,
            forall|j: int| 0 <= j < i ==> pic_ext_of(#[trigger] all[j].bytes) is Some,
            file_views(files@) == Seq::new(
                i as nat,
                |j: int| picture_file_spec(all[j], marks[j])->Ok_0,
            ),
    {
        assert(all[i as int] == field@);
        let ghost old_files = file_views(files@);
        match picture_file(field, tokens[i].as_str()) {
            Err(e) => {
                assert(pic_ext_of(all[i as int].bytes) is None);
                return Err(e);
            },
            Ok(file) => {
                files.push(file);
                assert(file_views(files@) == old_files.push(file@));
            },
        }
        assert(file_views(files@) == Seq::new(
            (i + 1) as nat,
            |j: int| picture_file_spec(all[j], marks[j])->Ok_0,
        ));
        i += 1;
    }
    Ok(files)
}

/// Names the files that the uploaded pictures are stored as. Each is named by
/// a freshly drawn UUID, no two by the same; apart from that choice the
/// outcome is the one `pictures_spec` gives. The names are therefore
/// pairwise distinct.
pub fn pictures(fields: Vec<UploadField>) -> (r: Result<Vec<StoredFile>, UploadError>)
    ensures
        exists|tokens: Seq<Seq<char>>|
            tokens.len() == fields.len() && unique_uuid_texts(tokens) && #[trigger] pictures_spec(
                field_views(fields@),
                tokens,
            ) == files_result_view(r),
        r matches Ok(files) ==> pairwise_distinct(file_names(file_views(files@))),
{
    let tokens = unique_tokens(fields.len());
    proof {
        lemma_picture_names_differ(field_views(fields@), texts(tokens@));
    }
    pictures_with_tokens(fields, &tokens)
}

/// Where the tokens are UUIDs of which no two are the same, no two of the
/// files are named the same.
pub proof fn lemma_picture_names_differ(fields: Seq<UploadFieldView>, tokens: Seq<Seq<char>>)
    requires
        tokens.len() == fields.len(),
        unique_uuid_texts(tokens),
    ensures
        pictures_spec(fields, tokens) matches Ok(files) ==> pairwise_distinct(file_names(files)),
{
    if let Ok(files) = pictures_spec(fields, tokens) {
        let names = file_names(files);
        assert forall|i: int, j: int| 0 <= i < j < names.len() implies names[i] != names[j] by {
            assert(pic_ext_of(fields[i].bytes) is Some);
            assert(pic_ext_of(fields[j].bytes) is Some);
            lemma_names_differ(
                tokens[i],
                tokens[j],
                stem_spec(fields[i].file_name),
                stem_spec(fields[j].file_name),
                pic_ext_of(fields[i].bytes)->0,
                pic_ext_of(fields[j].bytes)->0,
            );
        }
    }
}

/// Tells whether an uploaded part is a picture of a known format, so that
/// an upload can be refused at the first part that is none.
pub fn known_picture(field: &UploadField) -> (r: Result<(), UploadError>)
    ensures
        r == if pic_ext_of(field.bytes@) is Some {
            Ok::<(), UploadError>(())
        } else {
            Err::<(), UploadError>(UploadError::UnknownExtension)
        },
{
    match bytes_to_pic_ext(field.bytes.as_slice()) {
        Some(_) => Ok(()),
        None => Err(UploadError::UnknownExtension),
    }
}

/// Whether a video with extension `ext` is taken in for conversion.
pub open spec fn convertible(ext: Seq<char>) -> bool {
    ext == "mp4"@ || ext == "mov"@ || ext == "avi"@ || ext == "mkv"@ || ext == "webm"@
}

/// The extension that every converted video is stored under.
pub open spec fn converted_ext() -> Seq<char> {
    "mp4"@
}

/// What is to be done with one uploaded video: where its bytes are parked,
/// and the name and path of the converted file.
#[derive(Clone, Debug, PartialEq, Eq)]
pub struct VideoJob {
    pub file_name: String,
    pub temp_path: String,
    pub output_path: String,
    pub bytes: Vec<u8>,
}

/// The mathematical content of a [`VideoJob`].
pub struct VideoJobView {
    pub file_name: Seq<char>,
    pub temp_path: Seq<char>,
    pub output_path: Seq<char>,
    pub bytes: Seq<u8>,
}

impl View for VideoJob {
    type V = VideoJobView;

    open spec fn view(&self) -> VideoJobView {
        VideoJobView {
            file_name: self.file_name@,
            temp_path: self.temp_path@,
            output_path: self.output_path@,
            bytes: self.bytes@,
        }
    }
}

/// Where the bytes of a video are parked until it is converted.
pub open spec fn temp_path_spec(token: Seq<char>, ext: Seq<char>) -> Seq<char> {
    "storage/temp_"@ + token + seq!['.'] + ext
}

/// What is to be done with an uploaded video, given the unique tokens for its
/// final and its temporary name.
pub open spec fn video_job_spec(
    field: UploadFieldView,
    token: Seq<char>,
    temp_token: Seq<char>,
) -> Result<VideoJobView, UploadErrorView> {
    match video_ext_of(field.bytes) {
        None => Err(UploadErrorView::UnknownExtension),
        Some(ext) => if !convertible(ext) {
            Err(UploadErrorView::InvalidFileType)
        } else {
            let file_name = file_name_spec(token, stem_spec(field.file_name), converted_ext());
            Ok(
                VideoJobView {
                    file_name,
                    temp_path: temp_path_spec(temp_token, ext),
                    output_path: storage_path_spec(file_name),
                    bytes: field.bytes,
                },
            )
        },
    }
}

/// The view of the outcome for one video.
pub open spec fn job_result_view(r: Result<VideoJob, UploadError>) -> Result<
    VideoJobView,
    UploadErrorView,
> {
    match r {
        Ok(j) => Ok(j@),
        Err(e) => Err(e@),
    }
}

/// Plans the conversion of one uploaded video.
pub fn video_job(field: UploadField, token: &str, temp_token: &str) -> (r: Result<
    VideoJob,
    UploadError,
>)
    ensures
        job_result_view(r) == video_job_spec(field@, token@, temp_token@),
{
    let ext = match bytes_to_video_ext(field.bytes.as_slice()) {
        None => { return Err(UploadError::UnknownExtension); },
        Some(ext) => ext,
    };
    if !(same_text(ext, "mp4") || same_text(ext, "mov") || same_text(ext, "avi") || same_text(
        ext,
        "mkv",
    ) || same_text(ext, "webm")) {
        return Err(UploadError::InvalidFileType);
    }
    let stem = stem(&field.file_name);
    let name = file_name(token, stem.as_str(), "mp4");
    let mut temp_path = String::from_str("storage/temp_");
    temp_path.append(temp_token);
    temp_path.push('.');
    temp_path.append(ext);
    assert(temp_path@ =~= temp_path_spec(temp_token@, ext@));
    let output_path = storage_path(name.as_str());
    Ok(VideoJob { file_name: name, temp_path, output_path, bytes: field.bytes })
}

/// Plans the conversion of one uploaded video, drawing fresh UUIDs for its
/// final and its temporary name. `taken` holds the tokens drawn for the
/// request so far; the two that are drawn differ from those and from each
/// other, and are added to them.
pub fn videos(field: UploadField, taken: &mut Vec<String>) -> (r: Result<VideoJob, UploadError>)
    ensures
        exists|token: Seq<char>, temp_token: Seq<char>|
            is_uuid_pair(token, temp_token) && !texts(old(taken)@).contains(token) && !texts(
                old(taken)@,
            ).contains(temp_token) && texts(final(taken)@) == texts(old(taken)@).push(token).push(
                temp_token,
            ) && #[trigger] video_job_spec(field@, token, temp_token) == job_result_view(r),
{
    let ghost before = texts(taken@);
    let token = fresh_token(taken);
    proof {
        lemma_texts_push(taken@, token);
    }
    taken.push(token.clone());
    let temp_token = fresh_token(taken);
    proof {
        lemma_texts_push(taken@, temp_token);
        assert(before.push(token@).contains(token@)) by {
            assert(before.push(token@)[before.len() as int] == token@);
        }
        assert(!before.contains(temp_token@)) by {
            if before.contains(temp_token@) {
                let i = choose|i: int| 0 <= i < before.len() && before[i] == temp_token@;
                assert(before.push(token@)[i] == temp_token@);
            }
        }
    }
    taken.push(temp_token.clone());
    video_job(field, token.as_str(), temp_token.as_str())
}

/// Videos parked under different tokens are parked at different paths.
pub proof fn lemma_temp_paths_differ(a: Seq<char>, b: Seq<char>, ext_a: Seq<char>, ext_b: Seq<char>)
    requires
        crate::trusted::is_uuid_text(a),
        crate::trusted::is_uuid_text(b),
        a != b,
    ensures
        temp_path_spec(a, ext_a) != temp_path_spec(b, ext_b),
{
    let x = temp_path_spec(a, ext_a);
    let y = temp_path_spec(b, ext_b);
    let lead = "storage/temp_"@;
    if x == y {
        assert forall|i: int| 0 <= i < 36 implies a[i] == b[i] by {
            assert(x[lead.len() + i] == a[i]);
            assert(y[lead.len() + i] == b[i]);
        }
        assert(a =~= b);
    }
}

/// Both texts are UUIDs in hyphenated form, and they differ.
pub open spec fn is_uuid_pair(a: Seq<char>, b: Seq<char>) -> bool {
    crate::trusted::is_uuid_text(a) && crate::trusted::is_uuid_text(b) && a != b
}

/// The files to remove again and the error to report when an upload failed
/// after some of its files were written.
#[derive(Clone, Debug, PartialEq, Eq)]
pub struct Rollback {
    pub error: UploadError,
    pub remove: Vec<String>,
}

/// The error of the first step that failed.
pub open spec fn first_failed(outcomes: Seq<Result<(), UploadError>>) -> Option<UploadErrorView>
    decreases outcomes.len(),
{
    if outcomes.len() == 0 {
        None
    } else {
        match first_failed(outcomes.drop_last()) {
            Some(e) => Some(e),
            None => match outcomes.last() {
                Ok(_) => None,
                Err(e) => Some(e@),
            },
        }
    }
}

/// A failure among the first `k` steps is the first failure of them all.
pub proof fn lemma_first_failed_stays(outcomes: Seq<Result<(), UploadError>>, k: int)
    requires
        0 <= k <= outcomes.len(),
        first_failed(outcomes.take(k)) is Some,
    ensures
        first_failed(outcomes) == first_failed(outcomes.take(k)),
    decreases outcomes.len(),
{
    if k == outcomes.len() {
        assert(outcomes.take(k) == outcomes);
    } else {
        assert(outcomes.drop_last().take(k) == outcomes.take(k));
        lemma_first_failed_stays(outcomes.drop_last(), k);
    }
}

/// Concludes an upload once every file has been written or converted, or
/// has failed to be. If all went well the client gets the names. If any step
/// failed, its error is reported, and every file of the upload is to be
/// removed again, those that were written too.
pub fn settle(names: Vec<String>, outcomes: Vec<Result<(), UploadError>>) -> (r: Result<
    UploadResponse,
    Rollback,
>)
    ensures
        match first_failed(outcomes@) {
            None => r matches Ok(response) && texts(response.file_ids@) == texts(names@),
            Some(e) => r matches Err(rollback) && rollback.error@ == e && texts(rollback.remove@)
                == texts(names@),
        },
{
    for outcome in it: outcomes
        invariant
            it.seq() == outcomes@,
            first_failed(outcomes@.take(it.index() as int)) is None,
    {
        let ghost i = it.index() as int;
        proof {
            assert(outcomes@.take(i + 1).drop_last() == outcomes@.take(i));
            assert(outcomes@.take(i + 1).last() == outcome);
        }
        match outcome {
            Ok(_) => {},
            Err(error) => {
                proof {
                    lemma_first_failed_stays(outcomes@, i + 1);
                }
                return Err(Rollback { error, remove: names });
            },
        }
    }
    assert(outcomes@.take(outcomes@.len() as int) == outcomes@);
    Ok(UploadResponse { file_ids: names })
}

/// What writing a picture to storage came to, as an upload step.
pub fn saved(outcome: Result<(), SaveError>) -> (r: Result<(), UploadError>)
    ensures
        match outcome {
            Ok(_) => r is Ok,
            Err(e) => r matches Err(u) && u@ == UploadErrorView::ErrorSavingFile(e@),
        },
{
    match outcome {
        Ok(_) => Ok(()),
        Err(e) => Err(UploadError::ErrorSavingFile(e)),
    }
}

impl UploadErrorView {
    /// The error in words.
    pub open spec fn message(self) -> Seq<char> {
        match self {
            UploadErrorView::MultipartError(m) => m,
            UploadErrorView::UnknownExtension => "Unknown file extension"@,
            UploadErrorView::ErrorSavingFile(e) => e.message(),
            UploadErrorView::InvalidFileType => "Invalid file type"@,
            UploadErrorView::ConversionFailed => "Failed to convert a file"@,
        }
    }

    /// What the client is sent: always a server error, with the error in
    /// words.
    pub open spec fn reply(self) -> ReplyView {
        ReplyView { status: 500, body: self.message() }
    }
}

impl UploadError {
    /// The error in words.
    pub fn message(&self) -> (m: String)
        ensures
            m@ == self@.message(),
    {
        match self {
            UploadError::MultipartError(m) => m.clone(),
            UploadError::UnknownExtension => "Unknown file extension".to_string(),
            UploadError::ErrorSavingFile(e) => e.message(),
            UploadError::InvalidFileType => "Invalid file type".to_string(),
            UploadError::ConversionFailed => "Failed to convert a file".to_string(),
        }
    }

    /// What the client is sent for this error.
    pub fn into_response(&self) -> (reply: Reply)
        ensures
            reply@ == self@.reply(),
    {
        Reply { status: 500, body: self.message() }
    }
}

} // verus!
