//! The flat storage namespace: recognising uploads by their leading bytes and
//! naming the files they are stored under.

use crate::project::{lemma_texts_push, texts};
use crate::reply::joined;
use crate::tokens::{fresh_token, pairwise_distinct};
use crate::trusted::is_uuid_text;
use vstd::prelude::*;
use vstd::string::*;

verus! {

/// Whether the first bytes of `bytes` are exactly `magic`.
pub open spec fn starts_with(bytes: Seq<u8>, magic: Seq<u8>) -> bool {
    bytes.len() >= magic.len() && bytes.subrange(0, magic.len() as int) == magic
}

/// The eight-byte PNG signature.
pub open spec fn png_magic() -> Seq<u8> {
    seq![0x89u8, 0x50u8, 0x4Eu8, 0x47u8, 0x0Du8, 0x0Au8, 0x1Au8, 0x0Au8]
}

/// The three bytes every JPEG stream begins with.
pub open spec fn jpeg_magic() -> Seq<u8> {
    seq![0xFFu8, 0xD8u8, 0xFFu8]
}

/// A RIFF container whose form type, at offset 8, is `form`.
pub open spec fn is_riff(bytes: Seq<u8>, form: Seq<u8>) -> bool {
    &&& bytes.len() >= 12
    &&& bytes.subrange(0, 4) == seq![0x52u8, 0x49u8, 0x46u8, 0x46u8]
    &&& bytes.subrange(8, 12) == form
}

/// The form type `WEBP`.
pub open spec fn webp_form() -> Seq<u8> {
    seq![0x57u8, 0x45u8, 0x42u8, 0x50u8]
}

/// The form type `AVI ` (with its trailing space).
pub open spec fn avi_form() -> Seq<u8> {
    seq![0x41u8, 0x56u8, 0x49u8, 0x20u8]
}

/// The picture formats that are accepted for upload.
#[derive(Clone, Copy, Debug, PartialEq, Eq, Structural)]
pub enum PicFormat {
    Png,
    Jpeg,
    Webp,
}

/// The picture format that the leading bytes announce, if any.
pub open spec fn pic_format(bytes: Seq<u8>) -> Option<PicFormat> {
    if starts_with(bytes, png_magic()) {
        Some(PicFormat::Png)
    } else if starts_with(bytes, jpeg_magic()) {
        Some(PicFormat::Jpeg)
    } else if is_riff(bytes, webp_form()) {
        Some(PicFormat::Webp)
    } else {
        None
    }
}

/// The file extension of a picture format.
pub open spec fn pic_ext(format: PicFormat) -> Seq<char> {
    match format {
        PicFormat::Png => "png"@,
        PicFormat::Jpeg => "jpeg"@,
        PicFormat::Webp => "webp"@,
    }
}

/// The extension that a picture with these leading bytes is stored under.
pub open spec fn pic_ext_of(bytes: Seq<u8>) -> Option<Seq<char>> {
    match pic_format(bytes) {
        Some(format) => Some(pic_ext(format)),
        None => None,
    }
}

/// Classifies a picture by its binary signature: PNG, JPEG or WEBP.
pub fn bytes_to_pic_ext(bytes: &[u8]) -> (ext: Option<&'static str>)
    ensures
        ext matches Some(e) ==> pic_ext_of(bytes@) == Some(e@),
        ext is None ==> pic_ext_of(bytes@) is None,
{
    let n = bytes.len();
    if n >= 8 && bytes[0] == 0x89 && bytes[1] == 0x50 && bytes[2] == 0x4E && bytes[3] == 0x47
        && bytes[4] == 0x0D && bytes[5] == 0x0A && bytes[6] == 0x1A && bytes[7] == 0x0A {
        assert(bytes@.subrange(0, 8) == png_magic());
        return Some("png");
    }
    assert(!starts_with(bytes@, png_magic())) by {
        if starts_with(bytes@, png_magic()) {
            let head = bytes@.subrange(0, 8);
            assert(head[0] == 0x89 && head[1] == 0x50 && head[2] == 0x4E && head[3] == 0x47
                && head[4] == 0x0D && head[5] == 0x0A && head[6] == 0x1A && head[7] == 0x0A);
        }
    }
    if n >= 3 && bytes[0] == 0xFF && bytes[1] == 0xD8 && bytes[2] == 0xFF {
        assert(bytes@.subrange(0, 3) == jpeg_magic());
        return Some("jpeg");
    }
    assert(!starts_with(bytes@, jpeg_magic())) by {
        if starts_with(bytes@, jpeg_magic()) {
            let head = bytes@.subrange(0, 3);
            assert(head[0] == 0xFF && head[1] == 0xD8 && head[2] == 0xFF);
        }
    }
    if has_riff_form(bytes, 0x57, 0x45, 0x42, 0x50) {
        return Some("webp");
    }
    None
}

/// Whether `bytes` is a RIFF container of at least twelve bytes whose form
/// type is the four given bytes.
fn has_riff_form(bytes: &[u8], f0: u8, f1: u8, f2: u8, f3: u8) -> (b: bool)
    ensures
        b == is_riff(bytes@, seq![f0, f1, f2, f3]),
{
    let n = bytes.len();
    let b = n >= 12 && bytes[0] == 0x52 && bytes[1] == 0x49 && bytes[2] == 0x46 && bytes[3] == 0x46
        && bytes[8] == f0 && bytes[9] == f1 && bytes[10] == f2 && bytes[11] == f3;
    proof {
        if b {
            assert(bytes@.subrange(0, 4) == seq![0x52u8, 0x49u8, 0x46u8, 0x46u8]);
            assert(bytes@.subrange(8, 12) == seq![f0, f1, f2, f3]);
        } else if is_riff(bytes@, seq![f0, f1, f2, f3]) {
            let head = bytes@.subrange(0, 4);
            let form = bytes@.subrange(8, 12);
            assert(head[0] == 0x52 && head[1] == 0x49 && head[2] == 0x46 && head[3] == 0x46);
            assert(form[0] == f0 && form[1] == f1 && form[2] == f2 && form[3] == f3);
        }
    }
    b
}

/// The video containers that are recognised.
#[derive(Clone, Copy, Debug, PartialEq, Eq, Structural)]
pub enum VideoFormat {
    Mp4,
    Mkv,
    Ts,
    Avi,
}

/// An ISO base media file: three zero bytes, any size byte, then `ftyp`.
pub open spec fn is_mp4(bytes: Seq<u8>) -> bool {
    &&& bytes.len() >= 8
    &&& bytes.subrange(0, 3) == seq![0x00u8, 0x00u8, 0x00u8]
    &&& bytes.subrange(4, 8) == seq![0x66u8, 0x74u8, 0x79u8, 0x70u8]
}

/// The four-byte EBML header that Matroska files begin with.
pub open spec fn mkv_magic() -> Seq<u8> {
    seq![0x1Au8, 0x45u8, 0xDFu8, 0xA3u8]
}

/// The first four bytes of an MPEG transport stream as it is recognised here.
pub open spec fn ts_magic() -> Seq<u8> {
    seq![0x47u8, 0x40u8, 0x00u8, 0x10u8]
}

/// The video container that the leading bytes announce, if any. An AVI file is
/// recognised only when it consists of its twelve header bytes and no more.
pub open spec fn video_format(bytes: Seq<u8>) -> Option<VideoFormat> {
    if is_mp4(bytes) {
        Some(VideoFormat::Mp4)
    } else if starts_with(bytes, mkv_magic()) {
        Some(VideoFormat::Mkv)
    } else if starts_with(bytes, ts_magic()) {
        Some(VideoFormat::Ts)
    } else if bytes.len() == 12 && is_riff(bytes, avi_form()) {
        Some(VideoFormat::Avi)
    } else {
        None
    }
}

/// The file extension of a video container.
pub open spec fn video_ext(format: VideoFormat) -> Seq<char> {
    match format {
        VideoFormat::Mp4 => "mp4"@,
        VideoFormat::Mkv => "mkv"@,
        VideoFormat::Ts => "ts"@,
        VideoFormat::Avi => "avi"@,
    }
}

/// The extension that a video with these leading bytes is known by.
pub open spec fn video_ext_of(bytes: Seq<u8>) -> Option<Seq<char>> {
    match video_format(bytes) {
        Some(format) => Some(video_ext(format)),
        None => None,
    }
}

/// Classifies a video by its binary signature: MP4, Matroska, MPEG-TS or AVI.
pub fn bytes_to_video_ext(bytes: &[u8]) -> (ext: Option<&'static str>)
    ensures
        ext matches Some(e) ==> video_ext_of(bytes@) == Some(e@),
        ext is None ==> video_ext_of(bytes@) is None,
{
    let n = bytes.len();
    if n >= 8 && bytes[0] == 0x00 && bytes[1] == 0x00 && bytes[2] == 0x00 && bytes[4] == 0x66
        && bytes[5] == 0x74 && bytes[6] == 0x79 && bytes[7] == 0x70 {
        assert(bytes@.subrange(0, 3) == seq![0x00u8, 0x00u8, 0x00u8]);
        assert(bytes@.subrange(4, 8) == seq![0x66u8, 0x74u8, 0x79u8, 0x70u8]);
        return Some("mp4");
    }
    assert(!is_mp4(bytes@)) by {
        if is_mp4(bytes@) {
            let head = bytes@.subrange(0, 3);
            let brand = bytes@.subrange(4, 8);
            assert(head[0] == 0 && head[1] == 0 && head[2] == 0);
            assert(brand[0] == 0x66 && brand[1] == 0x74 && brand[2] == 0x79 && brand[3] == 0x70);
        }
    }
    if n >= 4 && bytes[0] == 0x1A && bytes[1] == 0x45 && bytes[2] == 0xDF && bytes[3] == 0xA3 {
        assert(bytes@.subrange(0, 4) == mkv_magic());
        return Some("mkv");
    }
    assert(!starts_with(bytes@, mkv_magic())) by {
        if starts_with(bytes@, mkv_magic()) {
            let head = bytes@.subrange(0, 4);
            assert(head[0] == 0x1A && head[1] == 0x45 && head[2] == 0xDF && head[3] == 0xA3);
        }
    }
    if n >= 4 && bytes[0] == 0x47 && bytes[1] == 0x40 && bytes[2] == 0x00 && bytes[3] == 0x10 {
        assert(bytes@.subrange(0, 4) == ts_magic());
        return Some("ts");
    }
    assert(!starts_with(bytes@, ts_magic())) by {
        if starts_with(bytes@, ts_magic()) {
            let head = bytes@.subrange(0, 4);
            assert(head[0] == 0x47 && head[1] == 0x40 && head[2] == 0x00 && head[3] == 0x10);
        }
    }
    if n == 12 && has_riff_form(bytes, 0x41, 0x56, 0x49, 0x20) {
        return Some("avi");
    }
    None
}

/// The name a stored file gets: the token, an underscore, the name the
/// client gave, a dot and the extension.
pub open spec fn file_name_spec(token: Seq<char>, stem: Seq<char>, ext: Seq<char>) -> Seq<char> {
    token + seq!['_'] + stem + seq!['.'] + ext
}

/// Builds the name a file is stored under from a unique token, the name the
/// client gave and the extension found from the file's signature.
pub fn file_name(token: &str, stem: &str, ext: &str) -> (name: String)
    ensures
        name@ == file_name_spec(token@, stem@, ext@),
{
    let mut name = String::from_str(token);
    name.push('_');
    name.append(stem);
    name.push('.');
    name.append(ext);
    name
}

/// Where a stored file lives, relative to the working directory.
pub open spec fn storage_path_spec(name: Seq<char>) -> Seq<char> {
    "storage/"@ + name
}

/// The path of the stored file called `name`.
pub fn storage_path(name: &str) -> (path: String)
    ensures
        path@ == storage_path_spec(name@),
{
    let mut path = String::from_str("storage/");
    path.append(name);
    path
}

/// Whether every text in `tokens` is a UUID in hyphenated form.
pub open spec fn all_uuid_texts(tokens: Seq<Seq<char>>) -> bool {
    forall|i: int| 0 <= i < tokens.len() ==> is_uuid_text(#[trigger] tokens[i])
}

/// Whether the texts can name the files of one request: each is a UUID in
/// hyphenated form and no two are the same.
pub open spec fn unique_uuid_texts(tokens: Seq<Seq<char>>) -> bool {
    all_uuid_texts(tokens) && pairwise_distinct(tokens)
}

/// Draws `n` random UUIDs to name files by, no two of them the same.
pub fn unique_tokens(n: usize) -> (tokens: Vec<String>)
    ensures
        tokens.len() == n,
        unique_uuid_texts(texts(tokens@)),
{
    let mut tokens: Vec<String> = Vec::new();
    while tokens.len() < n
        invariant
            tokens.len() <= n,
            unique_uuid_texts(texts(tokens@)),
        decreases n - tokens.len(),
    {
        let token = fresh_token(&tokens);
        proof {
            lemma_texts_push(tokens@, token);
            let before = texts(tokens@);
            let after = before.push(token@);
            assert forall|i: int, j: int| 0 <= i < j < after.len() implies after[i]
                != after[j] by {
                if j == before.len() {
                    assert(before.contains(before[i]));
                }
            }
        }
        tokens.push(token);
    }
    tokens
}

/// Files named by different tokens have different names, whatever the
/// clients called them and whatever their formats.
pub proof fn lemma_names_differ(
    a: Seq<char>,
    b: Seq<char>,
    stem_a: Seq<char>,
    stem_b: Seq<char>,
    ext_a: Seq<char>,
    ext_b: Seq<char>,
)
    requires
        is_uuid_text(a),
        is_uuid_text(b),
        a != b,
    ensures
        file_name_spec(a, stem_a, ext_a) != file_name_spec(b, stem_b, ext_b),
{
    let x = file_name_spec(a, stem_a, ext_a);
    let y = file_name_spec(b, stem_b, ext_b);
    if x == y {
        assert forall|i: int| 0 <= i < 36 implies a[i] == b[i] by {
            assert(x[i] == a[i]);
            assert(y[i] == b[i]);
        }
        assert(a =~= b);
    }
}

/// A file to write to storage.
#[derive(Clone, Debug, PartialEq, Eq)]
pub struct StoredFile {
    pub name: String,
    pub bytes: Vec<u8>,
}

/// The mathematical content of a [`StoredFile`].
pub struct StoredFileView {
    pub name: Seq<char>,
    pub bytes: Seq<u8>,
}

impl View for StoredFile {
    type V = StoredFileView;

    open spec fn view(&self) -> StoredFileView {
        StoredFileView { name: self.name@, bytes: self.bytes@ }
    }
}

/// The views of a list of files.
pub open spec fn file_views(files: Seq<StoredFile>) -> Seq<StoredFileView> {
    Seq::new(files.len(), |i: int| files[i]@)
}

/// The names of a list of files.
pub open spec fn file_names(files: Seq<StoredFileView>) -> Seq<Seq<char>> {
    Seq::new(files.len(), |i: int| files[i].name)
}

/// Why a file could not be written to storage.
#[derive(Clone, Debug, PartialEq, Eq)]
pub enum SaveError {
    /// The file could not be created.
    CreateFileError(String),
    /// The file was created but the bytes could not be written.
    WriteError(String),
}

/// The mathematical content of a [`SaveError`].
pub enum SaveErrorView {
    CreateFileError(Seq<char>),
    WriteError(Seq<char>),
}

impl View for SaveError {
    type V = SaveErrorView;

    open spec fn view(&self) -> SaveErrorView {
        match self {
            SaveError::CreateFileError(m) => SaveErrorView::CreateFileError(m@),
            SaveError::WriteError(m) => SaveErrorView::WriteError(m@),
        }
    }
}

impl SaveErrorView {
    /// The error in words.
    pub open spec fn message(self) -> Seq<char> {
        match self {
            SaveErrorView::CreateFileError(m) => "Failed to create file: "@ + m,
            SaveErrorView::WriteError(m) => "Failed to write to file: "@ + m,
        }
    }
}

impl SaveError {
    /// The error in words.
    pub fn message(&self) -> (m: String)
        ensures
            m@ == self@.message(),
    {
        match self {
            SaveError::CreateFileError(m) => joined("Failed to create file: ", m.as_str()),
            SaveError::WriteError(m) => joined("Failed to write to file: ", m.as_str()),
        }
    }
}

} // verus!
