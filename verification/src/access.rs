//! Which files of the storage and of the site's assets are served, by the
//! ending of the path that is asked for.

use crate::text::chars_of;
use vstd::prelude::*;

verus! {

/// Whether `text` ends with `suffix`.
pub open spec fn ends_with_spec(text: Seq<char>, suffix: Seq<char>) -> bool {
    text.len() >= suffix.len() && text.subrange(text.len() - suffix.len(), text.len() as int)
        == suffix
}

/// Whether `text` ends with `suffix`.
pub fn ends_with(text: &Vec<char>, suffix: &str) -> (b: bool)
    ensures
        b == ends_with_spec(text@, suffix@),
{
    let wanted = chars_of(suffix);
    if text.len() < wanted.len() {
        return false;
    }
    let start = text.len() - wanted.len();
    let ghost tail = text@.subrange(start as int, text.len() as int);
    let mut i: usize = 0;
    while i < wanted.len()
        invariant
            i <= wanted.len(),
            wanted@ == suffix@,
            start + wanted.len() == text.len(),
            tail == text@.subrange(start as int, text.len() as int),
            forall|j: int| 0 <= j < i ==> tail[j] == wanted@[j],
        decreases wanted.len() - i,
    {
        if text[start + i] != wanted[i] {
            assert(tail[i as int] != suffix@[i as int]);
            return false;
        }
        i += 1;
    }
    assert(tail =~= suffix@);
    true
}

/// Whether a path into the storage may be served to whoever may list the
/// projects: only pictures and page assets, told by the path's ending.
pub open spec fn filter_file_ext_spec(path: Seq<char>) -> bool {
    ends_with_spec(path, "jpg"@) || ends_with_spec(path, "jpeg"@) || ends_with_spec(path, "png"@)
        || ends_with_spec(path, "heic"@) || ends_with_spec(path, "html"@) || ends_with_spec(
        path,
        "css"@,
    ) || ends_with_spec(path, "js"@)
}

/// Decides whether the file at `path` is served from storage. A request for
/// anything else is answered with status 415.
pub fn filter_file_ext(path: &str) -> (allowed: bool)
    ensures
        allowed == filter_file_ext_spec(path@),
{
    let path = chars_of(path);
    ends_with(&path, "jpg") || ends_with(&path, "jpeg") || ends_with(&path, "png") || ends_with(
        &path,
        "heic",
    ) || ends_with(&path, "html") || ends_with(&path, "css") || ends_with(&path, "js")
}

/// Whether a path may be served to a visitor: style sheets, scripts and
/// pictures, told by the extension.
pub open spec fn filter_extension_spec(path: Seq<char>) -> bool {
    ends_with_spec(path, ".css"@) || ends_with_spec(path, ".js"@) || ends_with_spec(
        path,
        ".jpg"@,
    ) || ends_with_spec(path, ".jpeg"@) || ends_with_spec(path, ".png"@)
}

/// Decides whether the file at `path` is served to a visitor. A request for
/// anything else is answered with status 403.
pub fn filter_extension(path: &str) -> (allowed: bool)
    ensures
        allowed == filter_extension_spec(path@),
{
    let path = chars_of(path);
    ends_with(&path, ".css") || ends_with(&path, ".js") || ends_with(&path, ".jpg") || ends_with(
        &path,
        ".jpeg",
    ) || ends_with(&path, ".png")
}

/// The ports the server listens on.
#[derive(Clone, Copy, Debug, PartialEq, Eq, Structural)]
pub struct Ports {
    pub http: u16,
    pub https: u16,
}

/// The ports for a development build, and those for a release.
pub fn get_ports(development: bool) -> (ports: Ports)
    ensures
        ports == if development {
            Ports { http: 3000, https: 8000 }
        } else {
            Ports { http: 80, https: 443 }
        },
{
    if development {
        Ports { http: 3000, https: 8000 }
    } else {
        Ports { http: 80, https: 443 }
    }
}

/// The endings of the paths that are served from storage.
pub fn allowed_file_ext() -> (endings: Vec<&'static str>)
    ensures
        endings@.len() == 7,
        endings@[0]@ == "jpg"@,
        endings@[1]@ == "jpeg"@,
        endings@[2]@ == "png"@,
        endings@[3]@ == "heic"@,
        endings@[4]@ == "html"@,
        endings@[5]@ == "css"@,
        endings@[6]@ == "js"@,
{
    let mut endings: Vec<&'static str> = Vec::new();
    endings.push("jpg");
    endings.push("jpeg");
    endings.push("png");
    endings.push("heic");
    endings.push("html");
    endings.push("css");
    endings.push("js");
    endings
}

} // verus!
