//! Updating a stored project field by field.

use crate::project::{lemma_texts_push, texts, Project, ProjectView};
use crate::reply::{joined, server_error, Reply, ReplyView};
use crate::text::{decimal, decimal_spec, same_text};
use vstd::prelude::*;
use vstd::string::*;

verus! {

/// Why a project could not be updated.
#[derive(Clone, Debug, PartialEq, Eq)]
pub enum UpdateProjectError {
    /// No project has this identifier.
    NoProjectFound(i32),
    /// The store refused.
    DbError(String),
}

/// The mathematical content of an [`UpdateProjectError`].
pub enum UpdateProjectErrorView {
    NoProjectFound(i32),
    DbError(Seq<char>),
}

impl View for UpdateProjectError {
    type V = UpdateProjectErrorView;

    open spec fn view(&self) -> UpdateProjectErrorView {
        match self {
            UpdateProjectError::NoProjectFound(id) => UpdateProjectErrorView::NoProjectFound(*id),
            UpdateProjectError::DbError(m) => UpdateProjectErrorView::DbError(m@),
        }
    }
}

/// What the client is told about the project that was updated.
#[derive(Clone, Copy, Debug, PartialEq, Eq, Structural)]
pub struct UpdateProjectResponse {
    pub id: i32,
}

/// The fields to change. A field left out keeps its stored value.
#[derive(Clone, Debug, PartialEq, Eq)]
pub struct UpdateProjectRequest {
    pub name: Option<String>,
    pub description: Option<String>,
    pub year: Option<i32>,
    pub country: Option<String>,
    pub pictures: Option<Vec<String>>,
    pub videos: Option<Vec<String>>,
}

/// The view of an optional text.
pub open spec fn text_view(s: Option<String>) -> Option<Seq<char>> {
    match s {
        Some(s) => Some(s@),
        None => None,
    }
}

/// The view of an optional list of texts.
pub open spec fn list_view(l: Option<Vec<String>>) -> Option<Seq<Seq<char>>> {
    match l {
        Some(l) => Some(texts(l@)),
        None => None,
    }
}

/// The mathematical content of an [`UpdateProjectRequest`].
pub struct UpdateProjectRequestView {
    pub name: Option<Seq<char>>,
    pub description: Option<Seq<char>>,
    pub year: Option<i32>,
    pub country: Option<Seq<char>>,
    pub pictures: Option<Seq<Seq<char>>>,
    pub videos: Option<Seq<Seq<char>>>,
}

impl View for UpdateProjectRequest {
    type V = UpdateProjectRequestView;

    open spec fn view(&self) -> UpdateProjectRequestView {
        UpdateProjectRequestView {
            name: text_view(self.name),
            description: text_view(self.description),
            year: self.year,
            country: text_view(self.country),
            pictures: list_view(self.pictures),
            videos: list_view(self.videos),
        }
    }
}

/// A stored row after an update, with the files that the update orphaned.
#[derive(Clone, Debug, PartialEq, Eq)]
pub struct Revision {
    pub row: Project,
    /// Pictures that the row referred to before and no longer does. They are
    /// to be removed from storage, as far as that succeeds.
    pub stale_files: Vec<String>,
}

/// The mathematical content of a [`Revision`].
pub struct RevisionView {
    pub row: ProjectView,
    pub stale_files: Seq<Seq<char>>,
}

impl View for Revision {
    type V = RevisionView;

    open spec fn view(&self) -> RevisionView {
        RevisionView { row: self.row@, stale_files: texts(self.stale_files@) }
    }
}

/// `given` if there is one, else `kept`.
pub open spec fn or_kept<T>(given: Option<T>, kept: T) -> T {
    match given {
        Some(v) => v,
        None => kept,
    }
}

/// The row after the update: every field that the request gives takes the
/// given value, every other field keeps its own.
pub open spec fn merged(existing: ProjectView, info: UpdateProjectRequestView) -> ProjectView {
    ProjectView {
        id: existing.id,
        name: or_kept(info.name, existing.name),
        description: or_kept(info.description, existing.description),
        pictures: or_kept(info.pictures, existing.pictures),
        videos: or_kept(info.videos, existing.videos),
        year: or_kept(info.year, existing.year),
        country: or_kept(info.country, existing.country),
        latitude: existing.latitude,
        longitude: existing.longitude,
    }
}

/// The members of `old` that do not occur in `new`, in their order.
pub open spec fn dropped(old: Seq<Seq<char>>, new: Seq<Seq<char>>) -> Seq<Seq<char>>
    decreases old.len(),
{
    if old.len() == 0 {
        Seq::empty()
    } else if new.contains(old.last()) {
        dropped(old.drop_last(), new)
    } else {
        dropped(old.drop_last(), new).push(old.last())
    }
}

/// The pictures that an update orphans: none unless the update replaces the
/// pictures, and then those of the old ones that the new row does not name.
pub open spec fn stale(existing: ProjectView, info: UpdateProjectRequestView) -> Seq<Seq<char>> {
    match info.pictures {
        Some(new) => dropped(existing.pictures, new),
        None => Seq::empty(),
    }
}

/// What an update leads to.
pub open spec fn project_spec(
    existing: Option<ProjectView>,
    project_id: i32,
    info: UpdateProjectRequestView,
) -> Result<RevisionView, UpdateProjectErrorView> {
    match existing {
        None => Err(UpdateProjectErrorView::NoProjectFound(project_id)),
        Some(row) => Ok(RevisionView { row: merged(row, info), stale_files: stale(row, info) }),
    }
}

/// The view of an optional row.
pub open spec fn row_view(row: Option<Project>) -> Option<ProjectView> {
    match row {
        Some(r) => Some(r@),
        None => None,
    }
}

/// The view of the outcome of an update.
pub open spec fn revision_view(r: Result<Revision, UpdateProjectError>) -> Result<
    RevisionView,
    UpdateProjectErrorView,
> {
    match r {
        Ok(v) => Ok(v@),
        Err(e) => Err(e@),
    }
}

/// Whether `name` occurs in `list`.
fn occurs(list: &Vec<String>, name: &String) -> (found: bool)
    ensures
        found == texts(list@).contains(name@),
{
    let mut i: usize = 0;
    while i < list.len()
        invariant
            i <= list.len(),
            forall|j: int| 0 <= j < i ==> texts(list@)[j] != name@,
        decreases list.len() - i,
    {
        if same_text(list[i].as_str(), name.as_str()) {
            assert(texts(list@)[i as int] == name@);
            return true;
        }
        i += 1;
    }
    false
}

/// The members of `old` that do not occur in `new`.
fn drop_kept(old: Vec<String>, new: &Vec<String>) -> (gone: Vec<String>)
    ensures
        texts(gone@) == dropped(texts(old@), texts(new@)),
{
    let ghost all = texts(old@);
    let mut gone: Vec<String> = Vec::new();
    assert(texts(gone@) == Seq::<Seq<char>>::empty());
    for name in it: old
        invariant
            it.seq() == old@,
            all == texts(old@),
            texts(gone@) == dropped(all.take(it.index() as int), texts(new@)),
    {
        let ghost i = it.index() as int;
        proof {
            assert(all.take(i + 1).drop_last() == all.take(i));
            assert(all.take(i + 1).last() == name@);
        }
        if !occurs(new, &name) {
            proof {
                lemma_texts_push(gone@, name);
            }
            gone.push(name);
        }
    }
    assert(all.take(all.len() as int) == all);
    gone
}

/// Merges a partial update into the stored row `existing` of project
/// `project_id`, and lists the pictures it orphans.
pub fn project(existing: Option<Project>, project_id: i32, info: UpdateProjectRequest) -> (r:
    Result<Revision, UpdateProjectError>)
    ensures
        revision_view(r) == project_spec(row_view(existing), project_id, info@),
{
    let row = match existing {
        None => { return Err(UpdateProjectError::NoProjectFound(project_id)); },
        Some(row) => row,
    };
    let ghost before = row@;
    let Project { id, name, description, pictures, videos, year, country, latitude, longitude } =
        row;
    let name = match info.name {
        Some(v) => v,
        None => name,
    };
    let description = match info.description {
        Some(v) => v,
        None => description,
    };
    let year = match info.year {
        Some(v) => v,
        None => year,
    };
    let country = match info.country {
        Some(v) => v,
        None => country,
    };
    let videos = match info.videos {
        Some(v) => v,
        None => videos,
    };
    let (pictures, stale_files) = match info.pictures {
        Some(new) => {
            let gone = drop_kept(pictures, &new);
            (new, gone)
        },
        None => {
            let none: Vec<String> = Vec::new();
            assert(texts(none@) == Seq::<Seq<char>>::empty());
            (pictures, none)
        },
    };
    let revision = Revision {
        row: Project { id, name, description, pictures, videos, year, country, latitude, longitude },
        stale_files,
    };
    assert(revision@.row == merged(before, info@));
    Ok(revision)
}

/// An update that gives only the country changes the country and leaves the
/// name, the description, the year, the pictures and everything else as
/// they were, and orphans no file.
pub proof fn lemma_country_only(existing: ProjectView, country: Seq<char>)
    ensures
        ({
            let info = UpdateProjectRequestView {
                name: None,
                description: None,
                year: None,
                country: Some(country),
                pictures: None,
                videos: None,
            };
            project_spec(Some(existing), existing.id, info) == Ok::<
                RevisionView,
                UpdateProjectErrorView,
            >(
                RevisionView {
                    row: ProjectView { country, ..existing },
                    stale_files: Seq::empty(),
                },
            )
        }),
{
}

/// A field that an update leaves out keeps its stored value.
pub proof fn lemma_unset_fields_kept(existing: ProjectView, info: UpdateProjectRequestView)
    ensures
        info.name is None ==> merged(existing, info).name == existing.name,
        info.description is None ==> merged(existing, info).description == existing.description,
        info.year is None ==> merged(existing, info).year == existing.year,
        info.country is None ==> merged(existing, info).country == existing.country,
        info.pictures is None ==> merged(existing, info).pictures == existing.pictures,
        info.videos is None ==> merged(existing, info).videos == existing.videos,
        merged(existing, info).id == existing.id,
        merged(existing, info).latitude == existing.latitude,
        merged(existing, info).longitude == existing.longitude,
{
}

/// The text that names project `id` as missing.
pub open spec fn no_project_message(id: i32) -> Seq<char> {
    "No project id("@ + decimal_spec(id as int) + ") found"@
}

/// The text that names project `id` as missing.
pub fn no_project_found(id: i32) -> (m: String)
    ensures
        m@ == no_project_message(id),
{
    let mut m = joined("No project id(", decimal(id).as_str());
    m.append(") found");
    m
}

impl UpdateProjectErrorView {
    /// The error in words.
    pub open spec fn message(self) -> Seq<char> {
        match self {
            UpdateProjectErrorView::NoProjectFound(id) => no_project_message(id),
            UpdateProjectErrorView::DbError(m) => "Db error: "@ + m,
        }
    }

    /// What the client is sent: always a server error, with the error in
    /// words.
    pub open spec fn reply(self) -> ReplyView {
        ReplyView { status: 500, body: "There was a problem: "@ + self.message() }
    }
}

impl UpdateProjectError {
    /// The error in words.
    pub fn message(&self) -> (m: String)
        ensures
            m@ == self@.message(),
    {
        match self {
            UpdateProjectError::NoProjectFound(id) => no_project_found(*id),
            UpdateProjectError::DbError(m) => joined("Db error: ", m.as_str()),
        }
    }

    /// What the client is sent for this error.
    pub fn into_response(&self) -> (reply: Reply)
        ensures
            reply@ == self@.reply(),
    {
        server_error("There was a problem: ", self.message().as_str())
    }
}

} // verus!
