//! Deleting a project and the files it refers to.

use crate::project::{lemma_texts_push, texts, Project, ProjectView};
use crate::projects::update::{no_project_found, no_project_message, row_view};
use crate::reply::{joined, Reply, ReplyView};
use vstd::prelude::*;
use vstd::string::*;

verus! {

/// Why a deletion failed.
#[derive(Clone, Debug, PartialEq, Eq)]
pub enum DeleteError {
    /// There is no such file in storage.
    NotFound,
    /// The store refused.
    DbError(String),
    /// No project has this identifier.
    NoProjectFound(i32),
}

/// The mathematical content of a [`DeleteError`].
pub enum DeleteErrorView {
    NotFound,
    DbError(Seq<char>),
    NoProjectFound(i32),
}

impl View for DeleteError {
    type V = DeleteErrorView;

    open spec fn view(&self) -> DeleteErrorView {
        match self {
            DeleteError::NotFound => DeleteErrorView::NotFound,
            DeleteError::DbError(m) => DeleteErrorView::DbError(m@),
            DeleteError::NoProjectFound(id) => DeleteErrorView::NoProjectFound(*id),
        }
    }
}

/// The files to remove from storage with a project: its pictures, then its
/// videos.
pub open spec fn project_spec(existing: Option<ProjectView>, id: i32) -> Result<
    Seq<Seq<char>>,
    DeleteErrorView,
> {
    match existing {
        None => Err(DeleteErrorView::NoProjectFound(id)),
        Some(row) => Ok(row.pictures + row.videos),
    }
}

/// The view of the outcome of planning a deletion.
pub open spec fn files_view(r: Result<Vec<String>, DeleteError>) -> Result<
    Seq<Seq<char>>,
    DeleteErrorView,
> {
    match r {
        Ok(files) => Ok(texts(files@)),
        Err(e) => Err(e@),
    }
}

/// Plans the deletion of project `id`, whose stored row is `existing`: the
/// files to remove before the row is deleted. Removing them is best effort;
/// the row is deleted whether or not they could be removed.
pub fn project(existing: Option<Project>, id: i32) -> (r: Result<Vec<String>, DeleteError>)
    ensures
        files_view(r) == project_spec(row_view(existing), id),
{
    let row = match existing {
        None => { return Err(DeleteError::NoProjectFound(id)); },
        Some(row) => row,
    };
    let ghost pictures = texts(row.pictures@);
    let ghost videos = texts(row.videos@);
    let mut files = row.pictures;
    for name in it: row.videos
        invariant
            it.seq() == row.videos@,
            videos == texts(row.videos@),
            texts(files@) == pictures + videos.take(it.index() as int),
    {
        proof {
            lemma_texts_push(files@, name);
            assert(videos.take(it.index() as int + 1) == videos.take(it.index() as int).push(
                name@,
            ));
        }
        files.push(name);
    }
    assert(videos.take(videos.len() as int) == videos);
    Ok(files)
}

/// The answer to a request to remove one file from storage: any failure to
/// remove it is reported as the file not being there.
pub fn file(removed: bool) -> (r: Result<(), DeleteError>)
    ensures
        r == if removed {
            Ok::<(), DeleteError>(())
        } else {
            Err::<(), DeleteError>(DeleteError::NotFound)
        },
{
    if removed {
        Ok(())
    } else {
        Err(DeleteError::NotFound)
    }
}

impl DeleteErrorView {
    /// The error in words.
    pub open spec fn message(self) -> Seq<char> {
        match self {
            DeleteErrorView::NotFound => "Not found"@,
            DeleteErrorView::DbError(m) => "Database error: "@ + m,
            DeleteErrorView::NoProjectFound(id) => no_project_message(id),
        }
    }

    /// What the client is sent: not found for a missing file, a server
    /// error otherwise, with the error in words.
    pub open spec fn reply(self) -> ReplyView {
        ReplyView {
            status: if self is NotFound {
                404
            } else {
                500
            },
            body: "Error: "@ + self.message(),
        }
    }
}

impl DeleteError {
    /// The error in words.
    pub fn message(&self) -> (m: String)
        ensures
            m@ == self@.message(),
    {
        match self {
            DeleteError::NotFound => "Not found".to_string(),
            DeleteError::DbError(m) => joined("Database error: ", m.as_str()),
            DeleteError::NoProjectFound(id) => no_project_found(*id),
        }
    }

    /// What the client is sent for this error.
    pub fn into_response(&self) -> (reply: Reply)
        ensures
            reply@ == self@.reply(),
    {
        let body = joined("Error: ", self.message().as_str());
        match self {
            DeleteError::NotFound => Reply { status: 404, body },
            _ => Reply { status: 500, body },
        }
    }
}

} // verus!
