//! Deleting a project's row by its identifier.

use crate::reply::{joined, Reply, ReplyView};
use vstd::prelude::*;
use vstd::string::*;

verus! {

/// Why a project could not be deleted.
#[derive(Clone, Debug, PartialEq, Eq)]
pub enum DeleteProjectError {
    /// No project has this identifier.
    NotFound,
    /// The store refused.
    DbError(String),
}

/// The answer to a deletion, from the number of rows that the store says
/// it removed: none removed means there was no such project.
pub fn delete(rows_affected: u64) -> (r: Result<(), DeleteProjectError>)
    ensures
        r == if rows_affected == 0 {
            Err::<(), DeleteProjectError>(DeleteProjectError::NotFound)
        } else {
            Ok::<(), DeleteProjectError>(())
        },
{
    if rows_affected == 0 {
        Err(DeleteProjectError::NotFound)
    } else {
        Ok(())
    }
}

/// The mathematical content of a [`DeleteProjectError`].
pub enum DeleteProjectErrorView {
    NotFound,
    DbError(Seq<char>),
}

impl View for DeleteProjectError {
    type V = DeleteProjectErrorView;

    open spec fn view(&self) -> DeleteProjectErrorView {
        match self {
            DeleteProjectError::NotFound => DeleteProjectErrorView::NotFound,
            DeleteProjectError::DbError(m) => DeleteProjectErrorView::DbError(m@),
        }
    }
}

impl DeleteProjectErrorView {
    /// The error in words.
    pub open spec fn message(self) -> Seq<char> {
        match self {
            DeleteProjectErrorView::NotFound => "Project not found"@,
            DeleteProjectErrorView::DbError(m) => "Database error: "@ + m,
        }
    }

    /// What the client is sent: always a server error, with the error in
    /// words.
    pub open spec fn reply(self) -> ReplyView {
        ReplyView { status: 500, body: self.message() }
    }
}

impl DeleteProjectError {
    /// The error in words.
    pub fn message(&self) -> (m: String)
        ensures
            m@ == self@.message(),
    {
        match self {
            DeleteProjectError::NotFound => "Project not found".to_string(),
            DeleteProjectError::DbError(m) => joined("Database error: ", m.as_str()),
        }
    }

    /// What the client is sent for this error.
    pub fn into_response(&self) -> (reply: Reply)
        ensures
            reply@ == self@.reply(),
    {
        Reply { status: 500, body: self.message() }
    }
}

} // verus!
