//! Updating a project from a multipart submission that carries a JSON
//! descriptor of the fields to change.

use crate::multipart::field::{name_view, role_of, role_spec, FieldRole};
use crate::project::{Project, ProjectView};
use crate::projects::update::{or_kept, row_view, text_view};
use crate::reply::{joined, server_error, Reply, ReplyView};
use crate::text::{decimal, decimal_spec};
use vstd::prelude::*;
use vstd::string::*;

verus! {

/// Why a project could not be updated.
#[derive(Clone, Debug, PartialEq, Eq)]
pub enum UpdateProjectError {
    /// The multipart stream was malformed.
    MultipartError(String),
    /// The descriptor is not the JSON that is expected.
    DeserializeError(String),
    /// A part came without a field name.
    NoFieldName,
    /// No part was named `json`.
    NoJsonPart,
    /// A required field is missing.
    MissingInformation(String),
    /// The store refused, or holds no such project.
    DbError(String),
}

/// The mathematical content of an [`UpdateProjectError`].
pub enum UpdateProjectErrorView {
    MultipartError(Seq<char>),
    DeserializeError(Seq<char>),
    NoFieldName,
    NoJsonPart,
    MissingInformation(Seq<char>),
    DbError(Seq<char>),
}

impl View for UpdateProjectError {
    type V = UpdateProjectErrorView;

    open spec fn view(&self) -> UpdateProjectErrorView {
        match self {
            UpdateProjectError::MultipartError(m) => UpdateProjectErrorView::MultipartError(m@),
            UpdateProjectError::DeserializeError(m) => UpdateProjectErrorView::DeserializeError(
                m@,
            ),
            UpdateProjectError::NoFieldName => UpdateProjectErrorView::NoFieldName,
            UpdateProjectError::NoJsonPart => UpdateProjectErrorView::NoJsonPart,
            UpdateProjectError::MissingInformation(f) => UpdateProjectErrorView::MissingInformation(
                f@,
            ),
            UpdateProjectError::DbError(m) => UpdateProjectErrorView::DbError(m@),
        }
    }
}

/// What the client is told about the project that was updated.
#[derive(Clone, Debug, PartialEq, Eq)]
pub struct UpdateProjectResponse {
    pub id: i32,
    pub year: i32,
    pub country: String,
}

impl UpdateProjectResponse {
    /// Reports the stored row back to the client.
    pub fn from_row(row: Project) -> (response: UpdateProjectResponse)
        ensures
            response.id == row.id,
            response.year == row.year,
            response.country@ == row.country@,
    {
        UpdateProjectResponse { id: row.id, year: row.year, country: row.country }
    }
}

/// The fields to change. A field left out keeps its stored value.
#[derive(Clone, Debug, PartialEq, Eq)]
pub struct UpdateProjectRequest {
    pub name: Option<String>,
    pub description: Option<String>,
    pub year: Option<i32>,
    pub country: Option<String>,
}

/// The mathematical content of an [`UpdateProjectRequest`].
pub struct UpdateProjectRequestView {
    pub name: Option<Seq<char>>,
    pub description: Option<Seq<char>>,
    pub year: Option<i32>,
    pub country: Option<Seq<char>>,
}

impl View for UpdateProjectRequest {
    type V = UpdateProjectRequestView;

    open spec fn view(&self) -> UpdateProjectRequestView {
        UpdateProjectRequestView {
            name: text_view(self.name),
            description: text_view(self.description),
            year: self.year,
            country: text_view(self.country),
        }
    }
}

/// The view of an optional descriptor.
pub open spec fn request_view(request: Option<UpdateProjectRequest>) -> Option<
    UpdateProjectRequestView,
> {
    match request {
        Some(r) => Some(r@),
        None => None,
    }
}

/// The role of a field of the submission. A field without a name is refused.
pub fn field_role(name: Option<&str>) -> (role: Result<FieldRole, UpdateProjectError>)
    ensures
        match role_spec(name_view(name)) {
            Some(found) => role == Ok::<FieldRole, UpdateProjectError>(found),
            None => role == Err::<FieldRole, UpdateProjectError>(UpdateProjectError::NoFieldName),
        },
{
    match role_of(name) {
        Some(found) => Ok(found),
        None => Err(UpdateProjectError::NoFieldName),
    }
}

/// The row after the update: every field that the descriptor gives takes the
/// given value, every other field keeps its own.
pub open spec fn merged(existing: ProjectView, info: UpdateProjectRequestView) -> ProjectView {
    ProjectView {
        name: or_kept(info.name, existing.name),
        description: or_kept(info.description, existing.description),
        year: or_kept(info.year, existing.year),
        country: or_kept(info.country, existing.country),
        ..existing
    }
}

/// What the store says when it holds no project `project_id`.
pub open spec fn not_found_message(project_id: i32) -> Seq<char> {
    "RecordNotFound Error: Project with id "@ + decimal_spec(project_id as int) + " not found"@
}

/// What an update leads to: the descriptor must be there, then the project.
pub open spec fn update_spec(
    existing: Option<ProjectView>,
    project_id: i32,
    info: Option<UpdateProjectRequestView>,
) -> Result<ProjectView, UpdateProjectErrorView> {
    match info {
        None => Err(UpdateProjectErrorView::NoJsonPart),
        Some(info) => match existing {
            None => Err(UpdateProjectErrorView::DbError(not_found_message(project_id))),
            Some(row) => Ok(merged(row, info)),
        },
    }
}

/// The view of the outcome of an update.
pub open spec fn update_view(r: Result<Project, UpdateProjectError>) -> Result<
    ProjectView,
    UpdateProjectErrorView,
> {
    match r {
        Ok(row) => Ok(row@),
        Err(e) => Err(e@),
    }
}

/// Merges the descriptor of a submission into the stored row `existing` of
/// project `project_id`.
pub fn update(
    existing: Option<Project>,
    project_id: i32,
    project_info: Option<UpdateProjectRequest>,
) -> (r: Result<Project, UpdateProjectError>)
    ensures
        update_view(r) == update_spec(row_view(existing), project_id, request_view(project_info)),
{
    let info = match project_info {
        None => { return Err(UpdateProjectError::NoJsonPart); },
        Some(info) => info,
    };
    let row = match existing {
        None => {
            let mut message = String::from_str("RecordNotFound Error: Project with id ");
            message.append(decimal(project_id).as_str());
            message.append(" not found");
            return Err(UpdateProjectError::DbError(message));
        },
        Some(row) => row,
    };
    let Project { id, name, description, pictures, videos, year, country, latitude, longitude } =
        row;
    let name = match info.name {
        Some(v) => v,
        None => name,
    };
    let description = match info.description {
        Some(v) => v,
        None => description,
    };
    let year = match info.year {
        Some(v) => v,
        None => year,
    };
    let country = match info.country {
        Some(v) => v,
        None => country,
    };
    Ok(Project { id, name, description, pictures, videos, year, country, latitude, longitude })
}

/// An update that gives only the country changes the country and leaves
/// everything else as it was.
pub proof fn lemma_country_only(existing: ProjectView, country: Seq<char>)
    ensures
        update_spec(
            Some(existing),
            existing.id,
            Some(
                UpdateProjectRequestView {
                    name: None,
                    description: None,
                    year: None,
                    country: Some(country),
                },
            ),
        ) == Ok::<ProjectView, UpdateProjectErrorView>(ProjectView { country, ..existing }),
{
}

impl UpdateProjectErrorView {
    /// The error in words.
    pub open spec fn message(self) -> Seq<char> {
        match self {
            UpdateProjectErrorView::MultipartError(m) => m,
            UpdateProjectErrorView::DeserializeError(m) => m,
            UpdateProjectErrorView::NoFieldName => "No field name supplied"@,
            UpdateProjectErrorView::NoJsonPart => "No json field supplied, use `json` as field name"@,
            UpdateProjectErrorView::MissingInformation(f) => "One of the fields is missing: "@ + f,
            UpdateProjectErrorView::DbError(m) => "Db error: "@ + m,
        }
    }

    /// What the client is sent: always a server error, with the error in
    /// words.
    pub open spec fn reply(self) -> ReplyView {
        ReplyView { status: 500, body: "There was a problem: "@ + self.message() }
    }
}

impl UpdateProjectError {
    /// The error in words.
    pub fn message(&self) -> (m: String)
        ensures
            m@ == self@.message(),
    {
        match self {
            UpdateProjectError::MultipartError(m) => m.clone(),
            UpdateProjectError::DeserializeError(m) => m.clone(),
            UpdateProjectError::NoFieldName => "No field name supplied".to_string(),
            UpdateProjectError::NoJsonPart => "No json field supplied, use `json` as field name".to_string(),
            UpdateProjectError::MissingInformation(f) => joined(
                "One of the fields is missing: ",
                f.as_str(),
            ),
            UpdateProjectError::DbError(m) => joined("Db error: ", m.as_str()),
        }
    }

    /// What the client is sent for this error.
    pub fn into_response(&self) -> (reply: Reply)
        ensures
            reply@ == self@.reply(),
    {
        server_error("There was a problem: ", self.message().as_str())
    }
}

} // verus!
