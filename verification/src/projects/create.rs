//! Creating a project from a JSON request that names files already in
//! storage.

use crate::pic_info::{
    first_error, geo_field, geo_view, get_meta_for, get_meta_for_spec, outcome_views, resolve_geo,
    resolve_geo_spec, resolve_year, resolve_year_spec, successes, year_field, GeoData, GeoDataView,
    PicInfo, PicInfoError, PicInfoErrorView, PicInfoView,
};
use crate::project::{stored, texts, NewProject, NewProjectView, Project};
use crate::reply::{joined, server_error, Reply, ReplyView};
use vstd::prelude::*;
use vstd::string::*;

verus! {

/// Why a project could not be created.
#[derive(Clone, Debug, PartialEq, Eq)]
pub enum ProjectError {
    /// The request is not the JSON that is expected.
    DeserializeError(String),
    /// A required field was neither given nor found in the pictures.
    MissingInformation(String),
    /// The metadata of a picture could not be read.
    PicParseError(PicInfoError),
    /// The store refused.
    DbError(String),
}

/// The mathematical content of a [`ProjectError`].
pub enum ProjectErrorView {
    DeserializeError(Seq<char>),
    MissingInformation(Seq<char>),
    PicParseError(PicInfoErrorView),
    DbError(Seq<char>),
}

impl View for ProjectError {
    type V = ProjectErrorView;

    open spec fn view(&self) -> ProjectErrorView {
        match self {
            ProjectError::DeserializeError(m) => ProjectErrorView::DeserializeError(m@),
            ProjectError::MissingInformation(f) => ProjectErrorView::MissingInformation(f@),
            ProjectError::PicParseError(e) => ProjectErrorView::PicParseError(e@),
            ProjectError::DbError(m) => ProjectErrorView::DbError(m@),
        }
    }
}

/// What the client is told about the project that was created.
#[derive(Clone, Debug, PartialEq, Eq)]
pub struct ProjectResponse {
    pub id: i32,
    pub year: i32,
    pub country: String,
    pub pictures: Vec<String>,
    pub videos: Vec<String>,
}

impl ProjectResponse {
    /// Reports the stored row back to the client.
    pub fn from_row(row: Project) -> (response: ProjectResponse)
        ensures
            response.id == row.id,
            response.year == row.year,
            response.country@ == row.country@,
            texts(response.pictures@) == texts(row.pictures@),
            texts(response.videos@) == texts(row.videos@),
    {
        ProjectResponse {
            id: row.id,
            year: row.year,
            country: row.country,
            pictures: row.pictures,
            videos: row.videos,
        }
    }
}

/// The description of a project to create. The pictures and videos are the
/// names of files in storage. The year and the place may be left out, to be
/// inferred from the pictures.
#[derive(Clone, Debug, PartialEq, Eq)]
pub struct ProjectRequest {
    pub name: String,
    pub description: String,
    pub pictures: Vec<String>,
    pub videos: Vec<String>,
    pub year: Option<i32>,
    pub geo_data: Option<GeoData>,
}

/// The mathematical content of a [`ProjectRequest`].
pub struct ProjectRequestView {
    pub name: Seq<char>,
    pub description: Seq<char>,
    pub pictures: Seq<Seq<char>>,
    pub videos: Seq<Seq<char>>,
    pub year: Option<i32>,
    pub geo_data: Option<GeoDataView>,
}

impl View for ProjectRequest {
    type V = ProjectRequestView;

    open spec fn view(&self) -> ProjectRequestView {
        ProjectRequestView {
            name: self.name@,
            description: self.description@,
            pictures: texts(self.pictures@),
            videos: texts(self.videos@),
            year: self.year,
            geo_data: geo_view(self.geo_data),
        }
    }
}

/// The view of the outcome of a request.
pub open spec fn project_view(r: Result<NewProject, ProjectError>) -> Result<
    NewProjectView,
    ProjectErrorView,
> {
    match r {
        Ok(row) => Ok(row@),
        Err(e) => Err(e@),
    }
}

/// The row that a request leads to, given what the metadata extraction of
/// each of its pictures came to.
///
/// A failed extraction fails the request. The year is the request's, else
/// that of the first capture time among the pictures; the place likewise. The
/// row lists the pictures and videos as the request names them.
pub open spec fn project_spec(
    info: ProjectRequestView,
    metas: Seq<Result<PicInfoView, PicInfoErrorView>>,
) -> Result<NewProjectView, ProjectErrorView> {
    match get_meta_for_spec(metas) {
        Err(e) => Err(ProjectErrorView::PicParseError(e)),
        Ok(found) => if resolve_year_spec(info.year, found.date_time) is None {
            Err(ProjectErrorView::MissingInformation(year_field()))
        } else if resolve_geo_spec(info.geo_data, found.geo_data) is None {
            Err(ProjectErrorView::MissingInformation(geo_field()))
        } else {
            let geo = resolve_geo_spec(info.geo_data, found.geo_data)->0;
            Ok(
                NewProjectView {
                    name: info.name,
                    description: info.description,
                    pictures: info.pictures,
                    videos: info.videos,
                    year: resolve_year_spec(info.year, found.date_time)->0,
                    country: geo.country,
                    latitude: geo.latitude,
                    longitude: geo.longitude,
                },
            )
        },
    }
}

/// Builds the row for a project from the request and from the metadata of
/// the pictures it names, given in the order of the pictures.
pub fn project(info: ProjectRequest, metas: Vec<Result<PicInfo, PicInfoError>>) -> (r: Result<
    NewProject,
    ProjectError,
>)
    ensures
        project_view(r) == project_spec(info@, outcome_views(metas@)),
{
    let found = match get_meta_for(metas) {
        Err(e) => { return Err(ProjectError::PicParseError(e)); },
        Ok(found) => found,
    };
    let year = match resolve_year(info.year, found.date_time) {
        None => { return Err(ProjectError::MissingInformation(String::from_str("year"))); },
        Some(year) => year,
    };
    let geo = match resolve_geo(info.geo_data, found.geo_data) {
        None => { return Err(ProjectError::MissingInformation(String::from_str("geo data"))); },
        Some(geo) => geo,
    };
    Ok(
        NewProject {
            name: info.name,
            description: info.description,
            pictures: info.pictures,
            videos: info.videos,
            year,
            country: geo.country,
            latitude: geo.latitude,
            longitude: geo.longitude,
        },
    )
}

/// A request that states the year and the place has them stored as stated,
/// whatever the pictures say, as long as their metadata could be read.
pub proof fn lemma_explicit_fields_stored(
    info: ProjectRequestView,
    metas: Seq<Result<PicInfoView, PicInfoErrorView>>,
    id: i32,
)
    requires
        info.year is Some,
        info.geo_data is Some,
        get_meta_for_spec(metas) is Ok,
    ensures
        project_spec(info, metas) matches Ok(new) && ({
            let row = stored(id, new);
            &&& row.year == info.year->0
            &&& row.country == info.geo_data->0.country
            &&& row.latitude == info.geo_data->0.latitude
            &&& row.longitude == info.geo_data->0.longitude
        }),
{
}

/// Without a year in the request, the year stored is that of the first
/// picture that carries a capture time.
pub proof fn lemma_year_inferred(
    info: ProjectRequestView,
    metas: Seq<Result<PicInfoView, PicInfoErrorView>>,
    k: int,
)
    requires
        info.year is None,
        info.geo_data is Some,
        first_error(metas) is None,
        0 <= k < successes(metas).len(),
        successes(metas)[k].date_time is Some,
        forall|j: int| 0 <= j < k ==> successes(metas)[j].date_time is None,
    ensures
        project_spec(info, metas) matches Ok(new) && new.year
            == successes(metas)[k].date_time->0.year,
{
    crate::pic_info::lemma_first_capture_at(successes(metas), k);
}

/// A request without pictures that leaves out the year or the place is
/// refused for missing information.
pub proof fn lemma_nothing_to_infer_from(info: ProjectRequestView)
    requires
        info.year is None || info.geo_data is None,
    ensures
        project_spec(info, Seq::empty()) matches Err(e) && e is MissingInformation,
{
}

impl ProjectErrorView {
    /// The error in words.
    pub open spec fn message(self) -> Seq<char> {
        match self {
            ProjectErrorView::DeserializeError(m) => m,
            ProjectErrorView::MissingInformation(f) => "One of the fields is missing: "@ + f,
            ProjectErrorView::PicParseError(e) =>
                "Error parsing metadata of one of the pictures, perhaps it is not a picture?| Error: "@
                    + e.message(),
            ProjectErrorView::DbError(m) => "Db error: "@ + m,
        }
    }

    /// What the client is sent: always a server error, with the error in
    /// words.
    pub open spec fn reply(self) -> ReplyView {
        ReplyView { status: 500, body: "There was a problem: "@ + self.message() }
    }
}

impl ProjectError {
    /// The error in words.
    pub fn message(&self) -> (m: String)
        ensures
            m@ == self@.message(),
    {
        match self {
            ProjectError::DeserializeError(m) => m.clone(),
            ProjectError::MissingInformation(f) => joined(
                "One of the fields is missing: ",
                f.as_str(),
            ),
            ProjectError::PicParseError(e) => joined(
                "Error parsing metadata of one of the pictures, perhaps it is not a picture?| Error: ",
                e.message().as_str(),
            ),
            ProjectError::DbError(m) => joined("Db error: ", m.as_str()),
        }
    }

    /// What the client is sent for this error.
    pub fn into_response(&self) -> (reply: Reply)
        ensures
            reply@ == self@.reply(),
    {
        server_error("There was a problem: ", self.message().as_str())
    }
}

} // verus!
