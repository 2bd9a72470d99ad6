//! The gallery entry as the store holds it.

use crate::pic_info::Degrees;
use vstd::prelude::*;

verus! {

/// The texts of a list of strings.
pub open spec fn texts(list: Seq<String>) -> Seq<Seq<char>> {
    Seq::new(list.len(), |i: int| list[i]@)
}

/// Appending a string to a list appends its text to the list's texts.
pub proof fn lemma_texts_push(list: Seq<String>, s: String)
    ensures
        texts(list.push(s)) == texts(list).push(s@),
{
    assert(texts(list.push(s)) =~= texts(list).push(s@));
}

/// A gallery entry that has not been stored yet, and so has no identifier.
#[derive(Clone, Debug, PartialEq, Eq)]
pub struct NewProject {
    pub name: String,
    pub description: String,
    pub pictures: Vec<String>,
    pub videos: Vec<String>,
    pub year: i32,
    pub country: String,
    pub latitude: Degrees,
    pub longitude: Degrees,
}

/// The mathematical content of a [`NewProject`].
pub struct NewProjectView {
    pub name: Seq<char>,
    pub description: Seq<char>,
    pub pictures: Seq<Seq<char>>,
    pub videos: Seq<Seq<char>>,
    pub year: i32,
    pub country: Seq<char>,
    pub latitude: Degrees,
    pub longitude: Degrees,
}

impl View for NewProject {
    type V = NewProjectView;

    open spec fn view(&self) -> NewProjectView {
        NewProjectView {
            name: self.name@,
            description: self.description@,
            pictures: texts(self.pictures@),
            videos: texts(self.videos@),
            year: self.year,
            country: self.country@,
            latitude: self.latitude,
            longitude: self.longitude,
        }
    }
}

/// A stored gallery entry.
#[derive(Clone, Debug, PartialEq, Eq)]
pub struct Project {
    pub id: i32,
    pub name: String,
    pub description: String,
    pub pictures: Vec<String>,
    pub videos: Vec<String>,
    pub year: i32,
    pub country: String,
    pub latitude: Degrees,
    pub longitude: Degrees,
}

/// The mathematical content of a [`Project`].
pub struct ProjectView {
    pub id: i32,
    pub name: Seq<char>,
    pub description: Seq<char>,
    pub pictures: Seq<Seq<char>>,
    pub videos: Seq<Seq<char>>,
    pub year: i32,
    pub country: Seq<char>,
    pub latitude: Degrees,
    pub longitude: Degrees,
}

impl View for Project {
    type V = ProjectView;

    open spec fn view(&self) -> ProjectView {
        ProjectView {
            id: self.id,
            name: self.name@,
            description: self.description@,
            pictures: texts(self.pictures@),
            videos: texts(self.videos@),
            year: self.year,
            country: self.country@,
            latitude: self.latitude,
            longitude: self.longitude,
        }
    }
}

/// The stored form of `new` under identifier `id`.
pub open spec fn stored(id: i32, new: NewProjectView) -> ProjectView {
    ProjectView {
        id,
        name: new.name,
        description: new.description,
        pictures: new.pictures,
        videos: new.videos,
        year: new.year,
        country: new.country,
        latitude: new.latitude,
        longitude: new.longitude,
    }
}

impl NewProject {
    /// The row that the store holds once it has assigned `id`.
    pub fn with_id(self, id: i32) -> (row: Project)
        ensures
            row@ == stored(id, self@),
    {
        Project {
            id,
            name: self.name,
            description: self.description,
            pictures: self.pictures,
            videos: self.videos,
            year: self.year,
            country: self.country,
            latitude: self.latitude,
            longitude: self.longitude,
        }
    }
}

} // verus!
