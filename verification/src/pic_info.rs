//! What is learnt from a picture: when it was taken and where.

use crate::reply::joined;
use crate::text::{chars_of, string_of, trim, trim_spec};
use crate::trusted::{json_string_member, json_string_member_of};
use vstd::prelude::*;
use vstd::string::*;

verus! {

/// A moment on the calendar, as a camera records it: no zone, whole seconds.
#[derive(Clone, Copy, Debug, PartialEq, Eq, Structural)]
pub struct CaptureTime {
    pub year: i32,
    pub month: u32,
    pub day: u32,
    pub hour: u32,
    pub minute: u32,
    pub second: u32,
}

impl CaptureTime {
    /// The fields are in the ranges of the calendar and the clock.
    pub open spec fn wf(self) -> bool {
        &&& 1 <= self.month <= 12
        &&& 1 <= self.day <= 31
        &&& self.hour <= 23
        &&& self.minute <= 59
        &&& self.second <= 59
    }
}

/// An angle in decimal degrees (WGS84), held as the bit pattern of its IEEE 754
/// double-precision value. The library carries such values and never computes
/// with them.
#[derive(Clone, Copy, Debug, PartialEq, Eq, Structural)]
pub struct Degrees {
    pub bits: u64,
}

/// A place: the country and the coordinates it was resolved from.
#[derive(Clone, Debug, PartialEq, Eq)]
pub struct GeoData {
    pub country: String,
    pub latitude: Degrees,
    pub longitude: Degrees,
}

/// The mathematical content of a [`GeoData`].
pub struct GeoDataView {
    pub country: Seq<char>,
    pub latitude: Degrees,
    pub longitude: Degrees,
}

impl View for GeoData {
    type V = GeoDataView;

    open spec fn view(&self) -> GeoDataView {
        GeoDataView { country: self.country@, latitude: self.latitude, longitude: self.longitude }
    }
}

/// The view of an optional place.
pub open spec fn geo_view(geo: Option<GeoData>) -> Option<GeoDataView> {
    match geo {
        Some(g) => Some(g@),
        None => None,
    }
}

/// Why a picture gave no metadata.
#[derive(Clone, Debug, PartialEq, Eq)]
pub enum PicInfoError {
    /// The bytes are not an image container whose metadata can be read.
    ParseError(String),
    /// The reverse geocoder could not be reached or answered nonsense.
    CountryFetchError(String),
}

/// The mathematical content of a [`PicInfoError`].
pub enum PicInfoErrorView {
    ParseError(Seq<char>),
    CountryFetchError(Seq<char>),
}

impl View for PicInfoError {
    type V = PicInfoErrorView;

    open spec fn view(&self) -> PicInfoErrorView {
        match self {
            PicInfoError::ParseError(m) => PicInfoErrorView::ParseError(m@),
            PicInfoError::CountryFetchError(m) => PicInfoErrorView::CountryFetchError(m@),
        }
    }
}

/// The metadata of one picture. Either part may be missing.
#[derive(Clone, Debug, PartialEq, Eq)]
pub struct PicInfo {
    pub date_time: Option<CaptureTime>,
    pub geo_data: Option<GeoData>,
}

/// The mathematical content of a [`PicInfo`].
pub struct PicInfoView {
    pub date_time: Option<CaptureTime>,
    pub geo_data: Option<GeoDataView>,
}

impl View for PicInfo {
    type V = PicInfoView;

    open spec fn view(&self) -> PicInfoView {
        PicInfoView { date_time: self.date_time, geo_data: geo_view(self.geo_data) }
    }
}

/// The member of the geocoder's answer that holds the country's name.
pub open spec fn country_key() -> Seq<char> {
    "countryName"@
}

/// The name reported when the geocoder's answer names no country.
pub open spec fn unknown_country() -> Seq<char> {
    "Unknown"@
}

/// The country that the geocoder's answer `body` names: the text of its
/// `countryName` member without surrounding white space, `Unknown` where
/// there is no such text, and the parser's complaint where `body` is not JSON.
pub open spec fn country_name_spec(body: Seq<u8>) -> Result<Seq<char>, Seq<char>> {
    match json_string_member_of(body, country_key()) {
        Ok(Some(name)) => Ok(trim_spec(name)),
        Ok(None) => Ok(unknown_country()),
        Err(message) => Err(message),
    }
}

/// The view of a lookup outcome.
pub open spec fn text_result_view(r: Result<String, String>) -> Result<Seq<char>, Seq<char>> {
    match r {
        Ok(s) => Ok(s@),
        Err(e) => Err(e@),
    }
}

/// Reads the country's name out of the reverse geocoder's JSON answer.
pub fn country_name(body: &[u8]) -> (r: Result<String, String>)
    ensures
        text_result_view(r) == country_name_spec(body@),
{
    match json_string_member(body, "countryName") {
        Ok(Some(name)) => {
            let trimmed = trim(&chars_of(name.as_str()));
            Ok(string_of(&trimmed))
        },
        Ok(None) => Ok(String::from_str("Unknown")),
        Err(message) => Err(message),
    }
}

/// What came of asking the reverse geocoder: the body of its answer, or why
/// there is none.
#[derive(Clone, Debug, PartialEq, Eq)]
pub enum GeoResponse {
    Body(Vec<u8>),
    Unreachable(String),
}

/// The place that the geocoder's response resolves the coordinates to.
pub open spec fn from_latlong_spec(
    latitude: Degrees,
    longitude: Degrees,
    response: GeoResponse,
) -> Result<GeoDataView, PicInfoErrorView> {
    match response {
        GeoResponse::Body(body) => match country_name_spec(body@) {
            Ok(country) => Ok(GeoDataView { country, latitude, longitude }),
            Err(message) => Err(PicInfoErrorView::CountryFetchError(message)),
        },
        GeoResponse::Unreachable(message) => Err(PicInfoErrorView::CountryFetchError(message@)),
    }
}

/// The view of a resolution outcome.
pub open spec fn geo_result_view(r: Result<GeoData, PicInfoError>) -> Result<
    GeoDataView,
    PicInfoErrorView,
> {
    match r {
        Ok(g) => Ok(g@),
        Err(e) => Err(e@),
    }
}

impl GeoData {
    /// Turns the geocoder's response for the given coordinates into a place,
    /// or into the error that ends the extraction.
    pub fn from_latlong(latitude: Degrees, longitude: Degrees, response: GeoResponse) -> (r:
        Result<GeoData, PicInfoError>)
        ensures
            geo_result_view(r) == from_latlong_spec(latitude, longitude, response),
    {
        match response {
            GeoResponse::Body(body) => match country_name(body.as_slice()) {
                Ok(country) => Ok(GeoData { country, latitude, longitude }),
                Err(message) => Err(PicInfoError::CountryFetchError(message)),
            },
            GeoResponse::Unreachable(message) => Err(PicInfoError::CountryFetchError(message)),
        }
    }
}

/// The views of a list of metadata records.
pub open spec fn info_views(infos: Seq<PicInfo>) -> Seq<PicInfoView> {
    Seq::new(infos.len(), |i: int| infos[i]@)
}

/// The capture time of the first record that has one.
pub open spec fn first_capture(infos: Seq<PicInfoView>) -> Option<CaptureTime>
    decreases infos.len(),
{
    if infos.len() == 0 {
        None
    } else {
        match first_capture(infos.drop_last()) {
            Some(t) => Some(t),
            None => infos.last().date_time,
        }
    }
}

/// The place of the first record that has one.
pub open spec fn first_place(infos: Seq<PicInfoView>) -> Option<GeoDataView>
    decreases infos.len(),
{
    if infos.len() == 0 {
        None
    } else {
        match first_place(infos.drop_last()) {
            Some(g) => Some(g),
            None => infos.last().geo_data,
        }
    }
}

/// `first_capture` finds the earliest record that has a capture time: if
/// record `k` has one and no earlier record does, that is the one returned.
pub proof fn lemma_first_capture_at(infos: Seq<PicInfoView>, k: int)
    requires
        0 <= k < infos.len(),
        infos[k].date_time is Some,
        forall|j: int| 0 <= j < k ==> infos[j].date_time is None,
    ensures
        first_capture(infos) == infos[k].date_time,
    decreases infos.len(),
{
    if k == infos.len() - 1 {
        lemma_first_capture_none(infos.drop_last());
    } else {
        lemma_first_capture_at(infos.drop_last(), k);
    }
}

/// `first_capture` is empty exactly when no record has a capture time.
pub proof fn lemma_first_capture_none(infos: Seq<PicInfoView>)
    ensures
        first_capture(infos) is None <==> forall|j: int|
            0 <= j < infos.len() ==> (#[trigger] infos[j]).date_time is None,
    decreases infos.len(),
{
    if infos.len() > 0 {
        lemma_first_capture_none(infos.drop_last());
        if first_capture(infos) is None {
            assert forall|j: int| 0 <= j < infos.len() implies (#[trigger] infos[j]).date_time
                is None by {
                if j < infos.len() - 1 {
                    assert(infos.drop_last()[j] == infos[j]);
                }
            }
        } else if first_capture(infos.drop_last()) is Some {
            let j = choose|j: int|
                0 <= j < infos.drop_last().len() && (#[trigger] infos.drop_last()[j]).date_time
                    is Some;
            assert(infos[j].date_time is Some);
        } else {
            assert(infos[infos.len() - 1].date_time is Some);
        }
    }
}

/// `first_place` finds the earliest record that has a place.
pub proof fn lemma_first_place_at(infos: Seq<PicInfoView>, k: int)
    requires
        0 <= k < infos.len(),
        infos[k].geo_data is Some,
        forall|j: int| 0 <= j < k ==> infos[j].geo_data is None,
    ensures
        first_place(infos) == infos[k].geo_data,
    decreases infos.len(),
{
    if k == infos.len() - 1 {
        lemma_first_place_none(infos.drop_last());
    } else {
        lemma_first_place_at(infos.drop_last(), k);
    }
}

/// `first_place` is empty exactly when no record has a place.
pub proof fn lemma_first_place_none(infos: Seq<PicInfoView>)
    ensures
        first_place(infos) is None <==> forall|j: int|
            0 <= j < infos.len() ==> (#[trigger] infos[j]).geo_data is None,
    decreases infos.len(),
{
    if infos.len() > 0 {
        lemma_first_place_none(infos.drop_last());
        if first_place(infos) is None {
            assert forall|j: int| 0 <= j < infos.len() implies (#[trigger] infos[j]).geo_data
                is None by {
                if j < infos.len() - 1 {
                    assert(infos.drop_last()[j] == infos[j]);
                }
            }
        } else if first_place(infos.drop_last()) is Some {
            let j = choose|j: int|
                0 <= j < infos.drop_last().len() && (#[trigger] infos.drop_last()[j]).geo_data
                    is Some;
            assert(infos[j].geo_data is Some);
        } else {
            assert(infos[infos.len() - 1].geo_data is Some);
        }
    }
}

/// The field named in the error when no year is given or found.
pub open spec fn year_field() -> Seq<char> {
    "year"@
}

/// The field named in the error when no place is given or found.
pub open spec fn geo_field() -> Seq<char> {
    "geo data"@
}

/// The year a project gets: the one given, else that of the capture time found.
pub open spec fn resolve_year_spec(explicit: Option<i32>, found: Option<CaptureTime>) -> Option<
    i32,
> {
    match explicit {
        Some(year) => Some(year),
        None => match found {
            Some(t) => Some(t.year),
            None => None,
        },
    }
}

/// The place a project gets: the one given, else the one found.
pub open spec fn resolve_geo_spec(
    explicit: Option<GeoDataView>,
    found: Option<GeoDataView>,
) -> Option<GeoDataView> {
    match explicit {
        Some(g) => Some(g),
        None => found,
    }
}

/// Settles a project's year: an explicit year wins over one inferred from
/// the pictures.
pub fn resolve_year(explicit: Option<i32>, found: Option<CaptureTime>) -> (year: Option<i32>)
    ensures
        year == resolve_year_spec(explicit, found),
{
    match explicit {
        Some(year) => Some(year),
        None => match found {
            Some(t) => Some(t.year),
            None => None,
        },
    }
}

/// Settles a project's place: an explicit place wins over one inferred from
/// the pictures.
pub fn resolve_geo(explicit: Option<GeoData>, found: Option<GeoData>) -> (geo: Option<GeoData>)
    ensures
        geo_view(geo) == resolve_geo_spec(geo_view(explicit), geo_view(found)),
{
    match explicit {
        Some(g) => Some(g),
        None => found,
    }
}

/// The view of one extraction outcome.
pub open spec fn outcome_view(r: Result<PicInfo, PicInfoError>) -> Result<
    PicInfoView,
    PicInfoErrorView,
> {
    match r {
        Ok(info) => Ok(info@),
        Err(e) => Err(e@),
    }
}

/// The views of a list of extraction outcomes.
pub open spec fn outcome_views(results: Seq<Result<PicInfo, PicInfoError>>) -> Seq<
    Result<PicInfoView, PicInfoErrorView>,
> {
    Seq::new(results.len(), |i: int| outcome_view(results[i]))
}

/// The error of the first outcome that failed.
pub open spec fn first_error(results: Seq<Result<PicInfoView, PicInfoErrorView>>) -> Option<
    PicInfoErrorView,
>
    decreases results.len(),
{
    if results.len() == 0 {
        None
    } else {
        match first_error(results.drop_last()) {
            Some(e) => Some(e),
            None => match results.last() {
                Ok(_) => None,
                Err(e) => Some(e),
            },
        }
    }
}

/// The records of the outcomes that succeeded, in order.
pub open spec fn successes(results: Seq<Result<PicInfoView, PicInfoErrorView>>) -> Seq<
    PicInfoView,
>
    decreases results.len(),
{
    if results.len() == 0 {
        Seq::empty()
    } else {
        match results.last() {
            Ok(info) => successes(results.drop_last()).push(info),
            Err(_) => successes(results.drop_last()),
        }
    }
}

/// What the pictures of a project tell together: the first failure, or else
/// the first capture time and the first place among them.
pub open spec fn get_meta_for_spec(results: Seq<Result<PicInfoView, PicInfoErrorView>>) -> Result<
    PicInfoView,
    PicInfoErrorView,
> {
    match first_error(results) {
        Some(e) => Err(e),
        None => Ok(
            PicInfoView {
                date_time: first_capture(successes(results)),
                geo_data: first_place(successes(results)),
            },
        ),
    }
}

/// Combines the metadata of a project's pictures, given in the order of the
/// pictures. The first failure ends it; otherwise the first capture time and
/// the first place found are kept.
pub fn get_meta_for(results: Vec<Result<PicInfo, PicInfoError>>) -> (r: Result<
    PicInfo,
    PicInfoError,
>)
    ensures
        outcome_view(r) == get_meta_for_spec(outcome_views(results@)),
{
    let ghost all = outcome_views(results@);
    let mut date_time: Option<CaptureTime> = None;
    let mut geo_data: Option<GeoData> = None;
    for m in it: results
        invariant
            it.seq() == results@,
            all == outcome_views(results@),
            first_error(all.take(it.index() as int)) is None,
            date_time == first_capture(successes(all.take(it.index() as int))),
            geo_view(geo_data) == first_place(successes(all.take(it.index() as int))),
    {
        let ghost i = it.index() as int;
        proof {
            let next = all.take(i + 1);
            assert(next.drop_last() == all.take(i));
            assert(next.last() == outcome_view(m));
        }
        match m {
            Err(e) => {
                proof {
                    lemma_first_error_stays(all, i + 1);
                }
                return Err(e);
            },
            Ok(info) => {
                proof {
                    let seen = successes(all.take(i));
                    assert(successes(all.take(i + 1)) == seen.push(info@));
                    assert(seen.push(info@).drop_last() == seen);
                }
                if date_time.is_none() {
                    date_time = info.date_time;
                }
                if geo_data.is_none() {
                    geo_data = info.geo_data;
                }
            },
        }
    }
    assert(all.take(all.len() as int) == all);
    Ok(PicInfo { date_time, geo_data })
}

/// A failure among the first `k` outcomes is the first failure of them all.
pub proof fn lemma_first_error_stays(results: Seq<Result<PicInfoView, PicInfoErrorView>>, k: int)
    requires
        0 <= k <= results.len(),
        first_error(results.take(k)) is Some,
    ensures
        first_error(results) == first_error(results.take(k)),
    decreases results.len(),
{
    if k == results.len() {
        assert(results.take(k) == results);
    } else {
        assert(results.drop_last().take(k) == results.take(k));
        lemma_first_error_stays(results.drop_last(), k);
    }
}

impl PicInfoErrorView {
    /// The error in words.
    pub open spec fn message(self) -> Seq<char> {
        match self {
            PicInfoErrorView::ParseError(m) => m,
            PicInfoErrorView::CountryFetchError(m) => "Failed to fetch country name: "@ + m,
        }
    }
}

impl PicInfoError {
    /// The error in words.
    pub fn message(&self) -> (m: String)
        ensures
            m@ == self@.message(),
    {
        match self {
            PicInfoError::ParseError(m) => m.clone(),
            PicInfoError::CountryFetchError(m) => joined(
                "Failed to fetch country name: ",
                m.as_str(),
            ),
        }
    }
}

/// `first_error` is the error of the earliest outcome that failed: if
/// outcome `k` failed and none before it did, its error is the one reported.
pub proof fn lemma_first_error_at(results: Seq<Result<PicInfoView, PicInfoErrorView>>, k: int)
    requires
        0 <= k < results.len(),
        results[k] is Err,
        forall|j: int| 0 <= j < k ==> (#[trigger] results[j]) is Ok,
    ensures
        first_error(results) == Some(results[k]->Err_0),
    decreases results.len(),
{
    if k == results.len() - 1 {
        lemma_no_error(results.drop_last());
    } else {
        lemma_first_error_at(results.drop_last(), k);
    }
}

/// Where every outcome succeeded, there is no first error, and the records
/// are those of the outcomes.
pub proof fn lemma_no_error(results: Seq<Result<PicInfoView, PicInfoErrorView>>)
    requires
        forall|j: int| 0 <= j < results.len() ==> (#[trigger] results[j]) is Ok,
    ensures
        first_error(results) is None,
        successes(results) == Seq::new(results.len(), |i: int| results[i]->Ok_0),
    decreases results.len(),
{
    if results.len() > 0 {
        assert forall|j: int| 0 <= j < results.drop_last().len() implies (
        #[trigger] results.drop_last()[j]) is Ok by {
            assert(results.drop_last()[j] == results[j]);
        }
        lemma_no_error(results.drop_last());
        assert(results[results.len() - 1] is Ok);
        assert(successes(results) =~= Seq::new(results.len(), |i: int| results[i]->Ok_0));
    } else {
        assert(successes(results) =~= Seq::new(results.len(), |i: int| results[i]->Ok_0));
    }
}

} // verus!
