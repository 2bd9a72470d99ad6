//! Reading capture time and position out of the metadata tags of a picture.

use crate::pic_info::{
    from_latlong_spec, outcome_view, CaptureTime, Degrees, GeoData, GeoResponse, PicInfo,
    PicInfoError, PicInfoView,
};
use crate::text::{
    chars_of, decimal_value, is_digit, is_number, lemma_split_at_separator, lemma_split_of_piece,
    lemma_trim_after_white_space, lemma_trim_before_white_space, lemma_trim_of_clean, parse_u32,
    parse_u32_spec, split, split_spec, trim, trim_spec, views,
};
use crate::trusted::{civil_time, civil_time_of, is_white_space};
use vstd::prelude::*;

verus! {

/// The name of the tag that holds the time a picture was taken.
pub const TAG_DATE_TIME_ORIGINAL: &'static str = "Exif.Photo.DateTimeOriginal";

/// The name of the tag that holds the latitude as degrees, minutes, seconds.
pub const TAG_GPS_LATITUDE: &'static str = "Exif.GPSInfo.GPSLatitude";

/// The name of the tag that tells north from south.
pub const TAG_GPS_LATITUDE_REF: &'static str = "Exif.GPSInfo.GPSLatitudeRef";

/// The name of the tag that holds the longitude as degrees, minutes, seconds.
pub const TAG_GPS_LONGITUDE: &'static str = "Exif.GPSInfo.GPSLongitude";

/// The name of the tag that tells east from west.
pub const TAG_GPS_LONGITUDE_REF: &'static str = "Exif.GPSInfo.GPSLongitudeRef";

/// The texts of the tags that matter, as far as the picture has them.
#[derive(Clone, Debug, PartialEq, Eq)]
pub struct ExifTags {
    pub date_time_original: Option<String>,
    pub gps_latitude: Option<String>,
    pub gps_latitude_ref: Option<String>,
    pub gps_longitude: Option<String>,
    pub gps_longitude_ref: Option<String>,
}

/// A non-negative rational number with a non-zero denominator.
#[derive(Clone, Copy, Debug, PartialEq, Eq, Structural)]
pub struct Fraction {
    pub numerator: u32,
    pub denominator: u32,
}

/// What one piece of a GPS tag is read as.
#[derive(Clone, Copy, Debug, PartialEq, Eq, Structural)]
pub enum Reading {
    /// Two unsigned decimal numbers with a slash between them, the second
    /// not zero.
    Value(Fraction),
    /// Two such numbers of which the second is zero: no number at all.
    DivisionByZero,
    /// Anything else.
    Unreadable,
}

/// What `piece` is read as, white space around it set aside.
pub open spec fn reading_of(piece: Seq<char>) -> Reading {
    let halves = split_spec(trim_spec(piece), '/');
    if halves.len() == 2 {
        match (parse_u32_spec(halves[0]), parse_u32_spec(halves[1])) {
            (Some(numerator), Some(denominator)) => if denominator > 0 {
                Reading::Value(Fraction { numerator, denominator })
            } else {
                Reading::DivisionByZero
            },
            _ => Reading::Unreadable,
        }
    } else {
        Reading::Unreadable
    }
}

/// What a well-formed piece is read as: two numbers of at most 32 bits with
/// a slash between them, and any white space around them, are the fraction of
/// the two, or a division by zero.
pub proof fn lemma_reading_of_fraction(
    lead: Seq<char>,
    numerator: Seq<char>,
    denominator: Seq<char>,
    tail: Seq<char>,
)
    requires
        forall|i: int| 0 <= i < lead.len() ==> is_white_space(lead[i]),
        forall|i: int| 0 <= i < tail.len() ==> is_white_space(tail[i]),
        is_number(numerator),
        is_number(denominator),
        decimal_value(numerator) <= u32::MAX,
        decimal_value(denominator) <= u32::MAX,
    ensures
        reading_of(lead + (numerator.push('/') + denominator) + tail) == if decimal_value(
            denominator,
        ) == 0 {
            Reading::DivisionByZero
        } else {
            Reading::Value(
                Fraction {
                    numerator: decimal_value(numerator) as u32,
                    denominator: decimal_value(denominator) as u32,
                },
            )
        },
{
    let core = numerator.push('/') + denominator;
    assert(core.first() == numerator[0]);
    assert(core.last() == denominator[denominator.len() - 1]);
    assert(is_digit(numerator[0]));
    assert(is_digit(denominator[denominator.len() - 1]));
    assert(lead + core + tail =~= lead + (core + tail));
    lemma_trim_after_white_space(lead, core + tail);
    lemma_trim_before_white_space(core, tail);
    lemma_trim_of_clean(core);
    assert(trim_spec(lead + core + tail) == core);
    lemma_split_at_separator(numerator, denominator, '/');
    lemma_split_of_piece(numerator, '/');
    lemma_split_of_piece(denominator, '/');
    assert(split_spec(core, '/') =~= seq![numerator, denominator]);
}

/// What the pieces read so far and one more piece are read as together.
pub proof fn lemma_fractions_push(pieces: Seq<Seq<char>>, piece: Seq<char>)
    ensures
        fractions_of(pieces.push(piece)) == match reading_of(piece) {
            Reading::Value(f) => fractions_of(pieces).push(f),
            _ => fractions_of(pieces),
        },
{
    assert(pieces.push(piece).drop_last() =~= pieces);
}

/// Reads one piece of a GPS tag.
pub fn parse_fraction(piece: &Vec<char>) -> (r: Reading)
    ensures
        r == reading_of(piece@),
{
    let trimmed = trim(piece);
    let halves = split(&trimmed, '/');
    assert(views(halves@).len() == halves@.len());
    if halves.len() != 2 {
        return Reading::Unreadable;
    }
    assert(views(halves@)[0] == halves@[0]@);
    assert(views(halves@)[1] == halves@[1]@);
    match (parse_u32(&halves[0]), parse_u32(&halves[1])) {
        (Some(numerator), Some(denominator)) => if denominator > 0 {
            Reading::Value(Fraction { numerator, denominator })
        } else {
            Reading::DivisionByZero
        },
        _ => Reading::Unreadable,
    }
}

/// Whether one of the pieces divides by zero.
pub open spec fn divides_by_zero(pieces: Seq<Seq<char>>) -> bool {
    exists|i: int| 0 <= i < pieces.len() && reading_of(#[trigger] pieces[i]) is DivisionByZero
}

/// The fractions among `pieces`, in order. A piece that cannot be read is
/// passed over.
pub open spec fn fractions_of(pieces: Seq<Seq<char>>) -> Seq<Fraction>
    decreases pieces.len(),
{
    if pieces.len() == 0 {
        Seq::empty()
    } else {
        match reading_of(pieces.last()) {
            Reading::Value(f) => fractions_of(pieces.drop_last()).push(f),
            _ => fractions_of(pieces.drop_last()),
        }
    }
}

/// The fractions that a GPS tag lists, separated by commas. A tag in which a
/// piece divides by zero is malformed and lists none.
pub open spec fn gps_fractions(text: Seq<char>) -> Seq<Fraction> {
    if divides_by_zero(split_spec(text, ',')) {
        Seq::empty()
    } else {
        fractions_of(split_spec(text, ','))
    }
}

/// Whether every fraction in the list has a non-zero denominator.
pub open spec fn all_valid(parts: Seq<Fraction>) -> bool {
    forall|i: int| 0 <= i < parts.len() ==> (#[trigger] parts[i]).denominator > 0
}

/// Every fraction that is read has a non-zero denominator.
pub proof fn lemma_fractions_valid(pieces: Seq<Seq<char>>)
    ensures
        all_valid(fractions_of(pieces)),
    decreases pieces.len(),
{
    if pieces.len() > 0 {
        lemma_fractions_valid(pieces.drop_last());
        let rest = fractions_of(pieces.drop_last());
        let parts = fractions_of(pieces);
        assert forall|i: int| 0 <= i < parts.len() implies (#[trigger] parts[i]).denominator
            > 0 by {
            if i < rest.len() {
                assert(parts[i] == rest[i]);
            }
        }
    }
}

/// Reads the fractions that a GPS tag lists.
pub fn parse_fractions(text: &str) -> (parts: Vec<Fraction>)
    ensures
        parts@ == gps_fractions(text@),
        all_valid(parts@),
{
    let chars = chars_of(text);
    let pieces = split(&chars, ',');
    let ghost all = views(pieces@);
    let mut parts: Vec<Fraction> = Vec::new();
    let mut i: usize = 0;
    while i < pieces.len()
        invariant
            i <= pieces.len(),
            all == views(pieces@),
            all == split_spec(text@, ','),
            parts@ == fractions_of(all.take(i as int)),
            !divides_by_zero(all.take(i as int)),
        decreases pieces.len() - i,
    {
        proof {
            assert(all.take(i as int + 1).drop_last() == all.take(i as int));
            assert(all.take(i as int + 1).last() == pieces@[i as int]@);
        }
        match parse_fraction(&pieces[i]) {
            Reading::Value(f) => {
                parts.push(f);
            },
            Reading::DivisionByZero => {
                assert(reading_of(all[i as int]) is DivisionByZero);
                return Vec::new();
            },
            Reading::Unreadable => {},
        }
        proof {
            let seen = all.take(i as int);
            let next = all.take(i as int + 1);
            if divides_by_zero(next) {
                let j = choose|j: int|
                    0 <= j < next.len() && reading_of(#[trigger] next[j]) is DivisionByZero;
                if j < i {
                    assert(seen[j] == next[j]);
                }
            }
        }
        i += 1;
    }
    proof {
        assert(all.take(pieces.len() as int) == all);
        lemma_fractions_valid(all);
    }
    parts
}

/// The `i`-th of the fractions, or zero where there are fewer.
pub open spec fn part(parts: Seq<Fraction>, i: int) -> Fraction {
    if 0 <= i < parts.len() {
        parts[i]
    } else {
        Fraction { numerator: 0, denominator: 1 }
    }
}

/// The numerator of `degrees + minutes / 60 + seconds / 3600` over the
/// denominator that `degrees_denominator` gives. Fractions after the third
/// are not looked at.
pub open spec fn degrees_numerator(parts: Seq<Fraction>) -> int {
    let d = part(parts, 0);
    let m = part(parts, 1);
    let s = part(parts, 2);
    3600 * d.numerator * m.denominator * s.denominator + 60 * m.numerator * d.denominator
        * s.denominator + s.numerator * d.denominator * m.denominator
}

/// The common denominator of degrees, minutes over 60 and seconds over 3600.
pub open spec fn degrees_denominator(parts: Seq<Fraction>) -> int {
    3600 * part(parts, 0).denominator * part(parts, 1).denominator * part(parts, 2).denominator
}

/// An angle in decimal degrees as an exact signed rational number.
#[derive(Clone, Copy, Debug, PartialEq, Eq, Structural)]
pub struct Coordinate {
    /// South of the equator, or west of the prime meridian.
    pub negative: bool,
    pub numerator: u128,
    pub denominator: u128,
}

impl Coordinate {
    /// The denominator is not zero.
    pub open spec fn wf(self) -> bool {
        self.denominator > 0
    }

    /// The numerator with the angle's sign. Over the denominator, which is
    /// positive, it is the angle.
    pub open spec fn signed_numerator(self) -> int {
        if self.negative {
            -(self.numerator as int)
        } else {
            self.numerator as int
        }
    }
}

/// Whether the reference direction is south or west.
pub open spec fn is_south_or_west(direction: Seq<char>) -> bool {
    direction == seq!['S'] || direction == seq!['W']
}

/// The angle that a GPS tag and its reference direction denote, if the tag
/// lists at least one fraction and none that divides by zero: the sum of
/// degrees, minutes and seconds, counted negative to the south and to the
/// west.
pub open spec fn coordinate_of(text: Seq<char>, direction: Seq<char>) -> Option<Coordinate> {
    let parts = gps_fractions(text);
    if parts.len() == 0 {
        None
    } else {
        Some(
            Coordinate {
                negative: is_south_or_west(direction),
                numerator: degrees_numerator(parts) as u128,
                denominator: degrees_denominator(parts) as u128,
            },
        )
    }
}

/// The sum of degrees, minutes and seconds fits the machine's integers, and
/// its denominator is not zero.
pub proof fn lemma_degrees_bounds(parts: Seq<Fraction>)
    requires
        all_valid(parts),
    ensures
        0 <= degrees_numerator(parts) <= u128::MAX,
        0 < degrees_denominator(parts) <= u128::MAX,
{
    let d = part(parts, 0);
    let m = part(parts, 1);
    let s = part(parts, 2);
    lemma_product_bounds(d.numerator as int, m.denominator as int, s.denominator as int);
    lemma_product_bounds(m.numerator as int, d.denominator as int, s.denominator as int);
    lemma_product_bounds(s.numerator as int, d.denominator as int, m.denominator as int);
    lemma_product_bounds(d.denominator as int, m.denominator as int, s.denominator as int);
    lemma_product_positive(d.denominator as int, m.denominator as int, s.denominator as int);
}

/// A product of three 32-bit numbers stays far below 128 bits.
proof fn lemma_product_bounds(a: int, b: int, c: int)
    requires
        0 <= a <= 0xFFFF_FFFF,
        0 <= b <= 0xFFFF_FFFF,
        0 <= c <= 0xFFFF_FFFF,
    ensures
        0 <= a * b <= 0xFFFF_FFFE_0000_0001,
        0 <= a * b * c <= 0xFFFF_FFFD_0000_0002_FFFF_FFFF,
        0 <= 3600 * a * b * c <= 3600 * 0xFFFF_FFFD_0000_0002_FFFF_FFFF,
        0 <= 60 * a * b * c <= 60 * 0xFFFF_FFFD_0000_0002_FFFF_FFFF,
{
    assert(0 <= a * b <= 0xFFFF_FFFF * 0xFFFF_FFFF) by (nonlinear_arith)
        requires
            0 <= a <= 0xFFFF_FFFF,
            0 <= b <= 0xFFFF_FFFF,
    ;
    let ab = a * b;
    assert(0 <= ab * c <= 0xFFFF_FFFE_0000_0001 * 0xFFFF_FFFF) by (nonlinear_arith)
        requires
            0 <= ab <= 0xFFFF_FFFE_0000_0001,
            0 <= c <= 0xFFFF_FFFF,
    ;
    assert(3600 * a * b * c == 3600 * (a * b * c)) by (nonlinear_arith);
    assert(60 * a * b * c == 60 * (a * b * c)) by (nonlinear_arith);
}

/// A product of three positive numbers is positive.
proof fn lemma_product_positive(a: int, b: int, c: int)
    requires
        0 < a,
        0 < b,
        0 < c,
    ensures
        0 < a * b * c,
        0 < 3600 * a * b * c,
{
    assert(0 < a * b * c && 0 < 3600 * a * b * c) by (nonlinear_arith)
        requires
            0 < a,
            0 < b,
            0 < c,
    ;
}

/// The `i`-th of the fractions, or zero where there are fewer.
fn part_at(parts: &Vec<Fraction>, i: usize) -> (f: Fraction)
    ensures
        f == part(parts@, i as int),
{
    if i < parts.len() {
        parts[i]
    } else {
        Fraction { numerator: 0, denominator: 1 }
    }
}

/// The product of three 32-bit numbers.
fn product(a: u32, b: u32, c: u32) -> (p: u128)
    ensures
        p == a * b * c,
        p <= 0xFFFF_FFFD_0000_0002_FFFF_FFFF,
{
    proof {
        lemma_product_bounds(a as int, b as int, c as int);
    }
    let ab: u128 = (a as u128) * (b as u128);
    ab * (c as u128)
}

/// Turns a GPS tag that lists degrees, minutes and seconds as fractions into
/// decimal degrees. The result is negative for the reference directions `S`
/// and `W`. A tag that lists no fraction gives nothing, and neither does one
/// in which a fraction divides by zero.
pub fn parse_gps_coordinate(gps_str: &str, direction: &str) -> (r: Option<Coordinate>)
    ensures
        r == coordinate_of(gps_str@, direction@),
        r matches Some(c) ==> c.wf() && (is_south_or_west(direction@) ==> c.signed_numerator() <= 0)
            && (!is_south_or_west(direction@) ==> c.signed_numerator() >= 0),
{
    let parts = parse_fractions(gps_str);
    if parts.len() == 0 {
        return None;
    }
    proof {
        lemma_degrees_bounds(parts@);
    }
    let d = part_at(&parts, 0);
    let m = part_at(&parts, 1);
    let s = part_at(&parts, 2);
    let from_degrees = product(d.numerator, m.denominator, s.denominator);
    let from_minutes = product(m.numerator, d.denominator, s.denominator);
    let from_seconds = product(s.numerator, d.denominator, m.denominator);
    let whole = product(d.denominator, m.denominator, s.denominator);
    proof {
        assert(3600 * d.numerator * m.denominator * s.denominator == 3600 * (d.numerator
            * m.denominator * s.denominator)) by (nonlinear_arith);
        assert(60 * m.numerator * d.denominator * s.denominator == 60 * (m.numerator
            * d.denominator * s.denominator)) by (nonlinear_arith);
        assert(3600 * d.denominator * m.denominator * s.denominator == 3600 * (d.denominator
            * m.denominator * s.denominator)) by (nonlinear_arith);
    }
    let numerator: u128 = 3600 * from_degrees + 60 * from_minutes + from_seconds;
    let denominator: u128 = 3600 * whole;
    let direction = chars_of(direction);
    let negative = direction.len() == 1 && (direction[0] == 'S' || direction[0] == 'W');
    proof {
        if negative {
            assert(direction@ =~= seq![direction@[0]]);
        }
        if is_south_or_west(direction@) {
            assert(direction@.len() == 1);
            assert(direction@[0] == 'S' || direction@[0] == 'W');
        }
    }
    Some(Coordinate { negative, numerator, denominator })
}

/// The format in which cameras write the capture time.
pub open spec fn capture_format() -> Seq<char> {
    "%Y:%m:%d %H:%M:%S"@
}

/// The capture time that `text` denotes, if it is written as
/// `YYYY:MM:DD HH:MM:SS`.
pub open spec fn capture_time_of(text: Seq<char>) -> Option<CaptureTime> {
    match civil_time_of(text, capture_format()) {
        Some(t) => Some(
            CaptureTime { year: t.0, month: t.1, day: t.2, hour: t.3, minute: t.4, second: t.5 },
        ),
        None => None,
    }
}

/// Reads a capture time.
pub fn parse_capture_time(text: &str) -> (r: Option<CaptureTime>)
    ensures
        r == capture_time_of(text@),
        r matches Some(t) ==> t.wf(),
{
    match civil_time(text, "%Y:%m:%d %H:%M:%S") {
        Some(t) => Some(
            CaptureTime { year: t.0, month: t.1, day: t.2, hour: t.3, minute: t.4, second: t.5 },
        ),
        None => None,
    }
}

/// The view of an optional text.
pub open spec fn tag_view(tag: Option<String>) -> Option<Seq<char>> {
    match tag {
        Some(s) => Some(s@),
        None => None,
    }
}

/// The angle that a GPS tag denotes under its reference tag, where
/// `default_direction` stands in for a missing reference.
pub open spec fn angle_of(
    tag: Option<Seq<char>>,
    reference: Option<Seq<char>>,
    default_direction: Seq<char>,
) -> Option<Coordinate> {
    match tag {
        None => None,
        Some(text) => coordinate_of(
            text,
            match reference {
                Some(direction) => direction,
                None => default_direction,
            },
        ),
    }
}

/// What the tags of a picture tell: capture time, latitude and longitude.
/// Each is missing where its tag is missing or cannot be read. A latitude
/// without reference counts as northern, a longitude without as eastern.
pub open spec fn get_meta_spec(tags: ExifTags) -> (
    Option<CaptureTime>,
    Option<Coordinate>,
    Option<Coordinate>,
) {
    (
        match tags.date_time_original {
            Some(text) => capture_time_of(text@),
            None => None,
        },
        angle_of(tag_view(tags.gps_latitude), tag_view(tags.gps_latitude_ref), seq!['N']),
        angle_of(tag_view(tags.gps_longitude), tag_view(tags.gps_longitude_ref), seq!['E']),
    )
}

/// Reads one angle.
fn angle(tag: &Option<String>, reference: &Option<String>, default_direction: &str) -> (r: Option<
    Coordinate,
>)
    ensures
        r == angle_of(tag_view(*tag), tag_view(*reference), default_direction@),
        r matches Some(c) ==> c.wf(),
{
    match tag {
        None => None,
        Some(text) => match reference {
            Some(direction) => parse_gps_coordinate(text.as_str(), direction.as_str()),
            None => parse_gps_coordinate(text.as_str(), default_direction),
        },
    }
}

/// Recovers capture time, latitude and longitude from the tags of a picture.
pub fn get_meta(tags: &ExifTags) -> (r: (Option<CaptureTime>, Option<Coordinate>, Option<Coordinate>))
    ensures
        r == get_meta_spec(*tags),
        r.1 matches Some(c) ==> c.wf(),
        r.2 matches Some(c) ==> c.wf(),
{
    let date_time = match &tags.date_time_original {
        Some(text) => parse_capture_time(text.as_str()),
        None => None,
    };
    proof {
        reveal_strlit("N");
        reveal_strlit("E");
        assert("N"@ =~= seq!['N']);
        assert("E"@ =~= seq!['E']);
    }
    let latitude = angle(&tags.gps_latitude, &tags.gps_latitude_ref, "N");
    let longitude = angle(&tags.gps_longitude, &tags.gps_longitude_ref, "E");
    (date_time, latitude, longitude)
}

/// The reference direction decides the sign: an angle read with `S` or `W`
/// is not above zero, one read with any other direction is not below.
pub proof fn lemma_direction_sign(text: Seq<char>, direction: Seq<char>)
    ensures
        coordinate_of(text, direction) matches Some(c) ==> c.negative == is_south_or_west(
            direction,
        ) && (is_south_or_west(direction) ==> c.signed_numerator() <= 0) && (!is_south_or_west(
            direction,
        ) ==> c.signed_numerator() >= 0),
{
}

/// What is to be done next for a picture whose tags were read.
#[derive(Clone, Debug, PartialEq, Eq)]
pub enum MetaStep {
    /// Nothing: the metadata is complete, and it has no place.
    Done(PicInfo),
    /// The country of this position is to be asked of the reverse geocoder.
    Lookup { date_time: Option<CaptureTime>, latitude: Coordinate, longitude: Coordinate },
}

/// The mathematical content of a [`MetaStep`].
pub enum MetaStepView {
    Done(PicInfoView),
    Lookup { date_time: Option<CaptureTime>, latitude: Coordinate, longitude: Coordinate },
}

impl View for MetaStep {
    type V = MetaStepView;

    open spec fn view(&self) -> MetaStepView {
        match self {
            MetaStep::Done(info) => MetaStepView::Done(info@),
            MetaStep::Lookup { date_time, latitude, longitude } => MetaStepView::Lookup {
                date_time: *date_time,
                latitude: *latitude,
                longitude: *longitude,
            },
        }
    }
}

/// The step that the tags of a picture call for: the geocoder is asked only
/// where both latitude and longitude were recovered.
pub open spec fn from_tags_spec(tags: ExifTags) -> MetaStepView {
    let (date_time, latitude, longitude) = get_meta_spec(tags);
    if latitude is Some && longitude is Some {
        MetaStepView::Lookup { date_time, latitude: latitude->0, longitude: longitude->0 }
    } else {
        MetaStepView::Done(PicInfoView { date_time, geo_data: None })
    }
}

impl PicInfo {
    /// Reads the tags of a picture and decides whether the reverse geocoder
    /// has to be asked. A picture that lacks a GPS tag is done at once,
    /// without a place.
    pub fn from_tags(tags: &ExifTags) -> (step: MetaStep)
        ensures
            step@ == from_tags_spec(*tags),
            step matches MetaStep::Lookup { latitude, longitude, .. } ==> latitude.wf()
                && longitude.wf(),
            tags.gps_latitude is None || tags.gps_longitude is None ==> (step matches MetaStep::Done(
                info,
            ) && info.geo_data is None),
    {
        let (date_time, latitude, longitude) = get_meta(tags);
        match (latitude, longitude) {
            (Some(latitude), Some(longitude)) => MetaStep::Lookup {
                date_time,
                latitude,
                longitude,
            },
            _ => MetaStep::Done(PicInfo { date_time, geo_data: None }),
        }
    }

    /// Completes the metadata of a picture with the place that the reverse
    /// geocoder's response gives for its position.
    pub fn located(
        date_time: Option<CaptureTime>,
        latitude: Degrees,
        longitude: Degrees,
        response: GeoResponse,
    ) -> (r: Result<PicInfo, PicInfoError>)
        ensures
            outcome_view(r) == match from_latlong_spec(latitude, longitude, response) {
                Ok(geo) => Ok(PicInfoView { date_time, geo_data: Some(geo) }),
                Err(e) => Err(e),
            },
    {
        match GeoData::from_latlong(latitude, longitude, response) {
            Ok(geo) => Ok(PicInfo { date_time, geo_data: Some(geo) }),
            Err(e) => Err(e),
        }
    }
}

} // verus!
