//! The boundary to code that the verifier does not read: a few `std` string
//! primitives and the calls into `uuid`, `chrono`, `serde_json` and `rand`.
//!
//! Every contract in this file is taken on trust from the documentation or
//! the source of the function it describes.

use chrono::{Datelike, Timelike};
use vstd::prelude::*;

verus! {

/// `String::push` appends exactly one character to the end of the string.
pub assume_specification[ String::push ](s: &mut String, c: char)
    ensures
        final(s)@ == old(s)@.push(c),
;

/// The characters with the Unicode property `White_Space`: the controls from
/// tab to carriage return, the space, next line, the no-break space, the
/// ogham space mark, the spaces from en quad to hair space, the line and
/// paragraph separators, the narrow no-break space, the medium mathematical
/// space and the ideographic space.
pub open spec fn is_white_space(c: char) -> bool {
    ||| '\u{9}' <= c && c <= '\u{d}'
    ||| c == ' '
    ||| c == '\u{85}'
    ||| c == '\u{a0}'
    ||| c == '\u{1680}'
    ||| '\u{2000}' <= c && c <= '\u{200a}'
    ||| c == '\u{2028}'
    ||| c == '\u{2029}'
    ||| c == '\u{202f}'
    ||| c == '\u{205f}'
    ||| c == '\u{3000}'
}

/// `char::is_whitespace` tells whether the character has the Unicode
/// property `White_Space`, which is the fixed list above.
pub assume_specification[ char::is_whitespace ](c: char) -> (b: bool)
    ensures
        b == is_white_space(c),
;

/// A lower-case hexadecimal digit.
pub open spec fn is_lower_hex(c: char) -> bool {
    ('0' <= c && c <= '9') || ('a' <= c && c <= 'f')
}

/// The hyphenated lower-case rendering of a UUID: 36 characters, hyphens at
/// offsets 8, 13, 18 and 23, hexadecimal digits everywhere else.
pub open spec fn is_uuid_text(s: Seq<char>) -> bool {
    &&& s.len() == 36
    &&& forall|i: int|
        0 <= i < 36 ==> if i == 8 || i == 13 || i == 18 || i == 23 {
            s[i] == '-'
        } else {
            is_lower_hex(#[trigger] s[i])
        }
}

/// Draws a random version-4 UUID with `uuid::Uuid::new_v4` and renders it
/// with its `Display` impl, which always produces the hyphenated lower-case
/// form. Which UUID comes out is left open. The call aborts only if the
/// operating system cannot supply random bytes.
#[verifier::external_body]
pub(crate) fn random_uuid() -> (token: String)
    ensures
        is_uuid_text(token@),
{
    uuid::Uuid::new_v4().to_string()
}

/// What `uuid::Uuid::parse_str` followed by `Display` makes of a text: the
/// canonical rendering of the UUID it denotes, if it denotes one.
pub uninterp spec fn canonical_uuid_of(text: Seq<char>) -> Option<Seq<char>>;

/// Parses `text` with `uuid::Uuid::parse_str`, which accepts the simple,
/// hyphenated, URN and braced notations, and renders the UUID found with
/// `Display`. The outcome depends on `text` alone, and a rendering is always
/// in hyphenated lower-case form.
#[verifier::external_body]
pub(crate) fn canonical_uuid(text: &str) -> (r: Option<String>)
    ensures
        r matches Some(t) ==> canonical_uuid_of(text@) == Some(t@) && is_uuid_text(t@),
        r is None ==> canonical_uuid_of(text@) is None,
{
    match uuid::Uuid::parse_str(text) {
        Ok(id) => Some(id.to_string()),
        Err(_) => None,
    }
}

/// What `chrono::NaiveDateTime::parse_from_str` reads from `text` under
/// `format`, as (year, month, day, hour, minute, second).
pub uninterp spec fn civil_time_of(text: Seq<char>, format: Seq<char>) -> Option<
    (i32, u32, u32, u32, u32, u32),
>;

/// Parses `text` with `chrono::NaiveDateTime::parse_from_str` and reads the
/// calendar fields off the result with `Datelike` and `Timelike`. The outcome
/// depends on the two strings alone. The field ranges are those that chrono
/// documents for its getters.
#[verifier::external_body]
pub(crate) fn civil_time(text: &str, format: &str) -> (r: Option<(i32, u32, u32, u32, u32, u32)>)
    ensures
        r == civil_time_of(text@, format@),
        r matches Some(t) ==> 1 <= t.1 <= 12 && 1 <= t.2 <= 31 && t.3 <= 23 && t.4 <= 59 && t.5
            <= 59,
{
    match chrono::NaiveDateTime::parse_from_str(text, format) {
        Ok(t) => Some((t.year(), t.month(), t.day(), t.hour(), t.minute(), t.second())),
        Err(_) => None,
    }
}

/// Reads the wall clock with `chrono::Local::now` and returns the local naive
/// time as whole seconds since 1970-01-01 00:00:00 and the nanoseconds within
/// that second. Nothing is promised about the reading. The call aborts if the
/// system clock stands before the start of 1970, or if the local time lies
/// outside the years that chrono can represent.
#[verifier::external_body]
pub(crate) fn wall_clock() -> (r: (i64, u32)) {
    let t = chrono::Local::now().naive_local().and_utc();
    (t.timestamp(), t.timestamp_subsec_nanos())
}

/// What `serde_json` finds under `key` in the document `body`: a parse
/// error message, or the member's text if the document is an object that has
/// such a member and the member is a string.
pub uninterp spec fn json_string_member_of(body: Seq<u8>, key: Seq<char>) -> Result<
    Option<Seq<char>>,
    Seq<char>,
>;

/// The views of a lookup result.
pub open spec fn lookup_view(r: Result<Option<String>, String>) -> Result<
    Option<Seq<char>>,
    Seq<char>,
> {
    match r {
        Ok(Some(s)) => Ok(Some(s@)),
        Ok(None) => Ok(None),
        Err(e) => Err(e@),
    }
}

/// Parses `body` with `serde_json::from_slice` into a `serde_json::Value`,
/// then reads member `key` with `Value::get` and `Value::as_str`. A parse
/// failure is returned as the error's `Display` text. The outcome depends on
/// the two arguments alone.
#[verifier::external_body]
pub(crate) fn json_string_member(body: &[u8], key: &str) -> (r: Result<Option<String>, String>)
    ensures
        lookup_view(r) == json_string_member_of(body@, key@),
{
    match serde_json::from_slice::<serde_json::Value>(body) {
        Ok(doc) => Ok(doc.get(key).and_then(serde_json::Value::as_str).map(str::to_string)),
        Err(e) => Err(e.to_string()),
    }
}

/// An ASCII letter or digit.
pub open spec fn is_alphanumeric(c: char) -> bool {
    ('0' <= c && c <= '9') || ('a' <= c && c <= 'z') || ('A' <= c && c <= 'Z')
}

/// Draws one character from `rand::distributions::Alphanumeric` with
/// `rand::Rng::sample` on the generator that `rand::thread_rng` returns. The
/// distribution yields ASCII letters and digits only; which one comes out is
/// left open. The call aborts only if the generator cannot be seeded from the
/// operating system.
#[verifier::external_body]
pub(crate) fn random_alphanumeric() -> (c: char)
    ensures
        is_alphanumeric(c),
{
    char::from(rand::Rng::sample(&mut rand::thread_rng(), rand::distributions::Alphanumeric))
}

} // verus!
