//! Visitor credentials: time-bounded tokens that open the gallery to a guest.

use crate::text::same_text;
use crate::trusted::{canonical_uuid, canonical_uuid_of, is_uuid_text, random_uuid, wall_clock};
use vstd::prelude::*;

verus! {

/// A point in local time without a zone: whole seconds since the start of
/// 1970 and the nanoseconds into that second.
#[derive(Clone, Copy, Debug, PartialEq, Eq, Structural)]
pub struct Timestamp {
    pub seconds: i64,
    pub nanos: u32,
}

impl Timestamp {
    /// Whether `self` is strictly earlier than `other`.
    pub open spec fn before(self, other: Timestamp) -> bool {
        self.seconds < other.seconds || (self.seconds == other.seconds && self.nanos
            < other.nanos)
    }

    /// Whether `self` is strictly earlier than `other`.
    pub fn is_before(&self, other: &Timestamp) -> (b: bool)
        ensures
            b == self.before(*other),
    {
        self.seconds < other.seconds || (self.seconds == other.seconds && self.nanos
            < other.nanos)
    }

    /// The moment `secs` seconds after `self`, if the machine can hold it.
    pub open spec fn plus_seconds_spec(self, secs: u64) -> Option<Timestamp> {
        if self.seconds + secs <= i64::MAX {
            Some(Timestamp { seconds: (self.seconds + secs) as i64, nanos: self.nanos })
        } else {
            None
        }
    }

    /// The moment `secs` seconds after `self`, if the machine can hold it.
    pub fn plus_seconds(&self, secs: u64) -> (r: Option<Timestamp>)
        ensures
            r == self.plus_seconds_spec(secs),
    {
        let sum: i128 = self.seconds as i128 + secs as i128;
        if sum <= i64::MAX as i128 {
            Some(Timestamp { seconds: sum as i64, nanos: self.nanos })
        } else {
            None
        }
    }

    /// The present moment by the wall clock.
    pub fn now() -> Timestamp {
        let (seconds, nanos) = wall_clock();
        Timestamp { seconds, nanos }
    }
}

/// For how long a credential is asked to be valid. Without a duration it
/// never expires. The duration cannot be negative.
#[derive(Clone, Copy, Debug, PartialEq, Eq, Structural)]
pub struct CreateInfo {
    pub valid_for_sec: Option<u64>,
}

/// A stored credential: the token and the moment it expires, if it does.
#[derive(Clone, Debug, PartialEq, Eq)]
pub struct VisitorCredential {
    pub uuid: String,
    pub time_out: Option<Timestamp>,
}

/// The mathematical content of a [`VisitorCredential`].
pub struct VisitorCredentialView {
    pub uuid: Seq<char>,
    pub time_out: Option<Timestamp>,
}

impl View for VisitorCredential {
    type V = VisitorCredentialView;

    open spec fn view(&self) -> VisitorCredentialView {
        VisitorCredentialView { uuid: self.uuid@, time_out: self.time_out }
    }
}

/// The views of a list of credentials.
pub open spec fn credential_views(rows: Seq<VisitorCredential>) -> Seq<VisitorCredentialView> {
    Seq::new(rows.len(), |i: int| rows[i]@)
}

/// What the client is told about the credential that was issued.
#[derive(Clone, Debug, PartialEq, Eq)]
pub struct CreateResponse {
    pub uuid: String,
    pub valid_till: Option<Timestamp>,
}

impl CreateResponse {
    /// Reports the stored credential back to the client.
    pub fn from_row(row: VisitorCredential) -> (response: CreateResponse)
        ensures
            response.uuid@ == row.uuid@,
            response.valid_till == row.time_out,
    {
        CreateResponse { uuid: row.uuid, valid_till: row.time_out }
    }
}

impl VisitorCredentialView {
    /// Whether the credential still grants access at `now`: it has no expiry,
    /// or its expiry lies in the future.
    pub open spec fn live_at(self, now: Timestamp) -> bool {
        match self.time_out {
            None => true,
            Some(t) => now.before(t),
        }
    }

    /// Whether the credential has expired by `now`: its expiry is at `now`
    /// or before.
    pub open spec fn expired_at(self, now: Timestamp) -> bool {
        !self.live_at(now)
    }
}

/// Whether a credential issued at `now` for `validity` seconds has an expiry
/// that the machine can hold.
pub open spec fn representable(now: Timestamp, validity: Option<u64>) -> bool {
    match validity {
        None => true,
        Some(secs) => now.seconds + secs <= i64::MAX,
    }
}

/// The expiry of a credential issued at `now`: `now` plus the validity, or
/// none without a validity.
pub open spec fn expiry(now: Timestamp, validity: Option<u64>) -> Option<Timestamp> {
    match validity {
        None => None,
        Some(secs) => now.plus_seconds_spec(secs),
    }
}

/// Issues the credential that carries `token` at the moment `now`.
pub fn create_with_token(token: String, create_info: &CreateInfo, now: Timestamp) -> (row:
    VisitorCredential)
    requires
        representable(now, create_info.valid_for_sec),
    ensures
        row@ == (VisitorCredentialView {
            uuid: token@,
            time_out: expiry(now, create_info.valid_for_sec),
        }),
{
    let time_out = match create_info.valid_for_sec {
        None => None,
        Some(secs) => now.plus_seconds(secs),
    };
    VisitorCredential { uuid: token, time_out }
}

/// Issues a credential with a freshly drawn UUID as its token at the moment
/// `now`. Nothing is issued where the expiry would lie beyond what the
/// machine can hold.
pub fn create(create_info: &CreateInfo, now: Timestamp) -> (r: Option<VisitorCredential>)
    ensures
        r is Some <==> representable(now, create_info.valid_for_sec),
        r matches Some(row) ==> is_uuid_text(row.uuid@) && row.time_out == expiry(
            now,
            create_info.valid_for_sec,
        ),
{
    let fits = match create_info.valid_for_sec {
        None => true,
        Some(secs) => now.plus_seconds(secs).is_some(),
    };
    if fits {
        Some(create_with_token(random_uuid(), create_info, now))
    } else {
        None
    }
}

/// How many of the credentials carry `token` and are live at `now`.
pub open spec fn live_matches(
    rows: Seq<VisitorCredentialView>,
    token: Seq<char>,
    now: Timestamp,
) -> nat
    decreases rows.len(),
{
    if rows.len() == 0 {
        0
    } else {
        live_matches(rows.drop_last(), token, now) + if rows.last().uuid == token
            && rows.last().live_at(now) {
            1nat
        } else {
            0nat
        }
    }
}

/// Whether `token` grants access at `now`: exactly one credential carries
/// it and is live. None is a refusal, and so are two or more.
pub open spec fn valid(rows: Seq<VisitorCredentialView>, token: Seq<char>, now: Timestamp) -> bool {
    live_matches(rows, token, now) == 1
}

/// Decides whether `uuid` grants access at `now`, given the stored
/// credentials.
pub fn validate_visitor(rows: &Vec<VisitorCredential>, uuid: &str, now: Timestamp) -> (ok: bool)
    ensures
        ok == valid(credential_views(rows@), uuid@, now),
{
    let ghost all = credential_views(rows@);
    let mut count: usize = 0;
    let mut i: usize = 0;
    while i < rows.len()
        invariant
            i <= rows.len(),
            all == credential_views(rows@),
            count == live_matches(all.take(i as int), uuid@, now),
            count <= i,
        decreases rows.len() - i,
    {
        proof {
            assert(all.take(i as int + 1).drop_last() == all.take(i as int));
            assert(all.take(i as int + 1).last() == rows@[i as int]@);
        }
        let row = &rows[i];
        let live = match row.time_out {
            None => true,
            Some(t) => now.is_before(&t),
        };
        if live && same_text(row.uuid.as_str(), uuid) {
            count += 1;
        }
        i += 1;
    }
    assert(all.take(rows.len() as int) == all);
    count == 1
}

/// The pause between two sweeps, in seconds.
pub const SWEEP_INTERVAL_SECS: u64 = 30;

/// The credentials that a sweep at `now` leaves in place: those that have
/// not expired, in their order.
pub open spec fn swept(rows: Seq<VisitorCredentialView>, now: Timestamp) -> Seq<
    VisitorCredentialView,
>
    decreases rows.len(),
{
    if rows.len() == 0 {
        Seq::empty()
    } else if rows.last().expired_at(now) {
        swept(rows.drop_last(), now)
    } else {
        swept(rows.drop_last(), now).push(rows.last())
    }
}

/// The tokens of the credentials that a sweep at `now` removes, in order.
pub open spec fn expired_tokens(rows: Seq<VisitorCredentialView>, now: Timestamp) -> Seq<
    Seq<char>,
>
    decreases rows.len(),
{
    if rows.len() == 0 {
        Seq::empty()
    } else if rows.last().expired_at(now) {
        expired_tokens(rows.drop_last(), now).push(rows.last().uuid)
    } else {
        expired_tokens(rows.drop_last(), now)
    }
}

/// What a sweep did: the credentials left in place and the tokens of those
/// removed.
#[derive(Clone, Debug, PartialEq, Eq)]
pub struct Sweep {
    pub kept: Vec<VisitorCredential>,
    pub removed: Vec<String>,
}

/// Removes the credentials whose expiry is at `now` or before.
pub fn sweep(rows: Vec<VisitorCredential>, now: Timestamp) -> (s: Sweep)
    ensures
        credential_views(s.kept@) == swept(credential_views(rows@), now),
        crate::project::texts(s.removed@) == expired_tokens(credential_views(rows@), now),
        s.kept.len() + s.removed.len() == rows.len(),
{
    let ghost all = credential_views(rows@);
    let mut kept: Vec<VisitorCredential> = Vec::new();
    let mut removed: Vec<String> = Vec::new();
    assert(credential_views(kept@) == Seq::<VisitorCredentialView>::empty());
    assert(crate::project::texts(removed@) == Seq::<Seq<char>>::empty());
    for row in it: rows
        invariant
            it.seq() == rows@,
            all == credential_views(rows@),
            credential_views(kept@) == swept(all.take(it.index() as int), now),
            crate::project::texts(removed@) == expired_tokens(all.take(it.index() as int), now),
            kept.len() + removed.len() == it.index(),
    {
        let ghost i = it.index() as int;
        proof {
            assert(all.take(i + 1).drop_last() == all.take(i));
            assert(all.take(i + 1).last() == row@);
        }
        let live = match row.time_out {
            None => true,
            Some(t) => now.is_before(&t),
        };
        if live {
            let ghost before = credential_views(kept@);
            kept.push(row);
            assert(credential_views(kept@) == before.push(row@));
        } else {
            proof {
                crate::project::lemma_texts_push(removed@, row.uuid);
            }
            removed.push(row.uuid);
        }
    }
    assert(all.take(all.len() as int) == all);
    Sweep { kept, removed }
}

/// Nothing that a sweep leaves in place has expired by the time of the
/// sweep.
pub proof fn lemma_swept_all_live(rows: Seq<VisitorCredentialView>, now: Timestamp)
    ensures
        forall|i: int|
            0 <= i < swept(rows, now).len() ==> (#[trigger] swept(rows, now)[i]).live_at(now),
    decreases rows.len(),
{
    if rows.len() > 0 {
        lemma_swept_all_live(rows.drop_last(), now);
        let rest = swept(rows.drop_last(), now);
        let all = swept(rows, now);
        assert forall|i: int| 0 <= i < all.len() implies (#[trigger] all[i]).live_at(now) by {
            if i < rest.len() {
                assert(all[i] == rest[i]);
            }
        }
    }
}

/// A sweep over credentials none of which has expired removes nothing and
/// leaves them as they are.
pub proof fn lemma_sweep_of_live(rows: Seq<VisitorCredentialView>, now: Timestamp)
    requires
        forall|i: int| 0 <= i < rows.len() ==> (#[trigger] rows[i]).live_at(now),
    ensures
        swept(rows, now) == rows,
        expired_tokens(rows, now).len() == 0,
    decreases rows.len(),
{
    if rows.len() > 0 {
        assert forall|i: int| 0 <= i < rows.drop_last().len() implies (#[trigger] rows.drop_last()[i]).live_at(
            now,
        ) by {
            assert(rows.drop_last()[i] == rows[i]);
        }
        lemma_sweep_of_live(rows.drop_last(), now);
        assert(rows[rows.len() - 1].live_at(now));
        assert(rows.drop_last().push(rows.last()) == rows);
    }
}

/// A second sweep right after the first removes nothing: as long as none of
/// the credentials that the first sweep left has expired by the time of the
/// second, the second removes no row and changes none. This holds in
/// particular when both sweeps see the same moment.
pub proof fn lemma_sweep_twice(rows: Seq<VisitorCredentialView>, first: Timestamp, second: Timestamp)
    requires
        second == first || forall|i: int|
            0 <= i < swept(rows, first).len() ==> (#[trigger] swept(rows, first)[i]).live_at(
                second,
            ),
    ensures
        expired_tokens(swept(rows, first), second).len() == 0,
        swept(swept(rows, first), second) == swept(rows, first),
{
    if second == first {
        lemma_swept_all_live(rows, first);
    }
    lemma_sweep_of_live(swept(rows, first), second);
}

/// The credentials that carry an expiry, in their order.
pub open spec fn bounded(rows: Seq<VisitorCredentialView>) -> Seq<VisitorCredentialView>
    decreases rows.len(),
{
    if rows.len() == 0 {
        Seq::empty()
    } else if rows.last().time_out is Some {
        bounded(rows.drop_last()).push(rows.last())
    } else {
        bounded(rows.drop_last())
    }
}

/// A sweep removes only credentials that carry an expiry: what it removes
/// can be told from those alone.
pub proof fn lemma_sweep_looks_at_bounded(rows: Seq<VisitorCredentialView>, now: Timestamp)
    ensures
        expired_tokens(bounded(rows), now) == expired_tokens(rows, now),
    decreases rows.len(),
{
    if rows.len() > 0 {
        lemma_sweep_looks_at_bounded(rows.drop_last(), now);
        if rows.last().time_out is Some {
            let found = bounded(rows.drop_last());
            assert(found.push(rows.last()).drop_last() == found);
        }
    }
}

/// A credential that a sweep at `now` removes is refused at `now` and at
/// every later moment, and one that is accepted at `now` is left in place.
pub proof fn lemma_expired_stays_expired(
    row: VisitorCredentialView,
    now: Timestamp,
    later: Timestamp,
)
    requires
        row.expired_at(now),
        now == later || now.before(later),
    ensures
        row.expired_at(later),
{
}

/// Credentials with another token do not count towards the matches of
/// `token`.
pub proof fn lemma_no_match_without_token(
    rows: Seq<VisitorCredentialView>,
    token: Seq<char>,
    now: Timestamp,
)
    requires
        forall|i: int| 0 <= i < rows.len() ==> (#[trigger] rows[i]).uuid != token,
    ensures
        live_matches(rows, token, now) == 0,
    decreases rows.len(),
{
    if rows.len() > 0 {
        assert forall|i: int| 0 <= i < rows.drop_last().len() implies (#[trigger] rows.drop_last()[i]).uuid
            != token by {
            assert(rows.drop_last()[i] == rows[i]);
        }
        lemma_no_match_without_token(rows.drop_last(), token, now);
        assert(rows[rows.len() - 1].uuid != token);
    }
}

/// A credential issued with a validity of zero seconds under a token that no
/// other credential carries is refused at every later moment.
pub proof fn lemma_zero_validity_expires(
    rows: Seq<VisitorCredentialView>,
    token: Seq<char>,
    issued: Timestamp,
    later: Timestamp,
)
    requires
        forall|i: int| 0 <= i < rows.len() ==> (#[trigger] rows[i]).uuid != token,
        issued.before(later),
    ensures
        !valid(
            rows.push(VisitorCredentialView { uuid: token, time_out: expiry(issued, Some(0u64)) }),
            token,
            later,
        ),
{
    let row = VisitorCredentialView { uuid: token, time_out: expiry(issued, Some(0u64)) };
    lemma_no_match_without_token(rows, token, later);
    assert(rows.push(row).drop_last() == rows);
    assert(row.time_out == Some(issued));
}

/// A credential issued without a validity under a token that no other
/// credential carries is accepted at every moment.
pub proof fn lemma_unbounded_validity_holds(
    rows: Seq<VisitorCredentialView>,
    token: Seq<char>,
    issued: Timestamp,
    at: Timestamp,
)
    requires
        forall|i: int| 0 <= i < rows.len() ==> (#[trigger] rows[i]).uuid != token,
    ensures
        valid(
            rows.push(VisitorCredentialView { uuid: token, time_out: expiry(issued, None) }),
            token,
            at,
        ),
{
    let row = VisitorCredentialView { uuid: token, time_out: expiry(issued, None) };
    lemma_no_match_without_token(rows, token, at);
    assert(rows.push(row).drop_last() == rows);
}

/// A token that was checked against the stored credentials and grants
/// access.
#[derive(Clone, Debug, PartialEq, Eq)]
pub struct ValidVisitorUuid(pub String);

/// The refusal of a token.
#[derive(Clone, Copy, Debug, PartialEq, Eq, Structural)]
pub struct InvalidVisitorUuid;

impl ValidVisitorUuid {
    /// Checks the token found in the path of a request. The segment must be
    /// a UUID in any notation; it is matched against the stored credentials
    /// in its canonical form.
    pub fn from_path(segment: &str, rows: &Vec<VisitorCredential>, now: Timestamp) -> (r: Result<
        ValidVisitorUuid,
        InvalidVisitorUuid,
    >)
        ensures
            match canonical_uuid_of(segment@) {
                None => r is Err,
                Some(token) => if valid(credential_views(rows@), token, now) {
                    r matches Ok(v) && v.0@ == token
                } else {
                    r is Err
                },
            },
    {
        match canonical_uuid(segment) {
            None => Err(InvalidVisitorUuid),
            Some(token) => if validate_visitor(rows, token.as_str(), now) {
                Ok(ValidVisitorUuid(token))
            } else {
                Err(InvalidVisitorUuid)
            },
        }
    }
}

impl InvalidVisitorUuid {
    /// What a refused visitor is told.
    pub fn message(&self) -> (m: String)
        ensures
            m@ == "Contact big boss to get proper link"@,
    {
        "Contact big boss to get proper link".to_string()
    }
}

/// The credentials that carry `token`, in their order.
pub open spec fn matching(rows: Seq<VisitorCredentialView>, token: Seq<char>) -> Seq<
    VisitorCredentialView,
>
    decreases rows.len(),
{
    if rows.len() == 0 {
        Seq::empty()
    } else if rows.last().uuid == token {
        matching(rows.drop_last(), token).push(rows.last())
    } else {
        matching(rows.drop_last(), token)
    }
}

/// Whether a token grants access can be decided from the credentials that
/// carry it alone: the other credentials make no difference.
pub proof fn lemma_only_matching_rows_count(
    rows: Seq<VisitorCredentialView>,
    token: Seq<char>,
    now: Timestamp,
)
    ensures
        valid(matching(rows, token), token, now) == valid(rows, token, now),
        live_matches(matching(rows, token), token, now) == live_matches(rows, token, now),
    decreases rows.len(),
{
    if rows.len() > 0 {
        lemma_only_matching_rows_count(rows.drop_last(), token, now);
        if rows.last().uuid == token {
            let found = matching(rows.drop_last(), token);
            assert(found.push(rows.last()).drop_last() == found);
        }
    }
}

/// What a request that should carry the visitor's cookie is answered with.
#[derive(Clone, Copy, Debug, PartialEq, Eq, Structural)]
pub enum CookieAccess {
    /// The request goes on to the endpoint.
    Pass,
    /// Status 401: the token in the cookie grants no access.
    Unauthorized,
    /// Status 417: there is no cookie.
    NoCookie,
}

/// The name of the cookie that holds the visitor's token.
pub const VISITOR_UUID_COOKIE_NAME: &'static str = "visitor-uuid";

/// Decides on a request to the visitor's interface from the token in its
/// cookie and the stored credentials. Where the store could not be read,
/// there are no credentials, and access is refused.
pub fn validate_visitor_cookie(
    cookie: Option<&str>,
    rows: Option<&Vec<VisitorCredential>>,
    now: Timestamp,
) -> (access: CookieAccess)
    ensures
        access == match cookie {
            None => CookieAccess::NoCookie,
            Some(token) => if rows matches Some(rows) && valid(
                credential_views(rows@),
                token@,
                now,
            ) {
                CookieAccess::Pass
            } else {
                CookieAccess::Unauthorized
            },
        },
{
    match cookie {
        None => CookieAccess::NoCookie,
        Some(token) => match rows {
            None => CookieAccess::Unauthorized,
            Some(rows) => if validate_visitor(rows, token, now) {
                CookieAccess::Pass
            } else {
                CookieAccess::Unauthorized
            },
        },
    }
}

/// The answer to a visitor who opens the link with the token: the status,
/// whether the token is set as a cookie, and the page.
#[derive(Clone, Debug, PartialEq, Eq)]
pub struct PageAnswer {
    pub status: u16,
    pub set_cookie: bool,
    pub page: Option<String>,
}

/// Answers a visitor who opens the link with the token. A valid token gets
/// the page and the cookie; where the page cannot be read the server is at
/// fault; an invalid token is unauthorized.
pub fn page(valid: bool, document: Option<String>) -> (answer: PageAnswer)
    ensures
        answer.status == if !valid {
            401u16
        } else if document is Some {
            200u16
        } else {
            500u16
        },
        answer.set_cookie == (valid && document is Some),
        answer.page == if valid {
            document
        } else {
            None
        },
{
    if !valid {
        PageAnswer { status: 401, set_cookie: false, page: None }
    } else {
        match document {
            Some(page) => PageAnswer { status: 200, set_cookie: true, page: Some(page) },
            None => PageAnswer { status: 500, set_cookie: false, page: None },
        }
    }
}

/// The view of an optional token.
pub open spec fn token_view(token: Option<String>) -> Option<Seq<char>> {
    match token {
        Some(t) => Some(t@),
        None => None,
    }
}

/// The canonical form of the token in a path segment, under which its
/// credential is stored, if the segment is a UUID in any notation.
pub fn canonical_token(segment: &str) -> (token: Option<String>)
    ensures
        token_view(token) == canonical_uuid_of(segment@),
        token matches Some(t) ==> is_uuid_text(t@),
{
    canonical_uuid(segment)
}

} // verus!
