//! The administrator's side: signing in, registering, and the guard in front
//! of the administrative endpoints.

use crate::trusted::{is_alphanumeric, random_alphanumeric};
use vstd::prelude::*;
use vstd::string::*;

verus! {

/// For how many seconds a session token is valid: one day.
pub const VALID_FOR: i64 = 86400;

/// The claims of a session token: the second at which it expires.
#[derive(Clone, Copy, Debug, PartialEq, Eq, Structural)]
pub struct JwtClaims {
    pub exp: usize,
}

/// The credentials an administrator signs in with.
#[derive(Clone, Debug, PartialEq, Eq)]
pub struct AuthReq {
    pub email: String,
    pub password: String,
}

/// The details of an administrator to register.
#[derive(Clone, Debug, PartialEq, Eq)]
pub struct AddUserReqBody {
    pub name: Option<String>,
    pub last_name: Option<String>,
    pub email: String,
    pub password: String,
}

impl JwtClaims {
    /// The claims of a token issued at second `now`, if the machine can hold
    /// the expiry.
    pub open spec fn issued_at_spec(now: i64) -> Option<JwtClaims> {
        if 0 <= now + VALID_FOR <= usize::MAX {
            Some(JwtClaims { exp: (now + VALID_FOR) as usize })
        } else {
            None
        }
    }

    /// The claims of a token issued at second `now`: it expires one day
    /// later.
    pub fn issued_at(now: i64) -> (claims: Option<JwtClaims>)
        ensures
            claims == Self::issued_at_spec(now),
    {
        let exp: i128 = now as i128 + VALID_FOR as i128;
        if 0 <= exp && exp <= usize::MAX as i128 {
            Some(JwtClaims { exp: exp as usize })
        } else {
            None
        }
    }

    /// Whether the token has not expired at second `now`.
    pub open spec fn current_at(self, now: i64) -> bool {
        self.exp >= now
    }

    /// Whether the token has not expired at second `now`.
    pub fn is_current(&self, now: i64) -> (b: bool)
        ensures
            b == self.current_at(now),
    {
        now < 0 || self.exp as u128 >= now as u128
    }
}

/// What the guard in front of the administrative endpoints decides.
#[derive(Clone, Copy, Debug, PartialEq, Eq, Structural)]
pub enum Access {
    Pass,
    Unauthorized,
}

/// What was found in the request's authorization header.
#[derive(Clone, Copy, Debug, PartialEq, Eq, Structural)]
pub enum Bearer {
    /// No bearer token.
    Missing,
    /// A token that does not decode under the server's secret.
    Undecodable,
    /// A token with these claims.
    Claims(JwtClaims),
}

/// Whether a request may pass: with a token, the token must decode and must
/// not have expired; without one, only a development build lets it through.
pub open spec fn is_admin_spec(development: bool, bearer: Bearer, now: i64) -> Access {
    match bearer {
        Bearer::Missing => if development {
            Access::Pass
        } else {
            Access::Unauthorized
        },
        Bearer::Undecodable => Access::Unauthorized,
        Bearer::Claims(claims) => if claims.current_at(now) {
            Access::Pass
        } else {
            Access::Unauthorized
        },
    }
}

/// Decides whether a request to an administrative endpoint may pass.
pub fn is_admin(development: bool, bearer: Bearer, now: i64) -> (access: Access)
    ensures
        access == is_admin_spec(development, bearer, now),
{
    match bearer {
        Bearer::Missing => if development {
            Access::Pass
        } else {
            Access::Unauthorized
        },
        Bearer::Undecodable => Access::Unauthorized,
        Bearer::Claims(claims) => if claims.is_current(now) {
            Access::Pass
        } else {
            Access::Unauthorized
        },
    }
}

/// An answer without a body: the status, and the session token where one is
/// granted.
#[derive(Clone, Debug, PartialEq, Eq)]
pub struct Answer {
    pub status: u16,
    pub authorization: Option<String>,
}

/// The value of the authorization header that grants `token`.
pub open spec fn bearer_spec(token: Seq<char>) -> Seq<char> {
    "Bearer "@ + token
}

/// The mathematical content of an [`Answer`].
pub open spec fn answer_view(answer: Answer) -> (u16, Option<Seq<char>>) {
    (
        answer.status,
        match answer.authorization {
            Some(a) => Some(a@),
            None => None,
        },
    )
}

/// The answer to a sign-in: the store must have counted exactly one
/// administrator with the given credentials, and the token must have been
/// signed.
pub open spec fn auth_spec(count: Option<u64>, token: Option<Seq<char>>) -> (
    u16,
    Option<Seq<char>>,
) {
    match count {
        None => (500, None),
        Some(n) => if n != 1 {
            (418, None)
        } else {
            match token {
                None => (500, None),
                Some(t) => (200, Some(bearer_spec(t))),
            }
        },
    }
}

/// Answers a sign-in, given how many administrators the store counted with
/// the credentials (nothing if the store failed) and the signed session
/// token (nothing if signing failed).
pub fn auth(count: Option<u64>, token: Option<String>) -> (answer: Answer)
    ensures
        answer_view(answer) == auth_spec(
            count,
            match token {
                Some(t) => Some(t@),
                None => None,
            },
        ),
{
    match count {
        None => Answer { status: 500, authorization: None },
        Some(n) => if n != 1 {
            Answer { status: 418, authorization: None }
        } else {
            match token {
                None => Answer { status: 500, authorization: None },
                Some(t) => {
                    let mut header = String::from_str("Bearer ");
                    header.append(t.as_str());
                    Answer { status: 200, authorization: Some(header) }
                },
            }
        },
    }
}

/// Decides whether a registration goes ahead, given whether the store found
/// an administrator with the address (nothing if the store failed). An
/// address that is taken is answered with a conflict; in every other case the
/// administrator is stored.
pub fn may_register(existing: Option<bool>) -> (go: Result<(), Answer>)
    ensures
        match go {
            Ok(_) => existing != Some(true),
            Err(answer) => existing == Some(true) && answer.status == 409
                && answer.authorization is None,
        },
{
    match existing {
        Some(true) => Err(Answer { status: 409, authorization: None }),
        _ => Ok(()),
    }
}

/// Answers a registration that went ahead: the session token where the
/// administrator was stored, a server error where storing failed.
pub fn new_admin(inserted: bool, token: &str) -> (answer: Answer)
    ensures
        answer_view(answer) == if inserted {
            (201u16, Some(bearer_spec(token@)))
        } else {
            (500u16, None::<Seq<char>>)
        },
{
    if inserted {
        let mut header = String::from_str("Bearer ");
        header.append(token);
        Answer { status: 201, authorization: Some(header) }
    } else {
        Answer { status: 500, authorization: None }
    }
}

/// The length of the server's signing secret.
pub const SECRET_KEY_LENGTH: usize = 32;

/// Whether `key` can serve as the signing secret: thirty-two ASCII letters
/// and digits.
pub open spec fn is_secret_key(key: Seq<char>) -> bool {
    key.len() == SECRET_KEY_LENGTH && forall|i: int|
        0 <= i < key.len() ==> is_alphanumeric(#[trigger] key[i])
}

/// Draws the secret that session tokens are signed with. It is drawn once
/// when the server starts and handed to whatever signs or checks a token.
pub fn secret_key() -> (key: String)
    ensures
        is_secret_key(key@),
{
    let mut key = String::new();
    let mut n: usize = 0;
    while n < SECRET_KEY_LENGTH
        invariant
            n <= SECRET_KEY_LENGTH,
            key@.len() == n,
            forall|i: int| 0 <= i < key@.len() ==> is_alphanumeric(#[trigger] key@[i]),
        decreases SECRET_KEY_LENGTH - n,
    {
        key.push(random_alphanumeric());
        n += 1;
    }
    key
}

} // verus!
