//! What the client is sent when a request fails.

use vstd::prelude::*;
use vstd::string::*;

verus! {

/// The status and the text of an answer.
#[derive(Clone, Debug, PartialEq, Eq)]
pub struct Reply {
    pub status: u16,
    pub body: String,
}

/// The mathematical content of a [`Reply`].
pub struct ReplyView {
    pub status: u16,
    pub body: Seq<char>,
}

impl View for Reply {
    type V = ReplyView;

    open spec fn view(&self) -> ReplyView {
        ReplyView { status: self.status, body: self.body@ }
    }
}

/// `prefix` followed by `rest`.
pub fn joined(prefix: &str, rest: &str) -> (s: String)
    ensures
        s@ == prefix@ + rest@,
{
    let mut s = String::from_str(prefix);
    s.append(rest);
    s
}

/// The answer with status 500 whose text is `prefix` followed by `message`.
pub fn server_error(prefix: &str, message: &str) -> (reply: Reply)
    ensures
        reply@ == (ReplyView { status: 500, body: prefix@ + message@ }),
{
    Reply { status: 500, body: joined(prefix, message) }
}

} // verus!
