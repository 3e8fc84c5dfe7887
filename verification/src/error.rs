//! The error taxonomy of the service and its mapping to transport
//! responses. Every condition here is recoverable and user-facing; none
//! aborts the process.

use vstd::prelude::*;

verus! {

/// A failure reported to the caller of the service.
#[derive(Debug, Clone, Copy, PartialEq, Eq, Structural)]
pub enum ChatError {
    /// Login was attempted with a username or password that matches no
    /// stored user.
    InvalidCredentials,
    /// A token was presented but does not match the session's token.
    InvalidAuthKey,
    /// Registration was attempted for a username that already exists.
    UsernameInUse,
    /// The caller is authenticated but lacks the required privilege.
    Forbidden,
    /// No session exists for the given username.
    NotLoggedIn,
    /// The durable store could not be reached; the caller may retry.
    DatabaseBusy,
    /// The request carried no JSON body where one was required.
    NoJsonBodyDetected,
    /// A cursor, timestamp or id could not be parsed.
    MalformedInput,
}

impl ChatError {
    /// The JSON error text and HTTP status code with which this condition
    /// is answered, or `None` where it is surfaced as an internal failure
    /// instead of a shaped body.
    pub fn response_parts(&self) -> (r: Option<(String, u16)>)
        ensures
            r is Some <==> !(self is DatabaseBusy),
            self is InvalidCredentials ==> (r matches Some(p) && p.0@
                == "invalid username or password"@ && p.1 == 422),
            self is InvalidAuthKey ==> (r matches Some(p) && p.0@ == "invalid auth_key"@ && p.1
                == 401),
            self is UsernameInUse ==> (r matches Some(p) && p.0@ == "username already taken"@ && p.1
                == 409),
            self is Forbidden ==> (r matches Some(p) && p.0@ == "insufficient rights"@ && p.1 == 403),
            self is NotLoggedIn ==> (r matches Some(p) && p.0@ == "not logged in"@ && p.1 == 401),
            self is NoJsonBodyDetected ==> (r matches Some(p) && p.0@ == "no json body detected"@
                && p.1 == 400),
            self is MalformedInput ==> (r matches Some(p) && p.0@ == "invalid timestamp or id"@
                && p.1 == 422),
    {
        match *self {
            ChatError::InvalidCredentials => Some(("invalid username or password".to_owned(), 422)),
            ChatError::InvalidAuthKey => Some(("invalid auth_key".to_owned(), 401)),
            ChatError::UsernameInUse => Some(("username already taken".to_owned(), 409)),
            ChatError::Forbidden => Some(("insufficient rights".to_owned(), 403)),
            ChatError::NotLoggedIn => Some(("not logged in".to_owned(), 401)),
            ChatError::DatabaseBusy => None,
            ChatError::NoJsonBodyDetected => Some(("no json body detected".to_owned(), 400)),
            ChatError::MalformedInput => Some(("invalid timestamp or id".to_owned(), 422)),
        }
    }
}

/// The body of an error answer: a fixed `"error"` status and the text
/// explaining the condition.
#[derive(Debug)]
pub struct JsonError {
    pub status: String,
    pub error: String,
}

impl JsonError {
    pub fn new(s: String) -> (r: JsonError)
        ensures
            r.status@ == "error"@,
            r.error == s,
    {
        JsonError { status: "error".to_owned(), error: s }
    }
}

} // verus!
