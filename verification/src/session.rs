//! The decisions of the user endpoint: which requests are refused and which
//! session a message goes to.

use vstd::prelude::*;
use crate::ids;
use crate::types::Query;

verus! {

/// A refused request, with the HTTP status it is answered with.
#[derive(Debug, Clone)]
pub enum RequestError {
    /// The request itself is wrong (400).
    BadRequest(String),
    /// The request could not be served (500).
    Internal(String),
}

impl RequestError {
    /// The HTTP status code of the answer.
    pub fn status_code(&self) -> (c: u16)
        ensures
            self is BadRequest ==> c == 400,
            self is Internal ==> c == 500,
    {
        match self {
            RequestError::BadRequest(_) => 400,
            RequestError::Internal(_) => 500,
        }
    }

    /// The text of the answer.
    pub fn message(&self) -> (m: String)
        ensures
            self matches RequestError::BadRequest(t) ==> m@ == t@,
            self matches RequestError::Internal(t) ==> m@ == t@,
    {
        match self {
            RequestError::BadRequest(t) => t.clone(),
            RequestError::Internal(t) => t.clone(),
        }
    }
}

/// The session that a request's message goes to: the one it names, or a
/// new one with a fresh id. A request without a user id is refused.
pub fn resolve_session(query: &Query) -> (r: Result<String, RequestError>)
    ensures
        query.id@.len() == 0 ==> (r matches Err(RequestError::BadRequest(m)) && m@
            == "please provide a user id"@),
        query.id@.len() > 0 && query.session_id is Some ==> (r matches Ok(s) && s@
            == query.session_id->0@),
        query.id@.len() > 0 && query.session_id is None ==> (r matches Ok(s)
            && ids::is_uuid_v4_text(s@)),
{
    if query.id.as_str().unicode_len() == 0 {
        return Err(RequestError::BadRequest(String::from_str("please provide a user id")));
    }
    match &query.session_id {
        Some(s) => Ok(s.clone()),
        None => Ok(ids::new_uuid_v4()),
    }
}

} // verus!
