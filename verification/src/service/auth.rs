//! Authentication of API callers by their user token.
use vstd::prelude::*;
use vstd::string::StringExecFns;

verus! {

/// An access token of the WeChat Work API with the Unix time (in seconds) at
/// which it stops being valid.
#[derive(Debug, Clone, PartialEq, Eq)]
pub struct AccessToken {
    pub access_token: String,
    pub expires: i64,
}

/// The answer given to a caller whose token is unknown.
pub open spec fn auth_failed_text() -> Seq<char> {
    "auth failed"@
}

/// Decides on a caller from the lookup of its token: `Ok(Some(username))`
/// where the token belongs to `username`, `Ok(None)` where it belongs to
/// nobody, `Err(())` where the lookup failed. A known token authenticates its
/// user; anything else is refused with "auth failed".
pub fn check_token(lookup: Result<Option<String>, ()>) -> (r: (bool, String))
    ensures
        lookup matches Ok(Some(username)) ==> r.0 && r.1 == username,
        !(lookup matches Ok(Some(_))) ==> !r.0 && r.1@ == auth_failed_text(),
{
    match lookup {
        Ok(Some(username)) => (true, username),
        _ => (false, String::from_str("auth failed")),
    }
}

} // verus!
