//! Access tokens of the WeChat Work API and the query parameters that sign a
//! request to this hub.
use vstd::prelude::*;

use crate::wx_corp::same_text;

verus! {

/// An access token of the WeChat Work API with the Unix time (in seconds) at
/// which it stops being valid.
#[derive(Debug, Clone, PartialEq, Eq)]
pub struct AccessToken {
    pub access_token: String,
    pub expires: i64,
}

/// Query parameters that sign a message sent to the hub.
#[derive(Debug, Clone, PartialEq, Eq)]
pub struct Signature {
    pub signature: String,
    pub timestamp: String,
    pub nonce: String,
}

/// Checks the signature of a request against the one calculated for its
/// token, timestamp, nonce and content: the request passes when they are the
/// same text.
pub fn check_signature(signature: &str, calculated: &str) -> (r: bool)
    ensures
        r == (signature@ == calculated@),
{
    same_text(calculated, signature)
}

} // verus!
