//! The method parser: case-insensitive recognition of the supported HTTP
//! verbs.
use vstd::prelude::*;

use crate::bytes::bytes_eq;
use crate::bytes::lower;
use crate::bytes::lower_vec;
use crate::lit::lit_word_get;
use crate::lit::lit_word_post;
use crate::lit::vec_word_get;
use crate::lit::vec_word_post;

verus! {

/// The verbs the server supports.
#[derive(Clone, Copy, Debug, PartialEq, Eq, Structural)]
pub enum HTTPMethod {
    GET,
    POST,
}

/// The failure of the method parser: the token named no supported verb.
#[derive(Clone, Copy, Debug, PartialEq, Eq, Structural)]
pub struct ParseHTTPMethodError;

impl ParseHTTPMethodError {
    /// A diagnostic for the log.
    pub fn message(&self) -> (m: &'static str)
        ensures
            m@ == "unsupported HTTP method"@,
    {
        "unsupported HTTP method"
    }
}

/// The verb a token names, matched without regard to ASCII case; nothing for
/// any other token, the empty one included.
pub open spec fn method_of(token: Seq<u8>) -> Option<HTTPMethod> {
    if lower(token) == lit_word_get() {
        Some(HTTPMethod::GET)
    } else if lower(token) == lit_word_post() {
        Some(HTTPMethod::POST)
    } else {
        None
    }
}

/// Parses a request-line token into a supported verb.
pub fn parse_method(token: &[u8]) -> (r: Result<HTTPMethod, ParseHTTPMethodError>)
    ensures
        r == match method_of(token@) {
            Some(m) => Result::<HTTPMethod, ParseHTTPMethodError>::Ok(m),
            None => Result::<HTTPMethod, ParseHTTPMethodError>::Err(ParseHTTPMethodError),
        },
{
    let low = lower_vec(token);
    if bytes_eq(low.as_slice(), vec_word_get().as_slice()) {
        Ok(HTTPMethod::GET)
    } else if bytes_eq(low.as_slice(), vec_word_post().as_slice()) {
        Ok(HTTPMethod::POST)
    } else {
        Err(ParseHTTPMethodError)
    }
}

} // verus!
