//! Classification of portal responses: the error taxonomy and the checks
//! a response body must pass before configuration parsing.

use vstd::prelude::*;

use crate::xml::xml_parse_error;
use crate::xml::xml_parses;

verus! {

/// Errors a configuration retrieval surfaces to its caller.
#[derive(Debug, Clone, PartialEq, Eq)]
pub enum PortalError {
    /// A transport-level failure reaching the portal, carrying the
    /// transport's own description.
    NetworkError(String),
    /// The portal lacks the configuration endpoint: a 404 response.
    EndpointNotFound,
    /// Any other error-range application status, carrying the
    /// server-provided reason text.
    PortalStatusError(String),
    /// A configuration failure — empty body, a body that does not parse,
    /// or another non-success response — carrying the reason text.
    ConfigError(String),
}

/// An application status in the client- or server-error range.
pub open spec fn is_error_status(status: u16) -> bool {
    400 <= status < 600
}

/// Map a failed portal exchange to the error surfaced to the caller: a
/// 404 status is the missing-endpoint error, any other error-range
/// status surfaces the server's reason as a portal status error, and any
/// other non-success condition is a configuration error with the reason.
pub fn classify_error_response(status: u16, reason: String) -> (e: PortalError)
    ensures
        status == 404 ==> e == PortalError::EndpointNotFound,
        status != 404 && is_error_status(status) ==> e == PortalError::PortalStatusError(reason),
        !is_error_status(status) ==> e == PortalError::ConfigError(reason),
{
    if status == 404 {
        PortalError::EndpointNotFound
    } else if 400 <= status && status < 600 {
        PortalError::PortalStatusError(reason)
    } else {
        PortalError::ConfigError(reason)
    }
}

/// The reason reported for a response whose body is empty.
pub open spec fn empty_body_reason() -> Seq<char> {
    "Empty portal config response"@
}

/// Check a successfully transported response body before parsing: an
/// empty body and a body that is not a well-formed document are both
/// configuration errors, the latter carrying the parser's own text.
pub fn validate_response_body(body: &str) -> (r: Result<(), PortalError>)
    ensures
        body@.len() == 0 ==> (r matches Err(e) && e matches PortalError::ConfigError(m) && m@
            == empty_body_reason()),
        body@.len() > 0 ==> (r is Ok <==> xml_parses(body@)),
        body@.len() > 0 && !xml_parses(body@) ==> (r matches Err(e) && e is ConfigError),
{
    if body.is_empty() {
        return Err(PortalError::ConfigError("Empty portal config response".to_owned()));
    }
    match xml_parse_error(body) {
        Some(reason) => Err(PortalError::ConfigError(reason)),
        None => Ok(()),
    }
}

} // verus!
