//! What can be wrong with a request handed in from outside.

use vstd::prelude::*;

use crate::text::joined;

verus! {

/// Every way a send or a re-queue request can be refused. A caller matches on
/// the variant; the message is for a human reading a log line.
#[derive(Debug, Clone, PartialEq, Eq)]
#[non_exhaustive]
pub enum RequestError {
    /// The request is not JSON, or not the shape this call expects.
    Json(String),
    /// A field that has to be lowercase hex is not, or decodes to the wrong
    /// number of bytes.
    Hex { field: &'static str },
    /// A field that has to be base64 is not.
    Base64 { field: &'static str },
    /// A delivery method outside `opportunistic` / `direct` / `propagated`.
    UnknownMethod(String),
    /// The fields parsed, but signing the message failed.
    Signing(String),
}

pub open spec fn request_error_text(error: RequestError) -> Seq<char> {
    match error {
        RequestError::Json(detail) => "malformed request json: "@ + detail@,
        RequestError::Hex { field } => field@ + " is not the lowercase hex it must be"@,
        RequestError::Base64 { field } => field@ + " is not valid base64"@,
        RequestError::UnknownMethod(method) => "unknown delivery method: "@ + method@,
        RequestError::Signing(detail) => "could not build the message: "@ + detail@,
    }
}

impl RequestError {
    /// The line a log shows for this error.
    pub fn message(&self) -> (res: String)
        ensures
            res@ == request_error_text(*self),
    {
        match self {
            RequestError::Json(detail) => joined("malformed request json: ", detail.as_str()),
            RequestError::Hex { field } => joined(field, " is not the lowercase hex it must be"),
            RequestError::Base64 { field } => joined(field, " is not valid base64"),
            RequestError::UnknownMethod(method) => joined("unknown delivery method: ", method.as_str()),
            RequestError::Signing(detail) => joined("could not build the message: ", detail.as_str()),
        }
    }
}

} // verus!
