//! What a failed read of a request body answers.
use vstd::prelude::*;

use crate::http::errors::HttpError;

verus! {

/// Why reading a request body failed.
pub enum BodyReadError {
    /// The connection failed.
    Io,
    /// The body was longer than allowed.
    SizeLimit,
    /// The body could not be copied into aligned memory.
    Align,
}

/// The error that answers a failed read of a body of at most `max_bytes`.
pub fn body_read_error_to_http_error(err: BodyReadError, max_bytes: usize) -> (r: HttpError)
    ensures
        match err {
            BodyReadError::Io => r matches HttpError::Generic400(m) && m@ == "io"@,
            BodyReadError::SizeLimit => r == HttpError::TooBigPayload(max_bytes),
            BodyReadError::Align => r matches HttpError::PublicInternal500(m) && m@
                == "alignError"@,
        },
{
    match err {
        BodyReadError::Io => HttpError::Generic400("io"),
        BodyReadError::SizeLimit => HttpError::TooBigPayload(max_bytes),
        BodyReadError::Align => HttpError::PublicInternal500("alignError"),
    }
}

} // verus!
