//! The errors a request can end in.
use vstd::prelude::*;

verus! {

/// Why a request failed; the server turns each into a status and a body.
#[derive(Debug)]
pub enum HttpError {
    NotFound,
    Unspecified,
    Generic400(&'static str),
    GenericFlatbuffers400(&'static str),
    GenericString400(String),
    /// The limit, in bytes, that the payload went over.
    TooBigPayload(usize),
    InvalidJson(String),
    InvalidFlatbuffers(String),
    PublicInternal500(&'static str),
    MethodNotAllowed,
    ContentTypeUnsupported(&'static str),
    NoSuchCollection,
    Custom {
        status_code: u16,
        error: Option<&'static str>,
        reason: Option<&'static str>,
        details: Option<&'static str>,
    },
}

} // verus!
