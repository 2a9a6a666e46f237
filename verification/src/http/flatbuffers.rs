//! Which handler a binary (flatbuffers) request goes to.
use vstd::prelude::*;

use crate::http::error_response::{decimal_text, usize_to_decimal};
use crate::http::errors::HttpError;

verus! {

/// The kind of body that a binary request holds: its tag in the request's
/// union, with the two that this server answers named.
pub enum RequestBodyKind {
    CreateCollection,
    StartGeneration,
    /// Any other tag.
    Other(u8),
}

/// The handlers that binary requests go to.
pub enum FlatbuffersRoute {
    CreateCollection,
    StartGeneration,
}

/// The message for a body that no handler takes: its name where the schema
/// gives one, else `#` and its tag.
pub open spec fn unsupported_body_message(tag: u8, variant_name: Option<Seq<char>>) -> Seq<char> {
    "Unsupported flatbuffers request: "@ + match variant_name {
        Some(name) => name,
        None => "#"@ + decimal_text(tag as nat),
    }
}

/// The handler for a binary request's body, or the error for a body that
/// no handler takes.
pub fn flatbuffers_route_for(body: RequestBodyKind, variant_name: Option<&str>) -> (r: Result<
    FlatbuffersRoute,
    HttpError,
>)
    ensures
        match body {
            RequestBodyKind::CreateCollection => r matches Ok(FlatbuffersRoute::CreateCollection),
            RequestBodyKind::StartGeneration => r matches Ok(FlatbuffersRoute::StartGeneration),
            RequestBodyKind::Other(tag) => r matches Err(HttpError::InvalidFlatbuffers(m)) && m@
                == unsupported_body_message(
                tag,
                match variant_name {
                    Some(n) => Some(n@),
                    None => None,
                },
            ),
        },
{
    match body {
        RequestBodyKind::CreateCollection => Ok(FlatbuffersRoute::CreateCollection),
        RequestBodyKind::StartGeneration => Ok(FlatbuffersRoute::StartGeneration),
        RequestBodyKind::Other(tag) => {
            let prefix = String::from_str("Unsupported flatbuffers request: ");
            let message = match variant_name {
                Some(name) => prefix.concat(name),
                None => {
                    let digits = usize_to_decimal(tag as usize);
                    prefix.concat("#").concat(digits.as_str())
                },
            };
            proof {
                reveal_strlit("Unsupported flatbuffers request: ");
                reveal_strlit("#");
            }
            Err(HttpError::InvalidFlatbuffers(message))
        },
    }
}

/// The data of a binary request's body, which must be there.
pub fn flatbuffers_request_data<T>(data: Option<T>) -> (r: Result<T, HttpError>)
    ensures
        match data {
            Some(d) => r matches Ok(x) && x == d,
            None => r matches Err(HttpError::GenericFlatbuffers400(m)) && m@ == "no request data"@,
        },
{
    match data {
        Some(d) => Ok(d),
        None => Err(HttpError::GenericFlatbuffers400("no request data")),
    }
}

} // verus!
