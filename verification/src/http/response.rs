//! What a route answers: a status, a content type and a body.
use vstd::prelude::*;

use crate::http::errors::HttpError;

verus! {

/// The status and content type of an answer.
pub struct BaseResponse {
    pub status: u16,
    pub content_type: &'static str,
}

impl Default for BaseResponse {
    /// Status 200, plain text.
    fn default() -> (r: Self)
        ensures
            r.status == 200,
            r.content_type@ == "text/plain"@,
    {
        BaseResponse { status: 200, content_type: "text/plain" }
    }
}

/// An answer whose body is a constant text.
pub struct StaticStrResponse {
    pub base: BaseResponse,
    pub str: &'static str,
}

/// An answer whose body is a text.
pub struct StringResponse {
    pub base: BaseResponse,
    pub str: String,
}

/// An answer whose body is bytes.
pub struct BytesVecResponse {
    pub base: BaseResponse,
    pub bytes: Vec<u8>,
}

/// An answer of a route.
pub enum Response {
    StaticStr(StaticStrResponse),
    String(StringResponse),
    BytesVec(BytesVecResponse),
}

/// The content type of JSON answers.
pub open spec fn json_content_type() -> Seq<char> {
    "application/json; charset=utf-8"@
}

/// A successful JSON answer whose body is the constant `str`.
pub fn create_ok_static_str_json_response<E>(str: &'static str) -> (r: Result<Response, E>)
    ensures
        r matches Ok(Response::StaticStr(s)) && s.str == str && s.base.status == 200
            && s.base.content_type@ == json_content_type(),
{
    Ok(
        Response::StaticStr(
            StaticStrResponse {
                base: BaseResponse {
                    content_type: "application/json; charset=utf-8",
                    ..Default::default()
                },
                str,
            },
        ),
    )
}

/// The successful JSON answer `{"error":null}`.
pub fn create_ok_no_error_json_response<E>() -> (r: Result<Response, E>)
    ensures
        r matches Ok(Response::StaticStr(s)) && s.str@ == "{\"error\":null}"@ && s.base.status
            == 200 && s.base.content_type@ == json_content_type(),
{
    create_ok_static_str_json_response("{\"error\":null}")
}

/// A successful JSON answer with the serialized body, or the error for a
/// body that could not be serialized (`None`).
pub fn create_ok_json_response(serialized: Option<Vec<u8>>) -> (r: Result<Response, HttpError>)
    ensures
        match serialized {
            Some(bytes) => r matches Ok(Response::BytesVec(b)) && b.bytes@ == bytes@
                && b.base.status == 200 && b.base.content_type@ == json_content_type(),
            None => r matches Err(HttpError::PublicInternal500(m)) && m@
                == "result serialization failed"@,
        },
{
    match serialized {
        None => Err(HttpError::PublicInternal500("result serialization failed")),
        Some(bytes) => Ok(
            Response::BytesVec(
                BytesVecResponse {
                    base: BaseResponse {
                        content_type: "application/json; charset=utf-8",
                        ..Default::default()
                    },
                    bytes,
                },
            ),
        ),
    }
}

} // verus!
