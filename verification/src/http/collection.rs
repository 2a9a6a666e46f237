//! Checks on requests that create collections.
use vstd::prelude::*;
use vstd::string::StringSliceAdditionalSpecFns;
use vstd::utf8::encode_utf8;

use crate::common::MAX_COLLECTION_NAME_LENGTH;
use crate::http::errors::HttpError;

verus! {

/// `r` is the verdict on a collection name of `len` bytes: 1 to 255 bytes
/// are accepted.
pub open spec fn collection_name_verdict<T>(len: nat, r: Result<T, HttpError>) -> bool {
    if len == 0 {
        r matches Err(HttpError::Generic400(m)) && m@ == "collectionName cannot be empty"@
    } else if len > MAX_COLLECTION_NAME_LENGTH {
        r matches Err(HttpError::Generic400(m)) && m@ == "collectionName cannot be > 255"@
    } else {
        r is Ok
    }
}

/// Accepts a collection name of 1 to 255 bytes (UTF-8).
pub fn check_collection_name(collection_name: &str) -> (r: Result<(), HttpError>)
    ensures
        collection_name_verdict(collection_name.spec_bytes().len(), r),
{
    let len = collection_name.as_bytes().len();
    if len == 0 {
        return Err(HttpError::Generic400("collectionName cannot be empty"));
    }
    if len > MAX_COLLECTION_NAME_LENGTH {
        return Err(HttpError::Generic400("collectionName cannot be > 255"));
    }
    Ok(())
}

/// A request to create a collection, from either form of the request.
pub struct CreateCollectionRequest {
    pub is_flatbuffers: bool,
    pub collection_name: String,
    pub is_manual: bool,
}

/// A JSON request to create a collection: the name must pass
/// `check_collection_name`.
pub fn create_collection_request_from_json(collection_name: String, is_manual: bool) -> (r: Result<
    CreateCollectionRequest,
    HttpError,
>)
    ensures
        collection_name_verdict(encode_utf8(collection_name@).len(), r),
        r matches Ok(d) ==> !d.is_flatbuffers && d.collection_name@ == collection_name@
            && d.is_manual == is_manual,
{
    match check_collection_name(collection_name.as_str()) {
        Ok(()) => Ok(CreateCollectionRequest { is_flatbuffers: false, collection_name, is_manual }),
        Err(e) => Err(e),
    }
}

/// A binary request to create a collection: the name must be there, then
/// pass `check_collection_name`.
pub fn create_collection_request_from_flatbuffers(
    collection_name: Option<String>,
    is_manual: bool,
) -> (r: Result<CreateCollectionRequest, HttpError>)
    ensures
        match collection_name {
            None => r matches Err(HttpError::GenericFlatbuffers400(m)) && m@ == "no collection_name"@,
            Some(name) => collection_name_verdict(encode_utf8(name@).len(), r) && (r matches Ok(
                d,
            ) ==> d.is_flatbuffers && d.collection_name@ == name@ && d.is_manual == is_manual),
        },
{
    let collection_name = match collection_name {
        None => {
            return Err(HttpError::GenericFlatbuffers400("no collection_name"));
        },
        Some(name) => name,
    };
    match check_collection_name(collection_name.as_str()) {
        Ok(()) => Ok(CreateCollectionRequest { is_flatbuffers: true, collection_name, is_manual }),
        Err(e) => Err(e),
    }
}

} // verus!

verus! {

/// Why the store did not create a collection.
pub enum CreateCollectionFailure {
    /// A collection of that name exists.
    AlreadyExist,
    /// Any other failure of the store.
    Other,
}

/// The error that answers a collection the store did not create.
pub fn create_collection_error_to_http(err: CreateCollectionFailure) -> (r: HttpError)
    ensures
        match err {
            CreateCollectionFailure::AlreadyExist => r matches HttpError::Generic400(m) && m@
                == "collection with such id already exists"@,
            CreateCollectionFailure::Other => r is Unspecified,
        },
{
    match err {
        CreateCollectionFailure::AlreadyExist => HttpError::Generic400(
            "collection with such id already exists",
        ),
        CreateCollectionFailure::Other => HttpError::Unspecified,
    }
}

} // verus!
