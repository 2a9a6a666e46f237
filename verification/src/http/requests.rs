//! Reading the requests that name a key, a generation or a phantom (`get`,
//! `getKeysAround`, `query`, `generation/start`), in JSON or in the binary
//! form. Fields are read in a fixed order; the first that fails gives the
//! error.
use vstd::prelude::*;

use crate::common::{
    OwnedCollectionKey, OwnedGenerationId, OwnedPhantomId, MAX_COLLECTION_KEY_LENGTH,
    MAX_GENERATION_ID_LENGTH, MAX_PHANTOM_ID_LENGTH,
};
use crate::http::data::{
    encoded_generation_id_data_decode_opt, encoded_generation_id_data_into_generation_id,
    flatbuffers_generation_id_to_owned_generation_id_opt,
    flatbuffers_phantom_id_to_owned_phantom_id_opt, generation_id_decodes,
    generation_id_opt_decodes, generation_id_opt_ok, key_decodes, key_ok, phantom_id_opt_decodes,
    phantom_id_opt_ok, EncodedGenerationIdJsonData, EncodedKeyJsonData, EncodedPhantomIdJsonData,
};
use crate::http::encoding::StringDecoder;
use crate::http::errors::HttpError;
use crate::http::query::text_eq;
use crate::str_serialization::StrSerializationType;

verus! {

/// A key to read, in a generation and maybe a phantom.
pub struct KeyedRequest {
    pub key: OwnedCollectionKey,
    pub generation_id: Option<OwnedGenerationId>,
    pub phantom_id: Option<OwnedPhantomId>,
}

/// The body of a `get` request in JSON.
pub struct GetRequestJsonData {
    pub key: EncodedKeyJsonData,
    pub generation_id: Option<EncodedGenerationIdJsonData>,
    pub phantom_id: Option<EncodedPhantomIdJsonData>,
}

/// The body of a `getKeysAround` request in JSON.
pub struct GetKeysAroundRequestJsonData {
    pub key: EncodedKeyJsonData,
    pub require_key_existance: bool,
    pub limit: usize,
    pub generation_id: Option<EncodedGenerationIdJsonData>,
    pub phantom_id: Option<EncodedPhantomIdJsonData>,
}

/// A `getKeysAround` request, read.
pub struct GetKeysAroundRequest {
    pub request: KeyedRequest,
    pub require_key_existance: bool,
    pub limit: usize,
}

/// A binary request that names a collection, a key, a generation and a
/// phantom, as the fields it holds.
pub struct KeyedFlatRequest {
    pub collection_name: Option<String>,
    pub key: Option<Vec<u8>>,
    pub generation_id: Option<Vec<u8>>,
    pub phantom_id: Option<Vec<u8>>,
}

/// A binary `getKeysAround` request, as the fields it holds.
pub struct GetKeysAroundFlatRequest {
    pub keyed: KeyedFlatRequest,
    pub require_key_existance: bool,
    pub limit: u32,
}

/// The body of a request that starts a query, in JSON.
pub struct StartQueryRequestJsonData {
    pub generation_id: Option<EncodedGenerationIdJsonData>,
    pub phantom_id: Option<EncodedPhantomIdJsonData>,
}

/// A binary request that starts a query, as the fields it holds.
pub struct StartQueryFlatRequest {
    pub collection_name: Option<String>,
    pub generation_id: Option<Vec<u8>>,
    pub phantom_id: Option<Vec<u8>>,
}

/// A request that starts a query, read.
pub struct StartQueryRequest {
    pub generation_id: Option<OwnedGenerationId>,
    pub phantom_id: Option<OwnedPhantomId>,
}

/// The body of a `generation/start` request in JSON.
pub struct StartGenerationRequestJsonData {
    pub generation_id: EncodedGenerationIdJsonData,
    pub abort_outdated: Option<bool>,
}

/// A `generation/start` request, read.
pub struct StartGenerationRequest {
    pub generation_id: OwnedGenerationId,
    pub abort_outdated: bool,
}

/// What a request on a query cursor asks.
pub enum QueryCursorMethod {
    Read,
    Abort,
}

/// `r` is what reading the key, then the generation id, then the phantom id
/// of a JSON request gives (encodings default to UTF-8).
pub open spec fn keyed_request_decodes(
    key: EncodedKeyJsonData,
    generation_id: Option<EncodedGenerationIdJsonData>,
    phantom_id: Option<EncodedPhantomIdJsonData>,
    r: Result<KeyedRequest, HttpError>,
) -> bool {
    if !key_ok(key, StrSerializationType::Utf8) {
        r matches Err(e) && key_decodes(key, StrSerializationType::Utf8, Err(e))
    } else if !generation_id_opt_ok(generation_id) {
        r matches Err(e) && generation_id_opt_decodes(generation_id, Err(e))
    } else if !phantom_id_opt_ok(phantom_id, StrSerializationType::Utf8) {
        r matches Err(e) && phantom_id_opt_decodes(phantom_id, StrSerializationType::Utf8, Err(e))
    } else {
        r matches Ok(o) && key_decodes(key, StrSerializationType::Utf8, Ok(o.key))
            && generation_id_opt_decodes(generation_id, Ok(o.generation_id))
            && phantom_id_opt_decodes(phantom_id, StrSerializationType::Utf8, Ok(o.phantom_id))
    }
}

/// Reads the key, then the generation id, then the phantom id.
fn decode_keyed(
    key: EncodedKeyJsonData,
    generation_id: Option<EncodedGenerationIdJsonData>,
    phantom_id: Option<EncodedPhantomIdJsonData>,
) -> (r: Result<KeyedRequest, HttpError>)
    ensures
        keyed_request_decodes(key, generation_id, phantom_id, r),
{
    let decoder = StringDecoder::new(StrSerializationType::Utf8);
    let key = match key.decode(&decoder) {
        Ok(k) => k,
        Err(e) => {
            return Err(e);
        },
    };
    let generation_id = match encoded_generation_id_data_decode_opt(generation_id) {
        Ok(g) => g,
        Err(e) => {
            return Err(e);
        },
    };
    let phantom_id = match EncodedPhantomIdJsonData::decode_opt(phantom_id, &decoder) {
        Ok(p) => p,
        Err(e) => {
            return Err(e);
        },
    };
    Ok(KeyedRequest { key, generation_id, phantom_id })
}

/// A `get` request in JSON.
pub fn parse_get_request_json(data: GetRequestJsonData) -> (r: Result<KeyedRequest, HttpError>)
    ensures
        keyed_request_decodes(data.key, data.generation_id, data.phantom_id, r),
{
    decode_keyed(data.key, data.generation_id, data.phantom_id)
}

/// A `getKeysAround` request in JSON; `requireKeyExistance` and `limit` are
/// taken as they are.
pub fn parse_get_keys_around_request_json(data: GetKeysAroundRequestJsonData) -> (r: Result<
    GetKeysAroundRequest,
    HttpError,
>)
    ensures
        match r {
            Ok(o) => keyed_request_decodes(data.key, data.generation_id, data.phantom_id, Ok(o.request))
                && o.require_key_existance == data.require_key_existance && o.limit == data.limit,
            Err(e) => keyed_request_decodes(data.key, data.generation_id, data.phantom_id, Err(e)),
        },
{
    match decode_keyed(data.key, data.generation_id, data.phantom_id) {
        Ok(request) => Ok(
            GetKeysAroundRequest {
                request,
                require_key_existance: data.require_key_existance,
                limit: data.limit,
            },
        ),
        Err(e) => Err(e),
    }
}

/// `r` is `Err(Generic400(m))`.
pub open spec fn is_400<T>(r: Result<T, HttpError>, m: Seq<char>) -> bool {
    r matches Err(HttpError::Generic400(e)) && e@ == m
}

/// `r` is `Err(GenericFlatbuffers400(m))`.
pub open spec fn is_flat_400<T>(r: Result<T, HttpError>, m: Seq<char>) -> bool {
    r matches Err(HttpError::GenericFlatbuffers400(e)) && e@ == m
}

/// `g` holds the optional bytes `b`.
pub open spec fn holds_generation_id(g: Option<OwnedGenerationId>, b: Option<Vec<u8>>) -> bool {
    match b {
        None => g is None,
        Some(b) => g matches Some(x) && x@ == b@,
    }
}

/// `p` holds the optional bytes `b`.
pub open spec fn holds_phantom_id(p: Option<OwnedPhantomId>, b: Option<Vec<u8>>) -> bool {
    match b {
        None => p is None,
        Some(b) => p matches Some(x) && x@ == b@,
    }
}

/// A binary generation id field that does not fit.
pub open spec fn bad_flat_generation_id(b: Option<Vec<u8>>) -> bool {
    b matches Some(g) && g@.len() > MAX_GENERATION_ID_LENGTH
}

/// A binary phantom id field that is empty or does not fit.
pub open spec fn bad_flat_phantom_id(b: Option<Vec<u8>>) -> bool {
    b matches Some(p) && !(1 <= p@.len() <= MAX_PHANTOM_ID_LENGTH)
}

/// `r` is what reading a binary keyed request gives: the collection name,
/// the key, the generation id, then the phantom id.
pub open spec fn keyed_flat_request_reads(
    req: KeyedFlatRequest,
    r: Result<(String, KeyedRequest), HttpError>,
) -> bool {
    if req.collection_name is None {
        is_400(r, "no collection name"@)
    } else if req.key is None {
        is_400(r, "no key"@)
    } else if req.key.unwrap()@.len() > MAX_COLLECTION_KEY_LENGTH {
        is_400(r, "invalid key"@)
    } else if bad_flat_generation_id(req.generation_id) {
        is_flat_400(r, "invalid generation id"@)
    } else if bad_flat_phantom_id(req.phantom_id) {
        is_flat_400(r, "invalid phantom id"@)
    } else {
        r matches Ok((name, o)) && name@ == req.collection_name.unwrap()@ && o.key@
            == req.key.unwrap()@ && holds_generation_id(o.generation_id, req.generation_id)
            && holds_phantom_id(o.phantom_id, req.phantom_id)
    }
}

/// The bytes of an optional field.
fn opt_slice(v: &Option<Vec<u8>>) -> (r: Option<&[u8]>)
    ensures
        match *v {
            None => r is None,
            Some(b) => r matches Some(s) && s@ == b@,
        },
{
    match v {
        None => None,
        Some(b) => Some(b.as_slice()),
    }
}

/// A binary `get` request: the collection and what to read.
pub fn parse_get_request_flatbuffers(request: KeyedFlatRequest) -> (r: Result<
    (String, KeyedRequest),
    HttpError,
>)
    ensures
        keyed_flat_request_reads(request, r),
{
    let ghost req = request;
    let collection_name = match request.collection_name {
        None => {
            return Err(HttpError::Generic400("no collection name"));
        },
        Some(name) => name,
    };
    let key = match request.key {
        None => {
            return Err(HttpError::Generic400("no key"));
        },
        Some(k) => k,
    };
    let key = match OwnedCollectionKey::from_vec(key) {
        Ok(k) => k,
        Err(_) => {
            return Err(HttpError::Generic400("invalid key"));
        },
    };
    let generation_id = match flatbuffers_generation_id_to_owned_generation_id_opt(
        opt_slice(&request.generation_id),
    ) {
        Ok(g) => g,
        Err(e) => {
            return Err(e);
        },
    };
    let phantom_id = match flatbuffers_phantom_id_to_owned_phantom_id_opt(
        opt_slice(&request.phantom_id),
    ) {
        Ok(p) => p,
        Err(e) => {
            return Err(e);
        },
    };
    Ok((collection_name, KeyedRequest { key, generation_id, phantom_id }))
}

/// A binary `getKeysAround` request: the collection and what to read; the
/// limit is widened to `usize`.
pub fn parse_get_keys_around_request_flatbuffers(request: GetKeysAroundFlatRequest) -> (r: Result<
    (String, GetKeysAroundRequest),
    HttpError,
>)
    ensures
        match r {
            Ok((name, o)) => keyed_flat_request_reads(request.keyed, Ok((name, o.request)))
                && o.require_key_existance == request.require_key_existance && o.limit
                == request.limit,
            Err(e) => keyed_flat_request_reads(request.keyed, Err(e)),
        },
{
    let require_key_existance = request.require_key_existance;
    let limit = request.limit as usize;
    match parse_get_request_flatbuffers(request.keyed) {
        Ok((name, keyed)) => Ok(
            (name, GetKeysAroundRequest { request: keyed, require_key_existance, limit }),
        ),
        Err(e) => Err(e),
    }
}

/// A request that starts a query, in JSON: the generation id, then the
/// phantom id.
pub fn parse_start_query_request_json(data: StartQueryRequestJsonData) -> (r: Result<
    StartQueryRequest,
    HttpError,
>)
    ensures
        if !generation_id_opt_ok(data.generation_id) {
            r matches Err(e) && generation_id_opt_decodes(data.generation_id, Err(e))
        } else if !phantom_id_opt_ok(data.phantom_id, StrSerializationType::Utf8) {
            r matches Err(e) && phantom_id_opt_decodes(
                data.phantom_id,
                StrSerializationType::Utf8,
                Err(e),
            )
        } else {
            r matches Ok(o) && generation_id_opt_decodes(data.generation_id, Ok(o.generation_id))
                && phantom_id_opt_decodes(
                data.phantom_id,
                StrSerializationType::Utf8,
                Ok(o.phantom_id),
            )
        },
{
    let decoder = StringDecoder::new(StrSerializationType::Utf8);
    let generation_id = match encoded_generation_id_data_decode_opt(data.generation_id) {
        Ok(g) => g,
        Err(e) => {
            return Err(e);
        },
    };
    let phantom_id = match EncodedPhantomIdJsonData::decode_opt(data.phantom_id, &decoder) {
        Ok(p) => p,
        Err(e) => {
            return Err(e);
        },
    };
    Ok(StartQueryRequest { generation_id, phantom_id })
}

/// A binary request that starts a query: the collection name, the
/// generation id, then the phantom id.
pub fn parse_start_query_request_flatbuffers(request: StartQueryFlatRequest) -> (r: Result<
    (String, StartQueryRequest),
    HttpError,
>)
    ensures
        if request.collection_name is None {
            is_400(r, "no collection name"@)
        } else if bad_flat_generation_id(request.generation_id) {
            is_flat_400(r, "invalid generation id"@)
        } else if bad_flat_phantom_id(request.phantom_id) {
            is_flat_400(r, "invalid phantom id"@)
        } else {
            r matches Ok((name, o)) && name@ == request.collection_name.unwrap()@
                && holds_generation_id(o.generation_id, request.generation_id) && holds_phantom_id(
                o.phantom_id,
                request.phantom_id,
            )
        },
{
    let collection_name = match request.collection_name {
        None => {
            return Err(HttpError::Generic400("no collection name"));
        },
        Some(name) => name,
    };
    let generation_id = match flatbuffers_generation_id_to_owned_generation_id_opt(
        opt_slice(&request.generation_id),
    ) {
        Ok(g) => g,
        Err(e) => {
            return Err(e);
        },
    };
    let phantom_id = match flatbuffers_phantom_id_to_owned_phantom_id_opt(
        opt_slice(&request.phantom_id),
    ) {
        Ok(p) => p,
        Err(e) => {
            return Err(e);
        },
    };
    Ok((collection_name, StartQueryRequest { generation_id, phantom_id }))
}

/// A `generation/start` request in JSON; `abortOutdated` is false when
/// missing.
pub fn parse_start_generation_request_json(data: StartGenerationRequestJsonData) -> (r: Result<
    StartGenerationRequest,
    HttpError,
>)
    ensures
        match r {
            Ok(o) => generation_id_decodes(data.generation_id, Ok(o.generation_id))
                && o.abort_outdated == (data.abort_outdated == Some(true)),
            Err(e) => generation_id_decodes(data.generation_id, Err(e)),
        },
{
    let generation_id = match encoded_generation_id_data_into_generation_id(data.generation_id) {
        Ok(g) => g,
        Err(e) => {
            return Err(e);
        },
    };
    let abort_outdated = match data.abort_outdated {
        Some(b) => b,
        None => false,
    };
    Ok(StartGenerationRequest { generation_id, abort_outdated })
}

/// What a request on a query cursor asks, by its method: `GET` reads the
/// next page, `DELETE` aborts the cursor.
pub fn query_cursor_method(method: &str) -> (r: Result<QueryCursorMethod, HttpError>)
    ensures
        method@ == "GET"@ ==> r matches Ok(QueryCursorMethod::Read),
        method@ == "DELETE"@ ==> r matches Ok(QueryCursorMethod::Abort),
        method@ != "GET"@ && method@ != "DELETE"@ ==> r matches Err(HttpError::MethodNotAllowed),
{
    proof {
        reveal_strlit("GET");
        reveal_strlit("DELETE");
        assert("GET"@.len() != "DELETE"@.len());
    }
    if text_eq(method, "GET") {
        Ok(QueryCursorMethod::Read)
    } else if text_eq(method, "DELETE") {
        Ok(QueryCursorMethod::Abort)
    } else {
        Err(HttpError::MethodNotAllowed)
    }
}

/// The body of a request that creates a reader, in JSON.
pub struct CreateReaderRequestJsonData {
    pub reader_name: String,
    pub generation_id: Option<EncodedGenerationIdJsonData>,
    pub collection_name: Option<String>,
}

/// The reader of a binary request that creates one, as the fields it
/// holds.
pub struct ReaderFlat {
    pub reader_name: Option<String>,
    pub collection_name: Option<String>,
    pub generation_id: Option<Vec<u8>>,
}

/// A request that creates a reader, read: its name, the collection whose
/// generations it follows (this one when missing) and its generation.
pub struct CreateReaderRequest {
    pub reader_name: String,
    pub reader_collection_name: Option<String>,
    pub generation_id: Option<OwnedGenerationId>,
}

/// The texts of an optional string.
pub open spec fn opt_string_view(s: Option<String>) -> Option<Seq<char>> {
    match s {
        Some(s) => Some(s@),
        None => None,
    }
}

/// A request that creates a reader, in JSON: only the generation id can
/// fail to read.
pub fn parse_create_reader_request_json(data: CreateReaderRequestJsonData) -> (r: Result<
    CreateReaderRequest,
    HttpError,
>)
    ensures
        match r {
            Ok(o) => generation_id_opt_decodes(data.generation_id, Ok(o.generation_id))
                && o.reader_name@ == data.reader_name@ && opt_string_view(o.reader_collection_name)
                == opt_string_view(data.collection_name),
            Err(e) => generation_id_opt_decodes(data.generation_id, Err(e)),
        },
{
    let generation_id = match encoded_generation_id_data_decode_opt(data.generation_id) {
        Ok(g) => g,
        Err(e) => {
            return Err(e);
        },
    };
    Ok(
        CreateReaderRequest {
            reader_name: data.reader_name,
            reader_collection_name: data.collection_name,
            generation_id,
        },
    )
}

/// The reader of a binary request that creates one: it must be there and
/// have a name; then its generation id is read.
pub fn parse_create_reader_request_flatbuffers(reader: Option<ReaderFlat>) -> (r: Result<
    CreateReaderRequest,
    HttpError,
>)
    ensures
        match reader {
            None => is_400(r, "no reader"@),
            Some(f) => if f.reader_name is None {
                is_400(r, "no reader name"@)
            } else if bad_flat_generation_id(f.generation_id) {
                is_flat_400(r, "invalid generation id"@)
            } else {
                r matches Ok(o) && o.reader_name@ == f.reader_name.unwrap()@ && opt_string_view(
                    o.reader_collection_name,
                ) == opt_string_view(f.collection_name) && holds_generation_id(
                    o.generation_id,
                    f.generation_id,
                )
            },
        },
{
    let reader = match reader {
        None => {
            return Err(HttpError::Generic400("no reader"));
        },
        Some(f) => f,
    };
    let reader_name = match reader.reader_name {
        None => {
            return Err(HttpError::Generic400("no reader name"));
        },
        Some(n) => n,
    };
    let generation_id = match flatbuffers_generation_id_to_owned_generation_id_opt(
        opt_slice(&reader.generation_id),
    ) {
        Ok(g) => g,
        Err(e) => {
            return Err(e);
        },
    };
    Ok(
        CreateReaderRequest {
            reader_name,
            reader_collection_name: reader.collection_name,
            generation_id,
        },
    )
}

/// A binary request on the generation id stream, as the fields it holds.
pub struct GenerationIdStreamFlatRequest {
    pub collection_name: Option<String>,
    pub generation_id: Option<Vec<u8>>,
    pub to_generation_id: Option<Vec<u8>>,
}

/// A request on the generation id stream, read: answer once the
/// collection's generation id differs from `generation_id` or reaches
/// `to_generation_id`.
pub struct GenerationIdStreamRequest {
    pub collection_name: String,
    pub generation_id: Option<OwnedGenerationId>,
    pub to_generation_id: Option<OwnedGenerationId>,
}

/// A binary request on the generation id stream: the generation id, the
/// generation id to wait for, then the collection name.
pub fn parse_generation_id_stream_request_flatbuffers(request: GenerationIdStreamFlatRequest) -> (r:
    Result<GenerationIdStreamRequest, HttpError>)
    ensures
        if bad_flat_generation_id(request.generation_id) || bad_flat_generation_id(
            request.to_generation_id,
        ) {
            is_flat_400(r, "invalid generation id"@)
        } else if request.collection_name is None {
            is_flat_400(r, "no collection_name"@)
        } else {
            r matches Ok(o) && o.collection_name@ == request.collection_name.unwrap()@
                && holds_generation_id(o.generation_id, request.generation_id)
                && holds_generation_id(o.to_generation_id, request.to_generation_id)
        },
{
    let generation_id = match flatbuffers_generation_id_to_owned_generation_id_opt(
        opt_slice(&request.generation_id),
    ) {
        Ok(g) => g,
        Err(e) => {
            return Err(e);
        },
    };
    let to_generation_id = match flatbuffers_generation_id_to_owned_generation_id_opt(
        opt_slice(&request.to_generation_id),
    ) {
        Ok(g) => g,
        Err(e) => {
            return Err(e);
        },
    };
    let collection_name = match request.collection_name {
        None => {
            return Err(HttpError::GenericFlatbuffers400("no collection_name"));
        },
        Some(name) => name,
    };
    Ok(GenerationIdStreamRequest { collection_name, generation_id, to_generation_id })
}

} // verus!
