//! Reading a `putMany` request, in JSON or in the binary form, into the
//! writes it asks for.
use vstd::prelude::*;

use crate::common::{
    KeyValueUpdate, KeyValueUpdateNewOptions, OwnedCollectionKey, OwnedCollectionValue,
    OwnedGenerationId, OwnedPhantomId, MAX_COLLECTION_KEY_LENGTH, MAX_GENERATION_ID_LENGTH,
    MAX_PHANTOM_ID_LENGTH,
};
use crate::http::data::{
    encoded_generation_id_data_decode_opt, encoded_generation_id_data_encode,
    flatbuffers_generation_id_to_owned_generation_id_opt,
    flatbuffers_phantom_id_to_owned_phantom_id_opt, encodes, generation_id_opt_decodes,
    generation_id_opt_ok, phantom_id_opt_decodes, phantom_id_opt_ok, update_decodes, update_ok,
    EncodedGenerationIdJsonData, EncodedPhantomIdJsonData, KeyValueUpdateJsonData,
};
use crate::http::encoding::StringDecoder;
use crate::http::errors::HttpError;
use crate::str_serialization::StrSerializationType;

verus! {

/// What a `putMany` asks of a collection.
pub struct CollectionPutManyOptions {
    pub items: Vec<KeyValueUpdate>,
    pub generation_id: Option<OwnedGenerationId>,
    pub phantom_id: Option<OwnedPhantomId>,
}

/// The body of a `putMany` request in JSON.
pub struct PutManyRequestJsonData {
    pub items: Vec<KeyValueUpdateJsonData>,
    pub generation_id: Option<EncodedGenerationIdJsonData>,
    pub phantom_id: Option<EncodedPhantomIdJsonData>,
}

/// The answer to a `putMany` in JSON: the generation that took the writes.
pub struct PutManyResponseJsonData {
    pub generation_id: EncodedGenerationIdJsonData,
}

/// One write of a binary `putMany` request, as the fields it holds.
pub struct PutManyFlatItem {
    pub key: Option<Vec<u8>>,
    pub value: Option<Vec<u8>>,
    pub if_not_present: bool,
}

/// A binary `putMany` request, as the fields it holds.
pub struct PutManyFlatRequest {
    pub collection_name: Option<String>,
    pub generation_id: Option<Vec<u8>>,
    pub phantom_id: Option<Vec<u8>>,
    pub items: Option<Vec<PutManyFlatItem>>,
}

/// A `putMany` addressed to a collection.
pub struct UnifiedRequestData {
    pub collection_name: String,
    pub options: CollectionPutManyOptions,
}

/// The items in `items[..n]` all read without an error.
pub open spec fn updates_ok_before(items: Seq<KeyValueUpdateJsonData>, n: int) -> bool {
    forall|j: int| 0 <= j < n ==> #[trigger] update_ok(items[j], StrSerializationType::Utf8)
}

/// `e` is the error of the first item of `items` that does not read.
pub open spec fn first_update_error(items: Seq<KeyValueUpdateJsonData>, e: HttpError) -> bool {
    exists|i: int|
        0 <= i < items.len() && updates_ok_before(items, i) && !update_ok(
            #[trigger] items[i],
            StrSerializationType::Utf8,
        ) && update_decodes(items[i], StrSerializationType::Utf8, Err(e))
}

/// The options of a `putMany` in JSON. The generation id is read first, then
/// the phantom id, then each write in turn; the first that fails gives the
/// error. Encodings default to UTF-8.
pub fn parse_options_from_json(data: PutManyRequestJsonData) -> (r: Result<
    CollectionPutManyOptions,
    HttpError,
>)
    ensures
        if !generation_id_opt_ok(data.generation_id) {
            r matches Err(e) && generation_id_opt_decodes(data.generation_id, Err(e))
        } else if !phantom_id_opt_ok(data.phantom_id, StrSerializationType::Utf8) {
            r matches Err(e) && phantom_id_opt_decodes(
                data.phantom_id,
                StrSerializationType::Utf8,
                Err(e),
            )
        } else if !updates_ok_before(data.items@, data.items@.len() as int) {
            r matches Err(e) && first_update_error(data.items@, e)
        } else {
            r matches Ok(o) && generation_id_opt_decodes(data.generation_id, Ok(o.generation_id))
                && phantom_id_opt_decodes(
                data.phantom_id,
                StrSerializationType::Utf8,
                Ok(o.phantom_id),
            ) && o.items@.len() == data.items@.len() && forall|i: int|
                0 <= i < data.items@.len() ==> update_decodes(
                    #[trigger] data.items@[i],
                    StrSerializationType::Utf8,
                    Ok(o.items@[i]),
                )
        },
{
    let decoder = StringDecoder::new(StrSerializationType::Utf8);
    let ghost g0 = data.generation_id;
    let ghost p0 = data.phantom_id;
    let generation_id = match encoded_generation_id_data_decode_opt(data.generation_id) {
        Ok(g) => g,
        Err(e) => {
            return Err(e);
        },
    };
    let phantom_id = match EncodedPhantomIdJsonData::decode_opt(data.phantom_id, &decoder) {
        Ok(p) => p,
        Err(e) => {
            return Err(e);
        },
    };
    let ghost all = data.items@;
    let mut items: Vec<KeyValueUpdate> = Vec::new();
    for item in it: data.items.into_iter()
        invariant
            it.seq() == all,
            all == data.items@,
            g0 == data.generation_id,
            p0 == data.phantom_id,
            generation_id_opt_ok(g0),
            phantom_id_opt_ok(p0, StrSerializationType::Utf8),
            generation_id_opt_decodes(g0, Ok(generation_id)),
            phantom_id_opt_decodes(p0, StrSerializationType::Utf8, Ok(phantom_id)),
            decoder.default_encoding() == StrSerializationType::Utf8,
            items@.len() == it.index(),
            updates_ok_before(all, it.index() as int),
            forall|j: int|
                0 <= j < it.index() ==> update_decodes(
                    #[trigger] all[j],
                    StrSerializationType::Utf8,
                    Ok(items@[j]),
                ),
    {
        let ghost i = it.index();
        let ghost d = item;
        match item.deserialize(&decoder) {
            Ok(u) => {
                items.push(u);
            },
            Err(e) => {
                proof {
                    assert(d == all[i as int]);
                    assert(!update_ok(all[i as int], StrSerializationType::Utf8));
                    assert(first_update_error(all, e));
                    assert(!updates_ok_before(all, all.len() as int));
                }
                return Err(e);
            },
        }
    }
    Ok(CollectionPutManyOptions { items, generation_id, phantom_id })
}

/// The message of the error that reading a binary write gives, if any.
pub open spec fn flat_item_error(item: PutManyFlatItem) -> Option<Seq<char>> {
    match item.key {
        None => Some("no items key"@),
        Some(k) => if k@.len() > MAX_COLLECTION_KEY_LENGTH {
            Some("invalid items key"@)
        } else {
            None
        },
    }
}

/// `u` is the write that the binary write `item` holds.
pub open spec fn flat_item_update(item: PutManyFlatItem, u: KeyValueUpdate) -> bool {
    &&& item.key matches Some(k) && u.key@ == k@
    &&& u.value is Some == item.value is Some
    &&& u.value matches Some(v) ==> v@ == item.value.unwrap()@
    &&& u.if_not_present == item.if_not_present
}

/// The writes of a binary request; a missing list is an empty one.
pub open spec fn flat_items(request: PutManyFlatRequest) -> Seq<PutManyFlatItem> {
    match request.items {
        Some(items) => items@,
        None => Seq::empty(),
    }
}

/// The message of the error that reading a binary `putMany` request gives,
/// if any: the generation id, then the phantom id, then the first write that
/// does not read.
pub open spec fn flat_request_error(request: PutManyFlatRequest) -> Option<Seq<char>> {
    let items = flat_items(request);
    if request.generation_id matches Some(g) && g@.len() > MAX_GENERATION_ID_LENGTH {
        Some("invalid generation id"@)
    } else if request.phantom_id matches Some(p) && !(1 <= p@.len() <= MAX_PHANTOM_ID_LENGTH) {
        Some("invalid phantom id"@)
    } else if exists|i: int| 0 <= i < items.len() && #[trigger] flat_item_error(items[i]) is Some {
        flat_item_error(
            items[choose|i: int|
                0 <= i < items.len() && #[trigger] flat_item_error(items[i]) is Some && forall|
                    j: int,
                |
                    0 <= j < i ==> flat_item_error(#[trigger] items[j]) is None],
        )
    } else {
        None
    }
}

/// The options of a binary `putMany` request. The generation id is read
/// first, then the phantom id, then each write in turn; the first that fails
/// gives the error.
pub fn parse_options_from_flatbuffers(request: PutManyFlatRequest) -> (r: Result<
    CollectionPutManyOptions,
    HttpError,
>)
    ensures
        match flat_request_error(request) {
            Some(m) => r matches Err(HttpError::GenericFlatbuffers400(e)) && e@ == m,
            None => r matches Ok(o) && (match request.generation_id {
                None => o.generation_id is None,
                Some(g) => o.generation_id matches Some(og) && og@ == g@,
            }) && (match request.phantom_id {
                None => o.phantom_id is None,
                Some(p) => o.phantom_id matches Some(op) && op@ == p@,
            }) && o.items@.len() == flat_items(request).len() && forall|i: int|
                0 <= i < o.items@.len() ==> flat_item_update(
                    flat_items(request)[i],
                    #[trigger] o.items@[i],
                ),
        },
{
    let generation_id = match flatbuffers_generation_id_to_owned_generation_id_opt(
        opt_slice(&request.generation_id),
    ) {
        Ok(g) => g,
        Err(e) => {
            return Err(e);
        },
    };
    let phantom_id = match flatbuffers_phantom_id_to_owned_phantom_id_opt(
        opt_slice(&request.phantom_id),
    ) {
        Ok(p) => p,
        Err(e) => {
            return Err(e);
        },
    };
    let ghost req = request;
    let ghost all = flat_items(request);
    let items_fb: Vec<PutManyFlatItem> = match request.items {
        Some(v) => v,
        None => Vec::new(),
    };
    let mut items: Vec<KeyValueUpdate> = Vec::new();
    for item in it: items_fb.into_iter()
        invariant
            it.seq() == all,
            all == flat_items(req),
            req == request,
            flat_request_error(req) == (if exists|i: int|
                0 <= i < all.len() && #[trigger] flat_item_error(all[i]) is Some {
                flat_item_error(
                    all[choose|i: int|
                        0 <= i < all.len() && #[trigger] flat_item_error(all[i]) is Some && forall|
                            j: int,
                        |
                            0 <= j < i ==> flat_item_error(#[trigger] all[j]) is None],
                )
            } else {
                None
            }),
            match req.generation_id {
                None => generation_id is None,
                Some(g) => generation_id matches Some(og) && og@ == g@,
            },
            match req.phantom_id {
                None => phantom_id is None,
                Some(p) => phantom_id matches Some(op) && op@ == p@,
            },
            items@.len() == it.index(),
            forall|j: int| 0 <= j < it.index() ==> flat_item_error(#[trigger] all[j]) is None,
            forall|j: int| 0 <= j < it.index() ==> flat_item_update(all[j], #[trigger] items@[j]),
    {
        let ghost i = it.index() as int;
        let ghost d = item;
        let bytes = match item.key {
            None => {
                proof {
                    assert(d == all[i]);
                    lemma_first_error(all, i);
                }
                return Err(HttpError::GenericFlatbuffers400("no items key"));
            },
            Some(k) => k,
        };
        let key = match OwnedCollectionKey::from_vec(bytes) {
            Ok(k) => k,
            Err(_) => {
                proof {
                    assert(d == all[i]);
                    lemma_first_error(all, i);
                }
                return Err(HttpError::GenericFlatbuffers400("invalid items key"));
            },
        };
        let value = match item.value {
            None => None,
            Some(v) => Some(OwnedCollectionValue::from_vec(v)),
        };
        items.push(
            KeyValueUpdate::new(
                KeyValueUpdateNewOptions { key, value, if_not_present: item.if_not_present },
            ),
        );
        proof {
            assert(d == all[i]);
        }
    }
    Ok(CollectionPutManyOptions { items, generation_id, phantom_id })
}

/// When the items before `i` read and `items[i]` does not, `items[i]` is the
/// first that does not.
proof fn lemma_first_error(items: Seq<PutManyFlatItem>, i: int)
    requires
        0 <= i < items.len(),
        flat_item_error(items[i]) is Some,
        forall|j: int| 0 <= j < i ==> flat_item_error(#[trigger] items[j]) is None,
    ensures
        exists|k: int| 0 <= k < items.len() && #[trigger] flat_item_error(items[k]) is Some,
        (choose|k: int|
            0 <= k < items.len() && #[trigger] flat_item_error(items[k]) is Some && forall|j: int|
                0 <= j < k ==> flat_item_error(#[trigger] items[j]) is None) == i,
{
    let k = choose|k: int|
        0 <= k < items.len() && #[trigger] flat_item_error(items[k]) is Some && forall|j: int|
            0 <= j < k ==> flat_item_error(#[trigger] items[j]) is None;
    assert(flat_item_error(items[i]) is Some);
    if k < i {
        assert(flat_item_error(items[k]) is None);
    } else if k > i {
        assert(flat_item_error(items[i]) is None);
    }
}

/// The bytes of an optional field.
fn opt_slice(v: &Option<Vec<u8>>) -> (r: Option<&[u8]>)
    ensures
        match *v {
            None => r is None,
            Some(b) => r matches Some(s) && s@ == b@,
        },
{
    match v {
        None => None,
        Some(b) => Some(b.as_slice()),
    }
}

/// The collection and the options of a binary `putMany` request; the
/// collection name must be there, and is looked at first.
pub fn put_many_flatbuffers_request(request: PutManyFlatRequest) -> (r: Result<
    UnifiedRequestData,
    HttpError,
>)
    ensures
        match request.collection_name {
            None => r matches Err(HttpError::GenericFlatbuffers400(e)) && e@ == "no collection name"@,
            Some(name) => match flat_request_error(request) {
                Some(m) => r matches Err(HttpError::GenericFlatbuffers400(e)) && e@ == m,
                None => r matches Ok(d) && d.collection_name@ == name@ && d.options.items@.len()
                    == flat_items(request).len() && forall|i: int|
                    0 <= i < d.options.items@.len() ==> flat_item_update(
                        flat_items(request)[i],
                        #[trigger] d.options.items@[i],
                    ),
            },
        },
{
    let ghost req = request;
    let collection_name = match request.collection_name {
        None => {
            return Err(HttpError::GenericFlatbuffers400("no collection name"));
        },
        Some(name) => name,
    };
    let rest = PutManyFlatRequest {
        collection_name: None,
        generation_id: request.generation_id,
        phantom_id: request.phantom_id,
        items: request.items,
    };
    assert(flat_items(rest) == flat_items(req));
    assert(flat_request_error(rest) == flat_request_error(req));
    match parse_options_from_flatbuffers(rest) {
        Ok(options) => Ok(UnifiedRequestData { collection_name, options }),
        Err(e) => Err(e),
    }
}

/// The JSON answer to a `putMany` that wrote into `generation_id`, with
/// the id as UTF-8 text where it can be.
pub fn put_many_response_json_data(generation_id: &OwnedGenerationId) -> (r:
    PutManyResponseJsonData)
    ensures
        encodes(r.generation_id.value, r.generation_id.encoding, StrSerializationType::Utf8, generation_id@),
{
    PutManyResponseJsonData {
        generation_id: encoded_generation_id_data_encode(generation_id, StrSerializationType::Utf8),
    }
}

} // verus!
