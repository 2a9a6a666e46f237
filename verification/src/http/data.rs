//! The JSON shapes of keys, values, generation and phantom ids (a text and
//! the name of its encoding), and how they are written and read.
use vstd::prelude::*;
use vstd::utf8::encode_utf8;

use crate::common::{
    KeyValue, KeyValueDiff, KeyValueUpdate, KeyValueUpdateNewOptions, OwnedCollectionKey,
    OwnedCollectionValue, OwnedGenerationId, OwnedPhantomId, MAX_COLLECTION_KEY_LENGTH,
    MAX_GENERATION_ID_LENGTH, MAX_PHANTOM_ID_LENGTH,
};
use crate::http::encoding::{
    decoding_error_message, encoding_error_message, field_encoding, opt_text, StringDecoder,
};
use crate::http::errors::HttpError;
use crate::str_serialization::{deserialized, serialized_with_priority, StrSerializationType};

verus! {

/// The encoding field that names `t`: none for UTF-8, the default.
pub open spec fn names_encoding(e: Option<String>, t: StrSerializationType) -> bool {
    match t {
        StrSerializationType::Utf8 => e is None,
        StrSerializationType::Base64 => e matches Some(s) && s@ == "base64"@,
    }
}

/// `value` and `encoding` hold `b` as `serialize_with_priority` writes it
/// with priority `t`.
pub open spec fn encodes(
    value: String,
    encoding: Option<String>,
    t: StrSerializationType,
    b: Seq<u8>,
) -> bool {
    &&& encode_utf8(value@) == serialized_with_priority(t, b).0
    &&& names_encoding(encoding, serialized_with_priority(t, b).1)
}

/// What reading a field gives.
pub enum FieldDecoding {
    /// The encoding field names no encoding.
    BadEncoding,
    /// The text is not in the encoding.
    BadText,
    Bytes(Seq<u8>),
}

/// Reading the text `value` in the encoding named by `encoding`, which is
/// `default` when missing.
pub open spec fn decode_field(
    value: String,
    encoding: Option<String>,
    default: StrSerializationType,
) -> FieldDecoding {
    match field_encoding(opt_text(encoding), default) {
        None => FieldDecoding::BadEncoding,
        Some(t) => match deserialized(t, encode_utf8(value@)) {
            None => FieldDecoding::BadText,
            Some(b) => FieldDecoding::Bytes(b),
        },
    }
}

/// `r` is `Err(Generic400(m))` with the message `m`.
pub open spec fn is_generic_400<T>(r: Result<T, HttpError>, m: &str) -> bool {
    r matches Err(HttpError::Generic400(e)) && e@ == m@
}

/// `r` is `Err(GenericString400(m))` with the message `m`.
pub open spec fn is_generic_string_400<T>(r: Result<T, HttpError>, m: Seq<char>) -> bool {
    r matches Err(HttpError::GenericString400(e)) && e@ == m
}

/// A generation id in JSON.
pub struct EncodedGenerationIdJsonData {
    pub value: String,
    pub encoding: Option<String>,
}

/// A collection key in JSON.
pub struct EncodedKeyJsonData {
    pub value: String,
    pub encoding: Option<String>,
}

/// A value in JSON.
pub struct EncodedValueJsonData {
    pub value: String,
    pub encoding: Option<String>,
}

/// A phantom id in JSON.
pub struct EncodedPhantomIdJsonData {
    pub value: String,
    pub encoding: Option<String>,
}

/// A record in JSON.
pub struct KeyValueJsonData {
    pub key: EncodedKeyJsonData,
    pub value: EncodedValueJsonData,
}

/// A write in JSON; a missing value deletes the key.
pub struct KeyValueUpdateJsonData {
    pub key: EncodedKeyJsonData,
    pub if_not_present: Option<bool>,
    pub value: Option<EncodedValueJsonData>,
}

/// How one key's value differs between two generations, in JSON.
pub struct KeyValueDiffJsonData {
    pub key: EncodedKeyJsonData,
    pub from_value: Option<EncodedValueJsonData>,
    pub intermediate_values: Vec<Option<EncodedValueJsonData>>,
    pub to_value: Option<EncodedValueJsonData>,
}

/// The answer to a diff request, in JSON.
pub struct DiffCollectionResponseJsonData {
    pub from_generation_id: EncodedGenerationIdJsonData,
    pub to_generation_id: EncodedGenerationIdJsonData,
    pub items: Vec<KeyValueDiffJsonData>,
    pub cursor_id: Option<String>,
}

/// The result of a diff.
pub struct DiffOk {
    pub from_generation_id: Option<OwnedGenerationId>,
    pub to_generation_id: OwnedGenerationId,
    pub items: Vec<KeyValueDiff>,
    pub cursor_id: Option<String>,
}

/// Writes `b` with priority `t`: the text and the encoding field.
fn encode_field(b: &[u8], t: StrSerializationType) -> (r: (String, Option<String>))
    ensures
        encodes(r.0, r.1, t, b@),
{
    let (value, used) = t.serialize_with_priority(b);
    (value, used.to_optional_string())
}

/// A generation id in JSON, written with priority `encoding`.
pub fn encoded_generation_id_data_encode(
    generation_id: &OwnedGenerationId,
    encoding: StrSerializationType,
) -> (r: EncodedGenerationIdJsonData)
    ensures
        encodes(r.value, r.encoding, encoding, generation_id@),
{
    let (value, encoding) = encode_field(generation_id.get_byte_array(), encoding);
    EncodedGenerationIdJsonData { value, encoding }
}

/// `r` is what reading JSON data of a generation id gives; a missing
/// encoding is UTF-8.
pub open spec fn generation_id_decodes(
    data: EncodedGenerationIdJsonData,
    r: Result<OwnedGenerationId, HttpError>,
) -> bool {
    match decode_field(data.value, data.encoding, StrSerializationType::Utf8) {
        FieldDecoding::BadEncoding => is_generic_400(r, "invalid encoding"),
        FieldDecoding::BadText => is_generic_400(r, "invalid serialization"),
        FieldDecoding::Bytes(b) => if b.len() <= MAX_GENERATION_ID_LENGTH {
            r matches Ok(g) && g@ == b
        } else {
            is_generic_400(r, "invalid generationId size")
        },
    }
}

/// The generation id that JSON data holds; a missing encoding is UTF-8.
pub fn encoded_generation_id_data_into_generation_id(data: EncodedGenerationIdJsonData) -> (r:
    Result<OwnedGenerationId, HttpError>)
    ensures
        generation_id_decodes(data, r),
{
    let encoding = match StrSerializationType::from_opt_str(data.encoding) {
        Ok(t) => t,
        Err(_) => {
            return Err(HttpError::Generic400("invalid encoding"));
        },
    };
    let bytes = match encoding.deserialize(data.value.as_str()) {
        Ok(b) => b,
        Err(_) => {
            return Err(HttpError::Generic400("invalid serialization"));
        },
    };
    match OwnedGenerationId::from_vec(bytes) {
        Ok(g) => Ok(g),
        Err(_) => Err(HttpError::Generic400("invalid generationId size")),
    }
}

/// `r` is what reading optional JSON data of a generation id gives; a
/// missing encoding is UTF-8.
pub open spec fn generation_id_opt_decodes(
    value: Option<EncodedGenerationIdJsonData>,
    r: Result<Option<OwnedGenerationId>, HttpError>,
) -> bool {
    match value {
        None => r matches Ok(None),
        Some(data) => match decode_field(data.value, data.encoding, StrSerializationType::Utf8) {
            FieldDecoding::BadEncoding => is_generic_400(r, "invalid encoding"),
            FieldDecoding::BadText => is_generic_400(r, "invalid serialization"),
            FieldDecoding::Bytes(b) => if b.len() <= MAX_GENERATION_ID_LENGTH {
                r matches Ok(Some(g)) && g@ == b
            } else {
                is_generic_400(r, "invalid generationId size")
            },
        },
    }
}

/// Reading optional JSON data of a generation id succeeds.
pub open spec fn generation_id_opt_ok(value: Option<EncodedGenerationIdJsonData>) -> bool {
    match value {
        None => true,
        Some(data) => decode_field(
            data.value,
            data.encoding,
            StrSerializationType::Utf8,
        ) matches FieldDecoding::Bytes(b) && b.len() <= MAX_GENERATION_ID_LENGTH,
    }
}

/// The generation id that optional JSON data holds, if any.
pub fn encoded_generation_id_data_decode_opt(value: Option<EncodedGenerationIdJsonData>) -> (r:
    Result<Option<OwnedGenerationId>, HttpError>)
    ensures
        generation_id_opt_decodes(value, r),
{
    match value {
        None => Ok(None),
        Some(value) => match encoded_generation_id_data_into_generation_id(value) {
            Ok(g) => Ok(Some(g)),
            Err(e) => Err(e),
        },
    }
}

/// The key with bytes `bytes`, which must fit the key length limit.
fn collection_key_from_bytes(bytes: Vec<u8>) -> (r: Result<OwnedCollectionKey, HttpError>)
    ensures
        if bytes@.len() <= MAX_COLLECTION_KEY_LENGTH {
            r matches Ok(k) && k@ == bytes@
        } else {
            is_generic_400(r, "invalid key, length should be <= 16777215")
        },
{
    match OwnedCollectionKey::from_vec(bytes) {
        Ok(k) => Ok(k),
        Err(_) => Err(HttpError::Generic400("invalid key, length should be <= 16777215")),
    }
}

/// The phantom id with bytes `bytes`, which may not be empty.
fn phantom_id_from_bytes(bytes: Vec<u8>) -> (r: Result<OwnedPhantomId, HttpError>)
    ensures
        if bytes@.len() == 0 {
            is_generic_400(r, "invalid phantomId, it cannot be empty")
        } else if bytes@.len() <= MAX_PHANTOM_ID_LENGTH {
            r matches Ok(p) && p@ == bytes@
        } else {
            is_generic_400(r, "invalid phantomId, length should be <= 255")
        },
{
    if bytes.len() == 0 {
        return Err(HttpError::Generic400("invalid phantomId, it cannot be empty"));
    }
    match OwnedPhantomId::from_vec(bytes) {
        Ok(p) => Ok(p),
        Err(_) => Err(HttpError::Generic400("invalid phantomId, length should be <= 255")),
    }
}

/// `r` is what reading a key in JSON gives, with `default` for a missing
/// encoding.
pub open spec fn key_decodes(
    d: EncodedKeyJsonData,
    default: StrSerializationType,
    r: Result<OwnedCollectionKey, HttpError>,
) -> bool {
    match decode_field(d.value, d.encoding, default) {
        FieldDecoding::BadEncoding => is_generic_string_400(r, encoding_error_message("encoding"@)),
        FieldDecoding::BadText => is_generic_string_400(r, decoding_error_message("value"@)),
        FieldDecoding::Bytes(b) => if b.len() <= MAX_COLLECTION_KEY_LENGTH {
            r matches Ok(k) && k@ == b
        } else {
            is_generic_400(r, "invalid key, length should be <= 16777215")
        },
    }
}

/// Reading a key in JSON succeeds.
pub open spec fn key_ok(d: EncodedKeyJsonData, default: StrSerializationType) -> bool {
    decode_field(d.value, d.encoding, default) matches FieldDecoding::Bytes(b) && b.len()
        <= MAX_COLLECTION_KEY_LENGTH
}

impl EncodedKeyJsonData {
    /// A key in JSON, as UTF-8 text when it is valid UTF-8.
    pub fn encode(value: OwnedCollectionKey) -> (r: Self)
        ensures
            encodes(r.value, r.encoding, StrSerializationType::Utf8, value@),
    {
        let (value, encoding) = encode_field(value.get_byte_array(), StrSerializationType::Utf8);
        EncodedKeyJsonData { value, encoding }
    }

    /// Each key in JSON, in order.
    pub fn encode_vec(items: Vec<OwnedCollectionKey>) -> (r: Vec<Self>)
        ensures
            r.len() == items.len(),
            forall|i: int|
                0 <= i < items.len() ==> encodes(
                    #[trigger] r[i].value,
                    r[i].encoding,
                    StrSerializationType::Utf8,
                    items[i]@,
                ),
    {
        let mut result: Vec<Self> = Vec::new();
        let mut i: usize = 0;
        while i < items.len()
            invariant
                0 <= i <= items.len(),
                result.len() == i,
                forall|j: int|
                    0 <= j < i ==> encodes(
                        #[trigger] result[j].value,
                        result[j].encoding,
                        StrSerializationType::Utf8,
                        items[j]@,
                    ),
            decreases items.len() - i,
        {
            let (value, encoding) = encode_field(
                items[i].get_byte_array(),
                StrSerializationType::Utf8,
            );
            result.push(EncodedKeyJsonData { value, encoding });
            i = i + 1;
        }
        result
    }

    /// The key that JSON data holds, its encoding field defaulting as
    /// `decoder` says.
    pub fn decode(self, decoder: &StringDecoder) -> (r: Result<OwnedCollectionKey, HttpError>)
        ensures
            key_decodes(self, decoder.default_encoding(), r),
    {
        proof {
            reveal_strlit("encoding");
            reveal_strlit("value");
        }
        decoder.decode_field_with_map(
            "value",
            self.value,
            "encoding",
            self.encoding,
            collection_key_from_bytes,
        )
    }
}

/// `r` is what reading optional JSON data of a phantom id gives, with
/// `default` for a missing encoding.
pub open spec fn phantom_id_opt_decodes(
    value: Option<EncodedPhantomIdJsonData>,
    default: StrSerializationType,
    r: Result<Option<OwnedPhantomId>, HttpError>,
) -> bool {
    match value {
        None => r matches Ok(None),
        Some(data) => match decode_field(data.value, data.encoding, default) {
            FieldDecoding::BadEncoding => is_generic_string_400(
                r,
                encoding_error_message("phantomIdEncoding"@),
            ),
            FieldDecoding::BadText => is_generic_string_400(r, decoding_error_message("phantomId"@)),
            FieldDecoding::Bytes(b) => if b.len() == 0 {
                is_generic_400(r, "invalid phantomId, it cannot be empty")
            } else if b.len() <= MAX_PHANTOM_ID_LENGTH {
                r matches Ok(Some(p)) && p@ == b
            } else {
                is_generic_400(r, "invalid phantomId, length should be <= 255")
            },
        },
    }
}

/// Reading optional JSON data of a phantom id succeeds.
pub open spec fn phantom_id_opt_ok(
    value: Option<EncodedPhantomIdJsonData>,
    default: StrSerializationType,
) -> bool {
    match value {
        None => true,
        Some(data) => decode_field(data.value, data.encoding, default) matches FieldDecoding::Bytes(
            b,
        ) && 1 <= b.len() <= MAX_PHANTOM_ID_LENGTH,
    }
}

impl EncodedPhantomIdJsonData {
    /// A phantom id in JSON, written with priority `encoding`.
    pub fn new(phantom_id: OwnedPhantomId, encoding: StrSerializationType) -> (r: Self)
        ensures
            encodes(r.value, r.encoding, encoding, phantom_id@),
    {
        let (value, encoding) = encode_field(phantom_id.get_byte_array(), encoding);
        EncodedPhantomIdJsonData { value, encoding }
    }

    /// The phantom id that JSON data holds (fields `phantomId` and
    /// `phantomIdEncoding`); it may not be empty.
    pub fn decode(self, decoder: &StringDecoder) -> (r: Result<OwnedPhantomId, HttpError>)
        ensures
            match decode_field(self.value, self.encoding, decoder.default_encoding()) {
                FieldDecoding::BadEncoding => is_generic_string_400(
                    r,
                    encoding_error_message("phantomIdEncoding"@),
                ),
                FieldDecoding::BadText => is_generic_string_400(
                    r,
                    decoding_error_message("phantomId"@),
                ),
                FieldDecoding::Bytes(b) => if b.len() == 0 {
                    is_generic_400(r, "invalid phantomId, it cannot be empty")
                } else if b.len() <= MAX_PHANTOM_ID_LENGTH {
                    r matches Ok(p) && p@ == b
                } else {
                    is_generic_400(r, "invalid phantomId, length should be <= 255")
                },
            },
    {
        decoder.decode_field_with_map(
            "phantomId",
            self.value,
            "phantomIdEncoding",
            self.encoding,
            phantom_id_from_bytes,
        )
    }

    /// The phantom id that optional JSON data holds, if any.
    pub fn decode_opt(value: Option<Self>, decoder: &StringDecoder) -> (r: Result<
        Option<OwnedPhantomId>,
        HttpError,
    >)
        ensures
            phantom_id_opt_decodes(value, decoder.default_encoding(), r),
    {
        match value {
            None => Ok(None),
            Some(value) => match value.decode(decoder) {
                Ok(p) => Ok(Some(p)),
                Err(e) => Err(e),
            },
        }
    }
}

/// The value that JSON data holds; a missing encoding is UTF-8.
pub open spec fn value_decoding(value: String, encoding: Option<String>) -> FieldDecoding {
    decode_field(value, encoding, StrSerializationType::Utf8)
}

impl EncodedValueJsonData {
    /// A value in JSON, as UTF-8 text when it is valid UTF-8.
    pub fn from(value: OwnedCollectionValue) -> (r: Self)
        ensures
            encodes(r.value, r.encoding, StrSerializationType::Utf8, value@),
    {
        Self::encode(value)
    }

    /// A value in JSON, as UTF-8 text when it is valid UTF-8.
    pub fn encode(value: OwnedCollectionValue) -> (r: Self)
        ensures
            encodes(r.value, r.encoding, StrSerializationType::Utf8, value@),
    {
        let (value, encoding) = encode_field(value.get_value(), StrSerializationType::Utf8);
        EncodedValueJsonData { value, encoding }
    }

    /// Each optional value in JSON, in order.
    pub fn encode_opt_vec(items: Vec<Option<OwnedCollectionValue>>) -> (r: Vec<Option<Self>>)
        ensures
            r.len() == items.len(),
            forall|i: int|
                0 <= i < items.len() ==> (#[trigger] r[i] is Some == items[i] is Some) && (r[i]
                    matches Some(e) ==> encodes(
                    e.value,
                    e.encoding,
                    StrSerializationType::Utf8,
                    items[i].unwrap()@,
                )),
    {
        let mut result: Vec<Option<Self>> = Vec::new();
        let mut i: usize = 0;
        while i < items.len()
            invariant
                0 <= i <= items.len(),
                result.len() == i,
                forall|j: int|
                    0 <= j < i ==> (#[trigger] result[j] is Some == items[j] is Some) && (
                    result[j] matches Some(e) ==> encodes(
                        e.value,
                        e.encoding,
                        StrSerializationType::Utf8,
                        items[j].unwrap()@,
                    )),
            decreases items.len() - i,
        {
            match &items[i] {
                None => result.push(None),
                Some(value) => {
                    let (value, encoding) = encode_field(
                        value.get_value(),
                        StrSerializationType::Utf8,
                    );
                    result.push(Some(EncodedValueJsonData { value, encoding }));
                },
            }
            i = i + 1;
        }
        result
    }

    /// The value that JSON data holds; a missing encoding is UTF-8.
    pub fn into_collection_value(self) -> (r: Result<OwnedCollectionValue, HttpError>)
        ensures
            match value_decoding(self.value, self.encoding) {
                FieldDecoding::BadEncoding => is_generic_400(r, "invalid encoding"),
                FieldDecoding::BadText => is_generic_400(r, "invalid serialization"),
                FieldDecoding::Bytes(b) => r matches Ok(v) && v@ == b,
            },
    {
        let encoding = match StrSerializationType::from_opt_str(self.encoding) {
            Ok(t) => t,
            Err(_) => {
                return Err(HttpError::Generic400("invalid encoding"));
            },
        };
        match encoding.deserialize(self.value.as_str()) {
            Ok(b) => Ok(OwnedCollectionValue::from_vec(b)),
            Err(_) => Err(HttpError::Generic400("invalid serialization")),
        }
    }

    /// The value that optional JSON data holds, if any.
    pub fn decode_opt(value: Option<Self>) -> (r: Result<Option<OwnedCollectionValue>, HttpError>)
        ensures
            match value {
                None => r matches Ok(None),
                Some(data) => match value_decoding(data.value, data.encoding) {
                    FieldDecoding::BadEncoding => is_generic_400(r, "invalid encoding"),
                    FieldDecoding::BadText => is_generic_400(r, "invalid serialization"),
                    FieldDecoding::Bytes(b) => r matches Ok(Some(v)) && v@ == b,
                },
            },
    {
        match value {
            None => Ok(None),
            Some(value) => match value.into_collection_value() {
                Ok(v) => Ok(Some(v)),
                Err(e) => Err(e),
            },
        }
    }
}

impl KeyValueJsonData {
    /// A record in JSON.
    pub fn from(kv: KeyValue) -> (r: Self)
        ensures
            encodes(r.key.value, r.key.encoding, StrSerializationType::Utf8, kv.key@),
            encodes(r.value.value, r.value.encoding, StrSerializationType::Utf8, kv.value@),
    {
        KeyValueJsonData {
            key: EncodedKeyJsonData::encode(kv.key),
            value: EncodedValueJsonData::encode(kv.value),
        }
    }
}

/// `r` is what reading a write in JSON gives: the key with `default` for a
/// missing encoding, the value with UTF-8, `ifNotPresent` false when missing.
pub open spec fn update_decodes(
    d: KeyValueUpdateJsonData,
    default: StrSerializationType,
    r: Result<KeyValueUpdate, HttpError>,
) -> bool {
    match decode_field(d.key.value, d.key.encoding, default) {
        FieldDecoding::BadEncoding => is_generic_string_400(r, encoding_error_message("encoding"@)),
        FieldDecoding::BadText => is_generic_string_400(r, decoding_error_message("value"@)),
        FieldDecoding::Bytes(k) => if k.len() > MAX_COLLECTION_KEY_LENGTH {
            is_generic_400(r, "invalid key, length should be <= 16777215")
        } else {
            match d.value {
                None => r matches Ok(u) && u.key@ == k && u.value is None && u.if_not_present == (
                d.if_not_present == Some(true)),
                Some(data) => match value_decoding(data.value, data.encoding) {
                    FieldDecoding::BadEncoding => is_generic_400(r, "invalid encoding"),
                    FieldDecoding::BadText => is_generic_400(r, "invalid serialization"),
                    FieldDecoding::Bytes(v) => r matches Ok(u) && u.key@ == k && u.value is Some
                        && u.value.unwrap()@ == v && u.if_not_present == (d.if_not_present == Some(
                        true)),
                },
            }
        },
    }
}

/// Reading a write in JSON succeeds.
pub open spec fn update_ok(d: KeyValueUpdateJsonData, default: StrSerializationType) -> bool {
    &&& decode_field(d.key.value, d.key.encoding, default) matches FieldDecoding::Bytes(k)
        && k.len() <= MAX_COLLECTION_KEY_LENGTH
    &&& d.value matches Some(data) ==> value_decoding(
        data.value,
        data.encoding,
    ) is Bytes
}

impl KeyValueUpdateJsonData {
    /// The write that JSON data holds: the key decoded by `decoder`, the
    /// value with UTF-8 as the default, `ifNotPresent` false when missing.
    pub fn deserialize(self, decoder: &StringDecoder) -> (r: Result<KeyValueUpdate, HttpError>)
        ensures
            update_decodes(self, decoder.default_encoding(), r),
    {
        let key = match self.key.decode(decoder) {
            Ok(k) => k,
            Err(e) => {
                return Err(e);
            },
        };
        let value = match EncodedValueJsonData::decode_opt(self.value) {
            Ok(v) => v,
            Err(e) => {
                return Err(e);
            },
        };
        let if_not_present = match self.if_not_present {
            Some(b) => b,
            None => false,
        };
        Ok(KeyValueUpdate::new(KeyValueUpdateNewOptions { key, value, if_not_present }))
    }
}

/// An optional value in JSON.
fn encode_opt_value(value: &Option<OwnedCollectionValue>) -> (r: Option<EncodedValueJsonData>)
    ensures
        r is Some == value is Some,
        r matches Some(e) ==> encodes(
            e.value,
            e.encoding,
            StrSerializationType::Utf8,
            value.unwrap()@,
        ),
{
    match value {
        None => None,
        Some(v) => {
            let (value, encoding) = encode_field(v.get_value(), StrSerializationType::Utf8);
            Some(EncodedValueJsonData { value, encoding })
        },
    }
}

/// `e` is the JSON of the optional value `v`.
pub open spec fn encodes_opt_value(
    e: Option<EncodedValueJsonData>,
    v: Option<OwnedCollectionValue>,
) -> bool {
    &&& e is Some == v is Some
    &&& e matches Some(e) ==> encodes(e.value, e.encoding, StrSerializationType::Utf8, v.unwrap()@)
}

/// `e` is the JSON of the diff item `d`.
pub open spec fn encodes_diff(e: KeyValueDiffJsonData, d: KeyValueDiff) -> bool {
    &&& encodes(e.key.value, e.key.encoding, StrSerializationType::Utf8, d.key@)
    &&& encodes_opt_value(e.from_value, d.from_value)
    &&& encodes_opt_value(e.to_value, d.to_value)
    &&& e.intermediate_values.len() == d.intermediate_values.len()
    &&& forall|i: int|
        0 <= i < d.intermediate_values.len() ==> encodes_opt_value(
            #[trigger] e.intermediate_values[i],
            d.intermediate_values[i],
        )
}

impl KeyValueDiffJsonData {
    /// One diff item in JSON.
    pub fn encode(item: &KeyValueDiff) -> (r: Self)
        ensures
            encodes_diff(r, *item),
    {
        let (value, encoding) = encode_field(item.key.get_byte_array(), StrSerializationType::Utf8);
        let mut intermediate_values: Vec<Option<EncodedValueJsonData>> = Vec::new();
        let mut i: usize = 0;
        while i < item.intermediate_values.len()
            invariant
                0 <= i <= item.intermediate_values.len(),
                intermediate_values.len() == i,
                forall|j: int|
                    0 <= j < i ==> encodes_opt_value(
                        #[trigger] intermediate_values[j],
                        item.intermediate_values[j],
                    ),
            decreases item.intermediate_values.len() - i,
        {
            intermediate_values.push(encode_opt_value(&item.intermediate_values[i]));
            i = i + 1;
        }
        KeyValueDiffJsonData {
            key: EncodedKeyJsonData { value, encoding },
            from_value: encode_opt_value(&item.from_value),
            intermediate_values,
            to_value: encode_opt_value(&item.to_value),
        }
    }

    /// Each diff item in JSON, in order.
    pub fn encode_vec(items: Vec<KeyValueDiff>) -> (r: Vec<Self>)
        ensures
            r.len() == items.len(),
            forall|i: int| 0 <= i < items.len() ==> encodes_diff(#[trigger] r[i], items[i]),
    {
        let mut result: Vec<Self> = Vec::new();
        let mut i: usize = 0;
        while i < items.len()
            invariant
                0 <= i <= items.len(),
                result.len() == i,
                forall|j: int| 0 <= j < i ==> encodes_diff(#[trigger] result[j], items[j]),
            decreases items.len() - i,
        {
            result.push(Self::encode(&items[i]));
            i = i + 1;
        }
        result
    }
}

impl DiffCollectionResponseJsonData {
    /// The answer to a diff request: the generations (a missing `from` is
    /// the empty generation), the items and the cursor.
    pub fn from(data: DiffOk) -> (r: Self)
        ensures
            encodes(
                r.from_generation_id.value,
                r.from_generation_id.encoding,
                StrSerializationType::Utf8,
                match data.from_generation_id {
                    Some(g) => g@,
                    None => Seq::empty(),
                },
            ),
            encodes(
                r.to_generation_id.value,
                r.to_generation_id.encoding,
                StrSerializationType::Utf8,
                data.to_generation_id@,
            ),
            r.items.len() == data.items.len(),
            forall|i: int| 0 <= i < data.items.len() ==> encodes_diff(#[trigger] r.items[i], data.items[i]),
            r.cursor_id == data.cursor_id,
    {
        let from_generation_id = match &data.from_generation_id {
            Some(g) => encoded_generation_id_data_encode(g, StrSerializationType::Utf8),
            None => encoded_generation_id_data_encode(
                &OwnedGenerationId::empty(),
                StrSerializationType::Utf8,
            ),
        };
        let to_generation_id = encoded_generation_id_data_encode(
            &data.to_generation_id,
            StrSerializationType::Utf8,
        );
        DiffCollectionResponseJsonData {
            from_generation_id,
            to_generation_id,
            items: KeyValueDiffJsonData::encode_vec(data.items),
            cursor_id: data.cursor_id,
        }
    }
}

/// The generation id of a binary request field, which must be present.
pub fn flatbuffers_generation_id_to_owned_generation_id(generation_id: Option<&[u8]>) -> (r: Result<
    OwnedGenerationId,
    HttpError,
>)
    ensures
        match generation_id {
            None => r matches Err(HttpError::GenericFlatbuffers400(m)) && m@
                == "empty generation id"@,
            Some(b) => if b@.len() <= MAX_GENERATION_ID_LENGTH {
                r matches Ok(g) && g@ == b@
            } else {
                r matches Err(HttpError::GenericFlatbuffers400(m)) && m@ == "invalid generation id"@
            },
        },
{
    let bytes = match generation_id {
        None => {
            return Err(HttpError::GenericFlatbuffers400("empty generation id"));
        },
        Some(b) => b,
    };
    match OwnedGenerationId::from_vec(crate::bytes::copy_bytes(bytes)) {
        Ok(g) => Ok(g),
        Err(_) => Err(HttpError::GenericFlatbuffers400("invalid generation id")),
    }
}

/// The generation id of an optional binary request field.
pub fn flatbuffers_generation_id_to_owned_generation_id_opt(generation_id: Option<&[u8]>) -> (r:
    Result<Option<OwnedGenerationId>, HttpError>)
    ensures
        match generation_id {
            None => r matches Ok(None),
            Some(b) => if b@.len() <= MAX_GENERATION_ID_LENGTH {
                r matches Ok(Some(g)) && g@ == b@
            } else {
                r matches Err(HttpError::GenericFlatbuffers400(m)) && m@ == "invalid generation id"@
            },
        },
{
    let bytes = match generation_id {
        None => {
            return Ok(None);
        },
        Some(b) => b,
    };
    match OwnedGenerationId::from_vec(crate::bytes::copy_bytes(bytes)) {
        Ok(g) => Ok(Some(g)),
        Err(_) => Err(HttpError::GenericFlatbuffers400("invalid generation id")),
    }
}

/// The phantom id of an optional binary request field; a phantom id is
/// never empty.
pub fn flatbuffers_phantom_id_to_owned_phantom_id_opt(phantom_id: Option<&[u8]>) -> (r: Result<
    Option<OwnedPhantomId>,
    HttpError,
>)
    ensures
        match phantom_id {
            None => r matches Ok(None),
            Some(b) => if 1 <= b@.len() <= MAX_PHANTOM_ID_LENGTH {
                r matches Ok(Some(p)) && p@ == b@
            } else {
                r matches Err(HttpError::GenericFlatbuffers400(m)) && m@ == "invalid phantom id"@
            },
        },
{
    let bytes = match phantom_id {
        None => {
            return Ok(None);
        },
        Some(b) => b,
    };
    match OwnedPhantomId::new_nonempty(bytes) {
        Some(p) => Ok(Some(p)),
        None => Err(HttpError::GenericFlatbuffers400("invalid phantom id")),
    }
}

/// Law: what `encode` writes, `decode` (with UTF-8 as the default, as every
/// handler uses) reads back: any bytes, whichever encoding was picked.
pub proof fn lemma_encoded_field_decodes(
    value: String,
    encoding: Option<String>,
    b: Seq<u8>,
)
    requires
        encodes(value, encoding, StrSerializationType::Utf8, b),
    ensures
        decode_field(value, encoding, StrSerializationType::Utf8) == FieldDecoding::Bytes(b),
{
    crate::str_serialization::lemma_serialize_deserialize(StrSerializationType::Utf8, b);
    reveal_strlit("base64");
    reveal_strlit("utf8");
    assert("base64"@.len() == 6);
    assert("utf8"@.len() == 4);
    assert("base64"@ != "utf8"@);
}

} // verus!
