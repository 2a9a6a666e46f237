//! Decoding a field of a request: its text and the name of its encoding.
use vstd::prelude::*;
use vstd::string::StringExecFns;
use vstd::utf8::encode_utf8;

use crate::http::errors::HttpError;
use crate::str_serialization::{deserialized, encoding_from_name, StrSerializationType};

verus! {

/// The encoding that an optional encoding field names; a missing field
/// means `default`. `None` when the field names no encoding.
pub open spec fn field_encoding(
    encoding: Option<Seq<char>>,
    default: StrSerializationType,
) -> Option<StrSerializationType> {
    match encoding {
        None => Some(default),
        Some(name) => encoding_from_name(name),
    }
}

/// The text of an optional string.
pub open spec fn opt_text(s: Option<String>) -> Option<Seq<char>> {
    match s {
        Some(s) => Some(s@),
        None => None,
    }
}

/// The message for an encoding field that names no encoding.
pub open spec fn encoding_error_message(field_name: Seq<char>) -> Seq<char> {
    "invalid "@ + field_name + ", allowed \"base64\" or default (\"utf8\")"@
}

/// The message for a value that its encoding cannot read.
pub open spec fn decoding_error_message(field_name: Seq<char>) -> Seq<char> {
    "invalid "@ + field_name + ", check encoding"@
}

/// Decodes fields whose encoding field may be missing.
pub struct StringDecoder {
    default_type: StrSerializationType,
}

impl StringDecoder {
    /// The encoding assumed when a field names none.
    pub closed spec fn default_encoding(&self) -> StrSerializationType {
        self.default_type
    }

    /// A decoder that assumes `default_encoding`.
    pub fn new(default_encoding: StrSerializationType) -> (r: Self)
        ensures
            r.default_encoding() == default_encoding,
    {
        StringDecoder { default_type: default_encoding }
    }

    /// Decodes `value` in the encoding named by `field_encoding` (or the
    /// default), then hands the bytes to `map`.
    pub fn decode_field_with_map<R, F: FnOnce(Vec<u8>) -> Result<R, HttpError>>(
        &self,
        field_name: &str,
        value: String,
        field_encoding_name: &str,
        field_encoding: Option<String>,
        map: F,
    ) -> (r: Result<R, HttpError>)
        requires
            forall|bytes: Vec<u8>| call_requires(map, (bytes,)),
        ensures
            match crate::http::encoding::field_encoding(
                opt_text(field_encoding),
                self.default_encoding(),
            ) {
                None => r matches Err(HttpError::GenericString400(m)) && m@
                    == encoding_error_message(field_encoding_name@),
                Some(t) => match deserialized(t, encode_utf8(value@)) {
                    None => r matches Err(HttpError::GenericString400(m)) && m@
                        == decoding_error_message(field_name@),
                    Some(b) => exists|v: Vec<u8>| v@ == b && call_ensures(map, (v,), r),
                },
            },
    {
        let t = opt_string_into_encoding_with_default(
            field_encoding_name,
            field_encoding,
            self.default_type,
        );
        let t = match t {
            Ok(t) => t,
            Err(e) => {
                return Err(e);
            },
        };
        let value = match into_decoded_value(field_name, value, t) {
            Ok(v) => v,
            Err(e) => {
                return Err(e);
            },
        };
        map(value)
    }
}

/// The encoding an optional encoding field names, `default` when missing.
fn opt_string_into_encoding_with_default(
    field_name: &str,
    encoding: Option<String>,
    default_encoding: StrSerializationType,
) -> (r: Result<StrSerializationType, HttpError>)
    ensures
        match field_encoding(opt_text(encoding), default_encoding) {
            Some(t) => r matches Ok(u) && u == t,
            None => r matches Err(HttpError::GenericString400(m)) && m@ == encoding_error_message(
                field_name@,
            ),
        },
{
    match encoding {
        None => Ok(default_encoding),
        Some(encoding) => match StrSerializationType::from_str(encoding.as_str()) {
            Ok(t) => Ok(t),
            Err(_) => Err(HttpError::GenericString400(format_encoding_type_parsing_err(field_name))),
        },
    }
}

/// The bytes that `value` stands for in `encoding`.
fn into_decoded_value(field_name: &str, value: String, encoding: StrSerializationType) -> (r: Result<
    Vec<u8>,
    HttpError,
>)
    ensures
        match deserialized(encoding, encode_utf8(value@)) {
            Some(b) => r matches Ok(v) && v@ == b,
            None => r matches Err(HttpError::GenericString400(m)) && m@ == decoding_error_message(
                field_name@,
            ),
        },
{
    match encoding.deserialize(value.as_str()) {
        Ok(v) => Ok(v),
        Err(_) => {
            let message = String::from_str("invalid ").concat(field_name).concat(", check encoding");
            Err(HttpError::GenericString400(message))
        },
    }
}

/// The message for an encoding field that names no encoding.
fn format_encoding_type_parsing_err(field_name: &str) -> (r: String)
    ensures
        r@ == encoding_error_message(field_name@),
{
    String::from_str("invalid ").concat(field_name).concat(", allowed \"base64\" or default (\"utf8\")")
}

} // verus!
