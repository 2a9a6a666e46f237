//! The parts of a request path that name a collection (and a reader).
use vstd::prelude::*;
use vstd::utf8::{decode_utf8, encode_utf8, valid_utf8};

verus! {

/// The value of a hexadecimal digit (either case), if `b` is one.
pub open spec fn hex_value(b: u8) -> Option<int> {
    if 48 <= b <= 57 {
        Some(b - 48)
    } else if 65 <= b <= 70 {
        Some(b - 55)
    } else if 97 <= b <= 102 {
        Some(b - 87)
    } else {
        None
    }
}

/// Percent-decoding of bytes: `%` and two hexadecimal digits stand for the
/// byte they spell; a `%` not followed by two digits stays as it is.
pub open spec fn percent_decoded(b: Seq<u8>) -> Seq<u8>
    decreases b.len(),
{
    if b.len() == 0 {
        Seq::empty()
    } else if b[0] != 37 {
        seq![b[0]] + percent_decoded(b.skip(1))
    } else if b.len() < 3 {
        b
    } else {
        match (hex_value(b[1]), hex_value(b[2])) {
            (Some(h), Some(l)) => seq![(h * 16 + l) as u8] + percent_decoded(b.skip(3)),
            (Some(_), None) => seq![37u8, b[1]] + percent_decoded(b.skip(2)),
            _ => seq![37u8] + percent_decoded(b.skip(1)),
        }
    }
}

/// The text that URL-decoding `s` gives: its UTF-8 bytes percent-decoded,
/// `None` when those bytes are not UTF-8.
pub open spec fn url_decoded(s: Seq<char>) -> Option<Seq<char>> {
    let d = percent_decoded(encode_utf8(s));
    if valid_utf8(d) {
        Some(decode_utf8(d))
    } else {
        None
    }
}

/// `urlencoding::decode`: percent-decodes the text's bytes (a `+` stays a
/// `+`), and fails where the decoded bytes are not UTF-8.
#[verifier::external_body]
fn url_decode(s: &str) -> (r: Option<String>)
    ensures
        r is Some == url_decoded(s@) is Some,
        r matches Some(d) ==> d@ == url_decoded(s@).unwrap(),
{
    match urlencoding::decode(s) {
        Ok(d) => Some(d.into_owned()),
        Err(_) => None,
    }
}

/// A path part after decoding: the decoded text, or the raw text when it
/// does not decode.
pub open spec fn decoded_or_raw_text(raw: Seq<char>) -> Seq<char> {
    match url_decoded(raw) {
        Some(d) => d,
        None => raw,
    }
}

/// The decoded text when there is one, else the raw text.
pub fn decoded_or_raw(raw: &str, decoded: Option<String>) -> (r: String)
    ensures
        r@ == match decoded {
            Some(d) => d@,
            None => raw@,
        },
{
    match decoded {
        Some(d) => d,
        None => raw.to_owned(),
    }
}

/// The id of a collection from a path.
pub struct IdOnlyGroup(pub String);

/// The id of a collection and a name (of a reader) from a path.
pub struct IdWithNameGroup {
    pub id: String,
    pub name: String,
}

/// The group of a path whose `id` part is `id`.
pub fn id_only_group(id: &str) -> (r: IdOnlyGroup)
    ensures
        r.0@ == decoded_or_raw_text(id@),
{
    IdOnlyGroup(decoded_or_raw(id, url_decode(id)))
}

/// The group of a path whose `id` and `name` parts are given.
pub fn id_with_name_group(id: &str, name: &str) -> (r: IdWithNameGroup)
    ensures
        r.id@ == decoded_or_raw_text(id@),
        r.name@ == decoded_or_raw_text(name@),
{
    let id = decoded_or_raw(id, url_decode(id));
    let name = decoded_or_raw(name, url_decode(name));
    IdWithNameGroup { id, name }
}

/// The text, decoded, or `None` when it does not decode.
pub(crate) fn decode_url_text(s: &str) -> (r: Option<String>)
    ensures
        r is Some == url_decoded(s@) is Some,
        r matches Some(d) ==> d@ == url_decoded(s@).unwrap(),
{
    url_decode(s)
}

} // verus!
