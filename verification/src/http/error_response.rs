//! The status and body that answer a failed request, in JSON or in the
//! binary (flatbuffers) format.
use vstd::prelude::*;
use vstd::string::StringExecFns;

use crate::http::errors::HttpError;

verus! {

/// The lowercase hexadecimal digit of `d` (below 16).
pub open spec fn hex_digit(d: int) -> char {
    if d < 10 {
        (48 + d) as char
    } else {
        (87 + d) as char
    }
}

/// How a JSON string writes one character: a quote and a backslash behind
/// a backslash, the control characters with a short escape where JSON has
/// one and as `\u00XX` otherwise, every other character as it is.
pub open spec fn json_escape_char(c: char) -> Seq<char> {
    if c == '"' {
        seq!['\\', '"']
    } else if c == '\\' {
        seq!['\\', '\\']
    } else if c == '\u{8}' {
        seq!['\\', 'b']
    } else if c == '\t' {
        seq!['\\', 't']
    } else if c == '\n' {
        seq!['\\', 'n']
    } else if c == '\u{c}' {
        seq!['\\', 'f']
    } else if c == '\r' {
        seq!['\\', 'r']
    } else if (c as int) < 0x20 {
        seq!['\\', 'u', '0', '0', hex_digit((c as int) / 16), hex_digit((c as int) % 16)]
    } else {
        seq![c]
    }
}

/// The characters of a text, each written as in a JSON string.
pub open spec fn json_escape(s: Seq<char>) -> Seq<char>
    decreases s.len(),
{
    if s.len() == 0 {
        Seq::empty()
    } else {
        json_escape(s.drop_last()) + json_escape_char(s.last())
    }
}

/// The JSON string literal of a text: the escaped text between quotes.
pub open spec fn json_string_literal(s: Seq<char>) -> Seq<char> {
    seq!['"'] + json_escape(s) + seq!['"']
}

/// `serde_json::Value::String(..).to_string()`: the JSON string literal of
/// the text, escaped as serde_json's compact formatter escapes strings.
#[verifier::external_body]
fn json_string(s: &str) -> (r: String)
    ensures
        r@ == json_string_literal(s@),
{
    serde_json::Value::String(s.to_owned()).to_string()
}

/// The decimal digits of `n`.
pub open spec fn decimal_text(n: nat) -> Seq<char>
    decreases n,
{
    if n < 10 {
        seq![(48 + n) as char]
    } else {
        decimal_text(n / 10) + seq![(48 + n % 10) as char]
    }
}

fn digit_str(d: usize) -> (r: &'static str)
    requires
        d < 10,
    ensures
        r@ == seq![(48 + d) as char],
{
    proof {
        reveal_strlit("0");
        reveal_strlit("1");
        reveal_strlit("2");
        reveal_strlit("3");
        reveal_strlit("4");
        reveal_strlit("5");
        reveal_strlit("6");
        reveal_strlit("7");
        reveal_strlit("8");
        reveal_strlit("9");
    }
    if d == 0 {
        "0"
    } else if d == 1 {
        "1"
    } else if d == 2 {
        "2"
    } else if d == 3 {
        "3"
    } else if d == 4 {
        "4"
    } else if d == 5 {
        "5"
    } else if d == 6 {
        "6"
    } else if d == 7 {
        "7"
    } else if d == 8 {
        "8"
    } else {
        "9"
    }
}

/// `n` in decimal.
pub fn usize_to_decimal(n: usize) -> (r: String)
    ensures
        r@ == decimal_text(n as nat),
    decreases n,
{
    if n < 10 {
        String::from_str(digit_str(n))
    } else {
        usize_to_decimal(n / 10).concat(digit_str(n % 10))
    }
}

/// The body of an error answer.
pub enum ErrorBody {
    Json(String),
    /// An error message of the binary format, with these fields.
    Flatbuffers { error: Option<String>, reason: Option<String>, details: Option<String> },
}

/// `b` is a JSON body with text `t`.
pub open spec fn is_json_body(b: ErrorBody, t: Seq<char>) -> bool {
    b matches ErrorBody::Json(s) && s@ == t
}

/// The text of an optional field.
pub open spec fn opt_field(s: Option<String>) -> Option<Seq<char>> {
    match s {
        Some(s) => Some(s@),
        None => None,
    }
}

/// `b` is a binary error message with these fields.
pub open spec fn is_flatbuffers_body(
    b: ErrorBody,
    error: Option<Seq<char>>,
    reason: Option<Seq<char>>,
    details: Option<Seq<char>>,
) -> bool {
    b matches ErrorBody::Flatbuffers { error: e, reason: r, details: d } && opt_field(e) == error
        && opt_field(r) == reason && opt_field(d) == details
}

/// The text of an optional constant.
pub open spec fn opt_str_text(s: Option<&str>) -> Option<Seq<char>> {
    match s {
        Some(s) => Some(s@),
        None => None,
    }
}

/// An optional constant as a JSON value: its string literal or `null`.
pub open spec fn json_opt_text(s: Option<&str>) -> Seq<char> {
    match s {
        Some(s) => json_string_literal(s@),
        None => "null"@,
    }
}

/// The JSON value of a `Custom` field: `null` when the field is missing,
/// else the JSON value of `error` (the field `error` stands for all three).
pub open spec fn custom_field_json(field: Option<&str>, error: Option<&str>) -> Seq<char> {
    match field {
        Some(_) => json_opt_text(error),
        None => "null"@,
    }
}

fn json_opt(s: Option<&str>) -> (r: String)
    ensures
        r@ == json_opt_text(s),
{
    match s {
        Some(s) => json_string(s),
        None => String::from_str("null"),
    }
}

fn custom_field(field: Option<&str>, error: Option<&str>) -> (r: String)
    ensures
        r@ == custom_field_json(field, error),
{
    match field {
        Some(_) => json_opt(error),
        None => String::from_str("null"),
    }
}

fn opt_owned(s: Option<&str>) -> (r: Option<String>)
    ensures
        opt_field(r) == opt_str_text(s),
{
    match s {
        Some(s) => Some(s.to_owned()),
        None => None,
    }
}

fn flatbuffers_body(error: Option<&str>, reason: Option<&str>, details: Option<&str>) -> (r:
    ErrorBody)
    ensures
        is_flatbuffers_body(r, opt_str_text(error), opt_str_text(reason), opt_str_text(details)),
{
    ErrorBody::Flatbuffers {
        error: opt_owned(error),
        reason: opt_owned(reason),
        details: opt_owned(details),
    }
}

/// The status and body that answer `err`, in the binary format when the
/// request was in it.
pub fn map_http_err(err: HttpError, is_flatbuffers: bool) -> (r: (u16, ErrorBody))
    ensures
        match err {
            HttpError::Unspecified => r.0 == 500 && if is_flatbuffers {
                is_flatbuffers_body(r.1, None, Some("500"@), None)
            } else {
                is_json_body(r.1, "{\"error\":\"500\"}"@)
            },
            HttpError::NotFound => r.0 == 404 && if is_flatbuffers {
                is_flatbuffers_body(r.1, None, Some("notFound"@), None)
            } else {
                is_json_body(r.1, "{\"error\":\"404\"}"@)
            },
            HttpError::Generic400(reason) => r.0 == 400 && if is_flatbuffers {
                is_flatbuffers_body(r.1, None, None, Some(reason@))
            } else {
                is_json_body(
                    r.1,
                    "{\"error\":\"400\",\"details\":"@ + json_string_literal(reason@) + "}"@,
                )
            },
            HttpError::ContentTypeUnsupported(reason) => r.0 == 400 && if is_flatbuffers {
                is_flatbuffers_body(r.1, None, None, Some(reason@))
            } else {
                is_json_body(
                    r.1,
                    "{\"error\":\"400\",\"details\":"@ + json_string_literal(reason@) + "}"@,
                )
            },
            HttpError::GenericString400(reason) => r.0 == 400 && if is_flatbuffers {
                is_flatbuffers_body(r.1, None, None, Some(reason@))
            } else {
                is_json_body(
                    r.1,
                    "{\"error\":\"400\",\"details\":"@ + json_string_literal(reason@) + "}"@,
                )
            },
            HttpError::InvalidFlatbuffers(details) => r.0 == 400 && is_flatbuffers_body(
                r.1,
                None,
                Some("invalidFlatbuffers"@),
                Some(details@),
            ),
            HttpError::GenericFlatbuffers400(details) => r.0 == 400 && is_flatbuffers_body(
                r.1,
                None,
                None,
                Some(details@),
            ),
            HttpError::TooBigPayload(max_size) => r.0 == 413 && if is_flatbuffers {
                is_flatbuffers_body(
                    r.1,
                    None,
                    Some("payloadTooLarge"@),
                    Some("bytesMax:"@ + decimal_text(max_size as nat)),
                )
            } else {
                is_json_body(
                    r.1,
                    "{\"error\":\"413\",\"bytesMax\":"@ + decimal_text(max_size as nat) + "}"@,
                )
            },
            HttpError::InvalidJson(reason) => r.0 == 400 && is_json_body(
                r.1,
                "{\"error\":\"400\",\"reason\":\"invalidJson\",\"details\":"@ + json_string_literal(
                    reason@,
                ) + "}"@,
            ),
            HttpError::PublicInternal500(details) => r.0 == 500 && if is_flatbuffers {
                is_flatbuffers_body(r.1, None, Some("500"@), Some(details@))
            } else {
                is_json_body(
                    r.1,
                    "{\"error\":\"500\",\"details\":"@ + json_string_literal(details@) + "}"@,
                )
            },
            HttpError::MethodNotAllowed => r.0 == 405 && is_json_body(r.1, "{\"error\":\"405\"}"@),
            HttpError::NoSuchCollection => r.0 == 400 && if is_flatbuffers {
                is_flatbuffers_body(r.1, Some("noSuchCollection"@), None, None)
            } else {
                is_json_body(r.1, "{\"error\":\"404\",\"reason\":\"noSuchCollection\"}"@)
            },
            HttpError::Custom { status_code, error, reason, details } => r.0 == status_code
                && if is_flatbuffers {
                is_flatbuffers_body(
                    r.1,
                    opt_str_text(error),
                    opt_str_text(reason),
                    opt_str_text(details),
                )
            } else {
                is_json_body(
                    r.1,
                    "{\"error\":"@ + json_opt_text(error) + ",\"reason\":"@ + custom_field_json(
                        reason,
                        error,
                    ) + ",\"details\":"@ + custom_field_json(details, error) + "}"@,
                )
            },
        },
{
    match err {
        HttpError::Unspecified => (
            500,
            if is_flatbuffers {
                flatbuffers_body(None, Some("500"), None)
            } else {
                ErrorBody::Json(String::from_str("{\"error\":\"500\"}"))
            },
        ),
        HttpError::NotFound => (
            404,
            if is_flatbuffers {
                flatbuffers_body(None, Some("notFound"), None)
            } else {
                ErrorBody::Json(String::from_str("{\"error\":\"404\"}"))
            },
        ),
        HttpError::Generic400(reason) => (400, bad_request_body(reason, is_flatbuffers)),
        HttpError::ContentTypeUnsupported(reason) => (
            400,
            bad_request_body(reason, is_flatbuffers),
        ),
        HttpError::GenericString400(reason) => (
            400,
            bad_request_body(reason.as_str(), is_flatbuffers),
        ),
        HttpError::InvalidFlatbuffers(details) => (
            400,
            flatbuffers_body(None, Some("invalidFlatbuffers"), Some(details.as_str())),
        ),
        HttpError::GenericFlatbuffers400(details) => (
            400,
            flatbuffers_body(None, None, Some(details)),
        ),
        HttpError::TooBigPayload(max_size) => {
            let size = usize_to_decimal(max_size);
            (
                413,
                if is_flatbuffers {
                    let details = String::from_str("bytesMax:").concat(size.as_str());
                    flatbuffers_body(None, Some("payloadTooLarge"), Some(details.as_str()))
                } else {
                    ErrorBody::Json(
                        String::from_str("{\"error\":\"413\",\"bytesMax\":").concat(
                            size.as_str(),
                        ).concat("}"),
                    )
                },
            )
        },
        HttpError::InvalidJson(reason) => (
            400,
            ErrorBody::Json(
                String::from_str("{\"error\":\"400\",\"reason\":\"invalidJson\",\"details\":").concat(
                    json_string(reason.as_str()).as_str(),
                ).concat("}"),
            ),
        ),
        HttpError::PublicInternal500(details) => (
            500,
            if is_flatbuffers {
                flatbuffers_body(None, Some("500"), Some(details))
            } else {
                ErrorBody::Json(
                    String::from_str("{\"error\":\"500\",\"details\":").concat(
                        json_string(details).as_str(),
                    ).concat("}"),
                )
            },
        ),
        HttpError::MethodNotAllowed => (405, ErrorBody::Json(String::from_str("{\"error\":\"405\"}"))),
        HttpError::NoSuchCollection => (
            400,
            if is_flatbuffers {
                flatbuffers_body(Some("noSuchCollection"), None, None)
            } else {
                ErrorBody::Json(
                    String::from_str("{\"error\":\"404\",\"reason\":\"noSuchCollection\"}"),
                )
            },
        ),
        HttpError::Custom { status_code, error, reason, details } => (
            status_code,
            if is_flatbuffers {
                flatbuffers_body(error, reason, details)
            } else {
                ErrorBody::Json(
                    String::from_str("{\"error\":").concat(json_opt(error).as_str()).concat(
                        ",\"reason\":",
                    ).concat(custom_field(reason, error).as_str()).concat(",\"details\":").concat(
                        custom_field(details, error).as_str(),
                    ).concat("}"),
                )
            },
        ),
    }
}

fn bad_request_body(reason: &str, is_flatbuffers: bool) -> (r: ErrorBody)
    ensures
        if is_flatbuffers {
            is_flatbuffers_body(r, None, None, Some(reason@))
        } else {
            is_json_body(r, "{\"error\":\"400\",\"details\":"@ + json_string_literal(reason@) + "}"@)
        },
{
    if is_flatbuffers {
        flatbuffers_body(None, None, Some(reason))
    } else {
        ErrorBody::Json(
            String::from_str("{\"error\":\"400\",\"details\":").concat(
                json_string(reason).as_str(),
            ).concat("}"),
        )
    }
}

} // verus!
