//! Which request bodies are accepted.
use vstd::prelude::*;

use crate::http::errors::HttpError;
use crate::http::query::text_eq;

verus! {

/// Whether `regex::RegexBuilder` accepts `pattern` (with case-insensitive
/// matching as `case_insensitive` says).
pub uninterp spec fn regex_builds(pattern: Seq<char>, case_insensitive: bool) -> bool;

/// Whether the regex built from `pattern` (case-insensitive as
/// `case_insensitive` says) matches somewhere in `text`.
pub uninterp spec fn regex_matches(pattern: Seq<char>, case_insensitive: bool, text: Seq<char>) -> bool;

/// `regex::RegexBuilder::new(pattern).case_insensitive(..).build()`, then
/// `Regex::is_match(text)`: `None` when the builder refuses the pattern,
/// else whether it matches. Which texts a pattern matches is left to the
/// regex crate; the results depend on the arguments alone.
#[verifier::external_body]
fn regex_is_match(pattern: &str, case_insensitive: bool, text: &str) -> (r: Option<bool>)
    ensures
        r is Some == regex_builds(pattern@, case_insensitive),
        r matches Some(b) ==> b == regex_matches(pattern@, case_insensitive, text@),
{
    match regex::RegexBuilder::new(pattern).case_insensitive(case_insensitive).build() {
        Ok(re) => Some(re.is_match(text)),
        Err(_) => None,
    }
}

/// The pattern of the Content-Types that name UTF-8 JSON; it is matched
/// ignoring case.
pub open spec fn utf8_json_pattern() -> Seq<char> {
    "^application/json(;\\s*charset=utf-8)?$"@
}

/// Whether `value` names UTF-8 JSON: the pattern above, ignoring case,
/// matches it.
pub open spec fn utf8_json_pattern_matches(value: Seq<char>) -> bool {
    regex_builds(utf8_json_pattern(), true) && regex_matches(utf8_json_pattern(), true, value)
}

/// Whether a Content-Type names UTF-8 JSON.
pub fn is_utf8_json_content_type(value: &str) -> (r: bool)
    ensures
        r == utf8_json_pattern_matches(value@),
{
    match regex_is_match("^application/json(;\\s*charset=utf-8)?$", true, value) {
        Some(b) => b,
        None => false,
    }
}

/// The verdict on a request's Content-Type: `None` when there is no such
/// header (accepted), else whether it names UTF-8 JSON.
pub fn utf8_json_content_type_verdict(is_utf8_json: Option<bool>) -> (r: Result<(), HttpError>)
    ensures
        match is_utf8_json {
            None => r is Ok,
            Some(true) => r is Ok,
            Some(false) => r matches Err(HttpError::ContentTypeUnsupported(m)) && m@
                == "supported Content-Types: application/json, supported charsets: utf-8"@,
        },
{
    match is_utf8_json {
        None => Ok(()),
        Some(true) => Ok(()),
        Some(false) => Err(
            HttpError::ContentTypeUnsupported(
                "supported Content-Types: application/json, supported charsets: utf-8",
            ),
        ),
    }
}

/// Accepts a request without a Content-Type or with one that names UTF-8
/// JSON.
pub fn allow_only_utf8_json_by_default(content_type: Option<&str>) -> (r: Result<(), HttpError>)
    ensures
        match content_type {
            None => r is Ok,
            Some(value) => if utf8_json_pattern_matches(value@) {
                r is Ok
            } else {
                r matches Err(HttpError::ContentTypeUnsupported(m)) && m@
                    == "supported Content-Types: application/json, supported charsets: utf-8"@
            },
        },
{
    let verdict = match content_type {
        None => None,
        Some(value) => Some(is_utf8_json_content_type(value)),
    };
    utf8_json_content_type_verdict(verdict)
}

/// Accepts a request whose method is one of `allowed`.
pub fn allow_only_methods(method: &str, allowed: &[&str]) -> (r: Result<(), HttpError>)
    ensures
        (exists|i: int| 0 <= i < allowed@.len() && #[trigger] allowed@[i]@ == method@) ==> r is Ok,
        !(exists|i: int| 0 <= i < allowed@.len() && #[trigger] allowed@[i]@ == method@) ==> r
            == Err::<(), HttpError>(HttpError::MethodNotAllowed),
{
    let mut i: usize = 0;
    while i < allowed.len()
        invariant
            0 <= i <= allowed@.len(),
            forall|j: int| 0 <= j < i ==> #[trigger] allowed@[j]@ != method@,
        decreases allowed@.len() - i,
    {
        if text_eq(allowed[i], method) {
            return Ok(());
        }
        i = i + 1;
    }
    Err(HttpError::MethodNotAllowed)
}

} // verus!
