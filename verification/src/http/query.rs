//! The query string of a request, and what the generation id stream reads
//! from it.
use vstd::prelude::*;
use vstd::utf8::encode_utf8;

use crate::bytes::lex_le;
use crate::common::{OwnedGenerationId, MAX_GENERATION_ID_LENGTH};
use crate::http::common_groups::{decode_url_text, url_decoded};
use crate::http::data::is_generic_400;
use crate::http::encoding::field_encoding;
use crate::http::errors::HttpError;
use crate::str_serialization::{deserialized, StrSerializationType};

verus! {

/// The pieces of `s` between the separators `sep`, as `str::split` gives
/// them (at least one, maybe empty).
pub open spec fn split_on(s: Seq<char>, sep: char) -> Seq<Seq<char>>
    decreases s.len(),
{
    if s.len() == 0 {
        seq![Seq::<char>::empty()]
    } else {
        let rest = split_on(s.drop_first(), sep);
        if s[0] == sep {
            seq![Seq::<char>::empty()] + rest
        } else {
            rest.update(0, seq![s[0]] + rest[0])
        }
    }
}

/// The pair that one `&`-separated piece holds: the text before its first
/// `=` and the text between that and the next `=` (or the end); none
/// without an `=`.
pub open spec fn query_pair(piece: Seq<char>) -> Option<(Seq<char>, Seq<char>)> {
    let parts = split_on(piece, '=');
    if parts.len() >= 2 {
        Some((parts[0], parts[1]))
    } else {
        None
    }
}

/// The pairs of the pieces, in order, skipping pieces without a pair.
pub open spec fn query_pairs_of(pieces: Seq<Seq<char>>) -> Seq<(Seq<char>, Seq<char>)>
    decreases pieces.len(),
{
    if pieces.len() == 0 {
        Seq::empty()
    } else {
        match query_pair(pieces[0]) {
            Some(p) => seq![p] + query_pairs_of(pieces.drop_first()),
            None => query_pairs_of(pieces.drop_first()),
        }
    }
}

/// The key-value pairs of a query string: the `&`-separated pieces that
/// hold an `=`.
pub open spec fn querify_pairs(query: Seq<char>) -> Seq<(Seq<char>, Seq<char>)> {
    query_pairs_of(split_on(query, '&'))
}

/// `querystring::querify`: splits the query on `&`, each piece on `=`,
/// and keeps the first two parts of each piece that has an `=`.
#[verifier::external_body]
fn querify(query: &str) -> (r: Vec<(String, String)>)
    ensures
        r@.len() == querify_pairs(query@).len(),
        forall|i: int|
            0 <= i < r@.len() ==> (#[trigger] r@[i]).0@ == querify_pairs(query@)[i].0 && r@[i].1@
                == querify_pairs(query@)[i].1,
{
    querystring::querify(query).into_iter().map(|(k, v)| (k.to_string(), v.to_string())).collect()
}

/// Every key and value of `pairs` percent-decodes.
pub open spec fn all_pairs_decode(pairs: Seq<(Seq<char>, Seq<char>)>) -> bool {
    forall|i: int|
        0 <= i < pairs.len() ==> url_decoded((#[trigger] pairs[i]).0) is Some && url_decoded(
            pairs[i].1,
        ) is Some
}

/// The texts of a list of pairs.
pub open spec fn pair_texts(v: Seq<(String, String)>) -> Seq<(Seq<char>, Seq<char>)> {
    v.map_values(|p: (String, String)| (p.0@, p.1@))
}

/// The decoded query parameters: none without a query string; an error
/// when a key or value does not decode.
pub fn query_params(query: Option<&str>) -> (r: Result<Vec<(String, String)>, ()>)
    ensures
        match query {
            None => r matches Ok(v) && v@.len() == 0,
            Some(q) => (r is Ok == all_pairs_decode(querify_pairs(q@))) && (r matches Ok(v) ==> (
            v@.len() == querify_pairs(q@).len() && forall|i: int|
                0 <= i < v@.len() ==> (#[trigger] v@[i]).0@ == url_decoded(
                    querify_pairs(q@)[i].0,
                ).unwrap() && v@[i].1@ == url_decoded(querify_pairs(q@)[i].1).unwrap())),
        },
{
    let text = match query {
        None => {
            return Ok(Vec::new());
        },
        Some(q) => q,
    };
    let params = querify(text);
    let ghost pairs = querify_pairs(text@);
    let mut result: Vec<(String, String)> = Vec::new();
    let mut i: usize = 0;
    while i < params.len()
        invariant
            0 <= i <= params@.len(),
            query matches Some(q) && q@ == text@,
            pairs == querify_pairs(text@),
            params@.len() == pairs.len(),
            forall|j: int|
                0 <= j < params@.len() ==> (#[trigger] params@[j]).0@ == pairs[j].0 && params@[j].1@
                    == pairs[j].1,
            result@.len() == i,
            forall|j: int|
                0 <= j < i ==> url_decoded((#[trigger] pairs[j]).0) is Some && url_decoded(
                    pairs[j].1,
                ) is Some,
            forall|j: int|
                0 <= j < i ==> (#[trigger] result@[j]).0@ == url_decoded(pairs[j].0).unwrap()
                    && result@[j].1@ == url_decoded(pairs[j].1).unwrap(),
        decreases params@.len() - i,
    {
        let key = decode_url_text(params[i].0.as_str());
        let value = decode_url_text(params[i].1.as_str());
        match (key, value) {
            (Some(k), Some(v)) => {
                result.push((k, v));
            },
            _ => {
                assert(!(url_decoded(pairs[i as int].0) is Some && url_decoded(pairs[i as int].1) is Some));
                return Err(());
            },
        }
        i = i + 1;
    }
    Ok(result)
}

/// The value of the last pair named `name`.
pub open spec fn last_param(params: Seq<(Seq<char>, Seq<char>)>, name: Seq<char>) -> Option<
    Seq<char>,
>
    decreases params.len(),
{
    if params.len() == 0 {
        None
    } else if params.last().0 == name {
        Some(params.last().1)
    } else {
        last_param(params.drop_last(), name)
    }
}

pub(crate) fn text_eq(a: &str, b: &str) -> (r: bool)
    ensures
        r == (a@ == b@),
{
    a.to_owned() == b.to_owned()
}

/// The value of the last parameter named `name`.
fn find_last_param(params: &Vec<(String, String)>, name: &str) -> (r: Option<String>)
    ensures
        match last_param(pair_texts(params@), name@) {
            None => r is None,
            Some(v) => r matches Some(s) && s@ == v,
        },
{
    let ghost texts = pair_texts(params@);
    let mut found: Option<String> = None;
    let mut i: usize = 0;
    while i < params.len()
        invariant
            0 <= i <= params@.len(),
            texts == pair_texts(params@),
            match last_param(texts.take(i as int), name@) {
                None => found is None,
                Some(v) => found matches Some(s) && s@ == v,
            },
        decreases params@.len() - i,
    {
        assert(texts.take(i + 1).drop_last() =~= texts.take(i as int));
        assert(texts.take(i + 1).last() == (params@[i as int].0@, params@[i as int].1@));
        if text_eq(params[i].0.as_str(), name) {
            found = Some(params[i].1.clone());
        }
        i = i + 1;
    }
    assert(texts.take(params@.len() as int) =~= texts);
    found
}

/// The generation id that the generation id stream is asked about: from
/// the last `generationId` parameter, read in the encoding of the last
/// `generationIdEncoding` parameter (UTF-8 when missing); none without a
/// `generationId` parameter.
pub fn generation_id_stream_params(params: &Vec<(String, String)>) -> (r: Result<
    Option<OwnedGenerationId>,
    HttpError,
>)
    ensures
        match last_param(pair_texts(params@), "generationId"@) {
            None => r matches Ok(None),
            Some(g) => match field_encoding(
                last_param(pair_texts(params@), "generationIdEncoding"@),
                StrSerializationType::Utf8,
            ) {
                None => is_generic_400(r, "invalid encoding"),
                Some(t) => match deserialized(t, encode_utf8(g)) {
                    None => is_generic_400(r, "invalid encoded value"),
                    Some(b) => if b.len() <= MAX_GENERATION_ID_LENGTH {
                        r matches Ok(Some(x)) && x@ == b
                    } else {
                        is_generic_400(r, "invalid generation_id")
                    },
                },
            },
        },
{
    let generation_id = find_last_param(params, "generationId");
    let encoding = find_last_param(params, "generationIdEncoding");
    let generation_id = match generation_id {
        None => {
            return Ok(None);
        },
        Some(g) => g,
    };
    let encoding = match StrSerializationType::from_opt_str(encoding) {
        Ok(t) => t,
        Err(_) => {
            return Err(HttpError::Generic400("invalid encoding"));
        },
    };
    let bytes = match encoding.deserialize(generation_id.as_str()) {
        Ok(b) => b,
        Err(_) => {
            return Err(HttpError::Generic400("invalid encoded value"));
        },
    };
    match OwnedGenerationId::from_vec(bytes) {
        Ok(g) => Ok(Some(g)),
        Err(_) => Err(HttpError::Generic400("invalid generation_id")),
    }
}

/// Whether the generation id stream answers at once with the collection's
/// current generation id, without waiting: when it was given neither a
/// generation id to move away from nor one to reach.
pub fn generation_id_stream_answers_at_once(
    generation_id: Option<&OwnedGenerationId>,
    to_generation_id: Option<&OwnedGenerationId>,
) -> (r: bool)
    ensures
        r == (generation_id is None && to_generation_id is None),
{
    generation_id.is_none() && to_generation_id.is_none()
}

/// Whether the generation id stream answers now with `current`: it has
/// reached `to_generation_id`, or moved away from `generation_id`.
pub fn generation_id_stream_should_answer(
    current: &OwnedGenerationId,
    generation_id: Option<&OwnedGenerationId>,
    to_generation_id: Option<&OwnedGenerationId>,
) -> (r: bool)
    ensures
        r == ((to_generation_id matches Some(t) && lex_le(t@, current@)) || (
        generation_id matches Some(g) && g@ != current@)),
{
    match to_generation_id {
        Some(t) => {
            if t.less_or_equal(current) {
                return true;
            }
        },
        None => {},
    }
    match generation_id {
        Some(g) => !g.same_as(current),
        None => false,
    }
}

/// The generation id the stream answers with: the new one it saw, else the
/// one it was asked about, else the collection's current one.
pub fn generation_id_stream_answer(
    new_generation_id: Option<OwnedGenerationId>,
    generation_id: Option<&OwnedGenerationId>,
    current: &OwnedGenerationId,
) -> (r: OwnedGenerationId)
    ensures
        r@ == match new_generation_id {
            Some(n) => n@,
            None => match generation_id {
                Some(g) => g@,
                None => current@,
            },
        },
{
    match new_generation_id {
        Some(n) => n,
        None => match generation_id {
            Some(g) => g.copy(),
            None => current.copy(),
        },
    }
}

/// How long the generation id stream waits for a change, in milliseconds.
pub const GENERATION_ID_STREAM_WAIT_MS: u64 = 60000;

/// The wait of the generation id stream: the time it has left.
pub struct GenerationIdStreamWait {
    pub time_left_ms: u64,
}

/// What ended one wait of the stream.
pub enum GenerationIdStreamEvent {
    /// The collection's generation changed after `elapsed_ms` milliseconds.
    Changed { elapsed_ms: u64 },
    /// The time left ran out.
    TimedOut,
}

/// What the stream does next.
pub enum GenerationIdStreamStep {
    /// Look at the generation again (answer if it moved), then wait again.
    LookAgain,
    /// Stop waiting and answer.
    GiveUp,
}

impl GenerationIdStreamWait {
    /// A wait with the whole time left.
    pub fn new() -> (r: Self)
        ensures
            r.time_left_ms == GENERATION_ID_STREAM_WAIT_MS,
    {
        GenerationIdStreamWait { time_left_ms: GENERATION_ID_STREAM_WAIT_MS }
    }

    /// Takes what ended a wait: a timeout gives up; a change takes the
    /// elapsed time off the time left, and gives up when none is left.
    pub fn on_event(&mut self, event: GenerationIdStreamEvent) -> (r: GenerationIdStreamStep)
        requires
            old(self).time_left_ms > 0,
            event matches GenerationIdStreamEvent::Changed { elapsed_ms } ==> elapsed_ms <= old(self).time_left_ms,
        ensures
            event is TimedOut ==> r is GiveUp && final(self).time_left_ms == old(self).time_left_ms,
            event matches GenerationIdStreamEvent::Changed { elapsed_ms } ==> final(self).time_left_ms
                == old(self).time_left_ms - elapsed_ms,
            event is Changed ==> (r is GiveUp <==> final(self).time_left_ms == 0),
    {
        match event {
            GenerationIdStreamEvent::TimedOut => GenerationIdStreamStep::GiveUp,
            GenerationIdStreamEvent::Changed { elapsed_ms } => {
                self.time_left_ms = self.time_left_ms - elapsed_ms;
                if self.time_left_ms == 0 {
                    GenerationIdStreamStep::GiveUp
                } else {
                    GenerationIdStreamStep::LookAgain
                }
            },
        }
    }
}

} // verus!
