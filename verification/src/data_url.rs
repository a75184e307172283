//! `data:` URLs (or bare base64) turned into a MIME type and bytes for a
//! document upload.

use vstd::prelude::*;
use crate::client::{local_error, ApiError, ApiErrorView, ApiResult};
use crate::text::{
    before_char, chars_of, index_of, owned, push_str, starts_with, starts_with_chars, string_of,
    trim, trimmed,
};

verus! {

/// What the standard base64 engine (RFC 4648 alphabet, padding required)
/// decodes `input` to, or the text of its decoding error.
pub uninterp spec fn base64_standard(input: Seq<char>) -> Result<Seq<u8>, Seq<char>>;

/// Decodes `input` with `base64::engine::general_purpose::STANDARD`
/// (`Engine::decode`); on failure the `Display` text of its `DecodeError`.
///
/// The contract only names the outcome (`base64_standard`): the same input
/// always decodes the same way. `Engine::decode` sizes its buffer
/// conservatively and does not panic.
#[verifier::external_body]
fn standard_base64_decode(input: &str) -> (r: Result<Vec<u8>, String>)
    ensures
        match r {
            Ok(bytes) => base64_standard(input@) == Ok::<Seq<u8>, Seq<char>>(bytes@),
            Err(text) => base64_standard(input@) == Err::<Seq<u8>, Seq<char>>(text@),
        },
{
    match base64::Engine::decode(&base64::engine::general_purpose::STANDARD, input) {
        Ok(bytes) => Ok(bytes),
        Err(e) => Err(e.to_string()),
    }
}

/// The metadata and the payload of `s`: after `data:` they are split at the
/// first comma (no comma: not a data URL); anything else is bare base64 of
/// unknown type.
pub open spec fn data_url_parts(s: Seq<char>) -> Option<(Seq<char>, Seq<char>)> {
    if starts_with(s, "data:"@) {
        let rest = s.skip(5);
        if rest.contains(',') {
            let meta = before_char(rest, ',');
            Some((meta, rest.skip(meta.len() + 1int)))
        } else {
            None
        }
    } else {
        Some(("application/octet-stream;base64"@, s))
    }
}

pub open spec fn invalid_data_url_error() -> ApiErrorView {
    local_error(0, "Invalid data URL"@, false, false)
}

pub open spec fn invalid_base64_error(detail: Seq<char>) -> ApiErrorView {
    local_error(0, "Invalid base64 payload: "@ + detail, false, false)
}

/// The MIME type (the metadata before any `;`) and the decoded bytes of the
/// trimmed payload, or the error for `s`.
pub open spec fn data_url_decoded(s: Seq<char>) -> Result<(Seq<char>, Seq<u8>), ApiErrorView> {
    match data_url_parts(s) {
        None => Err(invalid_data_url_error()),
        Some((meta, payload)) => match base64_standard(trim(payload)) {
            Ok(bytes) => Ok((before_char(meta, ';'), bytes)),
            Err(detail) => Err(invalid_base64_error(detail)),
        },
    }
}

/// A `data:` URL without a comma is refused. Otherwise the MIME type is
/// the metadata up to its first `;` (bare base64 counts as
/// `application/octet-stream`), and the bytes are the standard base64
/// decoding of the trimmed payload after the first comma; a payload that
/// does not decode is refused with the decoder's reason.
pub proof fn lemma_data_url_decoded(s: Seq<char>)
    ensures
        starts_with(s, "data:"@) && !s.skip(5).contains(',') ==> data_url_decoded(s) == Err::<
            (Seq<char>, Seq<u8>),
            ApiErrorView,
        >(invalid_data_url_error()),
        starts_with(s, "data:"@) && s.skip(5).contains(',') ==> ({
            let meta = before_char(s.skip(5), ',');
            let payload = s.skip(5).skip(meta.len() + 1int);
            match base64_standard(trim(payload)) {
                Ok(bytes) => data_url_decoded(s) == Ok::<(Seq<char>, Seq<u8>), ApiErrorView>(
                    (before_char(meta, ';'), bytes),
                ),
                Err(detail) => data_url_decoded(s) == Err::<(Seq<char>, Seq<u8>), ApiErrorView>(
                    invalid_base64_error(detail),
                ),
            }
        }),
        !starts_with(s, "data:"@) ==> match base64_standard(trim(s)) {
            Ok(bytes) => data_url_decoded(s) == Ok::<(Seq<char>, Seq<u8>), ApiErrorView>(
                (before_char("application/octet-stream;base64"@, ';'), bytes),
            ),
            Err(detail) => data_url_decoded(s) == Err::<(Seq<char>, Seq<u8>), ApiErrorView>(
                invalid_base64_error(detail),
            ),
        },
{
}

fn data_url_error(message: String) -> (r: ApiError)
    ensures
        r@ == local_error(0, message@, false, false),
{
    ApiError {
        status: 0,
        message,
        retryable: false,
        mutation_outcome_indeterminate: false,
        request_id: String::new(),
    }
}

/// Decodes a `data:` URL (or bare base64) into its MIME type and bytes.
pub fn decode_data_url(data_url: &str) -> (r: ApiResult<(String, Vec<u8>)>)
    ensures
        match data_url_decoded(data_url@) {
            Ok((mime, bytes)) => r matches Ok(v) && v.0@ == mime && v.1@ == bytes,
            Err(e) => r matches Err(x) && x@ == e,
        },
{
    let cs = chars_of(data_url);
    let prefix = chars_of("data:");
    proof {
        reveal_strlit("data:");
        reveal_strlit("application/octet-stream;base64");
    }
    let (meta, payload) = if starts_with_chars(&cs, &prefix) {
        let comma = index_of(&cs, 5, ',');
        if comma == cs.len() {
            return Err(data_url_error(owned("Invalid data URL")));
        }
        let meta = string_of(&cs, 5, comma);
        let payload = string_of(&cs, comma + 1, cs.len());
        proof {
            let rest = cs@.skip(5);
            assert(payload@ =~= rest.skip(meta@.len() + 1int));
        }
        (meta, payload)
    } else {
        (owned("application/octet-stream;base64"), owned(data_url))
    };
    let mc = chars_of(meta.as_str());
    let semi = index_of(&mc, 0, ';');
    let mime = string_of(&mc, 0, semi);
    proof {
        assert(mc@.skip(0) =~= mc@);
    }
    let decoded = standard_base64_decode(trimmed(payload.as_str()).as_str());
    data_url_result(mime, decoded)
}

/// The result for a data URL of type `mime` whose payload decoded to
/// `decoded`: the type and the bytes, or the error that carries the
/// decoder's message.
pub fn data_url_result(mime: String, decoded: Result<Vec<u8>, String>) -> (r: ApiResult<(String, Vec<u8>)>)
    ensures
        match decoded {
            Ok(bytes) => r matches Ok(v) && v.0@ == mime@ && v.1@ == bytes@,
            Err(detail) => r matches Err(e) && e@ == invalid_base64_error(detail@),
        },
{
    match decoded {
        Ok(bytes) => Ok((mime, bytes)),
        Err(detail) => {
            let mut message = owned("Invalid base64 payload: ");
            push_str(&mut message, detail.as_str());
            Err(data_url_error(message))
        },
    }
}

} // verus!
