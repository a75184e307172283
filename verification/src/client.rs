//! The API v1 envelope: building requests, decoding responses, and
//! classifying failures for the retry rule of mutations.

use vstd::prelude::*;
use vstd::utf8::*;
use crate::wire::{decode_into, lemma_decode_encode_fields};
use crate::text::{
    ascii_lower_all, before_char, lemma_before_char, chars_eq, chars_of, contains, contains_str, decimal, lower_ascii_chars,
    owned, push_char, push_decimal, push_signed_decimal, push_str, signed_decimal, string_of,
    trim, trim_bounds, trimmed,
};
use crate::pb_req::{
    lemma_round_api_v1_request, lemma_wf_api_v1_request, ApiRequest, ApiV1Request, Op, SpecApiRequest, SpecApiV1Request,
    SpecOp,
};
use crate::pb_resp::{
    lemma_round_api_v1_response, lemma_wf_api_v1_response, ApiResponse, ApiV1Response, Outcome, SpecApiResponse,
    SpecApiV1Response, SpecOutcome,
};

verus! {

broadcast use vstd::utf8::group_utf8_lib;

/// A failed API call, as the UI sees it.
#[derive(Clone, Debug, PartialEq, Eq)]
pub struct ApiError {
    pub status: u16,
    pub message: String,
    pub retryable: bool,
    /// The request may have reached the server, so retrying a mutation must
    /// keep the idempotency key it was first sent with.
    pub mutation_outcome_indeterminate: bool,
    pub request_id: String,
}

/// The value of an [`ApiError`].
pub struct ApiErrorView {
    pub status: u16,
    pub message: Seq<char>,
    pub retryable: bool,
    pub mutation_outcome_indeterminate: bool,
    pub request_id: Seq<char>,
}

impl View for ApiError {
    type V = ApiErrorView;

    open spec fn view(&self) -> ApiErrorView {
        ApiErrorView {
            status: self.status,
            message: self.message@,
            retryable: self.retryable,
            mutation_outcome_indeterminate: self.mutation_outcome_indeterminate,
            request_id: self.request_id@,
        }
    }
}

pub type ApiResult<T> = Result<T, ApiError>;

/// An error not tied to a request id.
pub open spec fn local_error(
    status: u16,
    message: Seq<char>,
    retryable: bool,
    indeterminate: bool,
) -> ApiErrorView {
    ApiErrorView {
        status,
        message,
        retryable,
        mutation_outcome_indeterminate: indeterminate,
        request_id: Seq::empty(),
    }
}

/// The value of a call result.
pub open spec fn result_view<T: View>(r: Result<T, ApiError>) -> Result<T::V, ApiErrorView> {
    match r {
        Ok(v) => Ok(v@),
        Err(e) => Err(e@),
    }
}

pub open spec fn opt_view(o: Option<String>) -> Option<Seq<char>> {
    match o {
        Some(s) => Some(s@),
        None => None,
    }
}

pub open spec fn opt_str_view(o: Option<&str>) -> Option<Seq<char>> {
    match o {
        Some(s) => Some(s@),
        None => None,
    }
}

fn new_error(status: u16, message: String, retryable: bool, indeterminate: bool) -> (r: ApiError)
    ensures
        r@ == local_error(status, message@, retryable, indeterminate),
{
    ApiError {
        status,
        message,
        retryable,
        mutation_outcome_indeterminate: indeterminate,
        request_id: String::new(),
    }
}

impl ApiErrorView {
    /// The text shown for the error: its message, and the request id when there is one.
    pub open spec fn display(self) -> Seq<char> {
        if self.request_id.len() == 0 {
            self.message
        } else {
            self.message + " (request_id="@ + self.request_id + ")"@
        }
    }
}

impl ApiError {
    pub fn to_string(&self) -> (r: String)
        ensures
            r@ == self@.display(),
    {
        let mut s = owned(self.message.as_str());
        if self.request_id.as_str().is_empty() {
            return s;
        }
        push_str(&mut s, " (request_id=");
        push_str(&mut s, self.request_id.as_str());
        push_str(&mut s, ")");
        assert(s@ =~= self@.display());
        s
    }
}

// ------------------------------------------------------------------
// Requests
// ------------------------------------------------------------------

/// A mutation needs an idempotency key that is not blank.
pub open spec fn key_missing(key: Option<Seq<char>>) -> bool {
    match key {
        Some(k) => trim(k).len() == 0,
        None => true,
    }
}

pub open spec fn missing_key_error() -> ApiErrorView {
    local_error(0, "Idempotency key is required for mutations"@, false, false)
}

/// The envelope for `op`: no credential (the session authorizes), the
/// request id, and the key, empty when there is none.
pub open spec fn envelope(
    op: SpecOp,
    request_id: Seq<char>,
    key: Option<Seq<char>>,
) -> SpecApiV1Request {
    SpecApiV1Request {
        request_id,
        call: Some(SpecApiRequest { auth: Seq::empty(), op: Some(op) }),
        idempotency_key: match key {
            Some(k) => k,
            None => Seq::empty(),
        },
    }
}

/// Builds a versioned envelope. Mutations must supply a non-blank idempotency key.
pub fn build_envelope(
    op: Op,
    request_id: String,
    idempotency_key: Option<String>,
    is_mutation: bool,
) -> (r: Result<ApiV1Request, ApiError>)
    ensures
        is_mutation && key_missing(opt_view(idempotency_key)) ==> (r matches Err(e) && e@
            == missing_key_error()),
        !(is_mutation && key_missing(opt_view(idempotency_key))) ==> (r matches Ok(env) && env@
            == envelope(op@, request_id@, opt_view(idempotency_key))),
{
    if is_mutation {
        let missing = match &idempotency_key {
            Some(key) => trimmed(key.as_str()).as_str().is_empty(),
            None => true,
        };
        if missing {
            return Err(
                new_error(0, owned("Idempotency key is required for mutations"), false, false),
            );
        }
    }
    let key = match idempotency_key {
        Some(k) => k,
        None => String::new(),
    };
    Ok(
        ApiV1Request {
            request_id,
            call: Some(ApiRequest { auth: String::new(), op: Some(op) }),
            idempotency_key: key,
        },
    )
}

/// The protobuf bytes of an envelope.
pub fn encode_request(envelope: &ApiV1Request) -> (r: Vec<u8>)
    ensures
        r@ == envelope@.encoded(),
        decode_into(r@, SpecApiV1Request::empty()) == Some(envelope@),
{
    let r = envelope.encode_to_vec();
    proof {
        assert(r@.len() == r.len());
        lemma_request_round_trip(envelope@);
    }
    r
}

// ------------------------------------------------------------------
// Responses
// ------------------------------------------------------------------

pub open spec fn invalid_protobuf_error() -> ApiErrorView {
    local_error(0, "Invalid protobuf response: failed to decode Protobuf message: invalid protobuf data"@, true, true)
}

/// Decodes a response envelope. Bytes that are not a valid encoding give
/// one fixed error: which rule of the wire format they broke is not told.
pub fn decode_response(bytes: &[u8]) -> (r: Result<ApiV1Response, ApiError>)
    ensures
        match decode_into(bytes@, SpecApiV1Response::empty()) {
            Some(m) => r matches Ok(v) && v@ == m,
            None => r matches Err(e) && e@ == invalid_protobuf_error(),
        },
{
    match ApiV1Response::decode(bytes) {
        Some(v) => Ok(v),
        None => Err(
            new_error(0, owned("Invalid protobuf response: failed to decode Protobuf message: invalid protobuf data"), true, true),
        ),
    }
}

/// The media type of a `Content-Type` value: before any parameters, trimmed.
pub open spec fn media_type(content_type: Seq<char>) -> Seq<char> {
    trim(before_char(content_type, ';'))
}

/// A `Content-Type` that declares protobuf, in either of its spellings and in any ASCII case.
pub open spec fn declares_protobuf(content_type: Option<Seq<char>>) -> bool {
    match content_type {
        Some(v) => ascii_lower_all(media_type(v)) == "application/x-protobuf"@
            || ascii_lower_all(media_type(v)) == "application/protobuf"@,
        None => false,
    }
}

pub fn is_protobuf_content_type(content_type: Option<&str>) -> (r: bool)
    ensures
        r == declares_protobuf(opt_str_view(content_type)),
{
    let value = match content_type {
        Some(v) => v,
        None => return false,
    };
    let cs = chars_of(value);
    let mut i: usize = 0;
    while i < cs.len() && cs[i] != ';'
        invariant
            i <= cs@.len(),
            forall|k: int| 0 <= k < i ==> cs@[k] != ';',
        decreases cs@.len() - i,
    {
        i = i + 1;
    }
    proof {
        lemma_before_char(cs@, ';', i as int);
    }
    let head = string_of(&cs, 0, i);
    assert(head@ =~= before_char(value@, ';'));
    let media = trimmed(head.as_str());
    let lower = lower_ascii_chars(media.as_str());
    let a = chars_of("application/x-protobuf");
    let b = chars_of("application/protobuf");
    proof {
        reveal_strlit("application/x-protobuf");
        reveal_strlit("application/protobuf");
        assert(ascii_lower_all("application/x-protobuf"@) =~= "application/x-protobuf"@);
        assert(ascii_lower_all("application/protobuf"@) =~= "application/protobuf"@);
    }
    chars_eq(&lower, &a) || chars_eq(&lower, &b)
}

/// What `String::from_utf8_lossy` makes of `bytes`: invalid sequences become U+FFFD.
pub uninterp spec fn utf8_lossy(bytes: Seq<u8>) -> Seq<char>;

/// Reads bytes as text.
///
/// Calls `String::from_utf8_lossy`. Its result is named by `utf8_lossy`;
/// the contract adds what the documentation states plainly: valid UTF-8
/// comes back as the text it encodes. How invalid sequences are replaced is
/// left unsaid.
#[verifier::external_body]
fn lossy_text(bytes: &[u8]) -> (r: String)
    ensures
        r@ == utf8_lossy(bytes@),
        valid_utf8(bytes@) ==> r@ == decode_utf8(bytes@),
{
    String::from_utf8_lossy(bytes).into_owned()
}

/// The text of a body: the characters it encodes where it is valid UTF-8,
/// else what the lossy reading makes of it.
pub open spec fn body_text(bytes: Seq<u8>) -> Seq<char> {
    if valid_utf8(bytes) {
        decode_utf8(bytes)
    } else {
        utf8_lossy(bytes)
    }
}

pub open spec fn is_server_error(status: u16) -> bool {
    500 <= status < 600
}

/// The message for a body that is not protobuf.
pub open spec fn non_protobuf_message(status: u16, text: Seq<char>) -> Seq<char> {
    if status == 429 {
        "Too many requests; retry shortly"@
    } else if text.len() > 0 && text[0] == '<' {
        "HTTP "@ + decimal(status as nat) + " returned a web page instead of an API response"@
    } else if text.len() > 0 && encode_utf8(text).len() <= 300 && !text.contains('\0') {
        text
    } else if status == 0 {
        "Invalid protobuf response"@
    } else {
        "HTTP "@ + decimal(status as nat) + " response was not protobuf"@
    }
}

/// The error for a body that is not protobuf: 429 and server errors may be
/// retried; only server errors may have run the mutation.
pub open spec fn non_protobuf_error(status: u16, bytes: Seq<u8>) -> ApiErrorView {
    local_error(
        status,
        non_protobuf_message(status, trim(body_text(bytes))),
        status == 429 || is_server_error(status),
        is_server_error(status),
    )
}

pub fn error_from_non_protobuf(status: u16, bytes: &[u8]) -> (r: ApiError)
    ensures
        r@ == non_protobuf_error(status, bytes@),
        valid_utf8(bytes@) ==> r@ == local_error(
            status,
            non_protobuf_message(status, trim(decode_utf8(bytes@))),
            status == 429 || is_server_error(status),
            is_server_error(status),
        ),
{
    let raw = lossy_text(bytes);
    let text = trimmed(raw.as_str());
    let tv = chars_of(text.as_str());
    let message = if status == 429 {
        owned("Too many requests; retry shortly")
    } else if tv.len() > 0 && tv[0] == '<' {
        let mut m = owned("HTTP ");
        push_decimal(&mut m, status as u64);
        push_str(&mut m, " returned a web page instead of an API response");
        m
    } else if tv.len() > 0 && text.as_str().as_bytes().len() <= 300 && !crate::text::has_char(&tv, '\0') {
        text
    } else if status == 0 {
        owned("Invalid protobuf response")
    } else {
        let mut m = owned("HTTP ");
        push_decimal(&mut m, status as u64);
        push_str(&mut m, " response was not protobuf");
        m
    };
    let retryable = status == 429 || (500 <= status && status < 600);
    let r = new_error(status, message, retryable, 500 <= status && status < 600);
    assert(r@.message =~= non_protobuf_message(status, trim(body_text(bytes@))));
    r
}

/// What a body with an optional content type decodes to.
pub open spec fn http_outcome(
    status: u16,
    content_type: Option<Seq<char>>,
    bytes: Seq<u8>,
) -> Result<SpecApiV1Response, ApiErrorView> {
    let declared = declares_protobuf(content_type);
    if content_type is Some && !declared {
        Err(non_protobuf_error(status, bytes))
    } else {
        match decode_into(bytes, SpecApiV1Response::empty()) {
            Some(m) => Ok(m),
            None => if declared {
                Err(ApiErrorView { status, ..invalid_protobuf_error() })
            } else {
                Err(non_protobuf_error(status, bytes))
            },
        }
    }
}

/// Decodes an HTTP response body. A body declared as something other than
/// protobuf is never parsed as protobuf; a body without a content type is
/// tried as protobuf first.
pub fn decode_http_response(status: u16, content_type: Option<&str>, bytes: &[u8]) -> (r: Result<
    ApiV1Response,
    ApiError,
>)
    ensures
        result_view(r) == http_outcome(status, opt_str_view(content_type), bytes@),
        content_type is Some && !declares_protobuf(opt_str_view(content_type)) && valid_utf8(bytes@)
            ==> (r matches Err(e) && e@ == local_error(
            status,
            non_protobuf_message(status, trim(decode_utf8(bytes@))),
            status == 429 || is_server_error(status),
            is_server_error(status),
        )),
{
    let declared = is_protobuf_content_type(content_type);
    if content_type.is_some() && !declared {
        return Err(error_from_non_protobuf(status, bytes));
    }
    match decode_response(bytes) {
        Ok(decoded) => Ok(decoded),
        Err(err) => {
            if declared {
                let mut e = err;
                e.status = status;
                Err(e)
            } else {
                Err(error_from_non_protobuf(status, bytes))
            }
        },
    }
}

/// The server marks a retryable conflict whose outcome is unknown.
pub open spec fn reports_indeterminate(status: u16, message: Seq<char>, retryable: bool) -> bool {
    retryable && (status == 409 || contains(message, "same idempotency key"@) || contains(
        message,
        "idempotency result"@,
    ))
}

pub fn server_reports_indeterminate_outcome(status: u16, message: &str, retryable: bool) -> (r:
    bool)
    ensures
        r == reports_indeterminate(status, message@, retryable),
{
    retryable && (status == 409 || contains_str(message, "same idempotency key") || contains_str(
        message,
        "idempotency result",
    ))
}

/// The message of an error outcome: the server's text, or its code.
pub open spec fn error_outcome_message(code: i32, message: Seq<char>) -> Seq<char> {
    if message.len() == 0 {
        "API error (code="@ + signed_decimal(code as int) + ")"@
    } else {
        message
    }
}

/// What a decoded envelope means for the call.
pub open spec fn call_outcome(status: u16, d: SpecApiV1Response) -> Result<
    SpecApiResponse,
    ApiErrorView,
> {
    match d.outcome {
        Some(SpecOutcome::Success(s)) => if !(200 <= status < 300) {
            Err(
                ApiErrorView {
                    status,
                    message: "Unexpected HTTP "@ + decimal(status as nat) + " with success body"@,
                    retryable: true,
                    mutation_outcome_indeterminate: true,
                    request_id: d.request_id,
                },
            )
        } else {
            Ok(s)
        },
        Some(SpecOutcome::Error(e)) => {
            let message = error_outcome_message(e.code, e.message);
            Err(
                ApiErrorView {
                    status,
                    message,
                    retryable: e.retryable,
                    mutation_outcome_indeterminate: reports_indeterminate(
                        status,
                        message,
                        e.retryable,
                    ),
                    request_id: d.request_id,
                },
            )
        },
        None => Err(
            ApiErrorView {
                status,
                message: "Empty API v1 response outcome"@,
                retryable: true,
                mutation_outcome_indeterminate: true,
                request_id: d.request_id,
            },
        ),
    }
}

/// The success body of a decoded envelope, or the error it stands for.
pub fn response_result(status: u16, decoded: ApiV1Response) -> (r: Result<ApiResponse, ApiError>)
    ensures
        result_view(r) == call_outcome(status, decoded@),
{
    let request_id = decoded.request_id;
    match decoded.outcome {
        Some(Outcome::Success(success)) => {
            if !(200 <= status && status < 300) {
                let mut m = owned("Unexpected HTTP ");
                push_decimal(&mut m, status as u64);
                push_str(&mut m, " with success body");
                return Err(
                    ApiError {
                        status,
                        message: m,
                        retryable: true,
                        mutation_outcome_indeterminate: true,
                        request_id,
                    },
                );
            }
            Ok(success)
        },
        Some(Outcome::Error(error)) => {
            let message = if error.message.as_str().is_empty() {
                let mut m = owned("API error (code=");
                push_signed_decimal(&mut m, error.code as i64);
                push_str(&mut m, ")");
                m
            } else {
                error.message
            };
            let indeterminate = server_reports_indeterminate_outcome(
                status,
                message.as_str(),
                error.retryable,
            );
            Err(
                ApiError {
                    status,
                    message,
                    retryable: error.retryable,
                    mutation_outcome_indeterminate: indeterminate,
                    request_id,
                },
            )
        },
        None => Err(
            ApiError {
                status,
                message: owned("Empty API v1 response outcome"),
                retryable: true,
                mutation_outcome_indeterminate: true,
                request_id,
            },
        ),
    }
}

/// A failed mutation is sent again, with the same envelope, only when it
/// may be retried and it may already have run.
pub fn should_retry_mutation(err: &ApiError) -> (r: bool)
    ensures
        r == (err.retryable && err.mutation_outcome_indeterminate),
{
    err.retryable && err.mutation_outcome_indeterminate
}

/// What the mutation call does after an attempt.
#[derive(Clone, Copy, Debug, PartialEq, Eq)]
pub enum MutationStep {
    /// Send the same envelope again.
    Resend,
    /// Hand the result of the attempt to the caller.
    Finish,
}

/// The step after attempt number `attempt` (counting from 1) ended with
/// `outcome`: only a first attempt that failed retryably and with an
/// unknown outcome is sent once more.
pub open spec fn mutation_step(attempt: u32, outcome: Result<ApiResponse, ApiError>) -> MutationStep {
    match outcome {
        Err(e) => if attempt == 1 && e.retryable && e.mutation_outcome_indeterminate {
            MutationStep::Resend
        } else {
            MutationStep::Finish
        },
        Ok(_) => MutationStep::Finish,
    }
}

pub fn next_mutation_step(attempt: u32, outcome: &ApiResult<ApiResponse>) -> (r: MutationStep)
    ensures
        r == mutation_step(attempt, *outcome),
{
    match outcome {
        Err(e) => if attempt == 1 && should_retry_mutation(e) {
            MutationStep::Resend
        } else {
            MutationStep::Finish
        },
        Ok(_) => MutationStep::Finish,
    }
}

/// An envelope carries the operation under an empty credential, the
/// request id, and the idempotency key (empty when there is none).
pub proof fn lemma_envelope_fields(op: SpecOp, request_id: Seq<char>, key: Option<Seq<char>>)
    ensures
        envelope(op, request_id, key).request_id == request_id,
        envelope(op, request_id, key).call == Some(
            SpecApiRequest { auth: Seq::empty(), op: Some(op) },
        ),
        key matches Some(k) ==> envelope(op, request_id, key).idempotency_key == k,
        key is None ==> envelope(op, request_id, key).idempotency_key.len() == 0,
{
}

/// A decoded envelope gives the call's result: its success body under a
/// 2xx status; the server's error, with the server's message (or its code
/// when the message is empty) and the server's retry flag; and a retryable
/// error of unknown outcome for a success under another status or for no
/// outcome at all. Every error carries the status and the request id.
pub proof fn lemma_call_outcome(status: u16, d: SpecApiV1Response)
    ensures
        200 <= status < 300 ==> match d.outcome {
            Some(SpecOutcome::Success(s)) => call_outcome(status, d) == Ok::<
                SpecApiResponse,
                ApiErrorView,
            >(s),
            _ => true,
        },
        (d.outcome matches Some(SpecOutcome::Success(_)) && !(200 <= status < 300))
            || d.outcome is None ==> (call_outcome(status, d) matches Err(e) && e.retryable
            && e.mutation_outcome_indeterminate),
        d.outcome matches Some(SpecOutcome::Error(x)) ==> (call_outcome(status, d) matches Err(e)
            && e.retryable == x.retryable && (x.message.len() > 0 ==> e.message == x.message)
            && (x.message.len() == 0 ==> e.message == "API error (code="@ + signed_decimal(
            x.code as int,
        ) + ")"@)),
        call_outcome(status, d) matches Err(e) ==> (e.status == status && e.request_id
            == d.request_id),
{
}

/// A mutation is sent again exactly after a first attempt that failed with
/// an error that may be retried and whose outcome is unknown.
pub proof fn lemma_mutation_resend(attempt: u32, outcome: Result<ApiResponse, ApiError>)
    ensures
        mutation_step(attempt, outcome) == MutationStep::Resend <==> (attempt == 1 && (
        outcome matches Err(e) && e.retryable && e.mutation_outcome_indeterminate)),
{
}

/// A mutation is sent at most twice: the second attempt always finishes,
/// and so does any success.
pub proof fn lemma_mutation_sent_at_most_twice(outcome: Result<ApiResponse, ApiError>)
    ensures
        mutation_step(2, outcome) == MutationStep::Finish,
        outcome is Ok ==> mutation_step(1, outcome) == MutationStep::Finish,
{
}

// ------------------------------------------------------------------
// Ids and keys
// ------------------------------------------------------------------

/// `prefix-n`, cut to the 64 characters the server accepts.
pub open spec fn request_id_text(prefix: Seq<char>, n: u64) -> Seq<char> {
    let full = prefix + "-"@ + decimal(n as nat);
    if full.len() <= 64 {
        full
    } else {
        full.take(64)
    }
}

/// The request id `prefix-n` for a drawn value `n`, at most the 64
/// characters the server accepts.
pub fn new_request_id(prefix: &str, n: u64) -> (r: String)
    ensures
        r@ == request_id_text(prefix@, n),
{
    let mut full = owned(prefix);
    push_char(&mut full, '-');
    push_decimal(&mut full, n);
    proof {
        reveal_strlit("-");
        assert(full@ =~= prefix@ + "-"@ + decimal(n as nat));
    }
    let cs = chars_of(full.as_str());
    if cs.len() <= 64 {
        full
    } else {
        let r = string_of(&cs, 0, 64);
        assert(r@ =~= full@.take(64));
        r
    }
}

pub open spec fn pow16(k: nat) -> nat
    decreases k,
{
    if k == 0 {
        1
    } else {
        16 * pow16((k - 1) as nat)
    }
}

proof fn lemma_pow16_pos(k: nat)
    ensures
        pow16(k) >= 1,
    decreases k,
{
    if k > 0 {
        lemma_pow16_pos((k - 1) as nat);
    }
}

pub open spec fn hex_digit(d: nat) -> char {
    if d < 10 {
        decimal(d)[0]
    } else if d == 10 {
        'a'
    } else if d == 11 {
        'b'
    } else if d == 12 {
        'c'
    } else if d == 13 {
        'd'
    } else if d == 14 {
        'e'
    } else {
        'f'
    }
}

/// The sixteen lowercase hex digits of `x`, most significant first.
pub open spec fn hex16(x: u64) -> Seq<char> {
    Seq::new(16, |j: int| hex_digit(((x as nat) / pow16((15 - j) as nat)) % 16))
}

/// The multiplier that scrambles the second half of a key.
pub open spec fn key_scramble(b: u64) -> u64 {
    ((b as nat * 0x9E37_79B9_7F4A_7C15nat) % 0x1_0000_0000_0000_0000nat) as u64
}

/// A 32-digit hex key from two 64-bit values, as the big-endian bytes of
/// the first and of the scrambled second.
pub open spec fn idempotency_key_text(a: u64, b: u64) -> Seq<char> {
    hex16(a) + hex16(key_scramble(b))
}

fn hex_char(d: u64) -> (r: char)
    requires
        d < 16,
    ensures
        r == hex_digit(d as nat),
{
    if d < 10 {
        let mut s = String::new();
        push_decimal(&mut s, d);
        let cs = chars_of(s.as_str());
        assert(decimal(d as nat) == seq![crate::text::digit_char(d as nat)]);
        cs[0]
    } else if d == 10 {
        'a'
    } else if d == 11 {
        'b'
    } else if d == 12 {
        'c'
    } else if d == 13 {
        'd'
    } else if d == 14 {
        'e'
    } else {
        'f'
    }
}

fn push_hex16(s: &mut String, x: u64)
    ensures
        final(s)@ == old(s)@ + hex16(x),
{
    let mut p: u64 = 0x1000_0000_0000_0000;
    let mut j: usize = 0;
    proof {
        reveal_with_fuel(pow16, 16);
        assert(pow16(15) == 0x1000_0000_0000_0000nat);
    }
    while j < 16
        invariant
            j <= 16,
            p >= 1,
            j < 16 ==> p as nat == pow16((15 - j) as nat),
            s@ == old(s)@ + hex16(x).take(j as int),
        decreases 16 - j,
    {
        let d = (x / p) % 16;
        push_char(s, hex_char(d));
        proof {
            assert(hex16(x).take(j + 1) =~= hex16(x).take(j as int).push(hex16(x)[j as int]));
            if j < 15 {
                assert(pow16((15 - j) as nat) == 16 * pow16((15 - j - 1) as nat));
                lemma_pow16_pos((15 - j - 1) as nat);
            }
        }
        if j < 15 {
            p = p / 16;
        }
        j = j + 1;
    }
    assert(hex16(x).take(16) =~= hex16(x));
}

/// The 32-digit hex idempotency key for two drawn values.
pub fn new_idempotency_key(a: u64, b: u64) -> (r: String)
    ensures
        r@ == idempotency_key_text(a, b),
{
    let mut s = String::new();
    push_hex16(&mut s, a);
    push_hex16(&mut s, b.wrapping_mul(0x9E37_79B9_7F4A_7C15));
    assert(s@ =~= idempotency_key_text(a, b));
    s
}

// ------------------------------------------------------------------
// Laws
// ------------------------------------------------------------------

proof fn lemma_decimal_len(n: nat)
    ensures
        1 <= decimal(n).len(),
    decreases n,
{
    if n >= 10 {
        lemma_decimal_len(n / 10);
    }
}

/// A request id is never empty and never longer than the 64 characters the
/// server accepts.
pub proof fn lemma_request_id_bounds(prefix: Seq<char>, n: u64)
    ensures
        1 <= request_id_text(prefix, n).len() <= 64,
{
    lemma_decimal_len(n as nat);
}

/// An idempotency key is 32 lower-case hexadecimal digits.
pub proof fn lemma_idempotency_key_shape(a: u64, b: u64)
    ensures
        idempotency_key_text(a, b).len() == 32,
        forall|i: int|
            0 <= i < 32 ==> {
                let c = #[trigger] idempotency_key_text(a, b)[i];
                ('0' <= c <= '9') || ('a' <= c <= 'f')
            },
{
    assert forall|i: int| 0 <= i < 32 implies {
        let c = #[trigger] idempotency_key_text(a, b)[i];
        ('0' <= c <= '9') || ('a' <= c <= 'f')
    } by {
        let x = if i < 16 { a } else { key_scramble(b) };
        let j = if i < 16 { i } else { i - 16 };
        let d = ((x as nat) / pow16((15 - j) as nat)) % 16;
        assert(idempotency_key_text(a, b)[i] == hex16(x)[j]);
        if d < 10 {
            assert(decimal(d) == seq![crate::text::digit_char(d)]);
        }
    }
}

/// Decoding the encoding of a request envelope gives the envelope back,
/// whenever the encoding is short enough for its length to be written.
pub proof fn lemma_request_round_trip(env: SpecApiV1Request)
    requires
        env.encoded().len() <= u64::MAX,
    ensures
        decode_into(env.encoded(), SpecApiV1Request::empty()) == Some(env),
{
    lemma_wf_api_v1_request(env);
    lemma_round_api_v1_request(env);
    lemma_decode_encode_fields(env.fields(), SpecApiV1Request::empty());
}

/// Decoding the encoding of a response envelope gives the envelope back,
/// whenever the encoding is short enough for its length to be written.
pub proof fn lemma_response_round_trip(resp: SpecApiV1Response)
    requires
        resp.encoded().len() <= u64::MAX,
    ensures
        decode_into(resp.encoded(), SpecApiV1Response::empty()) == Some(resp),
{
    lemma_wf_api_v1_response(resp);
    lemma_round_api_v1_response(resp);
    lemma_decode_encode_fields(resp.fields(), SpecApiV1Response::empty());
}

/// A body that is not protobuf is retryable exactly on 429 and 5xx, and
/// marks the mutation outcome unknown exactly on 5xx: a 4xx was refused
/// before the mutation ran.
pub proof fn lemma_non_protobuf_classification(status: u16, bytes: Seq<u8>)
    ensures
        non_protobuf_error(status, bytes).retryable <==> (status == 429 || 500 <= status < 600),
        non_protobuf_error(status, bytes).mutation_outcome_indeterminate <==> 500 <= status < 600,
        non_protobuf_error(status, bytes).status == status,
{
}

/// A successful decode of an HTTP body is the decode of its bytes; a body
/// declared as another media type never reaches the protobuf decoder.
pub proof fn lemma_declared_text_not_decoded(status: u16, content_type: Seq<char>, bytes: Seq<u8>)
    requires
        !declares_protobuf(Some(content_type)),
    ensures
        http_outcome(status, Some(content_type), bytes) == Err::<SpecApiV1Response, ApiErrorView>(
            non_protobuf_error(status, bytes),
        ),
{
}

} // verus!
