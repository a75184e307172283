use denpie_frontend::client::{
    build_envelope, decode_http_response, decode_response, encode_request,
    error_from_non_protobuf, is_protobuf_content_type, new_idempotency_key, new_request_id,
    response_result, server_reports_indeterminate_outcome, should_retry_mutation, ApiError,
};
use denpie_frontend::pb::{
    ApiError as PbApiError, ApiResponse, ApiV1Request, ApiV1Response, DeleteByIdRequest, Empty,
    ListFlowCardsRequest, Op, Outcome, PinTipcardRequest, ResponseResult,
};

#[test]
fn mutation_without_idempotency_key_is_rejected() {
    let err = build_envelope(
        Op::DeleteTipcard(DeleteByIdRequest { id: 1 }),
        "req-1".to_string(),
        None,
        true,
    )
    .expect_err("mutations need a key");
    assert!(err.message.to_ascii_lowercase().contains("idempotency"));
}

#[test]
fn mutation_with_empty_key_is_rejected() {
    let err = build_envelope(
        Op::PinTipcard(PinTipcardRequest { id: 1, pinned: true }),
        "req-2".to_string(),
        Some("  ".into()),
        true,
    )
    .expect_err("blank key");
    assert!(err.message.to_ascii_lowercase().contains("idempotency"));
}

#[test]
fn read_without_key_is_allowed() {
    let envelope = build_envelope(Op::GetApiInfo(Empty {}), "req-info".to_string(), None, false)
        .expect("reads do not need a key");
    assert!(envelope.idempotency_key.is_empty());
    assert_eq!(envelope.request_id, "req-info");
}

#[test]
fn encode_decode_round_trip_preserves_op() {
    let envelope = build_envelope(
        Op::ListFlowCards(ListFlowCardsRequest { page_size: 12, page_token: String::new() }),
        "round-trip".to_string(),
        None,
        false,
    )
    .unwrap();
    let bytes = encode_request(&envelope);
    let decoded = ApiV1Request::decode(bytes.as_slice()).expect("decode request");
    assert_eq!(decoded.request_id, "round-trip");
    match decoded.call.and_then(|c| c.op) {
        Some(Op::ListFlowCards(req)) => {
            assert_eq!(req.page_size, 12);
        }
        other => panic!("unexpected op: {other:?}"),
    }
}

#[test]
fn decode_error_outcome() {
    let response = ApiV1Response {
        request_id: "err-1".into(),
        outcome: Some(Outcome::Error(PbApiError {
            code: 7,
            message: "nope".into(),
            retryable: false,
        })),
    };
    let bytes = response.encode_to_vec();
    let decoded = decode_response(&bytes).unwrap();
    match decoded.outcome {
        Some(Outcome::Error(e)) => {
            assert_eq!(e.message, "nope");
            assert_eq!(decoded.request_id, "err-1");
        }
        _ => panic!("expected error outcome"),
    }
}

#[test]
fn decode_success_outcome() {
    let response = ApiV1Response {
        request_id: "ok-1".into(),
        outcome: Some(Outcome::Success(ApiResponse {
            result: Some(ResponseResult::Done(Empty {})),
        })),
    };
    let bytes = response.encode_to_vec();
    let decoded = decode_response(&bytes).unwrap();
    match decoded.outcome {
        Some(Outcome::Success(success)) => {
            assert!(matches!(success.result, Some(ResponseResult::Done(_))));
        }
        _ => panic!("expected success"),
    }
}

#[test]
fn idempotency_retry_classifies_definitive_and_indeterminate_failures() {
    assert!(!server_reports_indeterminate_outcome(500, "Internal server error", true));
    assert!(server_reports_indeterminate_outcome(
        409,
        "An identical request is still in progress",
        true,
    ));
    assert!(server_reports_indeterminate_outcome(
        500,
        "Mutation outcome could not be recorded; retry only with the same idempotency key",
        true,
    ));
}

#[test]
fn text_429_is_not_decoded_as_protobuf() {
    let err = decode_http_response(429, Some("text/plain"), b"Too Many Requests")
        .expect_err("plain 429 must not be parsed as protobuf");
    assert_eq!(err.status, 429);
    assert!(err.message.to_ascii_lowercase().contains("too many"));
    assert!(err.retryable);
    assert!(!err.mutation_outcome_indeterminate, "429 is rejected before the mutation runs");
}

#[test]
fn html_error_page_is_not_an_end_group_tag() {
    let err = decode_http_response(502, Some("text/html"), b"<!DOCTYPE html><html>bad gateway</html>")
        .expect_err("HTML must not be parsed as protobuf");
    assert_eq!(err.status, 502);
    assert!(err.message.contains("web page"));
    assert!(err.retryable);
    assert!(err.mutation_outcome_indeterminate);
    assert!(!err.message.contains("end group"), "got opaque protobuf error: {}", err.message);
}

#[test]
fn missing_content_type_still_tries_protobuf_then_falls_back() {
    let err = decode_http_response(429, None, b"Too Many Requests")
        .expect_err("text without content-type should not become end-group");
    assert_eq!(err.status, 429);
    assert!(err.message.to_ascii_lowercase().contains("too many"));
    assert!(!err.mutation_outcome_indeterminate);
}

#[test]
fn plain_text_bodies_become_the_message() {
    let err = decode_http_response(404, Some("text/plain"), "  Résumé not found \n".as_bytes())
        .expect_err("plain text is not protobuf");
    assert_eq!(err.status, 404);
    assert_eq!(err.message, "Résumé not found");
    assert!(!err.retryable);
    assert!(!err.mutation_outcome_indeterminate);
}
