use denpie_frontend::account_switch::record_account;
use denpie_frontend::client::{decode_response, next_mutation_step, MutationStep};
use denpie_frontend::client::{
    build_envelope, decode_http_response, error_from_non_protobuf, is_protobuf_content_type,
    new_idempotency_key, new_request_id, response_result,
    should_retry_mutation, ApiError,
};
use denpie_frontend::data_url::{data_url_result, decode_data_url};
use denpie_frontend::dates::{normalize_timestamp, relative_time};
use denpie_frontend::forms::{
    create_user_request, key_client_name, update_me_request, update_user_request,
};
use denpie_frontend::labels::{bulk_url_lines, image_added_message, import_summary};
use denpie_frontend::labels::{
    icon_short_name, link_title, source_button_label, source_detection_label, source_links,
    split_words, title_from_url,
};
use denpie_frontend::ops::CardSource;
use denpie_frontend::ops::{
    create_document_op, done_result, empty_opt, flow_card_page_result, force_daily_refresh_result,
    list_flow_cards_op, pool_image_url, refresh_outcome, review_and_advance_op, tipcard_image_url,
    tips_v1_op, unexpected, DailyRefreshOutcome,
};
use denpie_frontend::pb::{
    AddDocumentRequest, ApiError as PbApiError, ApiInfoResponse, ApiResponse, ApiV1Response,
    Empty, FlowCardInfo, FlowCardPageResponse, ForceDailyRefreshResponse, ListFlowCardsRequest,
    Op, Outcome, ResponseResult, ReviewAndAdvanceRequest, SettingsResponse, TipcardImageInfo,
    TipsRequestV1,
};
use denpie_frontend::route::{normalize_view, View};
use denpie_frontend::search::{
    available_image_slots, can_choose_another, cap_uploads, context_terms, image_cap_message,
    remaining_image_slots, suggestion_order,
    context_score, filter_and_sort_archive_cards, pool_image_matches, topic_matches, ArchiveEntry,
};
use denpie_frontend::settings::{
    settings_result, settings_view, update_settings_op, GroundingSettingsPatch,
    GroundingSettingsRes, SettingsPatch,
};
use denpie_frontend::toast::{
    has_visible_detail, merge_detail, split_toast_parts, toast_kind_for, toast_timeout_ms,
    ToastKind,
};
use denpie_frontend::ui::{
    archive_glass_disabled, archive_visible_count, badge_label, card_frame, card_text_choice,
    content_class, has_compact, skeleton_frame, tip_type_key, type_label, ButtonSize, ButtonType,
    ButtonVariant, CardFrame, CardText, ReviewSway,
};

fn names(v: &[&str]) -> Vec<String> {
    v.iter().map(|s| s.to_string()).collect()
}

// ---- remembered accounts ----

#[test]
fn record_account_moves_name_to_front() {
    let mut accounts = names(&["bob", "alice", "carol"]);
    record_account(&mut accounts, "alice");
    assert_eq!(accounts, names(&["alice", "bob", "carol"]));
}

#[test]
fn record_account_keeps_five_names() {
    let mut accounts = names(&["a", "b", "c", "d", "e"]);
    record_account(&mut accounts, "f");
    assert_eq!(accounts, names(&["f", "a", "b", "c", "d"]));
}

#[test]
fn record_account_ignores_empty_name() {
    let mut accounts = names(&["a", "b", "c", "d", "e", "f", "g"]);
    record_account(&mut accounts, "");
    assert_eq!(accounts.len(), 7);
}

#[test]
fn record_account_twice_is_once() {
    let mut once = names(&["x", "y", "z"]);
    record_account(&mut once, "y");
    let mut twice = once.clone();
    record_account(&mut twice, "y");
    assert_eq!(once, twice);
}

#[test]
fn record_account_removes_every_copy() {
    let mut accounts = names(&["a", "b", "a", "c"]);
    record_account(&mut accounts, "a");
    assert_eq!(accounts, names(&["a", "b", "c"]));
}

// ---- toasts ----

#[test]
fn toast_timeouts() {
    assert_eq!(toast_timeout_ms(ToastKind::Error, true), 8000);
    assert_eq!(toast_timeout_ms(ToastKind::Error, false), 5000);
    assert_eq!(toast_timeout_ms(ToastKind::Success, true), 2400);
    assert_eq!(toast_timeout_ms(ToastKind::Info, false), 2800);
}

#[test]
fn toast_blank_message_has_no_parts() {
    assert_eq!(split_toast_parts("   \n  "), (String::new(), None));
}

#[test]
fn toast_first_line_without_rest_is_single_line() {
    assert_eq!(split_toast_parts("  Saved\n   "), ("Saved".to_string(), None));
}

#[test]
fn toast_cut_drops_trailing_separators() {
    let mut msg = "a".repeat(117);
    msg.push_str(", {b");
    msg.push_str(&"c".repeat(20));
    let (summary, detail) = split_toast_parts(&msg);
    let mut expected = "a".repeat(117);
    expected.push('…');
    assert_eq!(summary, expected);
    assert_eq!(detail.as_deref(), Some(msg.as_str()));
}

#[test]
fn toast_kind_and_detail() {
    assert_eq!(toast_kind_for("Access DENIED"), ToastKind::Error);
    assert_eq!(toast_kind_for("All good"), ToastKind::Info);
    assert!(!has_visible_detail(&Some("  \n".to_string())));
    assert!(has_visible_detail(&Some(" x ".to_string())));
    assert!(!has_visible_detail(&None));
}

#[test]
fn toast_detail_merge() {
    assert_eq!(
        merge_detail(Some("a".into()), Some("b".into())),
        Some("a\nb".to_string())
    );
    assert_eq!(merge_detail(Some("a".into()), Some("a".into())), Some("a".to_string()));
    assert_eq!(merge_detail(None, Some("b".into())), Some("b".to_string()));
    assert_eq!(merge_detail(Some("a".into()), None), Some("a".to_string()));
    assert_eq!(merge_detail(None, None), None);
}

// ---- labels ----

#[test]
fn icon_names() {
    assert_eq!(icon_short_name("mdi:book-open-variant"), "book open variant");
    assert_eq!(icon_short_name("plain-icon"), "plain icon");
    assert_eq!(icon_short_name("a:b:c-d"), "c d");
}

#[test]
fn titles_from_urls() {
    assert_eq!(
        title_from_url("https://example.com/docs/getting-started/"),
        "Getting Started"
    );
    assert_eq!(title_from_url("https://example.com"), "Example.com");
    assert_eq!(title_from_url("https://example.com/"), "https://example.com/");
    assert_eq!(title_from_url("https://example.com/a_b-c"), "A B C");
    assert_eq!(title_from_url("notes"), "Notes");
    assert_eq!(title_from_url("https://x.org/straße"), "Straße");
    assert_eq!(title_from_url("https://x.org/ßig"), "SSig");
}

#[test]
fn words_split_on_unicode_whitespace() {
    assert_eq!(split_words("  a\tbc \u{3000} d "), names(&["a", "bc", "d"]));
    assert!(split_words("   ").is_empty());
}

#[test]
fn pasted_sources() {
    assert_eq!(
        source_links("https://a.com http://b.org"),
        names(&["https://a.com", "http://b.org"])
    );
    assert!(source_links("https://a.com and more").is_empty());
    assert!(source_links("").is_empty());
    assert_eq!(source_detection_label("plain text"), "Detected: pasted document");
    assert_eq!(source_detection_label("https://a.com"), "Detected: 1 link");
    assert_eq!(
        source_detection_label("https://a.com https://b.com https://c.com"),
        "Detected: 3 links"
    );
    assert_eq!(source_button_label("https://a.com", true), "Adding...");
    assert_eq!(source_button_label("https://a.com https://b.com", false), "Add Links");
    assert_eq!(source_button_label("https://a.com", false), "Add Link");
    assert_eq!(source_button_label("words", false), "Add Document");
}

#[test]
fn link_titles() {
    assert_eq!(link_title("https://example.com/page/"), "example.com/page");
    assert_eq!(link_title("http://example.com"), "example.com");
    assert_eq!(link_title("ftp://x/"), "ftp://x/");
    let long = format!("https://{}", "y".repeat(150));
    assert_eq!(link_title(&long), "y".repeat(100));
}

// ---- interface ----

#[test]
fn views_and_classes() {
    assert_eq!(normalize_view(None), View::Flow);
    assert_eq!(normalize_view(Some(View::NotFound)), View::Flow);
    assert_eq!(normalize_view(Some(View::Archive)), View::Archive);
    assert_eq!(ButtonVariant::default().classes(), "bg-primary text-primary-foreground hover:bg-primary/90");
    assert_eq!(ButtonSize::Icon.classes(), "size-10");
    assert_eq!(ButtonType::Submit.as_str(), "submit");
    assert_eq!(ReviewSway::Right.class_name(), "leaves-right");
    assert_eq!(tip_type_key("casual_tip"), Some("tip_type.casual_tip".to_string()));
    assert_eq!(tip_type_key("other"), None);
}

// ---- dates ----

#[test]
fn timestamps_for_the_parser() {
    assert_eq!(
        normalize_timestamp(" 2024-01-02 03:04:05 "),
        Some("2024-01-02T03:04:05Z".to_string())
    );
    assert_eq!(
        normalize_timestamp("2024-01-02T03:04:05Z"),
        Some("2024-01-02T03:04:05Z".to_string())
    );
    assert_eq!(normalize_timestamp("   "), None);
}

#[test]
fn relative_phrases() {
    assert_eq!(relative_time(-30), Some("just now".to_string()));
    assert_eq!(relative_time(59), Some("just now".to_string()));
    assert_eq!(relative_time(61), Some("in 1 minute".to_string()));
    assert_eq!(relative_time(-7200), Some("2 hours ago".to_string()));
    assert_eq!(relative_time(86400), Some("in 1 day".to_string()));
    assert_eq!(relative_time(-6 * 86400), Some("6 days ago".to_string()));
    assert_eq!(relative_time(604800), None);
    assert_eq!(relative_time(i64::MIN), None);
}

// ---- search ----

#[test]
fn image_context_scores() {
    let tags = names(&["Rust", "Book"]);
    let terms = names(&["rust", "ok", "book", "python", "guide"]);
    assert_eq!(context_score("The Guide", Some("a crab"), &tags, &terms), 3);
    assert_eq!(context_score("", None, &Vec::new(), &terms), 0);
}

fn entry(id: i64, status: &str, title: &str, topic: &str, created: &str) -> ArchiveEntry {
    ArchiveEntry {
        id,
        status: status.into(),
        title: title.into(),
        topic_name: topic.into(),
        full_content: String::new(),
        created_at: created.into(),
    }
}

#[test]
fn archive_filters_and_sorts() {
    let cards = vec![
        entry(1, "active", "Beta", "rust", "2024-01-01"),
        entry(2, "done", "alpha", "Rust", "2024-03-01"),
        entry(3, "active", "Gamma", "go", "2024-02-01"),
        entry(4, "active", "alpha", "rust", "2024-03-01"),
    ];
    assert_eq!(filter_and_sort_archive_cards(&cards, "", "all", "topic"), vec![2, 1, 3, 0]);
    assert_eq!(filter_and_sort_archive_cards(&cards, "", "all", "date"), vec![3, 1, 2, 0]);
    assert_eq!(filter_and_sort_archive_cards(&cards, "", "active", "topic"), vec![2, 3, 0]);
    assert_eq!(filter_and_sort_archive_cards(&cards, "ALPHA", "all", "date"), vec![3, 1]);
    assert!(filter_and_sort_archive_cards(&cards, "zzz", "all", "date").is_empty());
}

// ---- data URLs ----

#[test]
fn data_url_errors() {
    let err = decode_data_url("data:text/plain;base64").unwrap_err();
    assert_eq!(err.status, 0);
    assert_eq!(err.message, "Invalid data URL");
    let err = decode_data_url("data:image/png,@@@").unwrap_err();
    assert!(err.message.starts_with("Invalid base64 payload: "));
    assert!(err.message.len() > "Invalid base64 payload: ".len());
    let (mime, bytes) = decode_data_url("data:,  aGk=  ").unwrap();
    assert_eq!(mime, "");
    assert_eq!(bytes, b"hi");
}

// ---- operations ----

#[test]
fn image_urls() {
    assert_eq!(pool_image_url(5), "/api/v1/pool-images/5");
    assert_eq!(tipcard_image_url(-3), "/api/v1/tipcard-images/-3");
    assert_eq!(empty_opt("  ".into()), None);
    assert_eq!(empty_opt(" x".into()), Some(" x".to_string()));
}

#[test]
fn request_builders() {
    assert_eq!(
        list_flow_cards_op(20, None),
        Op::ListFlowCards(ListFlowCardsRequest { page_size: 20, page_token: String::new() })
    );
    assert_eq!(
        tips_v1_op(None, names(&["t"]), "manual_tip", None, Some("body".into()), None),
        Op::TipsV1(TipsRequestV1 {
            count: 0,
            topics: names(&["t"]),
            tipcard_type: 3,
            exclude_card_ids: Vec::new(),
            manual_content: "body".into(),
            manual_compressed_content: String::new(),
            manual_image_data: Vec::new(),
        })
    );
    assert_eq!(
        review_and_advance_op(4, Some(5), Some(" dismiss ".into())),
        Op::ReviewAndAdvance(ReviewAndAdvanceRequest { card_id: 4, grade: 5, action: 4 })
    );
    assert_eq!(
        create_document_op(vec![1], "link".into(), "T".into(), None, "c".into()),
        Op::CreateDocument(AddDocumentRequest {
            topic_id_opt: String::new(),
            source_type: "link".into(),
            title: "T".into(),
            url: String::new(),
            content: "c".into(),
            topic_ids: vec![1],
        })
    );
}

#[test]
fn result_mappers() {
    let wrong = ApiResponse { result: Some(ResponseResult::Done(Empty {})) };
    let err = flow_card_page_result(wrong.clone()).unwrap_err();
    assert_eq!(err.status, 200);
    assert_eq!(err.message, "Unexpected API result (expected flow_card_page)");
    assert!(done_result(wrong).is_ok());
    assert!(done_result(ApiResponse { result: None }).is_err());
    let page = ApiResponse {
        result: Some(ResponseResult::FlowCardPage(FlowCardPageResponse {
            cards: vec![FlowCardInfo {
                id: 1,
                pending_count: 5_000_000_000,
                images: vec![TipcardImageInfo { id: 8, ..Default::default() }],
                ..Default::default()
            }],
            next_page_token: String::new(),
            has_more: true,
        })),
    };
    let page = flow_card_page_result(page).unwrap();
    assert!(page.has_more);
    assert_eq!(page.next_cursor, None);
    assert_eq!(page.cards[0].thumbnail_urls, vec!["/api/v1/tipcard-images/8"]);
    assert_eq!(page.cards[0].pending_count, 5_000_000_000u64 as u32);
    let refresh = ApiResponse {
        result: Some(ResponseResult::ForceDailyRefresh(ForceDailyRefreshResponse {
            refreshed_cards: 2,
            available_cards: 3,
            generated_cards: 4,
            outcome: 2,
        })),
    };
    let r = force_daily_refresh_result(refresh).unwrap();
    assert_eq!(r.refreshed_topics, 2);
    assert_eq!(r.outcome, DailyRefreshOutcome::QueueRefilled);
    assert_eq!(refresh_outcome(3), DailyRefreshOutcome::NoChange);
    assert_eq!(refresh_outcome(99), DailyRefreshOutcome::NoChange);
    let e: Result<(), ApiError> = unexpected("x");
    assert_eq!(e.unwrap_err().message, "Unexpected API result (expected x)");
}

// ---- settings ----

#[test]
fn settings_page() {
    let settings = settings_result(ApiResponse {
        result: Some(ResponseResult::Settings(SettingsResponse::default())),
    })
    .unwrap();
    let info = Ok(ApiResponse {
        result: Some(ResponseResult::ApiInfo(ApiInfoResponse {
            server_version: "1.2".into(),
            build_sha: "abc".into(),
        })),
    });
    let view = settings_view(settings.clone(), info);
    assert_eq!(view.server_version, "1.2");
    assert_eq!(view.build_sha, "abc");
    assert_eq!(view.model, "");
    assert_eq!(view.max_active_cards, 0);
    let failed = Err(ApiError {
        status: 500,
        message: "down".into(),
        retryable: true,
        mutation_outcome_indeterminate: false,
        request_id: String::new(),
    });
    let view = settings_view(settings, failed);
    assert_eq!(view.server_version, "");
    let g = GroundingSettingsRes::from_view(view);
    assert_eq!(g.scrape_provider, "scrapling");
}

#[test]
fn grounding_patches() {
    let mut a = GroundingSettingsPatch {
        grounding_model: Some("m1".into()),
        image_strategy: Some("pool".into()),
        ..Default::default()
    };
    let b = GroundingSettingsPatch {
        grounding_model: Some("m2".into()),
        search_provider: Some("s".into()),
        ..Default::default()
    };
    a.merge_from(b);
    assert_eq!(a.grounding_model.as_deref(), Some("m2"));
    assert_eq!(a.image_strategy.as_deref(), Some("pool"));
    assert_eq!(a.search_provider.as_deref(), Some("s"));
    let p = a.to_v1();
    assert_eq!(p.grounding_model.as_deref(), Some("m2"));
    assert!(p.model.is_none());
    let op = update_settings_op(SettingsPatch { model: Some("gpt".into()), ..Default::default() });
    match op {
        Op::UpdateSettings(req) => {
            assert_eq!(req.model.as_deref(), Some("gpt"));
            assert!(req.search_provider.is_none());
        }
        other => panic!("unexpected op: {other:?}"),
    }
}

// ---- the client ----

#[test]
fn non_protobuf_errors() {
    let e = error_from_non_protobuf(503, b"  <html>down</html>");
    assert_eq!(e.message, "HTTP 503 returned a web page instead of an API response");
    assert!(e.retryable && e.mutation_outcome_indeterminate);
    let e = error_from_non_protobuf(404, b"no such thing");
    assert_eq!(e.message, "no such thing");
    assert!(!e.retryable && !e.mutation_outcome_indeterminate);
    let e = error_from_non_protobuf(0, b"");
    assert_eq!(e.message, "Invalid protobuf response");
    let e = error_from_non_protobuf(400, b"");
    assert_eq!(e.message, "HTTP 400 response was not protobuf");
    let e = error_from_non_protobuf(400, b"bad \xff byte");
    assert_eq!(e.message, "bad \u{fffd} byte");
    let long = "z".repeat(301);
    let e = error_from_non_protobuf(418, long.as_bytes());
    assert_eq!(e.message, "HTTP 418 response was not protobuf");
}

#[test]
fn content_types() {
    assert!(is_protobuf_content_type(Some("Application/X-Protobuf; charset=x")));
    assert!(is_protobuf_content_type(Some(" application/protobuf ")));
    assert!(!is_protobuf_content_type(Some("text/plain")));
    assert!(!is_protobuf_content_type(None));
    let err = decode_http_response(500, Some("application/x-protobuf"), &[0x0b]).unwrap_err();
    assert_eq!(err.status, 500);
}

#[test]
fn response_outcomes() {
    let ok = ApiV1Response {
        request_id: "r".into(),
        outcome: Some(Outcome::Success(ApiResponse { result: None })),
    };
    assert!(response_result(200, ok.clone()).is_ok());
    let e = response_result(302, ok).unwrap_err();
    assert_eq!(e.message, "Unexpected HTTP 302 with success body");
    assert_eq!(e.request_id, "r");
    let bad = ApiV1Response {
        request_id: "q".into(),
        outcome: Some(Outcome::Error(PbApiError { code: 5, message: String::new(), retryable: true })),
    };
    let e = response_result(409, bad).unwrap_err();
    assert_eq!(e.message, "API error (code=5)");
    assert!(e.mutation_outcome_indeterminate);
    assert!(should_retry_mutation(&e));
    assert_eq!(e.to_string(), "API error (code=5) (request_id=q)");
    let empty = ApiV1Response { request_id: String::new(), outcome: None };
    let e = response_result(200, empty).unwrap_err();
    assert_eq!(e.message, "Empty API v1 response outcome");
    assert_eq!(e.to_string(), "Empty API v1 response outcome");
}

#[test]
fn ids_and_keys() {
    assert_eq!(new_request_id("read", 42), "read-42");
    let long = "p".repeat(70);
    assert_eq!(new_request_id(&long, 1).chars().count(), 64);
    let id = new_request_id("mut", 7);
    assert!(id.starts_with("mut-"));
    assert_eq!(new_idempotency_key(1, 0), format!("{:016x}{:016x}", 1u64, 0u64));
    assert_eq!(
        new_idempotency_key(0, 1),
        format!("{:016x}{:016x}", 0u64, 0x9E37_79B9_7F4A_7C15u64)
    );
    let key = new_idempotency_key(0xdead_beef, 12345);
    assert_eq!(key.len(), 32);
    assert!(key.chars().all(|c| c.is_ascii_hexdigit() && !c.is_ascii_uppercase()));
    let env = build_envelope(Op::GetSummary(Empty {}), id.clone(), Some(key.clone()), true).unwrap();
    assert_eq!(env.idempotency_key, key);
}

#[test]
fn mutation_retry_steps() {
    let lost = Err(ApiError {
        status: 0,
        message: "Network error: offline".into(),
        retryable: true,
        mutation_outcome_indeterminate: true,
        request_id: "m".into(),
    });
    assert_eq!(next_mutation_step(1, &lost), MutationStep::Resend);
    assert_eq!(next_mutation_step(2, &lost), MutationStep::Finish);
    let refused = Err(ApiError {
        status: 429,
        message: "Too many requests; retry shortly".into(),
        retryable: true,
        mutation_outcome_indeterminate: false,
        request_id: String::new(),
    });
    assert_eq!(next_mutation_step(1, &refused), MutationStep::Finish);
    assert_eq!(next_mutation_step(1, &Ok(ApiResponse { result: None })), MutationStep::Finish);
}

#[test]
fn card_presentation() {
    assert!(has_compact(false, "short", "long text"));
    assert!(!has_compact(true, "short", "long text"));
    assert!(!has_compact(false, "", "long text"));
    assert!(!has_compact(false, "same", "same"));
    assert_eq!(card_text_choice(true, true, false, false), CardText::ReviewMessage);
    assert_eq!(card_text_choice(false, true, false, false), CardText::Compressed);
    assert_eq!(card_text_choice(false, true, false, true), CardText::Full);
    assert_eq!(card_text_choice(false, true, true, false), CardText::Full);
    assert_eq!(badge_label("casual_tip", 0, "active"), "New");
    assert_eq!(badge_label("repeatable_tip", 2, "active"), "Known");
    assert_eq!(badge_label("other", 0, "archived"), "Known");
    assert_eq!(badge_label("manual_tip", 0, "active"), "Manual");
    assert_eq!(badge_label("custom_tip", 5, "done"), "Custom");
    assert_eq!(type_label("repeatable_tip"), "Repeatable");
    assert_eq!(type_label("x"), "Card");
    assert_eq!(card_frame(true, true, false, true), CardFrame::Fullscreen);
    assert_eq!(card_frame(false, true, false, true), CardFrame::List);
    assert_eq!(card_frame(false, false, false, true), CardFrame::Compact);
    assert_eq!(card_frame(false, false, true, true), CardFrame::Plain);
    assert_eq!(skeleton_frame(false).classes(), CardFrame::Compact.classes());
    assert_eq!(content_class(true), "text-base leading-7");
    assert_eq!(archive_visible_count(1, 50), 24);
    assert_eq!(archive_visible_count(3, 50), 50);
    assert!(archive_glass_disabled(9));
    assert!(!archive_glass_disabled(8));
}

#[test]
fn card_sources_convert() {
    let pb = denpie_frontend::pb::CardSource {
        document_id: 3,
        source_type: "link".into(),
        title: "T".into(),
        url: None,
    };
    let s: CardSource = pb.into();
    assert_eq!(s.document_id, 3);
    assert_eq!(s.title, "T");
    assert_eq!(s.url, None);
}

#[test]
fn topic_and_image_lists() {
    assert!(topic_matches("Rust Basics", "repeatable_tip", ""));
    assert!(topic_matches("Rust Basics", "repeatable_tip", "BASIC"));
    assert!(topic_matches("Rust Basics", "repeatable_tip", "Repeat"));
    assert!(!topic_matches("Rust Basics", "repeatable_tip", "python"));
    let tags = names(&["Ferris", "mascot"]);
    assert!(pool_image_matches("crab", None, &tags, ""));
    assert!(pool_image_matches("crab", None, &tags, "CRA"));
    assert!(pool_image_matches("x", Some("A Red Crab"), &tags, "red"));
    assert!(pool_image_matches("x", None, &tags, "ferr"));
    assert!(!pool_image_matches("x", Some("y"), &tags, "zebra"));
}

#[test]
fn bulk_import_lines() {
    let raw = "https://a.com\n  # comment\n\n  https://b.com  \r\nhttps://c.com";
    assert_eq!(bulk_url_lines(raw), names(&["https://a.com", "https://b.com", "https://c.com"]));
    assert!(bulk_url_lines("").is_empty());
    assert!(bulk_url_lines("\n\n#x\n").is_empty());
    assert_eq!(import_summary(3, 0), "Imported 3 link(s)");
    assert_eq!(import_summary(1, 2), "Imported 1 link(s), 2 failed");
}

#[test]
fn account_forms() {
    let r = create_user_request("  ada ", "longenough".into(), "admin".into(), "  ").unwrap();
    assert_eq!(r.username, "ada");
    assert_eq!(r.display_name, None);
    let r = create_user_request("ada", "12345678".into(), "user".into(), " Ada L ").unwrap();
    assert_eq!(r.display_name.as_deref(), Some("Ada L"));
    assert!(create_user_request("   ", "longenough".into(), "user".into(), "").is_none());
    assert!(create_user_request("ada", "1234567".into(), "user".into(), "").is_none());
    assert!(create_user_request("ada", "ééé1".into(), "user".into(), "").is_none());
    assert!(create_user_request("ada", "éééé".into(), "user".into(), "").is_some());
    let u = update_user_request("admin".into(), String::new());
    assert_eq!(u.role.as_deref(), Some("admin"));
    assert_eq!(u.password, None);
    let m = update_me_request("Ada".into(), String::new(), "pw".into());
    assert_eq!(m.display_name.as_deref(), Some("Ada"));
    assert_eq!(m.avatar_data, None);
    assert_eq!(m.password.as_deref(), Some("pw"));
    assert_eq!(key_client_name(String::new()), None);
    assert_eq!(key_client_name("cli".into()), Some("cli".to_string()));
}

#[test]
fn image_pool_messages() {
    assert_eq!(
        image_added_message(true, "crab", None, None),
        "Image added · annotated as «crab» via vision"
    );
    assert_eq!(
        image_added_message(true, "crab", Some("gpt-v"), Some("x")),
        "Image added · annotated as «crab» via gpt-v"
    );
    assert_eq!(
        image_added_message(false, "crab", None, None),
        "Image added · fallback (annotation skipped)"
    );
    assert_eq!(
        image_added_message(false, "crab", Some("m"), Some("too large")),
        "Image added · fallback (too large) · model m"
    );
}

#[test]
fn picker_terms_order_and_cap() {
    assert_eq!(
        context_terms("Rust's Ownership: borrow-checker & ÉTÉ, go"),
        names(&["rust", "ownership", "borrow", "checker", "été"])
    );
    assert!(context_terms("").is_empty());
    assert_eq!(suggestion_order(&vec![1, 3, 0, 3, 2]), vec![1, 3, 4, 0, 2]);
    assert!(suggestion_order(&Vec::new()).is_empty());
    assert_eq!(remaining_image_slots(1), 3);
    assert_eq!(remaining_image_slots(6), 0);
    assert_eq!(available_image_slots(3, 1, 1, true), 0);
    assert_eq!(available_image_slots(3, 1, 0, false), 2);
    let mut images = names(&["a", "b", "c"]);
    assert!(cap_uploads(&mut images, 2));
    assert_eq!(images, names(&["a", "b"]));
    assert!(!cap_uploads(&mut images, 2));
    assert!(can_choose_another(1, 2));
    assert!(!can_choose_another(2, 2));
    assert_eq!(image_cap_message(), "A card can have at most 4 images");
}

#[test]
fn data_url_results() {
    let ok = data_url_result("text/plain".into(), Ok(vec![1, 2])).unwrap();
    assert_eq!(ok, ("text/plain".to_string(), vec![1, 2]));
    let err = data_url_result("x".into(), Err("bad".into())).unwrap_err();
    assert_eq!(err.message, "Invalid base64 payload: bad");
    assert_eq!(err.status, 0);
}

#[test]
fn malformed_envelopes_report_a_decode_failure() {
    let err = decode_response(&[0xff]).unwrap_err();
    assert!(err.message.starts_with("Invalid protobuf response: failed to decode Protobuf message: "));
    assert!(err.retryable && err.mutation_outcome_indeterminate);
}
