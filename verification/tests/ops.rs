use denpie_frontend::data_url::decode_data_url;
use denpie_frontend::ops::{
    map_flow_summary, review_action_value, tipcard_type_value, ReviewActionValue,
    TipcardTypeValue,
};
use denpie_frontend::pb::{CardSource, FlowCardInfo, ReviewRequestV1, TipcardImageInfo};

use base64::Engine;

#[test]
fn tipcard_type_mapping() {
    assert_eq!(tipcard_type_value("repeatable_tip") as i32, TipcardTypeValue::Repeatable as i32);
    assert_eq!(tipcard_type_value("manual_tip") as i32, TipcardTypeValue::Manual as i32);
}

#[test]
fn review_action_mapping_includes_legacy_aliases() {
    assert_eq!(review_action_value(Some("again")) as i32, ReviewActionValue::Again as i32);
    assert_eq!(review_action_value(Some("repeat")) as i32, ReviewActionValue::Again as i32);
    assert_eq!(review_action_value(Some("memorize")) as i32, ReviewActionValue::Learned as i32);
}

#[test]
fn review_action_maps_casual_acknowledge() {
    assert_eq!(
        review_action_value(Some("acknowledge")) as i32,
        ReviewActionValue::Acknowledge as i32
    );
    assert_eq!(
        review_action_value(Some("acknowledged")) as i32,
        ReviewActionValue::Acknowledge as i32
    );
}

#[test]
fn review_action_maps_empty_grade_only() {
    assert_eq!(review_action_value(Some("")) as i32, ReviewActionValue::Unspecified as i32);
    assert_eq!(review_action_value(Some("   ")) as i32, ReviewActionValue::Unspecified as i32);
    assert_eq!(review_action_value(None) as i32, ReviewActionValue::Unspecified as i32);
}

#[test]
fn review_action_maps_dismiss_to_not_interested() {
    assert_eq!(
        review_action_value(Some("dismiss")) as i32,
        ReviewActionValue::SkipNotInterested as i32
    );
    assert_eq!(
        review_action_value(Some("skip_not_interested")) as i32,
        ReviewActionValue::SkipNotInterested as i32
    );
    assert_eq!(review_action_value(Some("skip_known")) as i32, ReviewActionValue::SkipKnown as i32);
}

#[test]
fn review_action_maps_repeatable_named_actions() {
    assert_eq!(review_action_value(Some("learned")) as i32, ReviewActionValue::Learned as i32);
    assert_eq!(
        review_action_value(Some("skip_too_difficult")) as i32,
        ReviewActionValue::SkipTooDifficult as i32
    );
}

#[test]
fn review_v1_request_encodes_acknowledge_and_grade_only() {
    let ack = ReviewRequestV1 {
        card_id: 42,
        grade: 3,
        action: review_action_value(Some("acknowledge")) as i32,
    };
    assert_eq!(ack.action, ReviewActionValue::Acknowledge as i32);

    let grade_only = ReviewRequestV1 {
        card_id: 7,
        grade: 5,
        action: review_action_value(Some("")) as i32,
    };
    assert_eq!(grade_only.action, ReviewActionValue::Unspecified as i32);

    let dismiss = ReviewRequestV1 {
        card_id: 9,
        grade: 3,
        action: review_action_value(Some("dismiss")) as i32,
    };
    assert_eq!(dismiss.action, ReviewActionValue::SkipNotInterested as i32);
}

#[test]
fn decode_data_url_plain_base64() {
    let raw = base64::engine::general_purpose::STANDARD.encode(b"hello");
    let (mime, bytes) = decode_data_url(&raw).unwrap();
    assert_eq!(mime, "application/octet-stream");
    assert_eq!(bytes, b"hello");
}

#[test]
fn decode_data_url_with_prefix() {
    let raw = format!(
        "data:text/plain;base64,{}",
        base64::engine::general_purpose::STANDARD.encode(b"abc")
    );
    let (mime, bytes) = decode_data_url(&raw).unwrap();
    assert_eq!(mime, "text/plain");
    assert_eq!(bytes, b"abc");
}

#[test]
fn map_flow_summary_uses_download_paths() {
    let card = FlowCardInfo {
        id: 9,
        topic_name: "t".into(),
        topic_icon: "icon".into(),
        topic_color: "#fff".into(),
        title: "Title".into(),
        full_content: "full".into(),
        compressed_content: "c".into(),
        created_at: "now".into(),
        tipcard_type: "repeatable_tip".into(),
        status: "active".into(),
        next_review_at: String::new(),
        repeat_count: 0,
        pinned: false,
        pending_count: 3,
        images: vec![TipcardImageInfo {
            id: 42,
            position: 0,
            mime_type: "image/png".into(),
            byte_size: 10,
            download_path: "/api/v1/tipcard-images/42".into(),
        }],
        sources: vec![CardSource {
            document_id: 7,
            source_type: "link".into(),
            title: "Rust book".into(),
            url: Some("https://doc.rust-lang.org/book".into()),
        }],
    };
    let mapped = map_flow_summary(card);
    assert_eq!(mapped.image_count, 1);
    assert_eq!(mapped.pending_count, 3);
    assert_eq!(mapped.thumbnail_urls, vec!["/api/v1/tipcard-images/42"]);
    assert_eq!(mapped.sources.len(), 1);
    assert_eq!(mapped.sources[0].title, "Rust book");
    assert_eq!(mapped.sources[0].url.as_deref(), Some("https://doc.rust-lang.org/book"));
}
