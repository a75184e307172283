//! Typed API v1 operations: the requests the UI sends and how each result
//! becomes the shape the UI shows.

use vstd::prelude::*;
use vstd::utf8::*;
use crate::client::{local_error, opt_view, ApiError, ApiErrorView, ApiResult};
use crate::codec::strings_view;
use crate::text::{
    chars_of, contains, owned, push_signed_decimal, push_str, signed_decimal, starts_with,
    starts_with_chars, str_eq, string_of, trim, trimmed,
};
use crate::rows::{
    api_key_row_matches, api_key_row_rows, app_summary_view_from, app_summary_view_matches,
    app_topic_view_matches, app_topic_view_rows, document_detail_view_from,
    document_detail_view_matches, document_row_matches, document_row_rows,
    explored_link_view_matches, explored_link_view_rows, inventory_card_matches,
    inventory_card_rows, pool_image_row_matches, pool_image_row_rows, tip_created_matches,
    tip_created_rows, vision_test_view_from, vision_test_view_matches, ApiKeyRow, AppSummaryView,
    AppTopicView, DocumentDetailView, DocumentRow, ExploredLinkView, InventoryCard, PoolImageRow,
    TipCreated, VisionTestView,
};
use crate::pb_req::{
    AddDocumentRequest, AddPoolImageRequest, ContinueDailyReviewRequest, CreateApiKeyRequest,
    ForceDailyRefreshRequest, ListFlowCardsRequest, Op, ReviewAndAdvanceRequest,
    SpecAddDocumentRequest, SpecAddPoolImageRequest, SpecContinueDailyReviewRequest,
    SpecCreateApiKeyRequest, SpecForceDailyRefreshRequest, SpecListFlowCardsRequest, SpecOp,
    SpecReviewAndAdvanceRequest, SpecTipsRequestV1, SpecUploadDocumentRequest, TipsRequestV1,
    UploadDocumentRequest,
};
use crate::pb_card::{
    CardSource as PbCardSource, FlowCardInfo, SpecCardSource, SpecFlowCardInfo,
    SpecTipcardImageInfo, TipcardImageInfo,
};
use crate::pb_resp::{ApiResponse, ResponseResult, SpecResponseResult};

verus! {

broadcast use vstd::utf8::group_utf8_lib;

// ------------------------------------------------------------------
// Small rules
// ------------------------------------------------------------------

/// A blank string stands for no value.
pub open spec fn blank_to_none(s: Seq<char>) -> Option<Seq<char>> {
    if trim(s).len() == 0 {
        None
    } else {
        Some(s)
    }
}

pub fn empty_opt(value: String) -> (r: Option<String>)
    ensures
        opt_view(r) == blank_to_none(value@),
{
    if trimmed(value.as_str()).as_str().is_empty() {
        None
    } else {
        Some(value)
    }
}

pub open spec fn unexpected_error(expected: Seq<char>) -> ApiErrorView {
    local_error(200, "Unexpected API result (expected "@ + expected + ")"@, false, false)
}

/// The error for a result of another kind than the call asked for.
pub fn unexpected<T>(expected: &str) -> (r: ApiResult<T>)
    ensures
        r matches Err(e) && e@ == unexpected_error(expected@),
{
    let mut m = owned("Unexpected API result (expected ");
    push_str(&mut m, expected);
    push_str(&mut m, ")");
    Err(
        ApiError {
            status: 200,
            message: m,
            retryable: false,
            mutation_outcome_indeterminate: false,
            request_id: String::new(),
        },
    )
}

pub open spec fn pool_image_path(id: i64) -> Seq<char> {
    "/api/v1/pool-images/"@ + signed_decimal(id as int)
}

pub open spec fn tipcard_image_path(id: i64) -> Seq<char> {
    "/api/v1/tipcard-images/"@ + signed_decimal(id as int)
}

pub fn pool_image_url(id: i64) -> (r: String)
    ensures
        r@ == pool_image_path(id),
{
    let mut s = owned("/api/v1/pool-images/");
    push_signed_decimal(&mut s, id);
    s
}

pub fn tipcard_image_url(id: i64) -> (r: String)
    ensures
        r@ == tipcard_image_path(id),
{
    let mut s = owned("/api/v1/tipcard-images/");
    push_signed_decimal(&mut s, id);
    s
}

/// The card type as the API enumerates it.
#[derive(Clone, Copy, Debug, PartialEq, Eq)]
pub enum TipcardTypeValue {
    Unspecified,
    Repeatable,
    Casual,
    Manual,
    Custom,
}

impl TipcardTypeValue {
    pub open spec fn wire(self) -> i32 {
        match self {
            TipcardTypeValue::Unspecified => 0,
            TipcardTypeValue::Repeatable => 1,
            TipcardTypeValue::Casual => 2,
            TipcardTypeValue::Manual => 3,
            TipcardTypeValue::Custom => 4,
        }
    }

    /// The number sent on the wire.
    pub fn as_i32(self) -> (r: i32)
        ensures
            r == self.wire(),
    {
        match self {
            TipcardTypeValue::Unspecified => 0,
            TipcardTypeValue::Repeatable => 1,
            TipcardTypeValue::Casual => 2,
            TipcardTypeValue::Manual => 3,
            TipcardTypeValue::Custom => 4,
        }
    }
}

pub open spec fn tipcard_type_of(raw: Seq<char>) -> TipcardTypeValue {
    if raw == "repeatable_tip"@ {
        TipcardTypeValue::Repeatable
    } else if raw == "casual_tip"@ {
        TipcardTypeValue::Casual
    } else if raw == "manual_tip"@ {
        TipcardTypeValue::Manual
    } else if raw == "custom_tip"@ {
        TipcardTypeValue::Custom
    } else {
        TipcardTypeValue::Unspecified
    }
}

/// Each known card type name goes to its own API value, sent as its own
/// number; every other name is sent as unspecified (0).
pub proof fn lemma_tipcard_type_names(raw: Seq<char>)
    ensures
        raw == "repeatable_tip"@ ==> tipcard_type_of(raw) == TipcardTypeValue::Repeatable
            && tipcard_type_of(raw).wire() == 1,
        raw == "casual_tip"@ ==> tipcard_type_of(raw) == TipcardTypeValue::Casual
            && tipcard_type_of(raw).wire() == 2,
        raw == "manual_tip"@ ==> tipcard_type_of(raw) == TipcardTypeValue::Manual
            && tipcard_type_of(raw).wire() == 3,
        raw == "custom_tip"@ ==> tipcard_type_of(raw) == TipcardTypeValue::Custom
            && tipcard_type_of(raw).wire() == 4,
        raw != "repeatable_tip"@ && raw != "casual_tip"@ && raw != "manual_tip"@ && raw
            != "custom_tip"@ ==> tipcard_type_of(raw) == TipcardTypeValue::Unspecified
            && tipcard_type_of(raw).wire() == 0,
{
    reveal_strlit("repeatable_tip");
    reveal_strlit("casual_tip");
    reveal_strlit("manual_tip");
    reveal_strlit("custom_tip");
    assert("casual_tip"@.len() != "repeatable_tip"@.len());
    assert("manual_tip"@.len() != "repeatable_tip"@.len());
    assert("custom_tip"@.len() != "repeatable_tip"@.len());
    assert("manual_tip"@[0] != "casual_tip"@[0]);
    assert("custom_tip"@[1] != "casual_tip"@[1]);
    assert("custom_tip"@[0] != "manual_tip"@[0]);
}

/// Two different known card type names are sent as different numbers.
pub proof fn lemma_tipcard_types_distinct(a: Seq<char>, b: Seq<char>)
    requires
        tipcard_type_of(a) != TipcardTypeValue::Unspecified,
        tipcard_type_of(b) != TipcardTypeValue::Unspecified,
        a != b,
    ensures
        tipcard_type_of(a).wire() != tipcard_type_of(b).wire(),
{
    lemma_tipcard_type_names(a);
    lemma_tipcard_type_names(b);
}

/// Maps a card type name onto the API enum; unknown names are unspecified.
pub fn tipcard_type_value(raw: &str) -> (r: TipcardTypeValue)
    ensures
        r == tipcard_type_of(raw@),
{
    if str_eq(raw, "repeatable_tip") {
        TipcardTypeValue::Repeatable
    } else if str_eq(raw, "casual_tip") {
        TipcardTypeValue::Casual
    } else if str_eq(raw, "manual_tip") {
        TipcardTypeValue::Manual
    } else if str_eq(raw, "custom_tip") {
        TipcardTypeValue::Custom
    } else {
        TipcardTypeValue::Unspecified
    }
}

/// The review action as the API enumerates it.
#[derive(Clone, Copy, Debug, PartialEq, Eq)]
pub enum ReviewActionValue {
    Unspecified,
    Again,
    Learned,
    SkipKnown,
    SkipNotInterested,
    SkipTooDifficult,
    Acknowledge,
}

impl ReviewActionValue {
    pub open spec fn wire(self) -> i32 {
        match self {
            ReviewActionValue::Unspecified => 0,
            ReviewActionValue::Again => 1,
            ReviewActionValue::Learned => 2,
            ReviewActionValue::SkipKnown => 3,
            ReviewActionValue::SkipNotInterested => 4,
            ReviewActionValue::SkipTooDifficult => 5,
            ReviewActionValue::Acknowledge => 6,
        }
    }

    /// The number sent on the wire.
    pub fn as_i32(self) -> (r: i32)
        ensures
            r == self.wire(),
    {
        match self {
            ReviewActionValue::Unspecified => 0,
            ReviewActionValue::Again => 1,
            ReviewActionValue::Learned => 2,
            ReviewActionValue::SkipKnown => 3,
            ReviewActionValue::SkipNotInterested => 4,
            ReviewActionValue::SkipTooDifficult => 5,
            ReviewActionValue::Acknowledge => 6,
        }
    }
}

/// The action for a trimmed action name: legacy aliases included, unknown
/// names and no name at all mean a grade-only review.
pub open spec fn review_action_of_name(t: Seq<char>) -> ReviewActionValue {
    if t == "again"@ || t == "repeat"@ {
        ReviewActionValue::Again
    } else if t == "learned"@ || t == "memorize"@ {
        ReviewActionValue::Learned
    } else if t == "skip_known"@ {
        ReviewActionValue::SkipKnown
    } else if t == "skip_not_interested"@ || t == "dismiss"@ {
        ReviewActionValue::SkipNotInterested
    } else if t == "skip_too_difficult"@ {
        ReviewActionValue::SkipTooDifficult
    } else if t == "acknowledge"@ || t == "acknowledged"@ {
        ReviewActionValue::Acknowledge
    } else {
        ReviewActionValue::Unspecified
    }
}

pub open spec fn review_action_of(raw: Option<Seq<char>>) -> ReviewActionValue {
    match raw {
        Some(s) => review_action_of_name(trim(s)),
        None => ReviewActionValue::Unspecified,
    }
}

/// Each action name, and each of its legacy aliases, goes to its own API
/// action and wire number; any other name means a grade-only review.
pub proof fn lemma_review_action_names(t: Seq<char>)
    ensures
        t == "again"@ ==> review_action_of_name(t) == ReviewActionValue::Again
            && review_action_of_name(t).wire() == 1,
        t == "repeat"@ ==> review_action_of_name(t) == ReviewActionValue::Again
            && review_action_of_name(t).wire() == 1,
        t == "learned"@ ==> review_action_of_name(t) == ReviewActionValue::Learned
            && review_action_of_name(t).wire() == 2,
        t == "memorize"@ ==> review_action_of_name(t) == ReviewActionValue::Learned
            && review_action_of_name(t).wire() == 2,
        t == "skip_known"@ ==> review_action_of_name(t) == ReviewActionValue::SkipKnown
            && review_action_of_name(t).wire() == 3,
        t == "skip_not_interested"@ ==> review_action_of_name(t) == ReviewActionValue::SkipNotInterested
            && review_action_of_name(t).wire() == 4,
        t == "dismiss"@ ==> review_action_of_name(t) == ReviewActionValue::SkipNotInterested
            && review_action_of_name(t).wire() == 4,
        t == "skip_too_difficult"@ ==> review_action_of_name(t) == ReviewActionValue::SkipTooDifficult
            && review_action_of_name(t).wire() == 5,
        t == "acknowledge"@ ==> review_action_of_name(t) == ReviewActionValue::Acknowledge
            && review_action_of_name(t).wire() == 6,
        t == "acknowledged"@ ==> review_action_of_name(t) == ReviewActionValue::Acknowledge
            && review_action_of_name(t).wire() == 6,
        t != "again"@ && t != "repeat"@ && t != "learned"@ && t != "memorize"@ && t != "skip_known"@ && t != "skip_not_interested"@ && t != "dismiss"@ && t != "skip_too_difficult"@ && t != "acknowledge"@ && t != "acknowledged"@
            ==> review_action_of_name(t) == ReviewActionValue::Unspecified,
{
    reveal_strlit("again");
    reveal_strlit("repeat");
    reveal_strlit("learned");
    reveal_strlit("memorize");
    reveal_strlit("skip_known");
    reveal_strlit("skip_not_interested");
    reveal_strlit("dismiss");
    reveal_strlit("skip_too_difficult");
    reveal_strlit("acknowledge");
    reveal_strlit("acknowledged");
    assert("again"@.len() == 5);
    assert("repeat"@.len() == 6);
    assert("learned"@.len() == 7);
    assert("memorize"@.len() == 8);
    assert("skip_known"@.len() == 10);
    assert("skip_not_interested"@.len() == 19);
    assert("dismiss"@.len() == 7);
    assert("skip_too_difficult"@.len() == 18);
    assert("acknowledge"@.len() == 11);
    assert("acknowledged"@.len() == 12);
    assert("learned"@[0] != "dismiss"@[0]);
}

/// Whitespace around an action name does not change the action.
pub proof fn lemma_review_action_ignores_padding(name: Seq<char>)
    ensures
        review_action_of(Some(trim(name))) == review_action_of(Some(name)),
{
    crate::text::lemma_trim_idempotent(name);
}

/// Maps a UI action name onto the API enum.
pub fn review_action_value(raw: Option<&str>) -> (r: ReviewActionValue)
    ensures
        r == review_action_of(crate::client::opt_str_view(raw)),
{
    let t = match raw {
        Some(s) => trimmed(s),
        None => return ReviewActionValue::Unspecified,
    };
    let t = t.as_str();
    proof {
        reveal_strlit("");
    }
    if str_eq(t, "again") || str_eq(t, "repeat") {
        ReviewActionValue::Again
    } else if str_eq(t, "learned") || str_eq(t, "memorize") {
        ReviewActionValue::Learned
    } else if str_eq(t, "skip_known") {
        ReviewActionValue::SkipKnown
    } else if str_eq(t, "skip_not_interested") || str_eq(t, "dismiss") {
        ReviewActionValue::SkipNotInterested
    } else if str_eq(t, "skip_too_difficult") {
        ReviewActionValue::SkipTooDifficult
    } else if str_eq(t, "acknowledge") || str_eq(t, "acknowledged") {
        ReviewActionValue::Acknowledge
    } else {
        ReviewActionValue::Unspecified
    }
}

// ------------------------------------------------------------------
// Requests
// ------------------------------------------------------------------

/// A missing string is sent as the empty string.
pub open spec fn or_empty(o: Option<Seq<char>>) -> Seq<char> {
    match o {
        Some(s) => s,
        None => Seq::empty(),
    }
}

fn string_or_empty(o: Option<String>) -> (r: String)
    ensures
        r@ == or_empty(opt_view(o)),
{
    match o {
        Some(s) => s,
        None => String::new(),
    }
}

/// Asks for a page of flow cards; no token asks for the first page.
pub fn list_flow_cards_op(page_size: u32, page_token: Option<String>) -> (r: Op)
    ensures
        r@ == SpecOp::ListFlowCards(
            SpecListFlowCardsRequest { page_size, page_token: or_empty(opt_view(page_token)) },
        ),
{
    Op::ListFlowCards(
        ListFlowCardsRequest { page_size, page_token: string_or_empty(page_token) },
    )
}

/// The request for new cards: no count asks for the server's default (0),
/// the card type goes by its wire number, missing lists are empty.
pub open spec fn tips_request(
    count: Option<u32>,
    topics: Seq<Seq<char>>,
    tipcard_type: Seq<char>,
    exclude_card_ids: Option<Seq<i64>>,
    manual_content: Option<Seq<char>>,
    manual_image_data: Option<Seq<Seq<char>>>,
) -> SpecTipsRequestV1 {
    SpecTipsRequestV1 {
        count: match count {
            Some(c) => c,
            None => 0,
        },
        topics,
        tipcard_type: tipcard_type_of(tipcard_type).wire(),
        exclude_card_ids: match exclude_card_ids {
            Some(v) => v,
            None => Seq::empty(),
        },
        manual_content: or_empty(manual_content),
        manual_compressed_content: Seq::empty(),
        manual_image_data: match manual_image_data {
            Some(v) => v,
            None => Seq::empty(),
        },
    }
}

/// The request for new cards asks for the given count (the server's
/// default, 0, when none is given), the given topics in order, the card
/// type's own wire number, the given excluded ids and the given content.
pub proof fn lemma_tips_request_fields(
    count: Option<u32>,
    topics: Seq<Seq<char>>,
    tipcard_type: Seq<char>,
    exclude_card_ids: Option<Seq<i64>>,
    manual_content: Option<Seq<char>>,
    manual_image_data: Option<Seq<Seq<char>>>,
)
    ensures
        ({
            let q = tips_request(
                count,
                topics,
                tipcard_type,
                exclude_card_ids,
                manual_content,
                manual_image_data,
            );
            &&& count matches Some(c) ==> q.count == c
            &&& count is None ==> q.count == 0
            &&& q.topics == topics
            &&& tipcard_type == "repeatable_tip"@ ==> q.tipcard_type == 1
            &&& tipcard_type == "casual_tip"@ ==> q.tipcard_type == 2
            &&& tipcard_type == "manual_tip"@ ==> q.tipcard_type == 3
            &&& tipcard_type == "custom_tip"@ ==> q.tipcard_type == 4
            &&& exclude_card_ids matches Some(v) ==> q.exclude_card_ids == v
            &&& exclude_card_ids is None ==> q.exclude_card_ids.len() == 0
            &&& manual_content matches Some(m) ==> q.manual_content == m
            &&& manual_content is None ==> q.manual_content.len() == 0
            &&& q.manual_compressed_content.len() == 0
            &&& manual_image_data matches Some(v) ==> q.manual_image_data == v
            &&& manual_image_data is None ==> q.manual_image_data.len() == 0
        }),
{
    lemma_tipcard_type_names(tipcard_type);
}

pub fn tips_v1_op(
    count: Option<u32>,
    topics: Vec<String>,
    tipcard_type: &str,
    exclude_card_ids: Option<Vec<i64>>,
    manual_content: Option<String>,
    manual_image_data: Option<Vec<String>>,
) -> (r: Op)
    ensures
        r@ == SpecOp::TipsV1(
            tips_request(
                count,
                strings_view(topics@),
                tipcard_type@,
                match exclude_card_ids {
                    Some(v) => Some(v@),
                    None => None,
                },
                opt_view(manual_content),
                match manual_image_data {
                    Some(v) => Some(strings_view(v@)),
                    None => None,
                },
            ),
        ),
{
    let count = match count {
        Some(c) => c,
        None => 0,
    };
    let exclude_card_ids = match exclude_card_ids {
        Some(v) => v,
        None => Vec::new(),
    };
    let manual_image_data = match manual_image_data {
        Some(v) => v,
        None => Vec::new(),
    };
    let r = Op::TipsV1(
        TipsRequestV1 {
            count,
            topics,
            tipcard_type: tipcard_type_value(tipcard_type).as_i32(),
            exclude_card_ids,
            manual_content: string_or_empty(manual_content),
            manual_compressed_content: String::new(),
            manual_image_data,
        },
    );
    proof {
        assert(strings_view(Seq::<String>::empty()) =~= Seq::<Seq<char>>::empty());
    }
    r
}

/// Reviews a card: no grade is grade 0, the action goes by its wire number.
pub fn review_and_advance_op(card_id: i64, grade: Option<u8>, action: Option<String>) -> (r: Op)
    ensures
        r@ == SpecOp::ReviewAndAdvance(
            SpecReviewAndAdvanceRequest {
                card_id,
                grade: match grade {
                    Some(g) => g as u32,
                    None => 0,
                },
                action: review_action_of(opt_view(action)).wire(),
            },
        ),
{
    let grade: u32 = match grade {
        Some(g) => g as u32,
        None => 0,
    };
    let action = match &action {
        Some(a) => review_action_value(Some(a.as_str())),
        None => review_action_value(None),
    };
    Op::ReviewAndAdvance(ReviewAndAdvanceRequest { card_id, grade, action: action.as_i32() })
}

/// Continues the daily review; no card type is the empty type.
pub fn continue_daily_review_op(topics: Vec<String>, tipcard_type: Option<String>) -> (r: Op)
    ensures
        r@ == SpecOp::ContinueDailyReview(
            SpecContinueDailyReviewRequest {
                topics: strings_view(topics@),
                tipcard_type: or_empty(opt_view(tipcard_type)),
            },
        ),
{
    Op::ContinueDailyReview(
        ContinueDailyReviewRequest { topics, tipcard_type: string_or_empty(tipcard_type) },
    )
}

/// Forces the daily refresh; no card type is the empty type.
pub fn force_daily_refresh_op(topics: String, tipcard_type: Option<String>) -> (r: Op)
    ensures
        r@ == SpecOp::ForceDailyRefresh(
            SpecForceDailyRefreshRequest {
                topics: topics@,
                tipcard_type: or_empty(opt_view(tipcard_type)),
            },
        ),
{
    Op::ForceDailyRefresh(
        ForceDailyRefreshRequest { topics, tipcard_type: string_or_empty(tipcard_type) },
    )
}

/// Creates an API key; no client name is the empty name.
pub fn create_api_key_op(client_name: Option<String>) -> (r: Op)
    ensures
        r@ == SpecOp::CreateApiKey(
            SpecCreateApiKeyRequest { client_name: or_empty(opt_view(client_name)) },
        ),
{
    Op::CreateApiKey(CreateApiKeyRequest { client_name: string_or_empty(client_name) })
}

/// Adds a document; no URL is the empty URL.
pub fn create_document_op(
    topic_ids: Vec<i64>,
    source_type: String,
    title: String,
    url: Option<String>,
    content: String,
) -> (r: Op)
    ensures
        r@ == SpecOp::CreateDocument(
            SpecAddDocumentRequest {
                topic_id_opt: Seq::empty(),
                source_type: source_type@,
                title: title@,
                url: or_empty(opt_view(url)),
                content: content@,
                topic_ids: topic_ids@,
            },
        ),
{
    Op::CreateDocument(
        AddDocumentRequest {
            topic_id_opt: String::new(),
            source_type,
            title,
            url: string_or_empty(url),
            content,
            topic_ids,
        },
    )
}

/// Uploads a document file; no title is the empty title.
pub fn upload_document_op(
    topic_ids: Vec<i64>,
    filename: String,
    mime_type: String,
    title: Option<String>,
    data: Vec<u8>,
) -> (r: Op)
    ensures
        r@ == SpecOp::UploadDocument(
            SpecUploadDocumentRequest {
                topic_ids: topic_ids@,
                filename: filename@,
                mime_type: mime_type@,
                title: or_empty(opt_view(title)),
                data: data@,
            },
        ),
{
    Op::UploadDocument(
        UploadDocumentRequest {
            topic_ids,
            filename,
            mime_type,
            title: string_or_empty(title),
            data,
        },
    )
}

/// Adds an image to the pool; no description is the empty description.
pub fn create_pool_image_op(image_data: String, name: String, description: Option<String>) -> (r:
    Op)
    ensures
        r@ == SpecOp::CreatePoolImage(
            SpecAddPoolImageRequest {
                image_data: image_data@,
                name: name@,
                description: or_empty(opt_view(description)),
            },
        ),
{
    Op::CreatePoolImage(
        AddPoolImageRequest { image_data, name, description: string_or_empty(description) },
    )
}

// ------------------------------------------------------------------
// Flow cards
// ------------------------------------------------------------------

/// A grounding source cited by a card.
#[derive(Clone, Debug, PartialEq)]
pub struct CardSource {
    pub document_id: i64,
    pub source_type: String,
    pub title: String,
    pub url: Option<String>,
}

pub open spec fn card_source_matches(r: CardSource, m: SpecCardSource) -> bool {
    r.document_id == m.document_id && r.source_type@ == m.source_type && r.title@ == m.title
        && opt_view(r.url) == m.url
}

impl From<PbCardSource> for CardSource {
    fn from(source: PbCardSource) -> (r: CardSource) {
        CardSource {
            document_id: source.document_id,
            source_type: source.source_type,
            title: source.title,
            url: source.url,
        }
    }
}

impl vstd::std_specs::convert::FromSpecImpl<PbCardSource> for CardSource {
    open spec fn obeys_from_spec() -> bool {
        true
    }

    open spec fn from_spec(source: PbCardSource) -> CardSource {
        CardSource {
            document_id: source.document_id,
            source_type: source.source_type,
            title: source.title,
            url: source.url,
        }
    }
}

pub open spec fn sources_match(r: Seq<CardSource>, m: Seq<SpecCardSource>) -> bool {
    r.len() == m.len() && forall|i: int| 0 <= i < r.len() ==> card_source_matches(
        #[trigger] r[i],
        m[i],
    )
}

/// A card's sources keep their order, and each carries its document id,
/// type, title and URL.
pub proof fn lemma_sources_fields(r: Seq<CardSource>, m: Seq<SpecCardSource>, i: int)
    requires
        sources_match(r, m),
        0 <= i < m.len(),
    ensures
        r.len() == m.len(),
        r[i].document_id == m[i].document_id,
        r[i].source_type@ == m[i].source_type,
        r[i].title@ == m[i].title,
        opt_view(r[i].url) == m[i].url,
{
}

fn sources_from(v: Vec<PbCardSource>) -> (r: Vec<CardSource>)
    ensures
        sources_match(r@, Seq::new(v@.len(), |i: int| v@[i]@)),
{
    let ghost orig = v@;
    let mut v = v;
    let mut out: Vec<CardSource> = Vec::new();
    while v.len() > 0
        invariant
            out@.len() + v@.len() == orig.len(),
            v@ == orig.skip(out@.len() as int),
            forall|i: int| 0 <= i < out@.len() ==> card_source_matches(#[trigger] out@[i], orig[i]@),
        decreases v@.len(),
    {
        let ghost k: int = out@.len() as int;
        let m = v.remove(0);
        proof {
            assert(m == orig[k]);
            assert(v@ =~= orig.skip(k + 1));
        }
        let c = CardSource::from(m);
        assert(card_source_matches(c, m@));
        out.push(c);
    }
    out
}

/// The URL of a card image: its download path, or the canonical one when the path is blank.
pub open spec fn image_url(img: SpecTipcardImageInfo) -> Seq<char> {
    if img.download_path.len() == 0 {
        tipcard_image_path(img.id)
    } else {
        img.download_path
    }
}

pub open spec fn image_urls(images: Seq<SpecTipcardImageInfo>) -> Seq<Seq<char>> {
    Seq::new(images.len(), |i: int| image_url(images[i]))
}

/// One URL per image, in order: the image's download path, or its
/// canonical path under `/api/v1/tipcard-images/` when the download path is
/// blank.
pub proof fn lemma_image_urls(images: Seq<SpecTipcardImageInfo>)
    ensures
        image_urls(images).len() == images.len(),
        forall|i: int|
            0 <= i < images.len() && images[i].download_path.len() > 0 ==> #[trigger] image_urls(
                images,
            )[i] == images[i].download_path,
        forall|i: int|
            0 <= i < images.len() && images[i].download_path.len() == 0 ==> #[trigger] image_urls(
                images,
            )[i] == "/api/v1/tipcard-images/"@ + signed_decimal(images[i].id as int),
{
}

fn image_urls_of(images: &Vec<TipcardImageInfo>) -> (r: Vec<String>)
    ensures
        strings_view(r@) == image_urls(Seq::new(images@.len(), |i: int| images@[i]@)),
{
    let ghost all = Seq::new(images@.len(), |i: int| images@[i]@);
    let mut out: Vec<String> = Vec::new();
    let mut i: usize = 0;
    while i < images.len()
        invariant
            i <= images@.len(),
            all == Seq::new(images@.len(), |i: int| images@[i]@),
            out@.len() == i,
            forall|k: int| 0 <= k < i ==> (#[trigger] out@[k])@ == image_url(all[k]),
        decreases images@.len() - i,
    {
        let img = &images[i];
        let url = if img.download_path.as_str().is_empty() {
            tipcard_image_url(img.id)
        } else {
            img.download_path.clone()
        };
        out.push(url);
        i = i + 1;
    }
    assert(strings_view(out@) =~= image_urls(all));
    out
}

/// A card as the flow shows it.
#[derive(Clone, Debug, PartialEq)]
pub struct FlowCardSummary {
    pub id: i64,
    pub topic_name: String,
    pub topic_icon: String,
    pub topic_color: String,
    pub title: String,
    pub full_content: String,
    pub compressed_content: String,
    pub created_at: String,
    pub tipcard_type: String,
    pub status: String,
    pub next_review_at: String,
    pub repeat_count: u32,
    pub pinned: bool,
    pub image_count: i64,
    pub pending_count: u32,
    pub thumbnail_urls: Vec<String>,
    pub sources: Vec<CardSource>,
}

/// The text fields of a card, copied from the API.
pub open spec fn card_text_matches(
    id: i64,
    topic_name: Seq<char>,
    topic_icon: Seq<char>,
    topic_color: Seq<char>,
    title: Seq<char>,
    full_content: Seq<char>,
    compressed_content: Seq<char>,
    created_at: Seq<char>,
    tipcard_type: Seq<char>,
    status: Seq<char>,
    next_review_at: Seq<char>,
    repeat_count: u32,
    pinned: bool,
    c: SpecFlowCardInfo,
) -> bool {
    &&& id == c.id
    &&& topic_name == c.topic_name
    &&& topic_icon == c.topic_icon
    &&& topic_color == c.topic_color
    &&& title == c.title
    &&& full_content == c.full_content
    &&& compressed_content == c.compressed_content
    &&& created_at == c.created_at
    &&& tipcard_type == c.tipcard_type
    &&& status == c.status
    &&& next_review_at == c.next_review_at
    &&& repeat_count == c.repeat_count
    &&& pinned == c.pinned
}

/// `r` is the flow summary of `c`: the fields copied, one URL per image,
/// the image count as an `i64`, and the pending count cut to 32 bits.
pub open spec fn flow_summary_matches(r: FlowCardSummary, c: SpecFlowCardInfo) -> bool {
    &&& card_text_matches(
        r.id,
        r.topic_name@,
        r.topic_icon@,
        r.topic_color@,
        r.title@,
        r.full_content@,
        r.compressed_content@,
        r.created_at@,
        r.tipcard_type@,
        r.status@,
        r.next_review_at@,
        r.repeat_count,
        r.pinned,
        c,
    )
    &&& r.image_count == c.images.len() as i64
    &&& r.pending_count == c.pending_count as u32
    &&& strings_view(r.thumbnail_urls@) == image_urls(c.images)
    &&& sources_match(r.sources@, c.sources)
}

pub fn map_flow_summary(card: FlowCardInfo) -> (r: FlowCardSummary)
    ensures
        flow_summary_matches(r, card@),
{
    let thumbnail_urls = image_urls_of(&card.images);
    let image_count = card.images.len() as i64;
    FlowCardSummary {
        id: card.id,
        topic_name: card.topic_name,
        topic_icon: card.topic_icon,
        topic_color: card.topic_color,
        title: card.title,
        full_content: card.full_content,
        compressed_content: card.compressed_content,
        created_at: card.created_at,
        tipcard_type: card.tipcard_type,
        status: card.status,
        next_review_at: card.next_review_at,
        repeat_count: card.repeat_count,
        pinned: card.pinned,
        image_count,
        pending_count: card.pending_count as u32,
        thumbnail_urls,
        sources: sources_from(card.sources),
    }
}

/// A card in full.
#[derive(Clone, Debug, PartialEq)]
pub struct FlowCardDetail {
    pub id: i64,
    pub topic_name: String,
    pub topic_icon: String,
    pub topic_color: String,
    pub title: String,
    pub full_content: String,
    pub compressed_content: String,
    pub created_at: String,
    pub tipcard_type: String,
    pub status: String,
    pub next_review_at: String,
    pub repeat_count: u32,
    pub pinned: bool,
    pub image_urls: Vec<String>,
    pub pending_count: u32,
    pub sources: Vec<CardSource>,
}

pub open spec fn flow_detail_matches(r: FlowCardDetail, c: SpecFlowCardInfo) -> bool {
    &&& card_text_matches(
        r.id,
        r.topic_name@,
        r.topic_icon@,
        r.topic_color@,
        r.title@,
        r.full_content@,
        r.compressed_content@,
        r.created_at@,
        r.tipcard_type@,
        r.status@,
        r.next_review_at@,
        r.repeat_count,
        r.pinned,
        c,
    )
    &&& r.pending_count == c.pending_count as u32
    &&& strings_view(r.image_urls@) == image_urls(c.images)
    &&& sources_match(r.sources@, c.sources)
}

/// A flow summary carries the card's own fields: the id, every text, the
/// repeat count, the pin, the pending count and the number of images are
/// those of the API card, each in its own place.
pub proof fn lemma_flow_summary_fields(r: FlowCardSummary, c: SpecFlowCardInfo)
    requires
        flow_summary_matches(r, c),
    ensures
        r.id == c.id,
        r.topic_name@ == c.topic_name,
        r.topic_icon@ == c.topic_icon,
        r.topic_color@ == c.topic_color,
        r.title@ == c.title,
        r.full_content@ == c.full_content,
        r.compressed_content@ == c.compressed_content,
        r.created_at@ == c.created_at,
        r.tipcard_type@ == c.tipcard_type,
        r.status@ == c.status,
        r.next_review_at@ == c.next_review_at,
        r.repeat_count == c.repeat_count,
        r.pinned == c.pinned,
        r.pending_count == c.pending_count as u32,
        r.image_count == c.images.len() as i64,
        r.sources@.len() == c.sources.len(),
{
}

/// A card detail carries the card's own fields, each in its own place.
pub proof fn lemma_flow_detail_fields(r: FlowCardDetail, c: SpecFlowCardInfo)
    requires
        flow_detail_matches(r, c),
    ensures
        r.id == c.id,
        r.topic_name@ == c.topic_name,
        r.topic_icon@ == c.topic_icon,
        r.topic_color@ == c.topic_color,
        r.title@ == c.title,
        r.full_content@ == c.full_content,
        r.compressed_content@ == c.compressed_content,
        r.created_at@ == c.created_at,
        r.tipcard_type@ == c.tipcard_type,
        r.status@ == c.status,
        r.next_review_at@ == c.next_review_at,
        r.repeat_count == c.repeat_count,
        r.pinned == c.pinned,
        r.pending_count == c.pending_count as u32,
        r.sources@.len() == c.sources.len(),
{
}

pub fn map_flow_detail(card: FlowCardInfo) -> (r: FlowCardDetail)
    ensures
        flow_detail_matches(r, card@),
{
    let image_urls = image_urls_of(&card.images);
    FlowCardDetail {
        id: card.id,
        topic_name: card.topic_name,
        topic_icon: card.topic_icon,
        topic_color: card.topic_color,
        title: card.title,
        full_content: card.full_content,
        compressed_content: card.compressed_content,
        created_at: card.created_at,
        tipcard_type: card.tipcard_type,
        status: card.status,
        next_review_at: card.next_review_at,
        repeat_count: card.repeat_count,
        pinned: card.pinned,
        image_urls,
        pending_count: card.pending_count as u32,
        sources: sources_from(card.sources),
    }
}

/// A page of flow cards.
#[derive(Clone, Debug, PartialEq)]
pub struct FlowCardPage {
    pub cards: Vec<FlowCardSummary>,
    pub next_cursor: Option<String>,
    pub has_more: bool,
}

fn flow_summaries(v: Vec<FlowCardInfo>) -> (r: Vec<FlowCardSummary>)
    ensures
        r@.len() == v@.len(),
        forall|i: int| 0 <= i < v@.len() ==> flow_summary_matches(#[trigger] r@[i], v@[i]@),
{
    let ghost orig = v@;
    let mut v = v;
    let mut out: Vec<FlowCardSummary> = Vec::new();
    while v.len() > 0
        invariant
            out@.len() + v@.len() == orig.len(),
            v@ == orig.skip(out@.len() as int),
            forall|i: int| 0 <= i < out@.len() ==> flow_summary_matches(#[trigger] out@[i], orig[i]@),
        decreases v@.len(),
    {
        let ghost k: int = out@.len() as int;
        let m = v.remove(0);
        proof {
            assert(m == orig[k]);
            assert(v@ =~= orig.skip(k + 1));
        }
        out.push(map_flow_summary(m));
    }
    out
}

// ------------------------------------------------------------------
// Results of each operation
// ------------------------------------------------------------------

pub fn flow_card_page_result(response: ApiResponse) -> (r: ApiResult<FlowCardPage>)
    ensures
        match response@.result {
            Some(SpecResponseResult::FlowCardPage(p)) => r matches Ok(v) && v.has_more
                == p.has_more && opt_view(v.next_cursor) == (if p.next_page_token.len() == 0 {
                None::<Seq<char>>
            } else {
                Some(p.next_page_token)
            }) && v.cards@.len() == p.cards.len() && forall|i: int|
                0 <= i < p.cards.len() ==> flow_summary_matches(#[trigger] v.cards@[i], p.cards[i]),
            _ => r matches Err(e) && e@ == unexpected_error("flow_card_page"@),
        },
{
    match response.result {
        Some(ResponseResult::FlowCardPage(page)) => {
            let next_cursor = if page.next_page_token.as_str().is_empty() {
                None
            } else {
                Some(page.next_page_token)
            };
            let ghost cards = page@.cards;
            let cards = flow_summaries(page.cards);
            Ok(FlowCardPage { cards, next_cursor, has_more: page.has_more })
        },
        _ => unexpected("flow_card_page"),
    }
}

pub open spec fn missing_card_error() -> ApiErrorView {
    local_error(200, "Tipcard detail missing card"@, false, false)
}

pub fn tipcard_detail_result(response: ApiResponse) -> (r: ApiResult<FlowCardDetail>)
    ensures
        match response@.result {
            Some(SpecResponseResult::TipcardDetail(d)) => match d.card {
                Some(c) => r matches Ok(v) && flow_detail_matches(v, c),
                None => r matches Err(e) && e@ == missing_card_error(),
            },
            _ => r matches Err(e) && e@ == unexpected_error("tipcard_detail"@),
        },
{
    match response.result {
        Some(ResponseResult::TipcardDetail(detail)) => match detail.card {
            Some(card) => Ok(map_flow_detail(card)),
            None => Err(
                ApiError {
                    status: 200,
                    message: owned("Tipcard detail missing card"),
                    retryable: false,
                    mutation_outcome_indeterminate: false,
                    request_id: String::new(),
                },
            ),
        },
        _ => unexpected("tipcard_detail"),
    }
}

pub fn tips_result(response: ApiResponse) -> (r: ApiResult<Vec<TipCreated>>)
    ensures
        match response@.result {
            Some(SpecResponseResult::Tips(t)) => r matches Ok(v) && v@.len() == t.tips.len()
                && forall|i: int| 0 <= i < v@.len() ==> tip_created_matches(#[trigger] v@[i], t.tips[i]),
            _ => r matches Err(e) && e@ == unexpected_error("tips"@),
        },
{
    match response.result {
        Some(ResponseResult::Tips(tips)) => Ok(tip_created_rows(tips.tips)),
        _ => unexpected("tips"),
    }
}

/// The outcome of a review and the next card.
#[derive(Clone, Debug, PartialEq)]
pub struct ReviewAndAdvanceOutcome {
    pub next_card: Option<FlowCardSummary>,
    pub daily_complete: bool,
    pub pending_count: u32,
    pub refill_scheduled: bool,
}

pub fn review_and_advance_result(response: ApiResponse) -> (r: ApiResult<ReviewAndAdvanceOutcome>)
    ensures
        match response@.result {
            Some(SpecResponseResult::ReviewAndAdvance(a)) => r matches Ok(v) && v.daily_complete
                == a.daily_complete && v.pending_count == a.pending_count && v.refill_scheduled
                == a.refill_scheduled && match a.next_card {
                Some(c) => v.next_card matches Some(s) && flow_summary_matches(s, c),
                None => v.next_card is None,
            },
            _ => r matches Err(e) && e@ == unexpected_error("review_and_advance"@),
        },
{
    match response.result {
        Some(ResponseResult::ReviewAndAdvance(result)) => {
            let next_card = match result.next_card {
                Some(c) => Some(map_flow_summary(c)),
                None => None,
            };
            Ok(
                ReviewAndAdvanceOutcome {
                    next_card,
                    daily_complete: result.daily_complete,
                    pending_count: result.pending_count,
                    refill_scheduled: result.refill_scheduled,
                },
            )
        },
        _ => unexpected("review_and_advance"),
    }
}

pub fn continue_daily_review_result(response: ApiResponse) -> (r: ApiResult<u64>)
    ensures
        match response@.result {
            Some(SpecResponseResult::ContinueDailyReview(c)) => r == Ok::<u64, ApiError>(
                c.available_cards,
            ),
            _ => r matches Err(e) && e@ == unexpected_error("continue_daily_review"@),
        },
{
    match response.result {
        Some(ResponseResult::ContinueDailyReview(c)) => Ok(c.available_cards),
        _ => unexpected("continue_daily_review"),
    }
}

/// A mutation that answers with a plain acknowledgement.
pub fn done_result(response: ApiResponse) -> (r: ApiResult<()>)
    ensures
        match response@.result {
            Some(SpecResponseResult::Done(_)) => r is Ok,
            _ => r matches Err(e) && e@ == unexpected_error("ok"@),
        },
{
    match response.result {
        Some(ResponseResult::Done(_)) => Ok(()),
        _ => unexpected("ok"),
    }
}

pub fn tipcards_result(response: ApiResponse) -> (r: ApiResult<Vec<InventoryCard>>)
    ensures
        match response@.result {
            Some(SpecResponseResult::Tipcards(l)) => r matches Ok(v) && v@.len() == l.cards.len()
                && forall|i: int|
                0 <= i < v@.len() ==> inventory_card_matches(#[trigger] v@[i], l.cards[i]),
            _ => r matches Err(e) && e@ == unexpected_error("tipcards"@),
        },
{
    match response.result {
        Some(ResponseResult::Tipcards(list)) => Ok(inventory_card_rows(list.cards)),
        _ => unexpected("tipcards"),
    }
}

/// What a forced daily refresh achieved.
#[derive(Clone, Copy, Debug, PartialEq, Eq)]
pub enum DailyRefreshOutcome {
    CardAvailable,
    QueueRefilled,
    NoChange,
    ActiveLimitReached,
}

/// Outcome numbers 1, 2 and 4 name an outcome; any other number is no change.
pub open spec fn refresh_outcome_of(n: i32) -> DailyRefreshOutcome {
    if n == 1 {
        DailyRefreshOutcome::CardAvailable
    } else if n == 2 {
        DailyRefreshOutcome::QueueRefilled
    } else if n == 4 {
        DailyRefreshOutcome::ActiveLimitReached
    } else {
        DailyRefreshOutcome::NoChange
    }
}

/// Each outcome number names its own outcome; any other is no change.
pub proof fn lemma_refresh_outcomes(n: i32)
    ensures
        n == 1 ==> refresh_outcome_of(n) == DailyRefreshOutcome::CardAvailable,
        n == 2 ==> refresh_outcome_of(n) == DailyRefreshOutcome::QueueRefilled,
        n == 4 ==> refresh_outcome_of(n) == DailyRefreshOutcome::ActiveLimitReached,
        n != 1 && n != 2 && n != 4 ==> refresh_outcome_of(n) == DailyRefreshOutcome::NoChange,
{
}

pub fn refresh_outcome(n: i32) -> (r: DailyRefreshOutcome)
    ensures
        r == refresh_outcome_of(n),
{
    if n == 1 {
        DailyRefreshOutcome::CardAvailable
    } else if n == 2 {
        DailyRefreshOutcome::QueueRefilled
    } else if n == 4 {
        DailyRefreshOutcome::ActiveLimitReached
    } else {
        DailyRefreshOutcome::NoChange
    }
}

/// The counts and outcome of a forced daily refresh.
#[derive(Clone, Debug, PartialEq, Eq)]
pub struct DailyRefreshResult {
    pub refreshed_topics: u64,
    pub available_cards: u64,
    pub generated_cards: u64,
    pub outcome: DailyRefreshOutcome,
}

pub fn force_daily_refresh_result(response: ApiResponse) -> (r: ApiResult<DailyRefreshResult>)
    ensures
        match response@.result {
            Some(SpecResponseResult::ForceDailyRefresh(f)) => r matches Ok(v) && v.refreshed_topics
                == f.refreshed_cards && v.available_cards == f.available_cards && v.generated_cards
                == f.generated_cards && v.outcome == refresh_outcome_of(f.outcome),
            _ => r matches Err(e) && e@ == unexpected_error("force_daily_refresh"@),
        },
{
    match response.result {
        Some(ResponseResult::ForceDailyRefresh(r)) => Ok(
            DailyRefreshResult {
                refreshed_topics: r.refreshed_cards,
                available_cards: r.available_cards,
                generated_cards: r.generated_cards,
                outcome: refresh_outcome(r.outcome),
            },
        ),
        _ => unexpected("force_daily_refresh"),
    }
}

pub fn vision_test_result(response: ApiResponse) -> (r: ApiResult<VisionTestView>)
    ensures
        match response@.result {
            Some(SpecResponseResult::VisionModelTest(t)) => r matches Ok(v)
                && vision_test_view_matches(v, t),
            _ => r matches Err(e) && e@ == unexpected_error("vision_model_test"@),
        },
{
    match response.result {
        Some(ResponseResult::VisionModelTest(t)) => Ok(vision_test_view_from(t)),
        _ => unexpected("vision_model_test"),
    }
}

pub fn api_keys_result(response: ApiResponse) -> (r: ApiResult<Vec<ApiKeyRow>>)
    ensures
        match response@.result {
            Some(SpecResponseResult::ApiKeys(k)) => r matches Ok(v) && v@.len() == k.keys.len()
                && forall|i: int| 0 <= i < v@.len() ==> api_key_row_matches(#[trigger] v@[i], k.keys[i]),
            _ => r matches Err(e) && e@ == unexpected_error("api_keys"@),
        },
{
    match response.result {
        Some(ResponseResult::ApiKeys(keys)) => Ok(api_key_row_rows(keys.keys)),
        _ => unexpected("api_keys"),
    }
}

pub fn api_key_created_result(response: ApiResponse) -> (r: ApiResult<String>)
    ensures
        match response@.result {
            Some(SpecResponseResult::ApiKeyCreated(c)) => r matches Ok(v) && v@ == c.api_key,
            _ => r matches Err(e) && e@ == unexpected_error("api_key_created"@),
        },
{
    match response.result {
        Some(ResponseResult::ApiKeyCreated(created)) => Ok(created.api_key),
        _ => unexpected("api_key_created"),
    }
}

pub fn summary_result(response: ApiResponse) -> (r: ApiResult<AppSummaryView>)
    ensures
        match response@.result {
            Some(SpecResponseResult::Summary(s)) => r matches Ok(v) && app_summary_view_matches(v, s),
            _ => r matches Err(e) && e@ == unexpected_error("summary"@),
        },
{
    match response.result {
        Some(ResponseResult::Summary(s)) => Ok(app_summary_view_from(s)),
        _ => unexpected("summary"),
    }
}

pub fn app_topics_result(response: ApiResponse) -> (r: ApiResult<Vec<AppTopicView>>)
    ensures
        match response@.result {
            Some(SpecResponseResult::AppTopics(t)) => r matches Ok(v) && v@.len() == t.topics.len()
                && forall|i: int|
                0 <= i < v@.len() ==> app_topic_view_matches(#[trigger] v@[i], t.topics[i]),
            _ => r matches Err(e) && e@ == unexpected_error("app_topics"@),
        },
{
    match response.result {
        Some(ResponseResult::AppTopics(topics)) => Ok(app_topic_view_rows(topics.topics)),
        _ => unexpected("app_topics"),
    }
}

pub fn documents_result(response: ApiResponse) -> (r: ApiResult<Vec<DocumentRow>>)
    ensures
        match response@.result {
            Some(SpecResponseResult::Documents(d)) => r matches Ok(v) && v@.len() == d.docs.len()
                && forall|i: int| 0 <= i < v@.len() ==> document_row_matches(#[trigger] v@[i], d.docs[i]),
            _ => r matches Err(e) && e@ == unexpected_error("documents"@),
        },
{
    match response.result {
        Some(ResponseResult::Documents(docs)) => Ok(document_row_rows(docs.docs)),
        _ => unexpected("documents"),
    }
}

pub fn document_detail_result(response: ApiResponse) -> (r: ApiResult<DocumentDetailView>)
    ensures
        match response@.result {
            Some(SpecResponseResult::DocumentDetail(d)) => r matches Ok(v)
                && document_detail_view_matches(v, d),
            _ => r matches Err(e) && e@ == unexpected_error("document_detail"@),
        },
{
    match response.result {
        Some(ResponseResult::DocumentDetail(d)) => Ok(document_detail_view_from(d)),
        _ => unexpected("document_detail"),
    }
}

/// A created document comes back as a created or as a detail result.
pub fn document_created_result(response: ApiResponse) -> (r: ApiResult<DocumentDetailView>)
    ensures
        match response@.result {
            Some(SpecResponseResult::DocumentCreated(d)) => r matches Ok(v)
                && document_detail_view_matches(v, d),
            Some(SpecResponseResult::DocumentDetail(d)) => r matches Ok(v)
                && document_detail_view_matches(v, d),
            _ => r matches Err(e) && e@ == unexpected_error("document_created"@),
        },
{
    match response.result {
        Some(ResponseResult::DocumentCreated(d)) => Ok(document_detail_view_from(d)),
        Some(ResponseResult::DocumentDetail(d)) => Ok(document_detail_view_from(d)),
        _ => unexpected("document_created"),
    }
}

pub fn explored_links_result(response: ApiResponse) -> (r: ApiResult<Vec<ExploredLinkView>>)
    ensures
        match response@.result {
            Some(SpecResponseResult::ExploredLinks(l)) => r matches Ok(v) && v@.len() == l.links.len()
                && forall|i: int|
                0 <= i < v@.len() ==> explored_link_view_matches(#[trigger] v@[i], l.links[i]),
            _ => r matches Err(e) && e@ == unexpected_error("explored_links"@),
        },
{
    match response.result {
        Some(ResponseResult::ExploredLinks(links)) => Ok(explored_link_view_rows(links.links)),
        _ => unexpected("explored_links"),
    }
}

pub fn pool_images_result(response: ApiResponse) -> (r: ApiResult<Vec<PoolImageRow>>)
    ensures
        match response@.result {
            Some(SpecResponseResult::PoolImages(p)) => r matches Ok(v) && v@.len() == p.images.len()
                && forall|i: int|
                0 <= i < v@.len() ==> pool_image_row_matches(#[trigger] v@[i], p.images[i]),
            _ => r matches Err(e) && e@ == unexpected_error("pool_images"@),
        },
{
    match response.result {
        Some(ResponseResult::PoolImages(images)) => Ok(pool_image_row_rows(images.images)),
        _ => unexpected("pool_images"),
    }
}

pub fn pool_image_created_result(response: ApiResponse) -> (r: ApiResult<i64>)
    ensures
        match response@.result {
            Some(SpecResponseResult::PoolImageCreated(c)) => r == Ok::<i64, ApiError>(c.id),
            _ => r matches Err(e) && e@ == unexpected_error("pool_image_created"@),
        },
{
    match response.result {
        Some(ResponseResult::PoolImageCreated(created)) => Ok(created.id),
        _ => unexpected("pool_image_created"),
    }
}

} // verus!
